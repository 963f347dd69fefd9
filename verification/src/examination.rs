//! Examination: doctor reports on a repository, on an issue or on a stack.
use vstd::prelude::*;
use vstd::string::*;

use crate::command::{permits_observing, CommandRunner};
use crate::diagnosis::{
    advice, basic_checks, basic_claim_checks, coordination, coordination_checks, find_problem,
    first_problem, github_checked, github_checks_for_claim, github_unchecked, local_checks,
    make_local_checks, make_ownership_check, ownership_check, Advice,
};
use crate::conflict::{DiffOverlap, OverlapView};
use crate::doctor::{
    append_checks, append_texts, node_report, report, required_check, with_node_reports, CheckGate,
    CheckStatus, CheckView, DoctorCheck, DoctorError, DoctorNodeReport, DoctorReport, DoctorSubject,
    NodeReportView, ReportView, SubjectView,
};
use crate::drift::{
    claimed_check, make_claimed_check, stack_checks, stacks_checked, stacks_failed,
};
use crate::evidence::{
    named, object, operation_evidence, operation_object, release_evidence, release_object,
};
use crate::id::{id_string, id_text, Id, IssueNumber};
use crate::json::{Json, JsonView};
use crate::model::{
    clone_claims, Claim, ClaimView, OperationRecord, OperationView, ReleaseMarker, ReleaseView,
};
use crate::observation::{
    observe_in_place, observe_repository, repository_observed, ClaimObservation, LocalObservation,
    LocalProblem, LocalProblemCode, LocalView, ObservationError, ObservationView, ProblemView,
    Surroundings,
};
use crate::recovery::{
    plan_evidence, plan_object, recovery_found, recovery_plan, PlanView, RecoveryPlan,
};
use crate::stack::{
    contains_id, has_id, resolve_stack, stack_of, NodeView, Records, ResolutionView, StackNode,
};
use crate::store::{active, active_claims, clone_operations, journal_path, Ledger, Store};
use crate::text::{decimal, decimal_text, pairs, views};
use crate::time::Timestamp;

verus! {

// ---------------------------------------------------------------------------------------------
// What is examined
// ---------------------------------------------------------------------------------------------
/// The claims of an issue, or all where none is named.
pub open spec fn selected(claims: Seq<ObservationView>, issue: Option<IssueNumber>) -> Seq<
    ObservationView,
>
    decreases claims.len(),
{
    if claims.len() == 0 {
        Seq::empty()
    } else {
        let front = selected(claims.drop_last(), issue);
        if issue is None || issue == Some(claims.last().claim.issue) {
            front.push(claims.last())
        } else {
            front
        }
    }
}

/// The operations on an issue, or all where none is named.
pub open spec fn selected_operations(
    operations: Seq<OperationView>,
    issue: Option<IssueNumber>,
) -> Seq<OperationView>
    decreases operations.len(),
{
    if operations.len() == 0 {
        Seq::empty()
    } else {
        let front = selected_operations(operations.drop_last(), issue);
        if issue is None || issue == Some(operations.last().issue) {
            front.push(operations.last())
        } else {
            front
        }
    }
}

fn concerns(issue: Option<IssueNumber>, other: IssueNumber) -> (result: bool)
    ensures
        result == (issue is None || issue == Some(other)),
{
    match issue {
        Some(issue) => issue == other,
        None => true,
    }
}

fn select_claims<'a>(claims: &'a Vec<ClaimObservation>, issue: Option<IssueNumber>) -> (found: Vec<
    &'a ClaimObservation,
>)
    ensures
        views(found@) == selected(views(claims@), issue),
{
    let ghost all = views(claims@);
    let mut found: Vec<&'a ClaimObservation> = Vec::new();
    let mut i: usize = 0;
    assert(all.take(0) =~= Seq::empty());
    assert(views(found@) =~= Seq::empty());
    while i < claims.len()
        invariant
            i <= claims.len(),
            all == views(claims@),
            views(found@) == selected(all.take(i as int), issue),
        decreases claims.len() - i,
    {
        let ghost done = views(found@);
        assert(all.take(i + 1).drop_last() =~= all.take(i as int));
        assert(all.take(i + 1).last() == claims@[i as int]@);
        if concerns(issue, claims[i].claim.issue) {
            found.push(&claims[i]);
            assert(views(found@) =~= done.push(claims@[i as int]@));
        }
        i = i + 1;
    }
    assert(all.take(i as int) =~= all);
    found
}

fn select_operations<'a>(operations: &'a Vec<OperationRecord>, issue: Option<IssueNumber>) -> (found:
    Vec<&'a OperationRecord>)
    ensures
        views(found@) == selected_operations(views(operations@), issue),
{
    let ghost all = views(operations@);
    let mut found: Vec<&'a OperationRecord> = Vec::new();
    let mut i: usize = 0;
    assert(all.take(0) =~= Seq::empty());
    assert(views(found@) =~= Seq::empty());
    while i < operations.len()
        invariant
            i <= operations.len(),
            all == views(operations@),
            views(found@) == selected_operations(all.take(i as int), issue),
        decreases operations.len() - i,
    {
        let ghost done = views(found@);
        assert(all.take(i + 1).drop_last() =~= all.take(i as int));
        assert(all.take(i + 1).last() == operations@[i as int]@);
        if concerns(issue, operations[i].issue) {
            found.push(&operations[i]);
            assert(views(found@) =~= done.push(operations@[i as int]@));
        }
        i = i + 1;
    }
    assert(all.take(i as int) =~= all);
    found
}

/// The claims that were observed.
pub open spec fn claims_seen(claims: Seq<ObservationView>) -> Seq<ClaimView> {
    Seq::new(claims.len(), |i: int| claims[i].claim)
}

/// The issues whose stacks are gone through: the one that is named, or else those of all claims.
pub open spec fn roots_of(claims: Seq<ObservationView>, issue: Option<IssueNumber>) -> Seq<
    IssueNumber,
> {
    match issue {
        Some(issue) => seq![issue],
        None => Seq::new(claims.len(), |i: int| claims[i].claim.issue),
    }
}

fn clone_claims_seen(claims: &Vec<ClaimObservation>) -> (seen: Vec<Claim>)
    ensures
        views(seen@) == claims_seen(views(claims@)),
{
    let mut seen: Vec<Claim> = Vec::new();
    let mut i: usize = 0;
    while i < claims.len()
        invariant
            i <= claims.len(),
            seen.len() == i,
            forall|j: int| 0 <= j < i ==> (#[trigger] seen@[j])@ == claims@[j]@.claim,
        decreases claims.len() - i,
    {
        seen.push(claims[i].claim.clone());
        i = i + 1;
    }
    assert(views(seen@) =~= claims_seen(views(claims@)));
    seen
}

fn find_roots(claims: &Vec<ClaimObservation>, issue: Option<IssueNumber>) -> (roots: Vec<IssueNumber>)
    ensures
        roots@ == roots_of(views(claims@), issue),
{
    let mut roots: Vec<IssueNumber> = Vec::new();
    match issue {
        Some(issue) => roots.push(issue),
        None => {
            let mut i: usize = 0;
            while i < claims.len()
                invariant
                    i <= claims.len(),
                    roots.len() == i,
                    forall|j: int| 0 <= j < i ==> (#[trigger] roots@[j]) == claims@[j]@.claim.issue,
                decreases claims.len() - i,
            {
                roots.push(claims[i].claim.issue);
                i = i + 1;
            }
        },
    }
    assert(roots@ =~= roots_of(views(claims@), issue));
    roots
}

// ---------------------------------------------------------------------------------------------
// One claim
// ---------------------------------------------------------------------------------------------
/// Whether neither the branch nor the worktree of a claim is there.
pub open spec fn is_stale(claim: ClaimView, problems: Seq<ProblemView>) -> bool {
    &&& first_problem(problems, claim.claim_id, seq![LocalProblemCode::MissingBranch]) is Some
    &&& first_problem(problems, claim.claim_id, seq![LocalProblemCode::MissingWorktree]) is Some
}

pub open spec fn stale_advice(issue: IssueNumber) -> Seq<char> {
    "If issue #"@ + decimal(issue as nat) + " is stale, run: gh envoy release "@ + decimal(
        issue as nat,
    ) + " --reason abandoned"@
}

fn stale_recommendation(issue: IssueNumber) -> (text: String)
    ensures
        text@ == stale_advice(issue),
{
    let mut text = "If issue #".to_owned();
    text.append(decimal_text(issue).as_str());
    text.append(" is stale, run: gh envoy release ");
    text.append(decimal_text(issue).as_str());
    text.append(" --reason abandoned");
    text
}

fn has_problem(claim: &Claim, problems: &Vec<LocalProblem>, code: LocalProblemCode) -> (found: bool)
    ensures
        found == (first_problem(views(problems@), claim@.claim_id, seq![code]) is Some),
{
    let codes: Vec<LocalProblemCode> = vec![code];
    assert(codes@ =~= seq![code]);
    find_problem(problems, claim.claim_id, &codes).is_some()
}

/// What is said of a claim without GitHub.
pub open spec fn local_advice(
    observed: ObservationView,
    sight: LocalView,
    places: Seq<(Seq<char>, Seq<char>)>,
) -> Advice {
    let claim = observed.claim;
    Advice {
        checks: local_checks(observed, sight.problems).push(
            ownership_check(claim, sight.claims, places),
        ),
        recommendations: if is_stale(claim, sight.problems) {
            seq![stale_advice(claim.issue)]
        } else {
            Seq::empty()
        },
    }.and(coordination(observed))
}

fn local_claim_checks(
    observed: &ClaimObservation,
    sight: &LocalObservation,
    places: &Vec<(String, String)>,
) -> (result: (Vec<DoctorCheck>, Vec<String>))
    ensures
        advice(result.0@, result.1@) == local_advice(observed@, sight@, pairs(places@)),
{
    let claim = &observed.claim;
    let mut checks = make_local_checks(observed, &sight.problems);
    let ghost done = views(checks@);
    let one = make_ownership_check(claim, &sight.claims, places);
    let ghost added = one@;
    checks.push(one);
    assert(views(checks@) =~= done.push(added));
    let mut recommendations: Vec<String> = Vec::new();
    assert(views(recommendations@) =~= Seq::empty());
    if has_problem(claim, &sight.problems, LocalProblemCode::MissingBranch) && has_problem(
        claim,
        &sight.problems,
        LocalProblemCode::MissingWorktree,
    ) {
        recommendations.push(stale_recommendation(claim.issue));
        assert(views(recommendations@) =~= seq![stale_advice(claim.issue)]);
    }
    let (more, further) = coordination_checks(observed);
    append_checks(&mut checks, &more);
    append_texts(&mut recommendations, &further);
    (checks, recommendations)
}

/// Whether examining a claim may give that advice. GitHub is asked only where the remote is on it.
pub open spec fn claim_examined<R: CommandRunner>(
    runner: &R,
    surroundings: Surroundings,
    sight: LocalView,
    observed: ObservationView,
    found: Advice,
) -> bool {
    let local = local_advice(observed, sight, pairs(surroundings.places@));
    if surroundings.repository.on_github() {
        exists|more: Advice| #[trigger]
            github_checked(
                runner,
                surroundings.repository.main_worktree@,
                surroundings.repository.repository@,
                observed.claim,
                more,
            ) && found == local.and(more)
    } else {
        found == local
    }
}

/// Whether examining a claim may fail with that error.
pub open spec fn claim_unexamined<R: CommandRunner>(
    runner: &R,
    surroundings: Surroundings,
    observed: ObservationView,
    error: DoctorError,
) -> bool {
    &&& surroundings.repository.on_github()
    &&& error matches DoctorError::Github(cause) && github_unchecked(
        runner,
        surroundings.repository.main_worktree@,
        surroundings.repository.repository@,
        observed.claim,
        cause,
    )
}

fn examine_claim<R: CommandRunner>(
    runner: &R,
    surroundings: &Surroundings,
    sight: &LocalObservation,
    observed: &ClaimObservation,
) -> (result: Result<(Vec<DoctorCheck>, Vec<String>), DoctorError>)
    requires
        permits_observing(runner),
    ensures
        match result {
            Ok(found) => claim_examined(
                runner,
                *surroundings,
                sight@,
                observed@,
                advice(found.0@, found.1@),
            ),
            Err(error) => claim_unexamined(runner, *surroundings, observed@, error),
        },
{
    let (mut checks, mut recommendations) = local_claim_checks(
        observed,
        sight,
        &surroundings.places,
    );
    if surroundings.repository.is_github_remote() {
        let (more, further) = match github_checks_for_claim(
            runner,
            surroundings.repository.main_worktree.as_str(),
            surroundings.repository.repository.as_str(),
            &observed.claim,
        ) {
            Ok(found) => found,
            Err(error) => return Err(DoctorError::Github(error)),
        };
        let ghost added = advice(more@, further@);
        assert(github_checked(
            runner,
            surroundings.repository.main_worktree@,
            surroundings.repository.repository@,
            observed@.claim,
            added,
        ));
        append_checks(&mut checks, &more);
        append_texts(&mut recommendations, &further);
    }
    Ok((checks, recommendations))
}

/// Whether examining the last of the first claims may lead from what was said to what is said.
pub open spec fn last_claim_examined<R: CommandRunner>(
    runner: &R,
    surroundings: Surroundings,
    sight: LocalView,
    claims: Seq<ObservationView>,
    count: nat,
    before: Advice,
    after: Advice,
) -> bool {
    exists|found: Advice| #[trigger]
        claim_examined(runner, surroundings, sight, claims[count - 1], found) && after
            == before.and(found)
}

/// Whether examining the first claims may lead from what was said to what is said.
pub open spec fn claims_examined<R: CommandRunner>(
    runner: &R,
    surroundings: Surroundings,
    sight: LocalView,
    claims: Seq<ObservationView>,
    count: nat,
    before: Advice,
    after: Advice,
) -> bool
    decreases count,
{
    if count == 0 {
        after == before
    } else {
        exists|between: Advice|
            claims_examined(
                runner,
                surroundings,
                sight,
                claims,
                (count - 1) as nat,
                before,
                between,
            ) && #[trigger] last_claim_examined(
                runner,
                surroundings,
                sight,
                claims,
                count,
                between,
                after,
            )
    }
}

// ---------------------------------------------------------------------------------------------
// Operations
// ---------------------------------------------------------------------------------------------
pub open spec fn journal_check(status: CheckStatus, message: Seq<char>) -> CheckView {
    required_check(
        "integrity.operation_journal"@,
        CheckGate::Integrity,
        "Operation journal"@,
        status,
        message,
    )
}

/// The check that an operation that was interrupted is.
pub open spec fn interrupted_check(operation: OperationView, plan: PlanView) -> CheckView {
    journal_check(
        CheckStatus::Fail,
        "operation "@ + id_text(operation.operation_id) + " for issue #"@ + decimal(
            operation.issue as nat,
        ) + " was interrupted in phase "@ + operation.phase.name(),
    ).with(
        JsonView::Object(
            seq![
                ("operation"@, operation_evidence(operation)),
                ("recovery"@, plan_evidence(plan)),
            ],
        ),
    )
}

fn make_interrupted_check(operation: &OperationRecord, plan: &RecoveryPlan) -> (result: DoctorCheck)
    ensures
        result@ == interrupted_check(operation@, plan@),
{
    let mut message = "operation ".to_owned();
    message.append(id_string(operation.operation_id).as_str());
    message.append(" for issue #");
    message.append(decimal_text(operation.issue).as_str());
    message.append(" was interrupted in phase ");
    message.append(operation.phase.as_str());
    let members: Vec<(&str, Json)> = vec![
        ("operation", operation_object(operation)),
        ("recovery", plan_object(plan)),
    ];
    assert(named(members@) =~= interrupted_check(operation@, plan@).evidence->0->Object_0);
    DoctorCheck::new(
        "integrity.operation_journal",
        CheckGate::Integrity,
        "Operation journal",
        CheckStatus::Fail,
        message,
    ).required().with_evidence(object(members))
}

/// Whether looking into the last of the first operations may lead from what was said to what is
/// said.
pub open spec fn last_operation_examined<R: CommandRunner>(
    runner: &R,
    surroundings: Surroundings,
    claims: Seq<ObservationView>,
    operations: Seq<OperationView>,
    count: nat,
    before: Advice,
    after: Advice,
) -> bool {
    exists|found: (PlanView, Seq<Seq<char>>)| #[trigger]
        recovery_found(
            runner,
            surroundings.repository.main_worktree@,
            pairs(surroundings.places@),
            operations[count - 1],
            journal_path(
                surroundings.repository.store_place(),
                operations[count - 1].operation_id,
            ),
            claims,
            found,
        ) && after == (Advice {
            checks: before.checks.push(interrupted_check(operations[count - 1], found.0)),
            recommendations: before.recommendations + found.1,
        })
}

/// Whether looking into the first operations may lead from what was said to what is said.
pub open spec fn operations_examined<R: CommandRunner>(
    runner: &R,
    surroundings: Surroundings,
    claims: Seq<ObservationView>,
    operations: Seq<OperationView>,
    count: nat,
    before: Advice,
    after: Advice,
) -> bool
    decreases count,
{
    if count == 0 {
        after == before
    } else {
        exists|between: Advice|
            operations_examined(
                runner,
                surroundings,
                claims,
                operations,
                (count - 1) as nat,
                before,
                between,
            ) && #[trigger] last_operation_examined(
                runner,
                surroundings,
                claims,
                operations,
                count,
                between,
                after,
            )
    }
}

/// Whether looking into the journal may lead from what was said to what is said.
pub open spec fn journal_examined<R: CommandRunner>(
    runner: &R,
    surroundings: Surroundings,
    claims: Seq<ObservationView>,
    operations: Seq<OperationView>,
    before: Advice,
    after: Advice,
) -> bool {
    if operations.len() == 0 {
        after == before.with_check(
            journal_check(CheckStatus::Pass, "no interrupted operations are recorded"@),
        )
    } else {
        operations_examined(
            runner,
            surroundings,
            claims,
            operations,
            operations.len(),
            before,
            after,
        )
    }
}

fn examine_journal<R: CommandRunner>(
    runner: &R,
    surroundings: &Surroundings,
    claims: &Vec<ClaimObservation>,
    operations: &Vec<&OperationRecord>,
    checks: &mut Vec<DoctorCheck>,
    recommendations: &mut Vec<String>,
)
    requires
        permits_observing(runner),
    ensures
        journal_examined(
            runner,
            *surroundings,
            views(claims@),
            views(operations@),
            advice(old(checks)@, old(recommendations)@),
            advice(final(checks)@, final(recommendations)@),
        ),
{
    let ghost all = views(operations@);
    let ghost before = advice(checks@, recommendations@);
    if operations.len() == 0 {
        let one = DoctorCheck::new(
            "integrity.operation_journal",
            CheckGate::Integrity,
            "Operation journal",
            CheckStatus::Pass,
            "no interrupted operations are recorded".to_owned(),
        ).required();
        let ghost added = one@;
        checks.push(one);
        assert(views(checks@) =~= before.checks.push(added));
        return;
    }
    let store = Store::new(surroundings.repository.store_root());
    let mut i: usize = 0;
    while i < operations.len()
        invariant
            permits_observing(runner),
            i <= operations.len(),
            all == views(operations@),
            store.directory@ == surroundings.repository.store_place(),
            before == advice(old(checks)@, old(recommendations)@),
            operations_examined(
                runner,
                *surroundings,
                views(claims@),
                all,
                i as nat,
                before,
                advice(checks@, recommendations@),
            ),
        decreases operations.len() - i,
    {
        let ghost between = advice(checks@, recommendations@);
        let operation = operations[i];
        let (plan, further) = recovery_plan(
            runner,
            surroundings.repository.main_worktree.as_str(),
            &surroundings.places,
            &store,
            operation,
            claims,
        );
        let ghost found = (plan@, views(further@));
        assert(recovery_found(
            runner,
            surroundings.repository.main_worktree@,
            pairs(surroundings.places@),
            all[i as int],
            journal_path(surroundings.repository.store_place(), all[i as int].operation_id),
            views(claims@),
            found,
        ));
        append_texts(recommendations, &further);
        let one = make_interrupted_check(operation, &plan);
        let ghost added = one@;
        checks.push(one);
        assert(views(checks@) =~= between.checks.push(added));
        assert(last_operation_examined(
            runner,
            *surroundings,
            views(claims@),
            all,
            (i + 1) as nat,
            between,
            advice(checks@, recommendations@),
        ));
        i = i + 1;
    }
}

// ---------------------------------------------------------------------------------------------
// A repository or an issue
// ---------------------------------------------------------------------------------------------
pub open spec fn subject_of(
    surroundings: Surroundings,
    issue: Option<IssueNumber>,
    stack: bool,
) -> SubjectView {
    SubjectView { repo: surroundings.repository.repository@, issue, stack }
}

/// The report on a repository that could not be observed: one check, which tells why.
pub open spec fn unobserved_check(error: ObservationError) -> CheckView {
    required_check(
        if error is Store {
            "integrity.claim_store"@
        } else {
            "integrity.observation"@
        },
        CheckGate::Integrity,
        if error is Store {
            "Claim store"@
        } else {
            "Local observation"@
        },
        CheckStatus::Error,
        error.text(),
    )
}

fn make_unobserved_check(error: &ObservationError) -> (result: DoctorCheck)
    ensures
        result@ == unobserved_check(*error),
{
    let (id, title) = match error {
        ObservationError::Store(_) => ("integrity.claim_store", "Claim store"),
        _ => ("integrity.observation", "Local observation"),
    };
    DoctorCheck::new(
        id,
        CheckGate::Integrity,
        title,
        CheckStatus::Error,
        error.message(),
    ).required()
}

/// The first checks of a report: that the store is readable, and whether the issue is claimed.
pub open spec fn first_checks(claims: Seq<ObservationView>, issue: Option<IssueNumber>) -> Seq<
    CheckView,
> {
    let readable = required_check(
        "integrity.claim_store"@,
        CheckGate::Integrity,
        "Claim store"@,
        CheckStatus::Pass,
        "persisted claim and operation records are readable"@,
    );
    match issue {
        None => seq![readable],
        Some(issue) => {
            let claimed = selected(claims, Some(issue)).len() > 0;
            seq![
                readable,
                claimed_check(
                    if claimed {
                        CheckStatus::Pass
                    } else {
                        CheckStatus::Fail
                    },
                    "issue #"@ + decimal(issue as nat) + (if claimed {
                        " has an active local claim"@
                    } else {
                        " has no active local claim"@
                    }),
                ),
            ]
        },
    }
}

fn make_first_checks(selected_claims: &Vec<&ClaimObservation>, issue: Option<IssueNumber>) -> (checks:
    Vec<DoctorCheck>)
    ensures
        forall|claims: Seq<ObservationView>|
            views(selected_claims@) == #[trigger] selected(claims, issue) ==> views(checks@)
                == first_checks(claims, issue),
{
    let mut checks: Vec<DoctorCheck> = Vec::new();
    checks.push(
        DoctorCheck::new(
            "integrity.claim_store",
            CheckGate::Integrity,
            "Claim store",
            CheckStatus::Pass,
            "persisted claim and operation records are readable".to_owned(),
        ).required(),
    );
    if let Some(issue) = issue {
        checks.push(
            if selected_claims.len() == 0 {
                make_claimed_check(CheckStatus::Fail, issue, " has no active local claim")
            } else {
                make_claimed_check(CheckStatus::Pass, issue, " has an active local claim")
            },
        );
    }
    assert forall|claims: Seq<ObservationView>|
        views(selected_claims@) == #[trigger] selected(claims, issue) implies views(checks@)
        == first_checks(claims, issue) by {
        assert(views(checks@) =~= first_checks(claims, issue));
    }
    checks
}

/// Among what the stacks of the claims that were observed are looked up.
pub open spec fn records_seen(ledger: Ledger, sight: LocalView) -> Records {
    Records {
        claims: views(ledger.claims@),
        releases: views(ledger.releases@),
        active: claims_seen(sight.claims),
    }
}

/// Whether, of what was observed, a report may say that much: first whether it could be read and
/// whether the issue is claimed; then of the stacks; then of each claim; then of the journal.
pub open spec fn sight_examined<R: CommandRunner>(
    runner: &R,
    surroundings: Surroundings,
    ledger: Ledger,
    issue: Option<IssueNumber>,
    sight: LocalView,
    said: Advice,
) -> bool {
    exists|stacks: Advice, claims: Advice| #[trigger]
        stacks_checked(
            runner,
            surroundings.repository.main_worktree@,
            records_seen(ledger, sight),
            roots_of(sight.claims, issue),
            stacks,
        ) && #[trigger] claims_examined(
            runner,
            surroundings,
            sight,
            selected(sight.claims, issue),
            selected(sight.claims, issue).len(),
            Advice {
                checks: first_checks(sight.claims, issue),
                recommendations: Seq::empty(),
            }.and(stacks),
            claims,
        ) && journal_examined(
            runner,
            surroundings,
            sight.claims,
            selected_operations(sight.operations, issue),
            claims,
            said,
        )
}

/// Whether examining what was observed may fail with that error: at a stack, or at a claim that
/// GitHub is asked about.
pub open spec fn sight_unexamined<R: CommandRunner>(
    runner: &R,
    surroundings: Surroundings,
    ledger: Ledger,
    issue: Option<IssueNumber>,
    sight: LocalView,
    error: DoctorError,
) -> bool {
    ||| stacks_failed(
        runner,
        surroundings.repository.main_worktree@,
        records_seen(ledger, sight),
        roots_of(sight.claims, issue),
        error,
    )
    ||| exists|i: int|
        0 <= i < selected(sight.claims, issue).len() && claim_unexamined(
            runner,
            surroundings,
            #[trigger] selected(sight.claims, issue)[i],
            error,
        )
}

/// Examines what was observed.
pub fn examine_observation<R: CommandRunner>(
    runner: &R,
    surroundings: &Surroundings,
    ledger: &Ledger,
    issue: Option<IssueNumber>,
    sight: &LocalObservation,
) -> (result: Result<(Vec<DoctorCheck>, Vec<String>), DoctorError>)
    requires
        permits_observing(runner),
    ensures
        match result {
            Ok(said) => sight_examined(
                runner,
                *surroundings,
                *ledger,
                issue,
                sight@,
                advice(said.0@, said.1@),
            ),
            Err(error) => sight_unexamined(
                runner,
                *surroundings,
                *ledger,
                issue,
                sight@,
                error,
            ),
        },
{
    let chosen = select_claims(&sight.claims, issue);
    let ghost wanted = selected(sight@.claims, issue);
    let mut checks = make_first_checks(&chosen, issue);
    let mut recommendations: Vec<String> = Vec::new();
    assert(views(recommendations@) =~= Seq::empty());
    let roots = find_roots(&sight.claims, issue);
    let active = clone_claims_seen(&sight.claims);
    let (more, further) = match stack_checks(
        runner,
        surroundings.repository.main_worktree.as_str(),
        &ledger.claims,
        &ledger.releases,
        &active,
        &roots,
    ) {
        Ok(found) => found,
        Err(error) => return Err(error),
    };
    let ghost stacks = advice(more@, further@);
    assert(stacks_checked(
        runner,
        surroundings.repository.main_worktree@,
        records_seen(*ledger, sight@),
        roots_of(sight@.claims, issue),
        stacks,
    ));
    append_checks(&mut checks, &more);
    append_texts(&mut recommendations, &further);
    let ghost start = Advice {
        checks: first_checks(sight@.claims, issue),
        recommendations: Seq::empty(),
    }.and(stacks);
    let mut i: usize = 0;
    while i < chosen.len()
        invariant
            permits_observing(runner),
            i <= chosen.len(),
            wanted == views(chosen@),
            wanted == selected(sight@.claims, issue),
            claims_examined(
                runner,
                *surroundings,
                sight@,
                wanted,
                i as nat,
                start,
                advice(checks@, recommendations@),
            ),
        decreases chosen.len() - i,
    {
        let ghost between = advice(checks@, recommendations@);
        assert(wanted[i as int] == chosen@[i as int]@);
        let (more, further) = match examine_claim(runner, surroundings, sight, chosen[i]) {
            Ok(found) => found,
            Err(error) => {
                assert(claim_unexamined(runner, *surroundings, wanted[i as int], error));
                return Err(error);
            },
        };
        let ghost found = advice(more@, further@);
        let ghost count = (i + 1) as nat;
        assert(claim_examined(runner, *surroundings, sight@, wanted[count - 1], found));
        append_checks(&mut checks, &more);
        append_texts(&mut recommendations, &further);
        assert(advice(checks@, recommendations@) == between.and(found));
        assert(last_claim_examined(
            runner,
            *surroundings,
            sight@,
            wanted,
            count,
            between,
            advice(checks@, recommendations@),
        ));
        i = i + 1;
    }
    let ghost claims = advice(checks@, recommendations@);
    let operations = select_operations(&sight.operations, issue);
    examine_journal(
        runner,
        surroundings,
        &sight.claims,
        &operations,
        &mut checks,
        &mut recommendations,
    );
    assert(claims_examined(
        runner,
        *surroundings,
        sight@,
        wanted,
        wanted.len(),
        start,
        claims,
    ));
    Ok((checks, recommendations))
}

/// Whether a report on a repository, or on one issue of it, may come out. Where the repository
/// could not be observed, the report says so.
pub open spec fn repository_reported<R: CommandRunner>(
    runner: &R,
    surroundings: Surroundings,
    ledger: Ledger,
    issue: Option<IssueNumber>,
    generated_at: Timestamp,
    result: Result<DoctorReport, DoctorError>,
) -> bool {
    exists|observation: Result<LocalObservation, ObservationError>| #[trigger]
        repository_observed(
            runner,
            surroundings,
            active(views(ledger.claims@), views(ledger.releases@)),
            views(ledger.operations@),
            observation,
        ) && match observation {
            Err(error) => result matches Ok(made) && made@ == unobserved(
                surroundings,
                issue,
                error,
                generated_at,
            ),
            Ok(sight) => match result {
                Ok(made) => report_on_sight(
                    runner,
                    surroundings,
                    ledger,
                    issue,
                    sight@,
                    generated_at,
                    made@,
                ),
                Err(error) => sight_unexamined(
                    runner,
                    surroundings,
                    ledger,
                    issue,
                    sight@,
                    error,
                ),
            },
        }
}

pub open spec fn unobserved(
    surroundings: Surroundings,
    issue: Option<IssueNumber>,
    error: ObservationError,
    generated_at: Timestamp,
) -> ReportView {
    report(
        subject_of(surroundings, issue, false),
        seq![unobserved_check(error)],
        Seq::empty(),
        generated_at,
    )
}

pub open spec fn report_on_sight<R: CommandRunner>(
    runner: &R,
    surroundings: Surroundings,
    ledger: Ledger,
    issue: Option<IssueNumber>,
    sight: LocalView,
    generated_at: Timestamp,
    made: ReportView,
) -> bool {
    exists|said: Advice| #[trigger]
        sight_examined(runner, surroundings, ledger, issue, sight, said) && made == report(
            subject_of(surroundings, issue, false),
            said.checks,
            said.recommendations,
            generated_at,
        )
}

/// The report on a repository that could not be observed.
pub fn unobserved_report(
    surroundings: &Surroundings,
    issue: Option<IssueNumber>,
    error: &ObservationError,
    generated_at: Timestamp,
) -> (made: DoctorReport)
    ensures
        made@ == unobserved(*surroundings, issue, *error, generated_at),
{
    let checks: Vec<DoctorCheck> = vec![make_unobserved_check(error)];
    let recommendations: Vec<String> = Vec::new();
    assert(views(checks@) =~= seq![unobserved_check(*error)]);
    assert(views(recommendations@) =~= Seq::empty());
    let subject = DoctorSubject {
        repo: surroundings.repository.repository.clone(),
        issue,
        stack: false,
    };
    DoctorReport::new(subject, checks, recommendations, generated_at)
}

/// Makes the report on a repository, or on one issue of it, by the records of its store. Only
/// commands that observe are run for it.
pub fn doctor_repository<R: CommandRunner>(
    runner: &R,
    surroundings: &Surroundings,
    ledger: &Ledger,
    issue: Option<IssueNumber>,
    generated_at: Timestamp,
) -> (result: Result<DoctorReport, DoctorError>)
    requires
        permits_observing(runner),
    ensures
        repository_reported(runner, *surroundings, *ledger, issue, generated_at, result),
{
    let observation = observe_repository(
        runner,
        surroundings,
        &ledger.claims,
        &ledger.releases,
        clone_operations(&ledger.operations),
    );
    assert(repository_observed(
        runner,
        *surroundings,
        active(views(ledger.claims@), views(ledger.releases@)),
        views(ledger.operations@),
        observation,
    ));
    let sight = match observation {
        Ok(sight) => sight,
        Err(error) => return Ok(unobserved_report(surroundings, issue, &error, generated_at)),
    };
    let (checks, recommendations) = match examine_observation(
        runner,
        surroundings,
        ledger,
        issue,
        &sight,
    ) {
        Ok(said) => said,
        Err(error) => return Err(error),
    };
    let ghost said = advice(checks@, recommendations@);
    assert(sight_examined(runner, *surroundings, *ledger, issue, sight@, said));
    let subject = DoctorSubject {
        repo: surroundings.repository.repository.clone(),
        issue,
        stack: false,
    };
    Ok(DoctorReport::new(subject, checks, recommendations, generated_at))
}

// ---------------------------------------------------------------------------------------------
// A stack
// ---------------------------------------------------------------------------------------------
/// The claims of the nodes that are not active.
pub open spec fn inactive_claims(nodes: Seq<NodeView>, active: Seq<ClaimView>) -> Seq<ClaimView>
    decreases nodes.len(),
{
    if nodes.len() == 0 {
        Seq::empty()
    } else {
        let front = inactive_claims(nodes.drop_last(), active);
        if has_id(active, nodes.last().claim.claim_id) {
            front
        } else {
            front.push(nodes.last().claim)
        }
    }
}

/// The claims that are observed for a stack: all that are active, and its other generations.
pub open spec fn stack_claims(nodes: Seq<NodeView>, active: Seq<ClaimView>) -> Seq<ClaimView> {
    active + inactive_claims(nodes, active)
}

fn find_stack_claims(nodes: &Vec<StackNode>, active: &Vec<Claim>) -> (claims: Vec<Claim>)
    ensures
        views(claims@) == stack_claims(views(nodes@), views(active@)),
{
    let ghost all = views(nodes@);
    let ghost held = views(active@);
    let mut claims = clone_claims(active);
    let mut i: usize = 0;
    assert(all.take(0) =~= Seq::empty());
    assert(views(claims@) =~= held + inactive_claims(all.take(0), held));
    while i < nodes.len()
        invariant
            i <= nodes.len(),
            all == views(nodes@),
            held == views(active@),
            views(claims@) == held + inactive_claims(all.take(i as int), held),
        decreases nodes.len() - i,
    {
        let ghost done = views(claims@);
        assert(all.take(i + 1).drop_last() =~= all.take(i as int));
        assert(all.take(i + 1).last() == nodes@[i as int]@);
        if !contains_id(active, nodes[i].claim.claim_id) {
            claims.push(nodes[i].claim.clone());
            assert(views(claims@) =~= done.push(nodes@[i as int]@.claim));
            assert(held + inactive_claims(all.take(i + 1), held) =~= done.push(
                nodes@[i as int]@.claim,
            ));
        }
        i = i + 1;
    }
    assert(all.take(i as int) =~= all);
    claims
}

/// What was observed of the active claims.
pub open spec fn active_observed(claims: Seq<ObservationView>, active: Seq<ClaimView>) -> Seq<
    ObservationView,
>
    decreases claims.len(),
{
    if claims.len() == 0 {
        Seq::empty()
    } else {
        let front = active_observed(claims.drop_last(), active);
        if has_id(active, claims.last().claim.claim_id) {
            front.push(claims.last())
        } else {
            front
        }
    }
}

fn find_active_observed(claims: &Vec<ClaimObservation>, active: &Vec<Claim>) -> (found: Vec<
    ClaimObservation,
>)
    ensures
        views(found@) == active_observed(views(claims@), views(active@)),
{
    let ghost all = views(claims@);
    let mut found: Vec<ClaimObservation> = Vec::new();
    let mut i: usize = 0;
    assert(all.take(0) =~= Seq::empty());
    assert(views(found@) =~= Seq::empty());
    while i < claims.len()
        invariant
            i <= claims.len(),
            all == views(claims@),
            views(found@) == active_observed(all.take(i as int), views(active@)),
        decreases claims.len() - i,
    {
        let ghost done = views(found@);
        assert(all.take(i + 1).drop_last() =~= all.take(i as int));
        assert(all.take(i + 1).last() == claims@[i as int]@);
        if contains_id(active, claims[i].claim.claim_id) {
            found.push(claims[i].clone());
            assert(views(found@) =~= done.push(claims@[i as int]@));
        }
        i = i + 1;
    }
    assert(all.take(i as int) =~= all);
    found
}

/// The overlaps with active claims.
pub open spec fn active_overlaps(overlaps: Seq<OverlapView>, active: Seq<ClaimView>) -> Seq<
    OverlapView,
>
    decreases overlaps.len(),
{
    if overlaps.len() == 0 {
        Seq::empty()
    } else {
        let front = active_overlaps(overlaps.drop_last(), active);
        if has_id(active, overlaps.last().with_claim_id) {
            front.push(overlaps.last())
        } else {
            front
        }
    }
}

/// What was observed of a claim, with no overlap but with active claims.
pub open spec fn among_active(observed: ObservationView, active: Seq<ClaimView>) -> ObservationView {
    ObservationView { overlaps: active_overlaps(observed.overlaps, active), ..observed }
}

fn keep_active_overlaps(observed: &ClaimObservation, active: &Vec<Claim>) -> (kept: ClaimObservation)
    ensures
        kept@ == among_active(observed@, views(active@)),
{
    let ghost all = views(observed.overlaps@);
    let mut overlaps: Vec<DiffOverlap> = Vec::new();
    let mut i: usize = 0;
    assert(all.take(0) =~= Seq::empty());
    assert(views(overlaps@) =~= Seq::empty());
    while i < observed.overlaps.len()
        invariant
            i <= observed.overlaps.len(),
            all == views(observed.overlaps@),
            views(overlaps@) == active_overlaps(all.take(i as int), views(active@)),
        decreases observed.overlaps.len() - i,
    {
        let ghost done = views(overlaps@);
        assert(all.take(i + 1).drop_last() =~= all.take(i as int));
        assert(all.take(i + 1).last() == observed.overlaps@[i as int]@);
        if contains_id(active, observed.overlaps[i].with_claim_id) {
            overlaps.push(observed.overlaps[i].clone());
            assert(views(overlaps@) =~= done.push(observed.overlaps@[i as int]@));
        }
        i = i + 1;
    }
    assert(all.take(i as int) =~= all);
    let mut kept = observed.clone();
    kept.overlaps = overlaps;
    kept
}

/// What was observed of a generation.
pub open spec fn observed_as(claims: Seq<ObservationView>, id: Id) -> Option<ObservationView>
    decreases claims.len(),
{
    if claims.len() == 0 {
        None
    } else if claims[0].claim.claim_id == id {
        Some(claims[0])
    } else {
        observed_as(claims.drop_first(), id)
    }
}

fn find_observed<'a>(claims: &'a Vec<ClaimObservation>, id: Id) -> (found: Option<
    &'a ClaimObservation,
>)
    ensures
        match found {
            Some(observed) => observed_as(views(claims@), id) == Some(observed@),
            None => observed_as(views(claims@), id) is None,
        },
{
    let ghost all = views(claims@);
    let mut i: usize = 0;
    assert(all.skip(0) =~= all);
    while i < claims.len()
        invariant
            i <= claims.len(),
            all == views(claims@),
            observed_as(all, id) == observed_as(all.skip(i as int), id),
        decreases claims.len() - i,
    {
        assert(all.skip(i as int)[0] == claims@[i as int]@);
        assert(all.skip(i as int).drop_first() =~= all.skip(i + 1));
        if claims[i].claim.claim_id == id {
            return Some(&claims[i]);
        }
        i = i + 1;
    }
    None
}

/// What is said of a generation without GitHub: of an active one also whether it owns its worktree
/// alone and how its changes go together with other active claims.
pub open spec fn node_advice(
    node: NodeView,
    observed: ObservationView,
    sight: LocalView,
    active: Seq<ClaimView>,
    places: Seq<(Seq<char>, Seq<char>)>,
) -> Advice {
    if node.active {
        Advice {
            checks: basic_checks(
                observed,
                sight.problems,
                Some(active_observed(sight.claims, active)),
                places,
            ),
            recommendations: Seq::empty(),
        }.and(coordination(among_active(observed, active)))
    } else {
        Advice {
            checks: basic_checks(observed, sight.problems, None, places),
            recommendations: Seq::empty(),
        }
    }
}

/// The check that tells that a generation was released.
pub open spec fn released_check(release: ReleaseView) -> CheckView {
    required_check(
        "publish.parent_generation"@,
        CheckGate::Publish,
        "Released generation"@,
        CheckStatus::Fail,
        "this exact stack generation has been released"@,
    ).with(JsonView::Object(seq![("release"@, release_evidence(release))]))
}

fn make_released_check(release: &ReleaseMarker) -> (result: DoctorCheck)
    ensures
        result@ == released_check(release@),
{
    let members: Vec<(&str, Json)> = vec![("release", release_object(release))];
    assert(named(members@) =~= seq![("release"@, release_evidence(release@))]);
    DoctorCheck::new(
        "publish.parent_generation",
        CheckGate::Publish,
        "Released generation",
        CheckStatus::Fail,
        "this exact stack generation has been released".to_owned(),
    ).required().with_evidence(object(members))
}

/// Whether so much may be said of a generation. GitHub is asked about an active one, where the
/// remote is on it.
pub open spec fn node_said<R: CommandRunner>(
    runner: &R,
    surroundings: Surroundings,
    node: NodeView,
    local: Advice,
    said: Advice,
) -> bool {
    if node.active && surroundings.repository.on_github() {
        exists|more: Advice| #[trigger]
            github_checked(
                runner,
                surroundings.repository.main_worktree@,
                surroundings.repository.repository@,
                node.claim,
                more,
            ) && said == local.and(more)
    } else {
        said == local
    }
}

/// The report on a generation of which so much is said.
pub open spec fn node_made(node: NodeView, said: Advice) -> NodeReportView {
    node_report(
        node.claim.issue,
        node.claim.claim_id,
        match node.release {
            Some(release) => said.checks.push(released_check(release)),
            None => said.checks,
        },
        said.recommendations,
    )
}

/// Whether the last of the first generations may add its report to those before it. One that was
/// not observed adds none.
pub open spec fn last_node_reported<R: CommandRunner>(
    runner: &R,
    surroundings: Surroundings,
    sight: LocalView,
    active: Seq<ClaimView>,
    nodes: Seq<NodeView>,
    count: nat,
    before: Seq<NodeReportView>,
    after: Seq<NodeReportView>,
) -> bool {
    let node = nodes[count - 1];
    match observed_as(sight.claims, node.claim.claim_id) {
        None => after == before,
        Some(observed) => one_node_reported(
            runner,
            surroundings,
            node,
            node_advice(node, observed, sight, active, pairs(surroundings.places@)),
            before,
            after,
        ),
    }
}

pub open spec fn one_node_reported<R: CommandRunner>(
    runner: &R,
    surroundings: Surroundings,
    node: NodeView,
    local: Advice,
    before: Seq<NodeReportView>,
    after: Seq<NodeReportView>,
) -> bool {
    exists|said: Advice| #[trigger]
        node_said(runner, surroundings, node, local, said) && after == before.push(
            node_made(node, said),
        )
}

/// Whether those may be the reports on the first generations.
pub open spec fn nodes_reported<R: CommandRunner>(
    runner: &R,
    surroundings: Surroundings,
    sight: LocalView,
    active: Seq<ClaimView>,
    nodes: Seq<NodeView>,
    count: nat,
    reports: Seq<NodeReportView>,
) -> bool
    decreases count,
{
    if count == 0 {
        reports == Seq::<NodeReportView>::empty()
    } else {
        exists|before: Seq<NodeReportView>|
            nodes_reported(
                runner,
                surroundings,
                sight,
                active,
                nodes,
                (count - 1) as nat,
                before,
            ) && #[trigger] last_node_reported(
                runner,
                surroundings,
                sight,
                active,
                nodes,
                count,
                before,
                reports,
            )
    }
}

fn examine_node<R: CommandRunner>(
    runner: &R,
    surroundings: &Surroundings,
    sight: &LocalObservation,
    active: &Vec<Claim>,
    active_claims_observed: &Vec<ClaimObservation>,
    node: &StackNode,
    observed: &ClaimObservation,
) -> (result: Result<DoctorNodeReport, DoctorError>)
    requires
        views(active_claims_observed@) == active_observed(sight@.claims, views(active@)),
        permits_observing(runner),
    ensures
        match result {
            Ok(made) => exists|said: Advice| #[trigger]
                node_said(
                    runner,
                    *surroundings,
                    node@,
                    node_advice(
                        node@,
                        observed@,
                        sight@,
                        views(active@),
                        pairs(surroundings.places@),
                    ),
                    said,
                ) && made@ == node_made(node@, said),
            Err(error) => node_unexamined(runner, *surroundings, node@, error),
        },
{
    let ghost local = node_advice(
        node@,
        observed@,
        sight@,
        views(active@),
        pairs(surroundings.places@),
    );
    let mut checks = basic_claim_checks(
        observed,
        &sight.problems,
        if node.active {
            Some(active_claims_observed)
        } else {
            None
        },
        &surroundings.places,
    );
    let mut recommendations: Vec<String> = Vec::new();
    assert(views(recommendations@) =~= Seq::empty());
    if node.active {
        let kept = keep_active_overlaps(observed, active);
        let (more, further) = coordination_checks(&kept);
        append_checks(&mut checks, &more);
        append_texts(&mut recommendations, &further);
    }
    assert(advice(checks@, recommendations@) == local);
    if node.active && surroundings.repository.is_github_remote() {
        let (more, further) = match github_checks_for_claim(
            runner,
            surroundings.repository.main_worktree.as_str(),
            surroundings.repository.repository.as_str(),
            &node.claim,
        ) {
            Ok(found) => found,
            Err(error) => return Err(DoctorError::Github(error)),
        };
        let ghost added = advice(more@, further@);
        assert(github_checked(
            runner,
            surroundings.repository.main_worktree@,
            surroundings.repository.repository@,
            node@.claim,
            added,
        ));
        append_checks(&mut checks, &more);
        append_texts(&mut recommendations, &further);
    }
    let ghost said = advice(checks@, recommendations@);
    assert(node_said(runner, *surroundings, node@, local, said));
    if let Some(release) = &node.release {
        let one = make_released_check(release);
        let ghost added = one@;
        checks.push(one);
        assert(views(checks@) =~= said.checks.push(added));
    }
    Ok(
        DoctorNodeReport::new(
            node.claim.issue,
            node.claim.claim_id,
            checks,
            recommendations,
        ),
    )
}

/// Whether examining a generation may fail with that error.
pub open spec fn node_unexamined<R: CommandRunner>(
    runner: &R,
    surroundings: Surroundings,
    node: NodeView,
    error: DoctorError,
) -> bool {
    &&& node.active
    &&& surroundings.repository.on_github()
    &&& error matches DoctorError::Github(cause) && github_unchecked(
        runner,
        surroundings.repository.main_worktree@,
        surroundings.repository.repository@,
        node.claim,
        cause,
    )
}

fn examine_nodes<R: CommandRunner>(
    runner: &R,
    surroundings: &Surroundings,
    sight: &LocalObservation,
    active: &Vec<Claim>,
    nodes: &Vec<StackNode>,
) -> (result: Result<Vec<DoctorNodeReport>, DoctorError>)
    requires
        permits_observing(runner),
    ensures
        match result {
            Ok(reports) => nodes_reported(
                runner,
                *surroundings,
                sight@,
                views(active@),
                views(nodes@),
                nodes.len() as nat,
                views(reports@),
            ),
            Err(error) => exists|i: int|
                0 <= i < nodes.len() && node_unexamined(
                    runner,
                    *surroundings,
                    #[trigger] views(nodes@)[i],
                    error,
                ),
        },
{
    let ghost all = views(nodes@);
    let owners = find_active_observed(&sight.claims, active);
    let mut reports: Vec<DoctorNodeReport> = Vec::new();
    let mut i: usize = 0;
    assert(views(reports@) =~= Seq::empty());
    while i < nodes.len()
        invariant
            permits_observing(runner),
            i <= nodes.len(),
            all == views(nodes@),
            views(owners@) == active_observed(sight@.claims, views(active@)),
            nodes_reported(
                runner,
                *surroundings,
                sight@,
                views(active@),
                all,
                i as nat,
                views(reports@),
            ),
        decreases nodes.len() - i,
    {
        let ghost before = views(reports@);
        let ghost count = (i + 1) as nat;
        assert(all[count - 1] == nodes@[i as int]@);
        if let Some(observed) = find_observed(&sight.claims, nodes[i].claim.claim_id) {
            match examine_node(
                runner,
                surroundings,
                sight,
                active,
                &owners,
                &nodes[i],
                observed,
            ) {
                Ok(made) => {
                    let ghost added = made@;
                    reports.push(made);
                    assert(views(reports@) =~= before.push(added));
                },
                Err(error) => {
                    assert(node_unexamined(runner, *surroundings, all[i as int], error));
                    return Err(error);
                },
            }
        }
        assert(last_node_reported(
            runner,
            *surroundings,
            sight@,
            views(active@),
            all,
            count,
            before,
            views(reports@),
        ));
        i = i + 1;
    }
    Ok(reports)
}

/// Among what a stack is looked up.
pub open spec fn records_of(ledger: Ledger) -> Records {
    Records {
        claims: views(ledger.claims@),
        releases: views(ledger.releases@),
        active: active(views(ledger.claims@), views(ledger.releases@)),
    }
}

/// Whether a report on the stack of an issue may come out.
pub open spec fn stack_reported<R: CommandRunner>(
    runner: &R,
    surroundings: Surroundings,
    ledger: Ledger,
    target_issue: IssueNumber,
    generated_at: Timestamp,
    made: ReportView,
) -> bool {
    let records = records_of(ledger);
    exists|
        resolution: ResolutionView,
        graph: Advice,
        sight: LocalObservation,
        reports: Seq<NodeReportView>,
    |
        #![trigger stack_of(records, target_issue, resolution), graph_checked(
            runner, surroundings, records, target_issue, graph), stack_seen(
            runner, surroundings, ledger, resolution, Ok(sight)), nodes_reported(
            runner, surroundings, sight@, records.active, resolution.nodes,
            resolution.nodes.len(), reports)]
        stack_of(records, target_issue, resolution) && graph_checked(
            runner,
            surroundings,
            records,
            target_issue,
            graph,
        ) && stack_seen(runner, surroundings, ledger, resolution, Ok(sight)) && nodes_reported(
            runner,
            surroundings,
            sight@,
            records.active,
            resolution.nodes,
            resolution.nodes.len(),
            reports,
        ) && made == with_node_reports(
            report(
                subject_of(surroundings, Some(target_issue), true),
                graph.checks,
                graph.recommendations,
                generated_at,
            ),
            reports,
        )
}

/// Whether the checks on the stack of an issue may give that advice.
pub open spec fn graph_checked<R: CommandRunner>(
    runner: &R,
    surroundings: Surroundings,
    records: Records,
    target_issue: IssueNumber,
    graph: Advice,
) -> bool {
    stacks_checked(
        runner,
        surroundings.repository.main_worktree@,
        records,
        seq![target_issue],
        graph,
    )
}

/// Whether observing the claims that matter to a stack may come to that result.
pub open spec fn stack_seen<R: CommandRunner>(
    runner: &R,
    surroundings: Surroundings,
    ledger: Ledger,
    resolution: ResolutionView,
    result: Result<LocalObservation, ObservationError>,
) -> bool {
    repository_observed(
        runner,
        surroundings,
        stack_claims(resolution.nodes, records_of(ledger).active),
        views(ledger.operations@),
        result,
    )
}

/// Whether no report on the stack of an issue may come out, with that error: for a failure of Git
/// along the stack, in observing it, or of GitHub at one of its generations.
pub open spec fn stack_unreported<R: CommandRunner>(
    runner: &R,
    surroundings: Surroundings,
    ledger: Ledger,
    target_issue: IssueNumber,
    error: DoctorError,
) -> bool {
    let records = records_of(ledger);
    ||| stacks_failed(
        runner,
        surroundings.repository.main_worktree@,
        records,
        seq![target_issue],
        error,
    )
    ||| exists|resolution: ResolutionView| #[trigger]
        stack_of(records, target_issue, resolution) && (stack_unseen(
            runner,
            surroundings,
            ledger,
            resolution,
            error,
        ) || exists|i: int|
            0 <= i < resolution.nodes.len() && node_unexamined(
                runner,
                surroundings,
                #[trigger] resolution.nodes[i],
                error,
            ))
}

pub open spec fn stack_unseen<R: CommandRunner>(
    runner: &R,
    surroundings: Surroundings,
    ledger: Ledger,
    resolution: ResolutionView,
    error: DoctorError,
) -> bool {
    error matches DoctorError::Observation(cause) && stack_seen(
        runner,
        surroundings,
        ledger,
        resolution,
        Err(cause),
    )
}

/// Makes the report on the stack of an issue, from its root to its target. Only commands that
/// observe are run for it.
pub fn doctor_stack<R: CommandRunner>(
    runner: &R,
    surroundings: &Surroundings,
    ledger: &Ledger,
    target_issue: IssueNumber,
    generated_at: Timestamp,
) -> (result: Result<DoctorReport, DoctorError>)
    requires
        permits_observing(runner),
    ensures
        match result {
            Ok(made) => stack_reported(
                runner,
                *surroundings,
                *ledger,
                target_issue,
                generated_at,
                made@,
            ),
            Err(error) => stack_unreported(
                runner,
                *surroundings,
                *ledger,
                target_issue,
                error,
            ),
        },
{
    let ghost records = records_of(*ledger);
    let active = active_claims(&ledger.claims, &ledger.releases);
    let resolution = resolve_stack(&ledger.claims, &ledger.releases, &active, target_issue);
    assert(stack_of(records, target_issue, resolution@));
    let roots: Vec<IssueNumber> = vec![target_issue];
    assert(roots@ =~= seq![target_issue]);
    let (checks, recommendations) = match stack_checks(
        runner,
        surroundings.repository.main_worktree.as_str(),
        &ledger.claims,
        &ledger.releases,
        &active,
        &roots,
    ) {
        Ok(found) => found,
        Err(error) => return Err(error),
    };
    let ghost graph = advice(checks@, recommendations@);
    assert(graph_checked(runner, *surroundings, records, target_issue, graph));
    let claims = find_stack_claims(&resolution.nodes, &active);
    let observation = observe_in_place(
        runner,
        surroundings,
        &claims,
        clone_operations(&ledger.operations),
    );
    assert(stack_seen(runner, *surroundings, *ledger, resolution@, observation));
    let sight = match observation {
        Ok(sight) => sight,
        Err(error) => {
            assert(stack_unseen(
                runner,
                *surroundings,
                *ledger,
                resolution@,
                DoctorError::Observation(error),
            ));
            return Err(DoctorError::Observation(error));
        },
    };
    let reports = match examine_nodes(
        runner,
        surroundings,
        &sight,
        &active,
        &resolution.nodes,
    ) {
        Ok(reports) => reports,
        Err(error) => {
            assert(exists|i: int|
                0 <= i < resolution@.nodes.len() && node_unexamined(
                    runner,
                    *surroundings,
                    #[trigger] resolution@.nodes[i],
                    error,
                ));
            return Err(error);
        },
    };
    assert(nodes_reported(
        runner,
        *surroundings,
        sight@,
        records.active,
        resolution@.nodes,
        resolution@.nodes.len(),
        views(reports@),
    ));
    let subject = DoctorSubject {
        repo: surroundings.repository.repository.clone(),
        issue: Some(target_issue),
        stack: true,
    };
    Ok(DoctorReport::new(subject, checks, recommendations, generated_at).with_nodes(reports))
}

} // verus!
