//! What the report on a repository tells of its claims.
use vstd::prelude::*;

use crate::command::CommandRunner;
use crate::diagnosis::{coordination, github_checked, local_checks, ownership_check, Advice};
use crate::doctor::{report, CheckGate, CheckView, DoctorReport, ReportView};
use crate::drift::stacks_checked;
use crate::examination::{
    claim_examined, claims_examined, first_checks, journal_examined, last_claim_examined,
    last_operation_examined, local_advice, operations_examined, records_seen, report_on_sight,
    repository_reported, roots_of, selected, selected_operations, sight_examined, subject_of,
    unobserved, unobserved_check,
};
use crate::id::IssueNumber;
use crate::laws::drift::{stack_told, stack_told_stays, stacks_are_told};
use crate::laws::findings::{
    has_problem, is_at, observations_become_checks, overlap_is_told, problems_become_checks,
    scope_is_told, tells_overlap, tells_scope, worktrees_have_one_owner,
};
use crate::laws::gates::{
    among_goes_on, among_sum, are_among, holds_up, reported_so,
    reports_tell_what_their_checks_come_to, some_failed, some_undecided,
};
use crate::model::OperationView;
use crate::observation::{
    repository_observed, LocalObservation, LocalProblemCode, LocalView, ObservationError,
    ObservationView, Surroundings,
};
use crate::path::place_of;
use crate::store::{active, Ledger};
use crate::text::{pairs, views};
use crate::time::Timestamp;

verus! {

/// Whether a report, given by its checks and its gates, tells what is owed of a claim that was
/// observed: its overlaps, its warnings on scope, its problems, and what GitHub said of it.
pub open spec fn claim_told<R: CommandRunner>(
    runner: &R,
    surroundings: Surroundings,
    sight: LocalView,
    observed: ObservationView,
    made: ReportView,
) -> bool {
    let places = pairs(surroundings.places@);
    let id = observed.claim.claim_id;
    &&& forall|o: int|
        0 <= o < observed.overlaps.len() ==> overlap_is_told(
            made.checks,
            observed.claim,
            #[trigger] observed.overlaps[o],
        )
    &&& forall|w: int|
        0 <= w < observed.scope_warnings.len() ==> scope_is_told(
            made.checks,
            #[trigger] observed.scope_warnings[w],
        )
    &&& (exists|o: int|
        0 <= o < observed.overlaps.len() && (#[trigger] observed.overlaps[o]).severity is Blocking)
        ==> holds_up(made.gates.merge)
    &&& (has_problem(sight.problems, id, LocalProblemCode::MissingWorktree) || has_problem(
        sight.problems,
        id,
        LocalProblemCode::WorktreeMismatch,
    ) || has_problem(sight.problems, id, LocalProblemCode::MissingBranch) || has_problem(
        sight.problems,
        id,
        LocalProblemCode::MissingBase,
    )) ==> holds_up(made.gates.integrity)
    &&& (exists|i: int, j: int|
        0 <= i < j < sight.claims.len() && is_at(
            #[trigger] sight.claims[i],
            places,
            place_of(places, observed.claim.worktree),
        ) && is_at(
            #[trigger] sight.claims[j],
            places,
            place_of(places, observed.claim.worktree),
        )) ==> holds_up(made.gates.integrity)
    &&& surroundings.repository.on_github() ==> exists|more: Advice| #[trigger]
        github_checked(
            runner,
            surroundings.repository.main_worktree@,
            surroundings.repository.repository@,
            observed.claim,
            more,
        ) && are_among(more.checks, made.checks)
}

proof fn failures_hold_up(made: ReportView, check: CheckView)
    requires
        reported_so(made.checks, made.gates, made.status),
        made.checks.contains(check),
        check.status is Fail,
    ensures
        check.gate is Merge ==> holds_up(made.gates.merge),
        check.gate is Publish ==> holds_up(made.gates.publish),
        check.gate is Integrity ==> holds_up(made.gates.integrity),
        holds_up(made.status),
{
    let c = made.checks.index_of(check);
    assert(made.checks[c] == check);
    assert(some_failed(made.checks, Some(check.gate)));
    assert(some_failed(made.checks, None));
}

proof fn told_among(
    some: Seq<CheckView>,
    all: Seq<CheckView>,
    observed: ObservationView,
    o: int,
    w: int,
)
    requires
        are_among(some, all),
    ensures
        0 <= o < observed.overlaps.len() && overlap_is_told(
            some,
            observed.claim,
            observed.overlaps[o],
        ) ==> overlap_is_told(all, observed.claim, observed.overlaps[o]),
        0 <= w < observed.scope_warnings.len() && scope_is_told(some, observed.scope_warnings[w])
            ==> scope_is_told(all, observed.scope_warnings[w]),
{
    if 0 <= o < observed.overlaps.len() && overlap_is_told(
        some,
        observed.claim,
        observed.overlaps[o],
    ) {
        let c = choose|c: int|
            0 <= c < some.len() && tells_overlap(
                #[trigger] some[c],
                observed.claim,
                observed.overlaps[o],
            );
        let k = all.index_of(some[c]);
        assert(all[k] == some[c]);
    }
    if 0 <= w < observed.scope_warnings.len() && scope_is_told(some, observed.scope_warnings[w]) {
        let c = choose|c: int|
            0 <= c < some.len() && tells_scope(#[trigger] some[c], observed.scope_warnings[w]);
        let k = all.index_of(some[c]);
        assert(all[k] == some[c]);
    }
}

proof fn problem_checks_fail(
    observed: ObservationView,
    sight: LocalView,
    made: ReportView,
)
    requires
        reported_so(made.checks, made.gates, made.status),
        are_among(local_checks(observed, sight.problems), made.checks),
        ({
            let id = observed.claim.claim_id;
            has_problem(sight.problems, id, LocalProblemCode::MissingWorktree) || has_problem(
                sight.problems,
                id,
                LocalProblemCode::WorktreeMismatch,
            ) || has_problem(sight.problems, id, LocalProblemCode::MissingBranch) || has_problem(
                sight.problems,
                id,
                LocalProblemCode::MissingBase,
            )
        }),
    ensures
        holds_up(made.gates.integrity),
{
    let checks = local_checks(observed, sight.problems);
    problems_become_checks(observed, sight.problems, 0);
    let worktree = choose|k: int|
        0 <= k < checks.len() && (#[trigger] checks[k]).id == "integrity.worktree"@;
    let branch = choose|k: int|
        0 <= k < checks.len() && (#[trigger] checks[k]).id == "integrity.branch"@;
    let base = choose|k: int|
        0 <= k < checks.len() && (#[trigger] checks[k]).id == "integrity.base"@;
    problems_become_checks(observed, sight.problems, worktree);
    problems_become_checks(observed, sight.problems, branch);
    problems_become_checks(observed, sight.problems, base);
    if checks[worktree].status is Fail {
        failures_hold_up(made, checks[worktree]);
    }
    if checks[branch].status is Fail {
        failures_hold_up(made, checks[branch]);
    }
    if checks[base].status is Fail {
        failures_hold_up(made, checks[base]);
    }
}

proof fn examined_claims_are_told<R: CommandRunner>(
    runner: &R,
    surroundings: Surroundings,
    sight: LocalView,
    observed: ObservationView,
    found: Advice,
    made: ReportView,
)
    requires
        claim_examined(runner, surroundings, sight, observed, found),
        are_among(found.checks, made.checks),
        reported_so(made.checks, made.gates, made.status),
    ensures
        claim_told(runner, surroundings, sight, observed, made),
{
    let places = pairs(surroundings.places@);
    let local = local_advice(observed, sight, places);
    let own = local_checks(observed, sight.problems);
    let owner = ownership_check(observed.claim, sight.claims, places);
    let coordinated = coordination(observed).checks;
    assert(local.checks == own.push(owner) + coordinated);
    if surroundings.repository.on_github() {
        let more = choose|more: Advice| #[trigger]
            github_checked(
                runner,
                surroundings.repository.main_worktree@,
                surroundings.repository.repository@,
                observed.claim,
                more,
            ) && found == local.and(more);
        among_sum(local.checks, more.checks);
        among_goes_on(local.checks, found.checks, made.checks);
        among_goes_on(more.checks, found.checks, made.checks);
    }
    assert(are_among(local.checks, made.checks));
    among_sum(own.push(owner), coordinated);
    among_goes_on(own.push(owner), local.checks, made.checks);
    among_goes_on(coordinated, local.checks, made.checks);
    assert(are_among(own, made.checks)) by {
        assert forall|c: int| 0 <= c < own.len() implies made.checks.contains(
            #[trigger] own[c],
        ) by {
            assert(own.push(owner)[c] == own[c]);
        }
    }
    assert(made.checks.contains(owner)) by {
        assert(own.push(owner)[own.len() as int] == owner);
    }
    observations_become_checks(observed);
    assert forall|o: int| 0 <= o < observed.overlaps.len() implies overlap_is_told(
        made.checks,
        observed.claim,
        #[trigger] observed.overlaps[o],
    ) by {
        told_among(coordinated, made.checks, observed, o, -1);
    }
    assert forall|w: int| 0 <= w < observed.scope_warnings.len() implies scope_is_told(
        made.checks,
        #[trigger] observed.scope_warnings[w],
    ) by {
        told_among(coordinated, made.checks, observed, -1, w);
    }
    if exists|o: int|
        0 <= o < observed.overlaps.len() && (#[trigger] observed.overlaps[o]).severity is Blocking {
        let o = choose|o: int|
            0 <= o < observed.overlaps.len() && (#[trigger] observed.overlaps[o]).severity
                is Blocking;
        assert(overlap_is_told(made.checks, observed.claim, observed.overlaps[o]));
        let c = choose|c: int|
            0 <= c < made.checks.len() && tells_overlap(
                #[trigger] made.checks[c],
                observed.claim,
                observed.overlaps[o],
            );
        failures_hold_up(made, made.checks[c]);
    }
    worktrees_have_one_owner(observed.claim, sight.claims, places);
    if owner.status is Fail {
        failures_hold_up(made, owner);
    }
    let id = observed.claim.claim_id;
    if has_problem(sight.problems, id, LocalProblemCode::MissingWorktree) || has_problem(
        sight.problems,
        id,
        LocalProblemCode::WorktreeMismatch,
    ) || has_problem(sight.problems, id, LocalProblemCode::MissingBranch) || has_problem(
        sight.problems,
        id,
        LocalProblemCode::MissingBase,
    ) {
        problem_checks_fail(observed, sight, made);
    }
}

/// Whether a claim was examined, and all that was found stands among checks.
pub open spec fn is_examined<R: CommandRunner>(
    runner: &R,
    surroundings: Surroundings,
    sight: LocalView,
    observed: ObservationView,
    checks: Seq<CheckView>,
) -> bool {
    exists|found: Advice| #[trigger]
        claim_examined(runner, surroundings, sight, observed, found) && are_among(
            found.checks,
            checks,
        )
}

proof fn all_claims_are_examined<R: CommandRunner>(
    runner: &R,
    surroundings: Surroundings,
    sight: LocalView,
    claims: Seq<ObservationView>,
    count: nat,
    before: Advice,
    after: Advice,
)
    requires
        count <= claims.len(),
        claims_examined(runner, surroundings, sight, claims, count, before, after),
    ensures
        are_among(before.checks, after.checks),
        forall|i: int|
            0 <= i < count ==> is_examined(
                runner,
                surroundings,
                sight,
                #[trigger] claims[i],
                after.checks,
            ),
    decreases count,
{
    if count > 0 {
        let between = choose|between: Advice|
            claims_examined(
                runner,
                surroundings,
                sight,
                claims,
                (count - 1) as nat,
                before,
                between,
            ) && #[trigger] last_claim_examined(
                runner,
                surroundings,
                sight,
                claims,
                count,
                between,
                after,
            );
        all_claims_are_examined(
            runner,
            surroundings,
            sight,
            claims,
            (count - 1) as nat,
            before,
            between,
        );
        let found = choose|found: Advice| #[trigger]
            claim_examined(runner, surroundings, sight, claims[count - 1], found) && after
                == between.and(found);
        among_sum(between.checks, found.checks);
        among_goes_on(before.checks, between.checks, after.checks);
        assert forall|i: int| 0 <= i < count implies is_examined(
            runner,
            surroundings,
            sight,
            #[trigger] claims[i],
            after.checks,
        ) by {
            if i < count - 1 {
                let earlier = choose|earlier: Advice| #[trigger]
                    claim_examined(runner, surroundings, sight, claims[i], earlier) && are_among(
                        earlier.checks,
                        between.checks,
                    );
                among_goes_on(earlier.checks, between.checks, after.checks);
            }
        }
    } else {
        assert(are_among(before.checks, after.checks)) by {
            assert forall|c: int| 0 <= c < before.checks.len() implies after.checks.contains(
                #[trigger] before.checks[c],
            ) by {}
        }
    }
}

proof fn interrupted_operations_fail<R: CommandRunner>(
    runner: &R,
    surroundings: Surroundings,
    claims: Seq<ObservationView>,
    operations: Seq<OperationView>,
    count: nat,
    before: Advice,
    after: Advice,
)
    requires
        count <= operations.len(),
        operations_examined(runner, surroundings, claims, operations, count, before, after),
    ensures
        after.checks.len() == before.checks.len() + count,
        forall|c: int| 0 <= c < before.checks.len() ==> after.checks[c] == before.checks[c],
        forall|c: int|
            before.checks.len() <= c < after.checks.len() ==> (#[trigger] after.checks[c]).id
                == "integrity.operation_journal"@ && after.checks[c].status is Fail
                && after.checks[c].gate is Integrity,
    decreases count,
{
    if count > 0 {
        let between = choose|between: Advice|
            operations_examined(
                runner,
                surroundings,
                claims,
                operations,
                (count - 1) as nat,
                before,
                between,
            ) && #[trigger] last_operation_examined(
                runner,
                surroundings,
                claims,
                operations,
                count,
                between,
                after,
            );
        interrupted_operations_fail(
            runner,
            surroundings,
            claims,
            operations,
            (count - 1) as nat,
            before,
            between,
        );
    }
}

proof fn selections_are_exact(
    claims: Seq<ObservationView>,
    issue: Option<IssueNumber>,
    observed: ObservationView,
)
    ensures
        selected(claims, issue).contains(observed) <==> claims.contains(observed) && (issue is None
            || issue == Some(observed.claim.issue)),
    decreases claims.len(),
{
    if claims.len() > 0 {
        let front = claims.drop_last();
        let early = selected(front, issue);
        let all = selected(claims, issue);
        selections_are_exact(front, issue, observed);
        assert(claims[claims.len() - 1] == claims.last());
        if early.contains(observed) {
            assert(all[early.index_of(observed)] == observed);
            assert(claims[front.index_of(observed)] == observed);
        }
        if all.contains(observed) {
            let k = all.index_of(observed);
            if k < early.len() {
                assert(early[k] == observed);
            }
        }
        if claims.contains(observed) && (issue is None || issue == Some(observed.claim.issue)) {
            let k = claims.index_of(observed);
            if k < front.len() {
                assert(front[k] == observed);
            } else {
                assert(all[all.len() - 1] == observed);
            }
        }
    }
}

proof fn operations_are_selected(
    operations: Seq<OperationView>,
    issue: Option<IssueNumber>,
    i: int,
)
    requires
        0 <= i < operations.len(),
        issue is None || issue == Some(operations[i].issue),
    ensures
        selected_operations(operations, issue).len() > 0,
    decreases operations.len(),
{
    if i < operations.len() - 1 {
        operations_are_selected(operations.drop_last(), issue, i);
    }
}

/// The report on a repository, or on one issue of it, tells what is owed of every observed claim
/// that it is about, and of the stack that it stands in. An operation that was interrupted, or an issue that has no active claim, holds
/// up integrity.
pub proof fn repository_reports_tell_of_their_claims<R: CommandRunner>(
    runner: &R,
    surroundings: Surroundings,
    ledger: Ledger,
    issue: Option<IssueNumber>,
    sight: LocalView,
    generated_at: Timestamp,
    made: ReportView,
)
    requires
        report_on_sight(runner, surroundings, ledger, issue, sight, generated_at, made),
    ensures
        reported_so(made.checks, made.gates, made.status),
        forall|i: int|
            0 <= i < sight.claims.len() && (issue is None || issue == Some(
                (#[trigger] sight.claims[i]).claim.issue,
            )) ==> claim_told(runner, surroundings, sight, sight.claims[i], made),
        (exists|i: int|
            0 <= i < sight.operations.len() && (issue is None || issue == Some(
                (#[trigger] sight.operations[i]).issue,
            ))) ==> holds_up(made.gates.integrity),
        issue matches Some(number) && (forall|i: int|
            0 <= i < sight.claims.len() ==> (#[trigger] sight.claims[i]).claim.issue != number)
            ==> holds_up(made.gates.integrity),
        forall|i: int|
            0 <= i < sight.claims.len() && (issue is None || issue == Some(
                (#[trigger] sight.claims[i]).claim.issue,
            )) ==> stack_told(
                runner,
                surroundings.repository.main_worktree@,
                records_seen(ledger, sight),
                sight.claims[i].claim.issue,
                made.checks,
            ),
        made.subject.issue == issue && !made.subject.stack && made.subject.repo
            == surroundings.repository.repository@,
        made.generated_at == generated_at && made.nodes.len() == 0,
{
    let said = choose|said: Advice| #[trigger]
        sight_examined(runner, surroundings, ledger, issue, sight, said) && made == report(
            subject_of(surroundings, issue, false),
            said.checks,
            said.recommendations,
            generated_at,
        );
    reports_tell_what_their_checks_come_to(
        subject_of(surroundings, issue, false),
        said.checks,
        said.recommendations,
        generated_at,
    );
    let chosen = selected(sight.claims, issue);
    let operations = selected_operations(sight.operations, issue);
    let first = Advice {
        checks: first_checks(sight.claims, issue),
        recommendations: Seq::empty(),
    };
    let (stacks, claims) = choose|stacks: Advice, claims: Advice| #[trigger]
        stacks_checked(
            runner,
            surroundings.repository.main_worktree@,
            records_seen(ledger, sight),
            roots_of(sight.claims, issue),
            stacks,
        ) && #[trigger] claims_examined(
            runner,
            surroundings,
            sight,
            chosen,
            chosen.len(),
            first.and(stacks),
            claims,
        ) && journal_examined(runner, surroundings, sight.claims, operations, claims, said);
    all_claims_are_examined(
        runner,
        surroundings,
        sight,
        chosen,
        chosen.len(),
        first.and(stacks),
        claims,
    );
    if operations.len() > 0 {
        interrupted_operations_fail(
            runner,
            surroundings,
            sight.claims,
            operations,
            operations.len(),
            claims,
            said,
        );
        let last = said.checks.len() - 1;
        assert(said.checks.contains(said.checks[last]));
        failures_hold_up(made, said.checks[last]);
    }
    assert(are_among(claims.checks, made.checks)) by {
        assert forall|c: int| 0 <= c < claims.checks.len() implies made.checks.contains(
            #[trigger] claims.checks[c],
        ) by {
            assert(made.checks[c] == claims.checks[c]);
        }
    }
    assert forall|i: int|
        0 <= i < sight.claims.len() && (issue is None || issue == Some(
            (#[trigger] sight.claims[i]).claim.issue,
        )) implies claim_told(runner, surroundings, sight, sight.claims[i], made) by {
        let observed = sight.claims[i];
        assert(sight.claims.contains(observed));
        selections_are_exact(sight.claims, issue, observed);
        let k = chosen.index_of(observed);
        assert(chosen[k] == observed);
        assert(is_examined(runner, surroundings, sight, chosen[k], claims.checks));
        let found = choose|found: Advice| #[trigger]
            claim_examined(runner, surroundings, sight, observed, found) && are_among(
                found.checks,
                claims.checks,
            );
        among_goes_on(found.checks, claims.checks, made.checks);
        examined_claims_are_told(runner, surroundings, sight, observed, found, made);
    }
    let main_worktree = surroundings.repository.main_worktree@;
    let records = records_seen(ledger, sight);
    let roots = roots_of(sight.claims, issue);
    stacks_are_told(runner, main_worktree, records, roots, stacks);
    among_sum(first.checks, stacks.checks);
    among_goes_on(stacks.checks, first.and(stacks).checks, claims.checks);
    among_goes_on(stacks.checks, claims.checks, made.checks);
    assert forall|i: int|
        0 <= i < sight.claims.len() && (issue is None || issue == Some(
            (#[trigger] sight.claims[i]).claim.issue,
        )) implies stack_told(
        runner,
        main_worktree,
        records,
        sight.claims[i].claim.issue,
        made.checks,
    ) by {
        let at = if issue is None {
            i
        } else {
            0
        };
        assert(roots[at] == sight.claims[i].claim.issue);
        stack_told_stays(runner, main_worktree, records, roots[at], stacks.checks, made.checks);
    }
    if exists|i: int|
        0 <= i < sight.operations.len() && (issue is None || issue == Some(
            (#[trigger] sight.operations[i]).issue,
        )) {
        let i = choose|i: int|
            0 <= i < sight.operations.len() && (issue is None || issue == Some(
                (#[trigger] sight.operations[i]).issue,
            ));
        operations_are_selected(sight.operations, issue, i);
    }
    if let Some(number) = issue {
        if forall|i: int|
            0 <= i < sight.claims.len() ==> (#[trigger] sight.claims[i]).claim.issue != number {
            if chosen.len() > 0 {
                selections_are_exact(sight.claims, issue, chosen[0]);
                assert(chosen.contains(chosen[0]));
                let k = sight.claims.index_of(chosen[0]);
                assert(sight.claims[k].claim.issue == number);
            }
            let missing = first.checks[1];
            assert(missing.status is Fail && missing.gate is Integrity);
            assert(first.and(stacks).checks[1] == missing);
            among_goes_on(first.and(stacks).checks, claims.checks, made.checks);
            assert(made.checks.contains(missing));
            failures_hold_up(made, missing);
        }
    }
}

/// A repository that could not be observed has a report that says so: an error of integrity.
pub proof fn unobserved_repositories_are_in_error<R: CommandRunner>(
    runner: &R,
    surroundings: Surroundings,
    ledger: Ledger,
    issue: Option<IssueNumber>,
    generated_at: Timestamp,
    made: DoctorReport,
)
    requires
        repository_reported(runner, surroundings, ledger, issue, generated_at, Ok(made)),
    ensures
        exists|observation: Result<LocalObservation, ObservationError>| #[trigger]
            repository_observed(
                runner,
                surroundings,
                active(views(ledger.claims@), views(ledger.releases@)),
                views(ledger.operations@),
                observation,
            ) && match observation {
                Err(_) => made@.gates.integrity is Error && made@.status is Error,
                Ok(sight) => report_on_sight(
                    runner,
                    surroundings,
                    ledger,
                    issue,
                    sight@,
                    generated_at,
                    made@,
                ),
            },
{
    let observation = choose|observation: Result<LocalObservation, ObservationError>| #[trigger]
        repository_observed(
            runner,
            surroundings,
            active(views(ledger.claims@), views(ledger.releases@)),
            views(ledger.operations@),
            observation,
        ) && match observation {
            Err(error) => made@ == unobserved(
                surroundings,
                issue,
                error,
                generated_at,
            ),
            Ok(sight) => report_on_sight(
                runner,
                surroundings,
                ledger,
                issue,
                sight@,
                generated_at,
                made@,
            ),
        };
    if let Err(error) = observation {
        let checks = seq![unobserved_check(error)];
        reports_tell_what_their_checks_come_to(
            subject_of(surroundings, issue, false),
            checks,
            Seq::empty(),
            generated_at,
        );
        assert(checks[0].status is Error && checks[0].gate is Integrity);
        assert(some_undecided(checks, Some(CheckGate::Integrity)));
        assert(some_undecided(checks, None));
    }
}

} // verus!
