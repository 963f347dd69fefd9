//! How what is known of a claim is put in short.
use vstd::prelude::*;

use crate::cli::{failed_exit, failure_code, next_text, shell_warning};
use crate::conflict::{OverlapRelationship, OverlapView};
use crate::diagnosis::first_problem;
use crate::document::{claim_state_text, claim_status_text, pr_state_text, status_word};
use crate::id::Id;
use crate::list::{state_text, ClaimState};
use crate::model::{ClaimView, ReleaseReason, ReleaseView, ScopeView};
use crate::observation::{LocalProblemCode, ProblemView};
use crate::status::{
    base_summary, change_summary, github_state_text, local_hints, local_summary, pr_text,
    problem_hints, problem_text, related_claims, relates, scope_summary, shown_with_warning,
    ClaimStatusView, GithubState, PrState, PrView, StatusView,
};
use crate::text::{ascending_texts, ascending_texts_are_sorted, begins, decimal, ends, joined};

verus! {

/// The scope of a claim names what it may change and what it may not; one that names neither is
/// none.
pub proof fn scopes_are_told(scope: ScopeView)
    ensures
        scope.allowed_paths.len() > 0 ==> begins(
            scope_summary(Some(scope)),
            "allow: "@ + joined(scope.allowed_paths, ", "@),
        ),
        scope.disallowed_paths.len() > 0 ==> ends(
            scope_summary(Some(scope)),
            "deny: "@ + joined(scope.disallowed_paths, ", "@),
        ),
        scope.allowed_paths.len() == 0 && scope.disallowed_paths.len() == 0 ==> scope_summary(
            Some(scope),
        ) == "none"@,
        scope_summary(None) == "none"@,
{
    let allowed = "allow: "@ + joined(scope.allowed_paths, ", "@);
    let denied = "deny: "@ + joined(scope.disallowed_paths, ", "@);
    let both = allowed + "; "@ + denied;
    assert(both.take(allowed.len() as int) =~= allowed);
    assert(both.skip(both.len() - denied.len()) =~= denied);
    assert(allowed.take(allowed.len() as int) =~= allowed);
    assert(denied.skip(0) =~= denied);
}

/// The claims that overlap one in some relationship are counted one by one, however many paths
/// they share with it.
pub proof fn related_claims_are_counted_once(
    overlaps: Seq<OverlapView>,
    relationship: OverlapRelationship,
    found: Set<Id>,
)
    requires
        forall|id: Id| #[trigger] found.contains(id) <==> relates(overlaps, relationship, id),
    ensures
        found.finite(),
        related_claims(overlaps, relationship) == found.len(),
    decreases overlaps.len(),
{
    if overlaps.len() == 0 {
        assert(found =~= Set::empty());
    } else {
        let front = overlaps.drop_last();
        let last = overlaps.last();
        let end = overlaps.len() - 1;
        assert(overlaps[end] == last);
        let early = Set::new(|id: Id| relates(front, relationship, id));
        related_claims_are_counted_once(front, relationship, early);
        assert forall|id: Id| found.contains(id) <==> early.contains(id) || (last.relationship
            == relationship && last.with_claim_id == id) by {
            if early.contains(id) {
                let i = choose|i: int|
                    0 <= i < front.len() && (#[trigger] front[i]).relationship == relationship
                        && front[i].with_claim_id == id;
                assert(overlaps[i] == front[i]);
            }
            if found.contains(id) {
                let i = choose|i: int|
                    0 <= i < overlaps.len() && (#[trigger] overlaps[i]).relationship == relationship
                        && overlaps[i].with_claim_id == id;
                if i < end {
                    assert(front[i] == overlaps[i]);
                }
            }
        }
        if last.relationship == relationship {
            assert(found =~= early.insert(last.with_claim_id));
        } else {
            assert(found =~= early);
        }
    }
}

proof fn hints_are_of_problems(problems: Seq<ProblemView>, id: Id, hint: Seq<char>)
    ensures
        problem_hints(problems, id).contains(hint) <==> exists|i: int|
            0 <= i < problems.len() && (#[trigger] problems[i]).claim_id == Some(id)
                && problem_text(problems[i].code) == hint,
    decreases problems.len(),
{
    if problems.len() > 0 {
        let front = problems.drop_last();
        let last = problems.last();
        let end = problems.len() - 1;
        let early = problem_hints(front, id);
        let all = problem_hints(problems, id);
        hints_are_of_problems(front, id, hint);
        assert(problems[end] == last);
        if exists|i: int|
            0 <= i < front.len() && (#[trigger] front[i]).claim_id == Some(id) && problem_text(
                front[i].code,
            ) == hint {
            let i = choose|i: int|
                0 <= i < front.len() && (#[trigger] front[i]).claim_id == Some(id) && problem_text(
                    front[i].code,
                ) == hint;
            assert(problems[i] == front[i]);
        }
        if exists|i: int|
            0 <= i < problems.len() && (#[trigger] problems[i]).claim_id == Some(id)
                && problem_text(problems[i].code) == hint {
            let i = choose|i: int|
                0 <= i < problems.len() && (#[trigger] problems[i]).claim_id == Some(id)
                    && problem_text(problems[i].code) == hint;
            if i < end {
                assert(front[i] == problems[i]);
            }
        }
        if last.claim_id == Some(id) {
            assert(all == early.push(problem_text(last.code)));
            assert(all[early.len() as int] == problem_text(last.code));
            if early.contains(hint) {
                assert(all[early.index_of(hint)] == hint);
            }
            if all.contains(hint) {
                let k = all.index_of(hint);
                if k < early.len() {
                    assert(early[k] == hint);
                }
            }
        }
    }
}

/// What is wrong with a claim on this machine is told by name, each kind of it: leaving its scope,
/// with how often, and every problem of its own; where nothing is wrong it is fine.
pub proof fn local_findings_are_told(
    status: ClaimStatusView,
    problems: Seq<ProblemView>,
    hint: Seq<char>,
)
    ensures
        local_hints(status, problems).contains(hint) <==> (status.scope_warnings.len() > 0 && hint
            == "scope:"@ + decimal(status.scope_warnings.len())) || exists|i: int|
            0 <= i < problems.len() && (#[trigger] problems[i]).claim_id == Some(
                status.claim.claim_id,
            ) && problem_text(problems[i].code) == hint,
        status.scope_warnings.len() == 0 && (forall|i: int|
            0 <= i < problems.len() ==> (#[trigger] problems[i]).claim_id != Some(
                status.claim.claim_id,
            )) ==> local_summary(status, problems) == "ok"@,
{
    let id = status.claim.claim_id;
    let scope = if status.scope_warnings.len() > 0 {
        seq!["scope:"@ + decimal(status.scope_warnings.len())]
    } else {
        Seq::empty()
    };
    let own = problem_hints(problems, id);
    let all = scope + own;
    hints_are_of_problems(problems, id, hint);
    ascending_texts_are_sorted(all);
    if own.contains(hint) {
        assert(all[scope.len() + own.index_of(hint)] == hint);
    }
    if scope.contains(hint) {
        assert(all[scope.index_of(hint)] == hint);
    }
    if status.scope_warnings.len() > 0 {
        assert(scope[0] == "scope:"@ + decimal(status.scope_warnings.len()));
    }
    if all.contains(hint) {
        let k = all.index_of(hint);
        if k < scope.len() {
            assert(scope[k] == hint);
        } else {
            assert(own[k - scope.len()] == hint);
        }
    }
    assert(local_hints(status, problems) == ascending_texts(all));
    if status.scope_warnings.len() == 0 && (forall|i: int|
        0 <= i < problems.len() ==> (#[trigger] problems[i]).claim_id != Some(id)) {
        no_hints(problems, id);
        assert(all =~= Seq::empty());
        assert(ascending_texts(all).len() == 0);
    }
}

proof fn no_hints(problems: Seq<ProblemView>, id: Id)
    requires
        forall|i: int| 0 <= i < problems.len() ==> (#[trigger] problems[i]).claim_id != Some(id),
    ensures
        problem_hints(problems, id) == Seq::<Seq<char>>::empty(),
    decreases problems.len(),
{
    if problems.len() > 0 {
        let front = problems.drop_last();
        assert(problems[problems.len() - 1] == problems.last());
        assert forall|i: int| 0 <= i < front.len() implies (#[trigger] front[i]).claim_id != Some(
            id,
        ) by {
            assert(front[i] == problems[i]);
        }
        no_hints(front, id);
    }
}

/// Whether a problem keeps the changes of a claim from being counted.
pub open spec fn hides_changes(problem: ProblemView, id: Id) -> bool {
    problem.claim_id == Some(id) && (problem.code is MissingBase || problem.code is MissingBranch)
}

proof fn one_is_found(problems: Seq<ProblemView>, id: Id, codes: Seq<LocalProblemCode>)
    requires
        codes == seq![LocalProblemCode::MissingBase, LocalProblemCode::MissingBranch],
    ensures
        first_problem(problems, id, codes) is Some <==> exists|i: int|
            0 <= i < problems.len() && hides_changes(#[trigger] problems[i], id),
    decreases problems.len(),
{
    if problems.len() > 0 {
        let rest = problems.drop_first();
        one_is_found(rest, id, codes);
        assert(codes[0] is MissingBase && codes[1] is MissingBranch);
        assert(codes.contains(problems[0].code) <==> problems[0].code is MissingBase
            || problems[0].code is MissingBranch);
        if exists|i: int| 0 <= i < rest.len() && hides_changes(#[trigger] rest[i], id) {
            let i = choose|i: int| 0 <= i < rest.len() && hides_changes(#[trigger] rest[i], id);
            assert(problems[i + 1] == rest[i]);
        }
        if exists|i: int| 0 <= i < problems.len() && hides_changes(#[trigger] problems[i], id) {
            let i = choose|i: int|
                0 <= i < problems.len() && hides_changes(#[trigger] problems[i], id);
            if i > 0 {
                assert(rest[i - 1] == problems[i]);
            }
        }
    }
}

/// The changes of a claim are counted unless its base or its branch is missing.
pub proof fn changes_are_counted(status: ClaimStatusView, problems: Seq<ProblemView>)
    ensures
        (exists|i: int|
            0 <= i < problems.len() && hides_changes(#[trigger] problems[i], status.claim.claim_id))
            ==> change_summary(status, problems) == "unavailable"@,
        !(exists|i: int|
            0 <= i < problems.len() && hides_changes(#[trigger] problems[i], status.claim.claim_id))
            ==> change_summary(status, problems) == decimal(status.diff.changed_paths.len())
            + " changed, "@ + decimal(status.diff.untracked_paths.len()) + " untracked"@,
{
    one_is_found(
        problems,
        status.claim.claim_id,
        seq![LocalProblemCode::MissingBase, LocalProblemCode::MissingBranch],
    );
}

/// A claim is marked where it leaves its scope, where its stack is out of order, where an overlap
/// that is more than a notice was found, or where it has a problem of its own.
pub proof fn claims_are_marked(status: ClaimStatusView, problems: Seq<ProblemView>)
    ensures
        shown_with_warning(status, problems) <==> status.scope_warnings.len() > 0
            || status.stack_warnings.len() > 0 || (exists|i: int|
            0 <= i < status.overlaps.len() && !((#[trigger] status.overlaps[i]).severity is Info))
            || exists|i: int|
            0 <= i < problems.len() && (#[trigger] problems[i]).claim_id == Some(
                status.claim.claim_id,
            ),
{
}

/// The base of a claim is told by remote, branch and the start of the commit.
pub proof fn bases_are_told(claim: ClaimView)
    requires
        claim.base_sha.len() >= 8,
    ensures
        base_summary(claim) == claim.base_remote + "/"@ + claim.base_ref + "@"@
            + claim.base_sha.subrange(0, 8),
{
    assert(claim.base_sha.take(8) =~= claim.base_sha.subrange(0, 8));
}

/// The words for what is known.
pub proof fn things_go_by_their_names(pr: PrView, release: ReleaseView, report: StatusView)
    ensures
        pr_state_text(PrState::Open) == "open"@,
        pr_state_text(PrState::Closed) == "closed"@,
        pr_state_text(PrState::Merged) == "merged"@,
        claim_state_text(ClaimState::Active) == "active"@,
        claim_state_text(ClaimState::Released) == "released"@,
        github_state_text(GithubState::Available) == "available"@,
        github_state_text(GithubState::Unavailable) == "unavailable"@,
        github_state_text(GithubState::Unverified) == "unverified"@,
        problem_text(LocalProblemCode::MissingBase) == "missing_base"@,
        problem_text(LocalProblemCode::MissingBranch) == "missing_branch"@,
        problem_text(LocalProblemCode::MissingWorktree) == "missing_worktree"@,
        problem_text(LocalProblemCode::WorktreeMismatch) == "worktree_mismatch"@,
        problem_text(LocalProblemCode::AbandonedOperation) == "abandoned_operation"@,
        pr_text(Some(pr)) == "#"@ + decimal(pr.number as nat),
        pr_text(None) == "-"@,
        state_text(None) == "active"@,
        release.reason is Merged ==> state_text(Some(release)) == "released (merged)"@,
        release.reason is Closed ==> state_text(Some(release)) == "released (closed)"@,
        release.reason is Abandoned ==> state_text(Some(release)) == "released (abandoned)"@,
        release.reason is Manual ==> state_text(Some(release)) == "released (manual)"@,
        report.warns() ==> status_word(report) == "warning"@,
        !report.warns() ==> status_word(report) == "success"@,
        claim_status_text(0) == "success"@,
        forall|warnings: nat| warnings > 0 ==> #[trigger] claim_status_text(warnings) == "warning"@,
{
    reveal_strlit("released (");
    reveal_strlit(")");
    reveal_strlit("merged");
    reveal_strlit("closed");
    reveal_strlit("abandoned");
    reveal_strlit("manual");
    reveal_strlit("released (merged)");
    reveal_strlit("released (closed)");
    reveal_strlit("released (abandoned)");
    reveal_strlit("released (manual)");
    match release.reason {
        ReleaseReason::Merged => {
            assert(state_text(Some(release)) =~= "released (merged)"@);
        },
        ReleaseReason::Closed => {
            assert(state_text(Some(release)) =~= "released (closed)"@);
        },
        ReleaseReason::Abandoned => {
            assert(state_text(Some(release)) =~= "released (abandoned)"@);
        },
        ReleaseReason::Manual => {
            assert(state_text(Some(release)) =~= "released (manual)"@);
        },
    }
}

/// What was refused and what failed are told apart, by number and by name; and a shell is only
/// spoken of where one is entered.
pub proof fn refusals_are_no_failures(claim: ClaimView, problem: Seq<char>)
    ensures
        failed_exit(true) is Blocked,
        failed_exit(false) is OperationalError,
        failure_code(true) == "refused"@,
        failure_code(false) == "operational_error"@,
        next_text(claim, true) == "Entering a shell in "@ + claim.worktree + "\n"@,
        next_text(claim, false) == "Next: change directory to the claimed worktree above\n"@,
        begins(shell_warning(true, problem), "active claim found"@),
        begins(shell_warning(false, problem), "claim succeeded"@),
        ends(shell_warning(true, problem), problem),
        ends(shell_warning(false, problem), problem),
{
    reveal_strlit("active claim found");
    reveal_strlit("claim succeeded");
    reveal_strlit("active claim found, but the worktree shell could not start: ");
    reveal_strlit("claim succeeded, but the worktree shell could not start: ");
    let again = shell_warning(true, problem);
    let first = shell_warning(false, problem);
    assert(again.take("active claim found"@.len() as int) =~= "active claim found"@);
    assert(first.take("claim succeeded"@.len() as int) =~= "claim succeeded"@);
    assert(again.skip(again.len() - problem.len()) =~= problem);
    assert(first.skip(first.len() - problem.len()) =~= problem);
}

} // verus!
