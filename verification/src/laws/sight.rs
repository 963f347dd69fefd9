//! What is seen of the claims of a repository.
use vstd::prelude::*;

use crate::command::CommandRunner;
use crate::conflict::analyzed;
use crate::laws::findings::has_problem;
use crate::model::{ClaimView, OperationView};
use crate::observation::{
    abandoned_all, all_observed, all_problems, base_is_there, claim_observed, claim_problems,
    commit_result, diff_result, entry_at, placed_claims, repository_observed, usable_worktree, with_findings,
    DiffSummary, Findings, LocalObservation, LocalProblemCode, ObservationView, PlacedView,
    ProblemView, Surroundings, WorktreeView,
};
use crate::path::{known_place, same_path};
use crate::text::{pairs, views};

verus! {

proof fn entry_at_is_the_first(entries: Seq<WorktreeView>, place: Seq<char>)
    ensures
        match entry_at(entries, place) {
            Some(entry) => exists|k: int|
                0 <= k < entries.len() && #[trigger] entries[k] == entry && (
                entry.canonical matches Some(at) && same_path(at, place)) && forall|j: int|
                    0 <= j < k ==> !((#[trigger] entries[j]).canonical matches Some(at)
                        && same_path(at, place)),
            None => forall|k: int|
                0 <= k < entries.len() ==> !((#[trigger] entries[k]).canonical matches Some(at)
                    && same_path(at, place)),
        },
    decreases entries.len(),
{
    if entries.len() > 0 {
        let rest = entries.drop_first();
        entry_at_is_the_first(rest, place);
        assert forall|k: int| 0 < k < entries.len() implies #[trigger] entries[k] == rest[k - 1] by {}
        if entries[0].canonical matches Some(at) && same_path(at, place) {
            assert(entries[0] == entry_at(entries, place)->0);
        } else if let Some(entry) = entry_at(rest, place) {
            let k = choose|k: int|
                0 <= k < rest.len() && #[trigger] rest[k] == entry && (entry.canonical matches Some(
                    at,
                ) && same_path(at, place)) && forall|j: int|
                    0 <= j < k ==> !((#[trigger] rest[j]).canonical matches Some(at)
                        && same_path(at, place));
            assert(entries[k + 1] == entry);
            assert forall|j: int| 0 <= j < k + 1 implies !((
            #[trigger] entries[j]).canonical matches Some(at) && same_path(at, place)) by {
                if j > 0 {
                    assert(rest[j - 1] == entries[j]);
                }
            }
        }
    }
}

/// Whether the worktree of a claim is the first that is registered at its place, and has its branch
/// checked out.
pub open spec fn is_attached(placed: PlacedView, entries: Seq<WorktreeView>) -> bool {
    placed.canonical matches Some(place) && exists|k: int|
        0 <= k < entries.len() && (#[trigger] entries[k]).branch == Some(placed.claim.branch) && (
        entries[k].canonical matches Some(at) && same_path(at, place)) && forall|j: int|
            0 <= j < k ==> !((#[trigger] entries[j]).canonical matches Some(at)
                && same_path(at, place))
}

/// What is met with a claim: its base is missing exactly where the commit that it records does not
/// resolve to itself, its branch where that does not resolve, and its worktree where nothing is at
/// its place; the worktree is another where something is there that is not registered, or not with
/// the branch of the claim. Changes are looked for exactly where base and branch are there, in the
/// worktree where it is the claim's. Each problem names the claim, and there are no others.
pub proof fn claims_are_seen_as_they_are<R: CommandRunner>(
    runner: &R,
    main_worktree: Seq<char>,
    placed: PlacedView,
    entries: Seq<WorktreeView>,
    findings: Findings,
)
    requires
        claim_observed(runner, main_worktree, placed, entries, findings),
    ensures
        ({
            let claim = placed.claim;
            let problems = findings.problems;
            &&& exists|base: Option<String>, branch: Option<String>|
                #![trigger
                    commit_result(runner, main_worktree, claim.base_sha, Ok(base)),
                    commit_result(runner, main_worktree, "refs/heads/"@ + claim.branch, Ok(branch))]
                {
                    let base_there = base matches Some(sha) && sha@ == claim.base_sha;
                    &&& commit_result(runner, main_worktree, claim.base_sha, Ok(base))
                    &&& commit_result(
                        runner,
                        main_worktree,
                        "refs/heads/"@ + claim.branch,
                        Ok(branch),
                    )
                    &&& has_problem(problems, claim.claim_id, LocalProblemCode::MissingBase)
                        <==> !base_there
                    &&& has_problem(problems, claim.claim_id, LocalProblemCode::MissingBranch)
                        <==> branch is None
                    &&& findings.diff is Some <==> base_there && branch is Some
                }
            &&& has_problem(problems, claim.claim_id, LocalProblemCode::MissingWorktree)
                <==> placed.canonical is None
            &&& has_problem(problems, claim.claim_id, LocalProblemCode::WorktreeMismatch)
                <==> placed.canonical is Some && !is_attached(placed, entries)
            &&& forall|i: int|
                0 <= i < problems.len() ==> (#[trigger] problems[i]).claim_id == Some(
                    claim.claim_id,
                ) && problems[i].issue == Some(claim.issue) && problems[i].code
                    !is AbandonedOperation
            &&& findings.diff matches Some(diff) ==> exists|
                    summary: DiffSummary,
                    worktree: Option<Seq<char>>,
                | #[trigger]
                    diff_result(runner, main_worktree, claim, worktree, Ok(summary)) && diff
                        == summary@ && (worktree is Some <==> is_attached(placed, entries))
        }),
{
    let claim = placed.claim;
    let (base, branch) = choose|base: Option<String>, branch: Option<String>|
        #![trigger
            commit_result(runner, main_worktree, placed.claim.base_sha, Ok(base)),
            commit_result(
                runner,
                main_worktree,
                "refs/heads/"@ + placed.claim.branch,
                Ok(branch),
            )]
        {
            &&& commit_result(runner, main_worktree, placed.claim.base_sha, Ok(base))
            &&& commit_result(
                runner,
                main_worktree,
                "refs/heads/"@ + placed.claim.branch,
                Ok(branch),
            )
            &&& findings.problems == claim_problems(
                placed,
                entries,
                base_is_there(placed.claim, base),
                branch is Some,
            )
            &&& if base_is_there(placed.claim, base) && branch is Some {
                exists|summary: DiffSummary| #[trigger]
                    diff_result(
                        runner,
                        main_worktree,
                        placed.claim,
                        usable_worktree(placed, entries),
                        Ok(summary),
                    ) && findings.diff == Some(summary@)
            } else {
                findings.diff is None
            }
        };
    let base_there = base matches Some(sha) && sha@ == claim.base_sha;
    problems_one_by_one(placed, entries, base_there, branch is Some);
    assert(commit_result(runner, main_worktree, claim.base_sha, Ok(base)));
    assert(commit_result(runner, main_worktree, "refs/heads/"@ + claim.branch, Ok(branch)));
}

proof fn problems_one_by_one(
    placed: PlacedView,
    entries: Seq<WorktreeView>,
    base_there: bool,
    branch_there: bool,
)
    ensures
        ({
            let claim = placed.claim;
            let problems = claim_problems(placed, entries, base_there, branch_there);
            &&& has_problem(problems, claim.claim_id, LocalProblemCode::MissingBase) <==> !base_there
            &&& has_problem(problems, claim.claim_id, LocalProblemCode::MissingBranch)
                <==> !branch_there
            &&& has_problem(problems, claim.claim_id, LocalProblemCode::MissingWorktree)
                <==> placed.canonical is None
            &&& has_problem(problems, claim.claim_id, LocalProblemCode::WorktreeMismatch)
                <==> placed.canonical is Some && !is_attached(placed, entries)
            &&& forall|i: int|
                0 <= i < problems.len() ==> (#[trigger] problems[i]).claim_id == Some(
                    claim.claim_id,
                ) && problems[i].issue == Some(claim.issue) && problems[i].code
                    !is AbandonedOperation
            &&& usable_worktree(placed, entries) is Some <==> is_attached(placed, entries)
        }),
{
    let claim = placed.claim;
    let problems = claim_problems(placed, entries, base_there, branch_there);
    let at_branch = if base_there {
        0int
    } else {
        1int
    };
    if !base_there {
        assert(problems[0].code is MissingBase);
    }
    if !branch_there {
        assert(problems[at_branch].code is MissingBranch);
    }
    if let Some(place) = placed.canonical {
        entry_at_is_the_first(entries, place);
        if let Some(entry) = entry_at(entries, place) {
            let k = choose|k: int|
                0 <= k < entries.len() && #[trigger] entries[k] == entry && (
                entry.canonical matches Some(at) && same_path(at, place)) && forall|j: int|
                    0 <= j < k ==> !((#[trigger] entries[j]).canonical matches Some(at)
                        && same_path(at, place));
            if is_attached(placed, entries) {
                let other = choose|other: int|
                    0 <= other < entries.len() && (#[trigger] entries[other]).branch == Some(
                        placed.claim.branch,
                    ) && (entries[other].canonical matches Some(at) && same_path(at, place))
                        && forall|j: int|
                        0 <= j < other ==> !((#[trigger] entries[j]).canonical matches Some(at)
                            && same_path(at, place));
                if other < k {
                    assert(entries[other].canonical matches Some(at) && same_path(at, place));
                }
                if k < other {
                    assert(entries[k].canonical matches Some(at) && same_path(at, place));
                }
                assert(other == k);
            } else {
                assert(entries[k].branch != Some(placed.claim.branch));
            }
        } else {
            assert(!is_attached(placed, entries));
        }
        if !is_attached(placed, entries) {
            assert(problems.last().code is WorktreeMismatch);
            assert(problems[problems.len() - 1].code is WorktreeMismatch);
        }
    } else {
        assert(problems[problems.len() - 1].code is MissingWorktree);
    }
}

proof fn problems_are_all_told(findings: Seq<Findings>, k: int, i: int)
    requires
        0 <= k < findings.len(),
        0 <= i < findings[k].problems.len(),
    ensures
        all_problems(findings).contains(findings[k].problems[i]),
    decreases findings.len(),
{
    let front = findings.drop_last();
    let early = all_problems(front);
    let all = all_problems(findings);
    if k < front.len() {
        problems_are_all_told(front, k, i);
        assert(front[k] == findings[k]);
        let at = early.index_of(findings[k].problems[i]);
        assert(all[at] == findings[k].problems[i]);
    } else {
        assert(all[early.len() + i] == findings[k].problems[i]);
    }
}

/// Whether a claim was seen with what was found of it, where its worktree leads, and every problem
/// that was met with it was told.
pub open spec fn is_seen<R: CommandRunner>(
    runner: &R,
    surroundings: Surroundings,
    claim: ClaimView,
    seen: ObservationView,
    problems: Seq<ProblemView>,
) -> bool {
    exists|findings: Findings| #[trigger]
        claim_observed(
            runner,
            surroundings.repository.main_worktree@,
            PlacedView {
                claim,
                canonical: known_place(pairs(surroundings.places@), claim.worktree),
            },
            views(surroundings.worktrees@),
            findings,
        ) && seen.claim == claim && seen.diff == findings.diff && forall|p: int|
            0 <= p < findings.problems.len() ==> problems.contains(#[trigger] findings.problems[p])
}

/// What is seen of a repository: each of the claims in its order, as it is recorded, at the place
/// that its worktree leads to, and with what was found of it; the operations under way, each with
/// the problem that it was interrupted; and every problem that was met with a claim.
pub proof fn repositories_are_seen_whole<R: CommandRunner>(
    runner: &R,
    surroundings: Surroundings,
    claims: Seq<ClaimView>,
    operations: Seq<OperationView>,
    sight: LocalObservation,
)
    requires
        repository_observed(runner, surroundings, claims, operations, Ok(sight)),
    ensures
        sight@.claims.len() == claims.len(),
        forall|i: int| 0 <= i < claims.len() ==> (#[trigger] sight@.claims[i]).claim == claims[i],
        sight@.operations == operations,
        forall|i: int|
            0 <= i < operations.len() ==> exists|k: int|
                0 <= k < sight@.problems.len() && (#[trigger] sight@.problems[k]).code
                    is AbandonedOperation && sight@.problems[k].operation_id == Some(
                    (#[trigger] operations[i]).operation_id,
                ) && sight@.problems[k].issue == Some(operations[i].issue)
                    && sight@.problems[k].claim_id == Some(operations[i].claim_id),
        forall|i: int|
            0 <= i < claims.len() ==> is_seen(
                runner,
                surroundings,
                claims[i],
                #[trigger] sight@.claims[i],
                sight@.problems,
            ),
{
    let placed = placed_claims(claims, pairs(surroundings.places@));
    let rules = pairs(surroundings.risk_paths@);
    let findings = choose|findings: Seq<Findings>| #[trigger]
        all_observed(
            runner,
            surroundings.repository.main_worktree@,
            placed,
            views(surroundings.worktrees@),
            findings,
        ) && findings.len() >= placed.len() && views(sight.claims@) == analyzed(
            with_findings(placed, findings),
            rules,
        ) && views(sight.operations@) == operations && views(sight.problems@) == abandoned_all(
            operations,
        ) + all_problems(findings);
    let met = all_problems(findings);
    assert forall|i: int| 0 <= i < operations.len() implies exists|k: int|
        0 <= k < sight@.problems.len() && (#[trigger] sight@.problems[k]).code is AbandonedOperation
            && sight@.problems[k].operation_id == Some((#[trigger] operations[i]).operation_id)
            && sight@.problems[k].issue == Some(operations[i].issue) && sight@.problems[k].claim_id
            == Some(operations[i].claim_id) by {
        assert(sight@.problems[i] == abandoned_all(operations)[i]);
    }
    assert forall|i: int| 0 <= i < claims.len() implies is_seen(
        runner,
        surroundings,
        claims[i],
        #[trigger] sight@.claims[i],
        sight@.problems,
    ) by {
        let one = findings[i];
        assert(claim_observed(
            runner,
            surroundings.repository.main_worktree@,
            placed[i],
            views(surroundings.worktrees@),
            one,
        ));
        assert forall|p: int| 0 <= p < one.problems.len() implies sight@.problems.contains(
            #[trigger] one.problems[p],
        ) by {
            problems_are_all_told(findings, i, p);
            let at = met.index_of(one.problems[p]);
            assert(sight@.problems[operations.len() + at] == one.problems[p]);
        }
    }
}

} // verus!
