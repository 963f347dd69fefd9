//! How an interrupted operation is recovered from.
use vstd::prelude::*;

use crate::command::CommandRunner;
use crate::id::short_text;
use crate::model::OperationView;
use crate::observation::ObservationView;
use crate::recovery::{branch_seen, recovery, recovery_found, worktree_seen, PlanView};
use crate::text::decimal;

verus! {

/// The command that removes a worktree.
pub open spec fn removing(worktree: Seq<char>) -> Seq<Seq<char>> {
    seq!["worktree"@, "remove"@, "--"@, worktree]
}

/// The command that deletes a branch that is merged.
pub open spec fn deleting(branch: Seq<char>) -> Seq<Seq<char>> {
    seq!["branch"@, "-d"@, "--"@, branch]
}

/// The branch that is made for a claim that asks for none.
pub open spec fn own_branch(operation: OperationView) -> Seq<char> {
    "envoy/issue-"@ + decimal(operation.issue as nat) + "-"@ + short_text(operation.claim_id)
}

proof fn commands_differ(worktree: Seq<char>, branch: Seq<char>)
    ensures
        removing(worktree) != deleting(branch),
{
    reveal_strlit("worktree");
    reveal_strlit("branch");
    assert(removing(worktree)[0].len() == 8);
    assert(deleting(branch)[0].len() == 6);
}

/// What is left to do for an operation. Where its claim was recorded, nothing but to remove its
/// journal. Otherwise its worktree is to be removed exactly where it is there, and its branch to be
/// deleted exactly where it is there and was made for the claim; a branch that was there before is
/// kept. Nothing else is to be run, the worktree goes first, and the journal that is to be removed
/// in the end is the one of the operation.
pub proof fn recovery_undoes_what_was_made(
    operation: OperationView,
    journal: Seq<char>,
    claimed: bool,
    worktree_there: bool,
    branch_there: bool,
)
    ensures
        ({
            let plan = recovery(operation, journal, claimed, worktree_there, branch_there).0;
            &&& plan.remove_journal == journal
            &&& plan.commands.contains(removing(operation.worktree)) <==> !claimed && worktree_there
            &&& plan.commands.contains(deleting(operation.branch)) <==> !claimed && branch_there
                && operation.branch == own_branch(operation)
            &&& forall|i: int|
                0 <= i < plan.commands.len() ==> #[trigger] plan.commands[i] == removing(
                    operation.worktree,
                ) || plan.commands[i] == deleting(operation.branch)
            &&& forall|i: int, j: int|
                0 <= i < j < plan.commands.len() ==> #[trigger] plan.commands[i] == removing(
                    operation.worktree,
                ) && #[trigger] plan.commands[j] == deleting(operation.branch)
        }),
{
    let plan = recovery(operation, journal, claimed, worktree_there, branch_there).0;
    commands_differ(operation.worktree, operation.branch);
    if !claimed {
        if worktree_there {
            assert(plan.commands[0] =~= removing(operation.worktree));
        }
        if branch_there && operation.branch == own_branch(operation) {
            assert(plan.commands[plan.commands.len() - 1] =~= deleting(operation.branch));
        }
    }
}

/// The plan for an operation rests on what is there: nothing is undone where its claim is observed;
/// otherwise its own worktree and its own branch are looked for, and each is undone only where it
/// was found.
pub proof fn recovery_rests_on_what_is_there<R: CommandRunner>(
    runner: &R,
    main_worktree: Seq<char>,
    places: Seq<(Seq<char>, Seq<char>)>,
    operation: OperationView,
    journal: Seq<char>,
    claims: Seq<ObservationView>,
    found: (PlanView, Seq<Seq<char>>),
)
    requires
        recovery_found(runner, main_worktree, places, operation, journal, claims, found),
    ensures
        found.0.remove_journal == journal,
        (exists|i: int|
            0 <= i < claims.len() && (#[trigger] claims[i]).claim.claim_id == operation.claim_id)
            ==> found.0.commands.len() == 0,
        (forall|i: int|
            0 <= i < claims.len() ==> (#[trigger] claims[i]).claim.claim_id != operation.claim_id)
            ==> exists|worktree_there: bool, branch_there: bool| #[trigger]
            worktree_seen(runner, main_worktree, places, operation.worktree, worktree_there)
                && #[trigger] branch_seen(runner, main_worktree, operation.branch, branch_there) && (
            found.0.commands.contains(removing(operation.worktree)) <==> worktree_there) && (
            found.0.commands.contains(deleting(operation.branch)) <==> branch_there
                && operation.branch == own_branch(operation)),
{
    if forall|i: int|
        0 <= i < claims.len() ==> (#[trigger] claims[i]).claim.claim_id != operation.claim_id {
        let (worktree_there, branch_there) = choose|worktree_there: bool, branch_there: bool|
            #[trigger]
            worktree_seen(runner, main_worktree, places, operation.worktree, worktree_there)
                && #[trigger] branch_seen(runner, main_worktree, operation.branch, branch_there)
                && found == recovery(operation, journal, false, worktree_there, branch_there);
        recovery_undoes_what_was_made(operation, journal, false, worktree_there, branch_there);
    }
}

} // verus!
