//! What making a claim does, step by step, and what it undoes.
use vstd::prelude::*;

use crate::lifecycle::LifecycleErrorView;
use crate::model::{ClaimView, OperationPhase};
use crate::path::{parent_of, same_path};
use crate::text::joined;
use crate::time::Timestamp;
use crate::transaction::{ActionView, EventView, StageView, TransactionView};

verus! {

/// The command that makes a branch at a commit.
pub open spec fn branching(branch: Seq<char>, sha: Seq<char>) -> ActionView {
    ActionView::RunGit(seq!["branch"@, branch, sha])
}

/// The command that adds a worktree for a branch.
pub open spec fn adding(worktree: Seq<char>, branch: Seq<char>) -> ActionView {
    ActionView::RunGit(seq!["worktree"@, "add"@, "--"@, worktree, branch])
}

/// The command that removes a worktree again, whatever is in it.
pub open spec fn removing(worktree: Seq<char>) -> ActionView {
    ActionView::RunGit(seq!["worktree"@, "remove"@, "--force"@, worktree])
}

/// The command that deletes a branch again.
pub open spec fn deleting(branch: Seq<char>) -> ActionView {
    ActionView::RunGit(seq!["branch"@, "-D"@, branch])
}

/// Whether an action writes the operation down in a phase.
pub open spec fn notes(action: ActionView, before: TransactionView, phase: OperationPhase) -> bool {
    action matches ActionView::WriteJournal(written) && written.phase == phase
        && written.operation_id == before.operation.operation_id && written.claim_id
        == before.operation.claim_id && written.issue == before.operation.issue && written.branch
        == before.operation.branch
}

/// A claim of which nothing was there before is made in this order: its branch is made at the
/// captured base and noted, its worktree is added for that branch and noted, and looked up where
/// Git put it; the claim is recorded there, and that is noted; the journal is cleared, and the claim
/// is committed as it was recorded.
pub proof fn claims_are_made_in_order(start: TransactionView, place: Seq<char>, at: Timestamp)
    requires
        start.stage is Reserving,
        !start.adopted_branch,
        !start.adopted_worktree,
    ensures
        ({
            let branch = start.operation.branch;
            let worktree = start.operation.worktree;
            let id = start.operation.operation_id;
            let claim = ClaimView { worktree: place, created_at: at, ..start.claim };
            let (branching_now, made_branch) = start.next(EventView::Done);
            let (noting_branch, noted_branch) = branching_now.next(EventView::Done);
            let (next, after_branch) = noting_branch.next(EventView::Done);
            let (adding_now, added) = if parent_of(worktree) is Some {
                next.next(EventView::Done)
            } else {
                (next, after_branch)
            };
            let (noting_worktree, noted_worktree) = adding_now.next(EventView::Done);
            let (locating, looked_up) = noting_worktree.next(EventView::Done);
            let (recording, recorded) = locating.next(EventView::Found { place, at });
            let (noting_commit, noted_commit) = recording.next(EventView::Done);
            let (closing, cleared) = noting_commit.next(EventView::Done);
            let (ended, committed) = closing.next(EventView::Done);
            &&& made_branch == branching(branch, start.claim.base_sha)
            &&& notes(noted_branch, start, OperationPhase::BranchCreated)
            &&& parent_of(worktree) matches Some(room) ==> after_branch
                == ActionView::CreateDirectory(room)
            &&& added == adding(worktree, branch)
            &&& notes(noted_worktree, start, OperationPhase::WorktreeCreated)
            &&& looked_up == ActionView::FindWorktree(branch)
            &&& recorded == ActionView::RecordClaim(claim)
            &&& notes(noted_commit, start, OperationPhase::ClaimCommitted)
            &&& cleared == ActionView::RemoveJournal(id)
            &&& committed == ActionView::Commit(claim)
            &&& ended.stage is Finished
        }),
{
}

/// A branch that was there is not made, and a worktree that was there is not added. The claim is
/// recorded at the worktree that was asked for, as long as its branch is still there; where it is
/// not any more, the claim is refused, and what was made for it is undone.
pub proof fn adopted_things_are_not_made(start: TransactionView, place: Seq<char>, at: Timestamp)
    requires
        start.stage is Reserving,
        start.adopted_branch,
        !start.created_branch,
        !start.created_worktree,
    ensures
        ({
            let (next, action) = start.next(EventView::Done);
            &&& start.adopted_worktree ==> action == ActionView::FindWorktree(
                start.operation.branch,
            ) && next.stage is Locating
            &&& !start.adopted_worktree ==> (match parent_of(start.operation.worktree) {
                Some(room) => action == ActionView::CreateDirectory(room),
                None => action == adding(start.operation.worktree, start.operation.branch),
            })
            &&& start.adopted_worktree ==> {
                let (found, then) = next.next(EventView::Found { place, at });
                if same_path(place, start.operation.worktree) {
                    then == ActionView::RecordClaim(
                        ClaimView { worktree: place, created_at: at, ..start.claim },
                    )
                } else {
                    &&& then == ActionView::RemoveJournal(start.operation.operation_id)
                    &&& found.next(EventView::Done).1 matches ActionView::Fail(error)
                        && error is Refused
                }
            }
        }),
{
}

/// Whether a claim that goes wrong now has to be undone.
pub open spec fn is_under_way(stage: StageView) -> bool {
    stage is NotingBranch || stage is MakingRoom || stage is AddingWorktree || stage
        is NotingWorktree || stage is Locating || stage is Recording
}

/// A claim that goes wrong is undone: the worktree that was made for it is removed, the branch that
/// was made for it is deleted, in this order, its journal is cleared, and what went wrong is
/// reported. What was not made for it is left alone.
pub proof fn failed_claims_are_undone(before: TransactionView, error: LifecycleErrorView)
    requires
        is_under_way(before.stage),
    ensures
        ({
            let worktree = before.operation.worktree;
            let branch = before.operation.branch;
            let cleared = ActionView::RemoveJournal(before.operation.operation_id);
            let (first, action) = before.next(EventView::Failed(error));
            let (second, then) = first.next(EventView::Done);
            let (third, last) = second.next(EventView::Done);
            let (fourth, end) = third.next(EventView::Done);
            &&& before.created_worktree && before.created_branch ==> action == removing(worktree)
                && then == deleting(branch) && last == cleared && end == ActionView::Fail(error)
            &&& before.created_worktree && !before.created_branch ==> action == removing(worktree)
                && then == cleared && last == ActionView::Fail(error)
            &&& !before.created_worktree && before.created_branch ==> action == deleting(branch)
                && then == cleared && last == ActionView::Fail(error)
            &&& !before.created_worktree && !before.created_branch ==> action == cleared && then
                == ActionView::Fail(error)
        }),
{
}

/// A claim that cannot be undone stays in the journal as one that is to be cleaned up, and what is
/// reported is both what went wrong first and what went wrong in undoing it. The branch is deleted
/// even where the worktree could not be removed.
pub proof fn failed_cleanup_is_reported(
    before: TransactionView,
    error: LifecycleErrorView,
    trouble: LifecycleErrorView,
    more: LifecycleErrorView,
)
    requires
        is_under_way(before.stage),
        before.created_worktree,
        before.created_branch,
    ensures
        ({
            let (removing_now, _) = before.next(EventView::Failed(error));
            let (deleting_now, deleted) = removing_now.next(EventView::Failed(trouble));
            let (pending, noted) = deleting_now.next(EventView::Done);
            let (worse, noted_too) = deleting_now.next(EventView::Failed(more));
            &&& deleted == deleting(before.operation.branch)
            &&& notes(noted, before, OperationPhase::CleanupPending)
            &&& notes(noted_too, before, OperationPhase::CleanupPending)
            &&& pending.next(EventView::Done).1 matches ActionView::Fail(
                LifecycleErrorView::Rollback { original, cleanup },
            ) && original == error.text() && cleanup == joined(seq![trouble.text()], "; "@)
            &&& worse.next(EventView::Done).1 matches ActionView::Fail(
                LifecycleErrorView::Rollback { original, cleanup },
            ) && original == error.text() && cleanup == joined(
                seq![trouble.text(), more.text()],
                "; "@,
            )
        }),
{
    let (removing_now, _) = before.next(EventView::Failed(error));
    let (deleting_now, _) = removing_now.next(EventView::Failed(trouble));
    let (worse, _) = deleting_now.next(EventView::Failed(more));
    assert(worse.stage->Pending_failures =~= seq![trouble.text(), more.text()]);
}

/// A claim that could not be reserved fails with what went wrong; one whose branch could not be made
/// has its journal cleared first. Once the claim is recorded, it is not undone any more.
pub proof fn early_and_late_failures_undo_nothing(
    before: TransactionView,
    error: LifecycleErrorView,
)
    ensures
        before.stage is Reserving ==> before.next(EventView::Failed(error)).1 == ActionView::Fail(
            error,
        ),
        before.stage is Branching ==> {
            let (next, action) = before.next(EventView::Failed(error));
            &&& action == ActionView::RemoveJournal(before.operation.operation_id)
            &&& next.next(EventView::Done).1 == ActionView::Fail(error)
        },
        before.stage is NotingCommit || before.stage is Closing ==> before.next(
            EventView::Failed(error),
        ).1 == ActionView::Fail(error),
{
}

} // verus!
