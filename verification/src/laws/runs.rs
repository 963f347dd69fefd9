//! What runs of agents come to, and how commands end.
use vstd::prelude::*;
use vstd::std_specs::convert::FromSpec;

use crate::cli::{failed_exit, failure_code, run_end, warned_exit, ReleaseReasonArg};
use crate::execution::{exit_code_of, recorded_exit, WaitOutcome};
use crate::exit::EnvoyExitCode;
use crate::lifecycle::first_in_worktree;
use crate::model::{Claim, ClaimView, ReleaseReason, RunRecord, RunState, RunTransition, RunView};
use crate::path::same_path;
use crate::run::{
    listed_runs, owner_outcome, reserved_name, run_fits, run_stepped, runs_that, ForegroundRunError,
    RunAction, RunEvent, RunStage,
};
use crate::store::{in_order, order_keeps_records};

verus! {

/// How the end of a command is told by the number that its process exits with.
pub proof fn exits_are_told_by_numbers(warned: bool, refused: bool, run: RunView)
    ensures
        EnvoyExitCode::Success.number() == 0,
        EnvoyExitCode::Warning.number() == 1,
        EnvoyExitCode::Blocked.number() == 2,
        EnvoyExitCode::OperationalError.number() == 3,
        EnvoyExitCode::Held.number() == 4,
        warned_exit(warned).number() == 1 <==> warned,
        warned_exit(warned).number() == 0 <==> !warned,
        failed_exit(refused).number() == 2 <==> refused,
        failed_exit(refused).number() == 3 <==> !refused,
        failure_code(true) == "refused"@,
        failure_code(false) == "operational_error"@,
        run_end(run).number() == 0 <==> run.exit_code == Some(0i32),
        run_end(run).number() == 3 <==> run.exit_code != Some(0i32),
{
}

/// The reason that a release is asked for is the reason that it is recorded with.
pub proof fn releases_are_recorded_with_their_reason(reason: ReleaseReasonArg)
    ensures
        ({
            let recorded: ReleaseReason = FromSpec::from_spec(reason);
            &&& recorded is Merged <==> reason is Merged
            &&& recorded is Closed <==> reason is Closed
            &&& recorded is Abandoned <==> reason is Abandoned
            &&& recorded is Manual <==> reason is Manual
        }),
{
}

/// What is recorded of a process: its own exit code; the number of the signal that ended it, above
/// the conventional 128; and the number of an interrupt where it was interrupted.
pub proof fn exit_codes_are_recorded(code: i32, signal: i32)
    ensures
        recorded_exit(WaitOutcome::Exited(code)) == code,
        recorded_exit(WaitOutcome::Interrupted) == 130,
        exit_code_of(Some(code), Some(signal)) == code,
        exit_code_of(Some(code), None) == code,
        0 <= signal <= 64 ==> exit_code_of(None, Some(signal)) == 128 + signal,
        exit_code_of(None, None) == 1,
{
}

/// What a transition makes of a run. A run that starts is running from then, with its process; one
/// whose process could not be started has failed, with the error; one whose process has ended has
/// succeeded exactly where the process ended with zero. A stop is requested of a run that has not
/// ended, and only a run of which it was requested is stopped.
pub proof fn transitions_lead_where_they_say(run: RunView, transition: RunTransition)
    ensures
        ({
            let next = transition.outcome(run);
            match transition {
                RunTransition::Start { worker_pid, child_pid, started_at } => {
                    &&& next is Some <==> run.state is Queued
                    &&& next matches Some(after) ==> after.state is Running && after.child_pid
                        == Some(child_pid) && after.worker_pid == worker_pid && after.started_at
                        == Some(started_at) && after.finished_at == run.finished_at
                        && after.exit_code == run.exit_code && after.error == run.error
                },
                RunTransition::SpawnFailed { worker_pid, finished_at, error } => {
                    &&& next is Some <==> run.state is Queued
                    &&& next matches Some(after) ==> after.state is Failed && after.worker_pid
                        == worker_pid && after.finished_at == Some(finished_at) && after.error
                        == Some(error@) && after.started_at == run.started_at && after.child_pid
                        == run.child_pid && after.exit_code == run.exit_code
                },
                RunTransition::Exit { exit_code, finished_at } => {
                    &&& next is Some <==> run.state is Running
                    &&& next matches Some(after) ==> {
                        &&& after.state is Succeeded <==> exit_code == 0
                        &&& after.state is Failed <==> exit_code != 0
                        &&& after.exit_code == Some(exit_code) && after.finished_at == Some(
                            finished_at,
                        ) && after.started_at == run.started_at && after.child_pid
                            == run.child_pid && after.error == run.error
                    }
                },
                RunTransition::RequestStop => {
                    &&& next is Some <==> run.state is Queued || run.state is Running
                    &&& next matches Some(after) ==> after.state is StopRequested
                        && after.started_at == run.started_at && after.finished_at
                        == run.finished_at && after.exit_code == run.exit_code
                },
                RunTransition::Stopped { finished_at, exit_code } => {
                    &&& next is Some <==> run.state is StopRequested
                    &&& next matches Some(after) ==> after.state is Stopped && after.finished_at
                        == Some(finished_at) && after.exit_code == exit_code && after.started_at
                        == run.started_at
                },
            }
        }),
{
}

/// A run ends where it can: succeeded, failed and stopped runs have ended, others have not.
pub proof fn ended_runs_are_terminal(state: RunState)
    ensures
        state is Succeeded || state is Failed || state is Stopped ==> state.terminal(),
        state is Queued || state is Running || state is StopRequested ==> !state.terminal(),
{
}

/// A record of a run that obeys its rules tells of one run: it was started exactly where it has a
/// process; it ended where it is in an ending state; it succeeded with zero, failed with another
/// code or with an error, and its times are in order.
pub proof fn valid_runs_are_consistent(run: RunView)
    requires
        run.problem() is None,
    ensures
        run.started_at is Some <==> run.child_pid is Some,
        run.state is Succeeded ==> run.exit_code == Some(0i32) && run.started_at is Some,
        run.state is Failed ==> run.error is Some || (run.exit_code is Some && run.exit_code->0
            != 0),
        run.state is Succeeded || run.state is Failed || run.state is Stopped <==> run.finished_at
            is Some,
        run.state is Queued || run.state is Running || run.state is StopRequested ==> run.exit_code
            is None && run.error is None,
        run.state is Running ==> run.started_at is Some,
        run.state is Queued ==> run.started_at is None,
        run.mode is Interactive ==> run.worker_pid is None,
        run.started_at is Some ==> (run.created_at.secs, run.created_at.nanos) == (
            run.started_at->0.secs,
            run.started_at->0.nanos,
        ) || run.created_at.earlier(run.started_at->0),
        run.started_at is Some && run.finished_at is Some ==> run.started_at == run.finished_at
            || run.started_at->0.earlier(run.finished_at->0),
{
}

/// What a step of a run does: a process that was started is recorded, and waited for once it is; one
/// that could not be recorded, or not be waited for, is killed; what it exits with is recorded. The
/// run finishes well only after its exit was recorded, and fails with what went wrong.
pub proof fn runs_step_as_they_should(
    stage: RunStage,
    event: RunEvent,
    after: RunStage,
    action: RunAction,
)
    requires
        run_fits(stage, event),
        run_stepped(stage, event, after, action),
    ensures
        action is Finish <==> stage is NotingExit && event is Recorded,
        action is Wait <==> stage is NotingStart && event is Recorded,
        action is Wait <==> after is Waiting,
        action is Kill <==> (stage is NotingStart && event is RecordFailed) || (stage is Waiting
            && event is WaitFailed),
        action is Finish || action is Fail <==> after is Finished,
        event matches RunEvent::Spawned { child_pid, at } ==> (action matches RunAction::Record(
            RunTransition::Start { worker_pid, child_pid: pid, started_at },
        ) && pid == child_pid && started_at == at && worker_pid is None),
        event matches RunEvent::SpawnFailed { source, at } ==> (action matches RunAction::Record(
            RunTransition::SpawnFailed { finished_at, error, .. },
        ) && finished_at == at && error@ == source@),
        event matches RunEvent::Waited { outcome, at } ==> (action matches RunAction::Record(
            RunTransition::Exit { exit_code, finished_at },
        ) && finished_at == at && (match outcome {
            WaitOutcome::Exited(code) => exit_code == code,
            WaitOutcome::Interrupted => exit_code == 130,
        })),
        stage is KillingUnwaited ==> (action matches RunAction::Record(
            RunTransition::Exit { exit_code, .. },
        ) && exit_code != 0),
        event is Recorded ==> (stage matches RunStage::NotingSpawnFailure { source } ==> action
            == RunAction::Fail(ForegroundRunError::Spawn(source))),
        stage matches RunStage::KillingUnnoted { error } ==> action == RunAction::Fail(
            ForegroundRunError::Store(error),
        ),
        stage matches RunStage::NotingUnwaited { source } ==> action == RunAction::Fail(
            ForegroundRunError::Wait(source),
        ),
        stage !is NotingUnwaited ==> (event matches RunEvent::LockFailed(error) ==> action
            == RunAction::Fail(ForegroundRunError::Store(error))),
{
}

proof fn first_in_worktree_is_there(active: Seq<ClaimView>, worktree: Seq<char>)
    ensures
        match first_in_worktree(active, worktree) {
            Some(claim) => active.contains(claim) && same_path(claim.worktree, worktree),
            None => forall|a: int|
                0 <= a < active.len() ==> !same_path((#[trigger] active[a]).worktree, worktree),
        },
    decreases active.len(),
{
    if active.len() > 0 {
        let rest = active.drop_first();
        first_in_worktree_is_there(rest, worktree);
        assert forall|a: int| 0 < a < active.len() implies #[trigger] active[a] == rest[a - 1] by {}
        if same_path(active[0].worktree, worktree) {
            assert(active.contains(active[0]));
        } else if let Some(claim) = first_in_worktree(rest, worktree) {
            let a = rest.index_of(claim);
            assert(active[a + 1] == claim);
        }
    }
}

/// A run belongs to an active claim that has the worktree, and whose branch is checked out there. It
/// is refused where no active claim has the worktree, and where another branch is checked out.
pub proof fn runs_belong_to_the_claim_of_their_worktree(
    active: Seq<ClaimView>,
    worktree: Seq<char>,
    branch: Option<Seq<char>>,
    result: Result<Claim, ForegroundRunError>,
)
    requires
        owner_outcome(active, worktree, branch, result),
    ensures
        result matches Ok(claim) ==> active.contains(claim@) && same_path(claim@.worktree, worktree)
            && branch == Some(claim@.branch),
        (forall|a: int|
            0 <= a < active.len() ==> !same_path((#[trigger] active[a]).worktree, worktree))
            ==> result is Err,
        branch is None ==> result is Err,
        result matches Err(error) ==> error is Refused,
        (exists|a: int|
            0 <= a < active.len() && same_path((#[trigger] active[a]).worktree, worktree)) && (
        forall|a: int|
            0 <= a < active.len() && same_path((#[trigger] active[a]).worktree, worktree)
                ==> branch == Some(active[a].branch)) ==> result is Ok,
{
    first_in_worktree_is_there(active, worktree);
    if let Some(claim) = first_in_worktree(active, worktree) {
        let a = active.index_of(claim);
        assert(active[a] == claim);
    }
}

/// The names that agents may not have are those of the commands on runs.
pub proof fn commands_are_no_agents(agent: Seq<char>)
    ensures
        reserved_name(agent) <==> agent == "list"@ || agent == "status"@ || agent == "wait"@ || agent
            == "stop"@,
{
}

proof fn picked_runs(runs: Seq<RunView>, ended: bool, run: RunView)
    ensures
        runs_that(runs, ended).contains(run) <==> runs.contains(run) && run.state.terminal()
            == ended,
    decreases runs.len(),
{
    if runs.len() > 0 {
        let front = runs.drop_last();
        let early = runs_that(front, ended);
        let all = runs_that(runs, ended);
        picked_runs(front, ended, run);
        assert(runs[runs.len() - 1] == runs.last());
        if early.contains(run) {
            assert(all[early.index_of(run)] == run);
            assert(runs[front.index_of(run)] == run);
        }
        if all.contains(run) {
            let k = all.index_of(run);
            if k < early.len() {
                assert(early[k] == run);
            }
        }
        if runs.contains(run) && run.state.terminal() == ended {
            let k = runs.index_of(run);
            if k < front.len() {
                assert(front[k] == run);
            } else {
                assert(all[all.len() - 1] == run);
            }
        }
    }
}

/// A list of runs has all of them, those that have not ended before those that have, and each of the
/// two in the order in which they were made.
pub proof fn lists_have_every_run(runs: Seq<RunView>, run: RunView)
    ensures
        listed_runs(runs).contains(run) <==> runs.contains(run),
        listed_runs(runs).len() == runs_that(runs, false).len() + runs_that(runs, true).len(),
        forall|i: int, j: int|
            0 <= i < j < listed_runs(runs).len() && (#[trigger] listed_runs(
                runs,
            )[i]).state.terminal() ==> (#[trigger] listed_runs(runs)[j]).state.terminal(),
        forall|i: int, j: int|
            0 <= i < j < listed_runs(runs).len() && (#[trigger] listed_runs(
                runs,
            )[i]).state.terminal() == (#[trigger] listed_runs(runs)[j]).state.terminal()
                ==> !listed_runs(runs)[j].created_at.earlier(listed_runs(runs)[i].created_at),
{
    broadcast use vstd::seq_lib::group_to_multiset_ensures;

    let going = runs_that(runs, false);
    let ended = runs_that(runs, true);
    let first = in_order::<RunRecord>(going);
    let second = in_order::<RunRecord>(ended);
    let all = listed_runs(runs);
    order_keeps_records::<RunRecord>(going);
    order_keeps_records::<RunRecord>(ended);
    assert forall|one: RunView| #[trigger] first.contains(one) <==> going.contains(one) by {
        assert(first.to_multiset().count(one) == going.to_multiset().count(one));
    }
    assert forall|one: RunView| #[trigger] second.contains(one) <==> ended.contains(one) by {
        assert(second.to_multiset().count(one) == ended.to_multiset().count(one));
    }
    picked_runs(runs, false, run);
    picked_runs(runs, true, run);
    if first.contains(run) {
        assert(all[first.index_of(run)] == run);
    }
    if second.contains(run) {
        assert(all[first.len() + second.index_of(run)] == run);
    }
    if all.contains(run) {
        let k = all.index_of(run);
        if k < first.len() {
            assert(first[k] == run);
        } else {
            assert(second[k - first.len()] == run);
        }
    }
    assert forall|i: int| 0 <= i < all.len() implies (#[trigger] all[i]).state.terminal() == (i
        >= first.len()) by {
        if i < first.len() {
            assert(first.contains(first[i]));
            picked_runs(runs, false, first[i]);
        } else {
            assert(second.contains(second[i - first.len()]));
            picked_runs(runs, true, second[i - first.len()]);
        }
    }
    assert forall|i: int, j: int|
        0 <= i < j < all.len() && (#[trigger] all[i]).state.terminal() == (
        #[trigger] all[j]).state.terminal() implies !all[j].created_at.earlier(
        all[i].created_at,
    ) by {
        if j < first.len() {
            assert(all[i] == first[i] && all[j] == first[j]);
        } else {
            assert(all[i] == second[i - first.len()] && all[j] == second[j - first.len()]);
        }
    }
}

} // verus!
