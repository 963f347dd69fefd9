//! Runs: agents that work in the worktree of a claim.
use vstd::prelude::*;
use vstd::string::*;

use crate::execution::{recorded_exit, recorded_exit_code, ProcessSpec, StdioPolicy, WaitOutcome};
use crate::git::{RepositoryContext, RepositoryError};
use crate::id::{id_string, id_text, Id};
use crate::lifecycle::{find_in_worktree, first_in_worktree};
use crate::model::{Claim, ClaimView, RunRecord, RunTransition, RunView};
use crate::path::{is_same_path, join_path, joined_path, same_path};
use crate::store::{in_order, ordered, run_place, Store, StoreError};
use crate::text::{optional, quote, quoted, same, views};
use crate::time::Timestamp;

verus! {

/// What an agent is asked for.
#[derive(Debug)]
pub struct ForegroundRunRequest<T> {
    pub agent: String,
    pub prompt: Option<String>,
    pub agent_args: Vec<T>,
}

/// Why an agent was not run to its end.
#[derive(Debug)]
pub enum ForegroundRunError {
    Refused(String),
    Repository(RepositoryError),
    Store(StoreError),
    Spawn(String),
    Wait(String),
    InterruptHandler(String),
}

impl ForegroundRunError {
    pub open spec fn text(self) -> Seq<char> {
        match self {
            ForegroundRunError::Refused(reason) => reason@,
            ForegroundRunError::Repository(error) => error.text(),
            ForegroundRunError::Store(error) => error.text(),
            ForegroundRunError::Spawn(source) => "failed to start agent process: "@ + source@,
            ForegroundRunError::Wait(source) => "failed while waiting for agent process: "@
                + source@,
            ForegroundRunError::InterruptHandler(source) =>
                "failed to install Ctrl-C handler: "@ + source@,
        }
    }

    pub fn message(&self) -> (text: String)
        ensures
            text@ == self.text(),
    {
        match self {
            ForegroundRunError::Refused(reason) => reason.clone(),
            ForegroundRunError::Repository(error) => error.message(),
            ForegroundRunError::Store(error) => error.message(),
            ForegroundRunError::Spawn(source) => {
                let mut text = "failed to start agent process: ".to_owned();
                text.append(source.as_str());
                text
            },
            ForegroundRunError::Wait(source) => {
                let mut text = "failed while waiting for agent process: ".to_owned();
                text.append(source.as_str());
                text
            },
            ForegroundRunError::InterruptHandler(source) => {
                let mut text = "failed to install Ctrl-C handler: ".to_owned();
                text.append(source.as_str());
                text
            },
        }
    }

    pub fn is_refusal(&self) -> (result: bool)
        ensures
            result == (self is Refused),
    {
        matches!(self, ForegroundRunError::Refused(_))
    }
}

/// Whether an error refuses for a reason.
pub open spec fn refuses_run(error: ForegroundRunError, reason: Seq<char>) -> bool {
    error matches ForegroundRunError::Refused(said) && said@ == reason
}

// ---------------------------------------------------------------------------------------------
// Whose worktree it is
// ---------------------------------------------------------------------------------------------
/// What comes of a repository that could not be made out: a directory outside of any worktree is
/// refused.
pub fn undiscovered(cwd: &str, error: RepositoryError) -> (result: ForegroundRunError)
    ensures
        if error.outside_worktree() {
            refuses_run(
                result,
                "directory "@ + cwd@
                    + " is not a registered Git worktree with an active claim"@,
            )
        } else {
            result == ForegroundRunError::Repository(error)
        },
{
    if error.is_outside_worktree() {
        let mut reason = "directory ".to_owned();
        reason.append(cwd);
        reason.append(" is not a registered Git worktree with an active claim");
        ForegroundRunError::Refused(reason)
    } else {
        ForegroundRunError::Repository(error)
    }
}

/// A branch that may be none, as it is shown.
pub open spec fn optional_quoted(branch: Option<Seq<char>>) -> Seq<char> {
    match branch {
        Some(branch) => "Some("@ + quoted(branch) + ")"@,
        None => "None"@,
    }
}

fn quote_optional(branch: &Option<String>) -> (text: String)
    ensures
        text@ == optional_quoted(optional(*branch)),
{
    match branch {
        Some(branch) => {
            let mut text = "Some(".to_owned();
            text.append(quote(branch.as_str()).as_str());
            text.append(")");
            text
        },
        None => "None".to_owned(),
    }
}

/// What looking for the claim that owns a worktree comes to: it must be active, and the worktree
/// must be on its branch.
pub open spec fn owner_outcome(
    active: Seq<ClaimView>,
    worktree: Seq<char>,
    branch: Option<Seq<char>>,
    result: Result<Claim, ForegroundRunError>,
) -> bool {
    match first_in_worktree(active, worktree) {
        None => result matches Err(error) && refuses_run(
            error,
            "worktree "@ + worktree + " has no active claim"@,
        ),
        Some(claim) => if branch == Some(claim.branch) {
            result matches Ok(found) && found@ == claim
        } else {
            result matches Err(error) && refuses_run(
                error,
                "worktree "@ + worktree + " is registered on branch "@ + optional_quoted(branch)
                    + ", but active claim generation "@ + id_text(claim.claim_id)
                    + " owns branch "@ + quoted(claim.branch),
            )
        },
    }
}

/// The active claim that owns the current worktree.
pub fn resolve_owned_claim(repository: &RepositoryContext, active: &Vec<Claim>) -> (result: Result<
    Claim,
    ForegroundRunError,
>)
    ensures
        owner_outcome(
            views(active@),
            repository.current_worktree@,
            optional(repository.current_branch),
            result,
        ),
{
    let worktree = repository.current_worktree.as_str();
    let claim = match find_in_worktree(active, worktree) {
        Some(claim) => claim,
        None => {
            let mut reason = "worktree ".to_owned();
            reason.append(worktree);
            reason.append(" has no active claim");
            return Err(ForegroundRunError::Refused(reason));
        },
    };
    let on_branch = match &repository.current_branch {
        Some(branch) => same(branch.as_str(), claim.branch.as_str()),
        None => false,
    };
    if on_branch {
        return Ok(claim.clone());
    }
    let mut reason = "worktree ".to_owned();
    reason.append(worktree);
    reason.append(" is registered on branch ");
    reason.append(quote_optional(&repository.current_branch).as_str());
    reason.append(", but active claim generation ");
    reason.append(id_string(claim.claim_id).as_str());
    reason.append(" owns branch ");
    reason.append(quote(claim.branch.as_str()).as_str());
    Err(ForegroundRunError::Refused(reason))
}

/// The names that are commands of their own, and so no agents.
pub open spec fn reserved_name(agent: Seq<char>) -> bool {
    agent == "list"@ || agent == "status"@ || agent == "wait"@ || agent == "stop"@
}

/// Refuses an agent that is named like a command.
pub fn validate_agent(agent: &str) -> (result: Result<(), ForegroundRunError>)
    ensures
        if reserved_name(agent@) {
            result matches Err(error) && refuses_run(
                error,
                "agent name "@ + quoted(agent@) + " is reserved"@,
            )
        } else {
            result is Ok
        },
{
    if same(agent, "list") || same(agent, "status") || same(agent, "wait") || same(agent, "stop") {
        let mut reason = "agent name ".to_owned();
        reason.append(quote(agent).as_str());
        reason.append(" is reserved");
        return Err(ForegroundRunError::Refused(reason));
    }
    Ok(())
}

/// Refuses to print JSON while an agent has the terminal.
pub fn validate_output(json: bool) -> (result: Result<(), ForegroundRunError>)
    ensures
        if json {
            result matches Err(error) && refuses_run(
                error,
                "run hands the terminal to the agent and cannot print JSON"@,
            )
        } else {
            result is Ok
        },
{
    if json {
        return Err(
            ForegroundRunError::Refused(
                "run hands the terminal to the agent and cannot print JSON".to_owned(),
            ),
        );
    }
    Ok(())
}

/// The process that an agent is: its own arguments, and the prompt behind them if there is one, in
/// the worktree of its claim.
pub fn agent_process<T>(
    executable: T,
    agent_args: Vec<T>,
    prompt: Option<T>,
    claim: &Claim,
) -> (spec: ProcessSpec<T>)
    ensures
        spec.executable == executable,
        spec.args@ == (match prompt {
            Some(prompt) => agent_args@.push(prompt),
            None => agent_args@,
        }),
        spec.cwd@ == claim@.worktree,
        spec.env_overrides@.len() == 0,
        spec.stdio == StdioPolicy::Inherit,
{
    let mut args = agent_args;
    if let Some(prompt) = prompt {
        args.push(prompt);
    }
    ProcessSpec {
        executable,
        args,
        cwd: claim.worktree.clone(),
        env_overrides: Vec::new(),
        stdio: StdioPolicy::Inherit,
    }
}

// ---------------------------------------------------------------------------------------------
// The course of a run
// ---------------------------------------------------------------------------------------------
/// Which step of a run is under way, once it is queued.
#[derive(Debug)]
pub enum RunStage {
    Spawning,
    NotingSpawnFailure { source: String },
    NotingStart,
    KillingUnnoted { error: StoreError },
    Waiting,
    KillingUnwaited { source: String },
    NotingUnwaited { source: String },
    NotingExit,
    Finished,
}

/// How the last step has gone.
#[derive(Debug)]
pub enum RunEvent {
    Spawned { child_pid: u32, at: Timestamp },
    SpawnFailed { source: String, at: Timestamp },
    Recorded,
    /// The store was there, but did not take the record.
    RecordFailed(StoreError),
    /// The store could not be had.
    LockFailed(StoreError),
    Waited { outcome: WaitOutcome, at: Timestamp },
    WaitFailed { source: String },
    Killed { at: Timestamp },
}

/// What is to be done next.
#[derive(Debug)]
pub enum RunAction {
    Record(RunTransition),
    Wait,
    Kill,
    Finish,
    Fail(ForegroundRunError),
}

/// Whether something may go so at a stage.
pub open spec fn run_fits(stage: RunStage, event: RunEvent) -> bool {
    match stage {
        RunStage::Spawning => event is Spawned || event is SpawnFailed,
        RunStage::NotingSpawnFailure { .. } | RunStage::NotingStart
        | RunStage::NotingUnwaited { .. } | RunStage::NotingExit => event is Recorded || event
            is RecordFailed || event is LockFailed,
        RunStage::KillingUnnoted { .. } | RunStage::KillingUnwaited { .. } => event is Killed,
        RunStage::Waiting => event is Waited || event is WaitFailed,
        RunStage::Finished => false,
    }
}

/// The next step of a run. A start that the store does not take has the process killed; waiting that
/// fails has it killed too, and noted as failed; and what fails then does not matter any more. A
/// store that cannot be had ends everything as it is.
pub open spec fn run_stepped(
    stage: RunStage,
    event: RunEvent,
    after: RunStage,
    action: RunAction,
) -> bool {
    match (stage, event) {
        (RunStage::Spawning, RunEvent::Spawned { child_pid, at }) => after is NotingStart && action
            == RunAction::Record(
            RunTransition::Start { worker_pid: None, child_pid, started_at: at },
        ),
        (RunStage::Spawning, RunEvent::SpawnFailed { source, at }) => {
            &&& after == RunStage::NotingSpawnFailure { source }
            &&& action matches RunAction::Record(
                RunTransition::SpawnFailed { worker_pid, finished_at, error },
            ) && worker_pid is None && finished_at == at && error@ == source@
        },
        (RunStage::NotingSpawnFailure { source }, RunEvent::Recorded) => after is Finished && action
            == RunAction::Fail(ForegroundRunError::Spawn(source)),
        (RunStage::NotingStart, RunEvent::Recorded) => after is Waiting && action
            == RunAction::Wait,
        (RunStage::NotingStart, RunEvent::RecordFailed(error)) => after
            == RunStage::KillingUnnoted { error } && action == RunAction::Kill,
        (RunStage::KillingUnnoted { error }, RunEvent::Killed { .. }) => after is Finished && action
            == RunAction::Fail(ForegroundRunError::Store(error)),
        (RunStage::Waiting, RunEvent::Waited { outcome, at }) => after is NotingExit && action
            == RunAction::Record(
            RunTransition::Exit { exit_code: recorded_exit(outcome), finished_at: at },
        ),
        (RunStage::Waiting, RunEvent::WaitFailed { source }) => after == RunStage::KillingUnwaited {
            source,
        } && action == RunAction::Kill,
        (RunStage::KillingUnwaited { source }, RunEvent::Killed { at }) => after
            == RunStage::NotingUnwaited { source } && action == RunAction::Record(
            RunTransition::Exit { exit_code: 1, finished_at: at },
        ),
        (RunStage::NotingUnwaited { source }, _) => after is Finished && action == RunAction::Fail(
            ForegroundRunError::Wait(source),
        ),
        (RunStage::NotingExit, RunEvent::Recorded) => after is Finished && action
            == RunAction::Finish,
        (_, RunEvent::RecordFailed(error)) | (_, RunEvent::LockFailed(error)) => after is Finished
            && action == RunAction::Fail(ForegroundRunError::Store(error)),
        _ => false,
    }
}

/// Takes the next step of a run, by how the last one has gone.
pub fn run_step(stage: RunStage, event: RunEvent) -> (next: (RunStage, RunAction))
    requires
        run_fits(stage, event),
    ensures
        run_stepped(stage, event, next.0, next.1),
{
    match (stage, event) {
        (RunStage::Spawning, RunEvent::Spawned { child_pid, at }) => (
            RunStage::NotingStart,
            RunAction::Record(
                RunTransition::Start { worker_pid: None, child_pid, started_at: at },
            ),
        ),
        (RunStage::Spawning, RunEvent::SpawnFailed { source, at }) => {
            let error = source.clone();
            (
                RunStage::NotingSpawnFailure { source },
                RunAction::Record(
                    RunTransition::SpawnFailed { worker_pid: None, finished_at: at, error },
                ),
            )
        },
        (RunStage::NotingSpawnFailure { source }, RunEvent::Recorded) => (
            RunStage::Finished,
            RunAction::Fail(ForegroundRunError::Spawn(source)),
        ),
        (RunStage::NotingStart, RunEvent::Recorded) => (RunStage::Waiting, RunAction::Wait),
        (RunStage::NotingStart, RunEvent::RecordFailed(error)) => (
            RunStage::KillingUnnoted { error },
            RunAction::Kill,
        ),
        (RunStage::KillingUnnoted { error }, _) => (
            RunStage::Finished,
            RunAction::Fail(ForegroundRunError::Store(error)),
        ),
        (RunStage::Waiting, RunEvent::Waited { outcome, at }) => (
            RunStage::NotingExit,
            RunAction::Record(
                RunTransition::Exit { exit_code: recorded_exit_code(outcome), finished_at: at },
            ),
        ),
        (RunStage::Waiting, RunEvent::WaitFailed { source }) => (
            RunStage::KillingUnwaited { source },
            RunAction::Kill,
        ),
        (RunStage::KillingUnwaited { source }, RunEvent::Killed { at }) => (
            RunStage::NotingUnwaited { source },
            RunAction::Record(RunTransition::Exit { exit_code: 1, finished_at: at }),
        ),
        (RunStage::NotingUnwaited { source }, _) => (
            RunStage::Finished,
            RunAction::Fail(ForegroundRunError::Wait(source)),
        ),
        (_, RunEvent::RecordFailed(error)) | (_, RunEvent::LockFailed(error)) => (
            RunStage::Finished,
            RunAction::Fail(ForegroundRunError::Store(error)),
        ),
        _ => (RunStage::Finished, RunAction::Finish),
    }
}

/// How a run stands in the store while its steps are taken.
pub open spec fn run_stands(stage: RunStage, run: RunView) -> bool {
    match stage {
        RunStage::Spawning | RunStage::NotingSpawnFailure { .. } | RunStage::NotingStart
        | RunStage::KillingUnnoted { .. } => run.state is Queued,
        RunStage::Waiting | RunStage::KillingUnwaited { .. } | RunStage::NotingUnwaited { .. }
        | RunStage::NotingExit => run.state is Running,
        RunStage::Finished => true,
    }
}

/// Every event that a run is told to record can happen to it: the store does not refuse it for the
/// state that the run is in.
pub proof fn runs_record_what_can_happen(
    stage: RunStage,
    event: RunEvent,
    after: RunStage,
    transition: RunTransition,
    run: RunView,
)
    requires
        run_fits(stage, event),
        run_stepped(stage, event, after, RunAction::Record(transition)),
        run_stands(stage, run),
    ensures
        transition.outcome(run) is Some,
        run_stands(after, run),
        after matches RunStage::NotingStart ==> run_stands(
            RunStage::Waiting,
            transition.outcome(run)->0,
        ),
        after matches RunStage::NotingExit ==> transition.outcome(run)->0.state.terminal(),
{
}

// ---------------------------------------------------------------------------------------------
// Lists of runs
// ---------------------------------------------------------------------------------------------
/// The runs that have ended, or those that have not.
pub open spec fn runs_that(runs: Seq<RunView>, ended: bool) -> Seq<RunView>
    decreases runs.len(),
{
    if runs.len() == 0 {
        Seq::empty()
    } else if runs.last().state.terminal() == ended {
        runs_that(runs.drop_last(), ended).push(runs.last())
    } else {
        runs_that(runs.drop_last(), ended)
    }
}

/// Runs as they are listed: those that have not ended first, and each of the two in order.
pub open spec fn listed_runs(runs: Seq<RunView>) -> Seq<RunView> {
    in_order::<RunRecord>(runs_that(runs, false)) + in_order::<RunRecord>(runs_that(runs, true))
}

fn pick_runs(runs: &Vec<RunRecord>, ended: bool) -> (picked: Vec<RunRecord>)
    ensures
        views(picked@) == runs_that(views(runs@), ended),
{
    let ghost all = views(runs@);
    let mut picked: Vec<RunRecord> = Vec::new();
    let mut i: usize = 0;
    assert(all.take(0) =~= Seq::empty());
    assert(views(picked@) =~= Seq::empty());
    while i < runs.len()
        invariant
            i <= runs.len(),
            all == views(runs@),
            views(picked@) == runs_that(all.take(i as int), ended),
        decreases runs.len() - i,
    {
        let ghost done = views(picked@);
        assert(all.take(i + 1).drop_last() =~= all.take(i as int));
        assert(all.take(i + 1).last() == runs@[i as int]@);
        if runs[i].state.is_terminal() == ended {
            picked.push(runs[i].clone());
            assert(views(picked@) =~= done.push(runs@[i as int]@));
        }
        i = i + 1;
    }
    assert(all.take(i as int) =~= all);
    picked
}

/// Lists runs: those that have not ended come first.
pub fn list_runs(runs: &Vec<RunRecord>) -> (listed: Vec<RunRecord>)
    ensures
        views(listed@) == listed_runs(views(runs@)),
{
    let mut listed = ordered(pick_runs(runs, false));
    let mut ended = ordered(pick_runs(runs, true));
    let ghost first = views(listed@);
    let ghost rest = views(ended@);
    listed.append(&mut ended);
    assert(views(listed@) =~= first + rest);
    listed
}

/// What is wrong with where a run lies: its record must be its own, and its files must lie beside
/// its record.
pub open spec fn misplacement(root: Seq<char>, run_id: Id, run: RunView) -> Option<Seq<char>> {
    let place = run_place(root, run_id);
    if run.run_id != run_id {
        Some("record belongs to run "@ + id_text(run.run_id))
    } else if !same_path(run.prompt_path, joined_path(place, "prompt.md"@)) {
        Some("prompt.md is not in the run directory"@)
    } else if !same_path(run.stdout_path, joined_path(place, "stdout.log"@)) {
        Some("stdout.log is not in the run directory"@)
    } else if !same_path(run.stderr_path, joined_path(place, "stderr.log"@)) {
        Some("stderr.log is not in the run directory"@)
    } else {
        None
    }
}

/// Refuses a run that does not lie where it belongs.
pub fn check_run_place(store: &Store, run_id: Id, run: &RunRecord) -> (result: Result<(), StoreError>)
    ensures
        match misplacement(store.directory@, run_id, run@) {
            Some(problem) => result matches Err(StoreError::InvalidRunStore { path, message })
                && path@ == run_place(store.directory@, run_id) && message@ == problem,
            None => result is Ok,
        },
{
    let place = store.run_directory(run_id);
    let message = if run.run_id != run_id {
        let mut message = "record belongs to run ".to_owned();
        message.append(id_string(run.run_id).as_str());
        message
    } else if !is_same_path(
        run.prompt_path.as_str(),
        join_path(place.as_str(), "prompt.md").as_str(),
    ) {
        "prompt.md is not in the run directory".to_owned()
    } else if !is_same_path(
        run.stdout_path.as_str(),
        join_path(place.as_str(), "stdout.log").as_str(),
    ) {
        "stdout.log is not in the run directory".to_owned()
    } else if !is_same_path(
        run.stderr_path.as_str(),
        join_path(place.as_str(), "stderr.log").as_str(),
    ) {
        "stderr.log is not in the run directory".to_owned()
    } else {
        return Ok(());
    };
    Err(StoreError::InvalidRunStore { path: place, message })
}

} // verus!
