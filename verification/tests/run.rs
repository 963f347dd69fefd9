use gh_envoy::cli::run_exit;
use gh_envoy::execution::{
    exit_status_code, recorded_exit_code, wait_step, StdioPolicy, WaitOutcome, WaitStep,
};
use gh_envoy::exit::EnvoyExitCode;
use gh_envoy::git::{RepositoryContext, RepositoryError};
use gh_envoy::model::{Claim, RunMode, RunRecord, RunState, RunTransition, SCHEMA_VERSION};
use gh_envoy::run::{
    agent_process, resolve_owned_claim, run_step, undiscovered, validate_agent, validate_output,
    ForegroundRunError, RunAction, RunEvent, RunStage,
};
use gh_envoy::store::{transition_run, NewRun, Store, StoreError};
use gh_envoy::time::Timestamp;

fn queued() -> RunRecord {
    let claim = claim(12, 5);
    Store::new("/common/envoy".to_owned())
        .create_run(
            &vec![claim.clone()],
            &claim,
            false,
            NewRun {
                run_id: 31,
                agent: "codex".to_owned(),
                mode: RunMode::Interactive,
                created_at: timestamp(),
            },
        )
        .expect("create run")
}

/// Goes through a run; the events of the child are handed in.
fn carry_out(events: Vec<RunEvent>, broken: bool) -> (Result<(), ForegroundRunError>, RunRecord, bool) {
    let mut run = queued();
    let mut stage = RunStage::Spawning;
    let mut events = events.into_iter();
    let mut killed = false;
    let mut event = events.next().expect("event");
    loop {
        let (after, action) = run_step(stage, event);
        stage = after;
        event = match action {
            RunAction::Record(transition) => {
                if broken {
                    RunEvent::RecordFailed(StoreError::RunNotFound { run_id: 31 })
                } else {
                    run = transition_run(&Some(run), 31, transition).expect("transition");
                    RunEvent::Recorded
                }
            }
            RunAction::Wait => events.next().expect("event"),
            RunAction::Kill => {
                killed = true;
                RunEvent::Killed { at: timestamp() }
            }
            RunAction::Finish => return (Ok(()), run, killed),
            RunAction::Fail(error) => return (Err(error), run, killed),
        };
    }
}

fn spawned() -> RunEvent {
    RunEvent::Spawned { child_pid: 42, at: timestamp() }
}

#[test]
fn foreground_run_preserves_arguments_prompt_and_child_exit() {
    let args: Vec<String> = ["semi;colon", "two words", "", "unicode-❤"]
        .iter()
        .map(|arg| arg.to_string())
        .collect();
    let claim = claim(12, 5);
    let spec = agent_process("agent".to_owned(), args.clone(), Some("prompt ☃".to_owned()), &claim);
    assert_eq!(
        spec.args,
        ["semi;colon", "two words", "", "unicode-❤", "prompt ☃"]
    );
    assert_eq!(spec.executable, "agent");
    assert_eq!(spec.cwd, "/work/tree-12");
    assert!(spec.env_overrides.is_empty());
    assert_eq!(spec.stdio, StdioPolicy::Inherit);
    let empty = agent_process("agent".to_owned(), vec![], Some("".to_owned()), &claim);
    assert_eq!(empty.args, [""]);
    let none = agent_process("agent".to_owned(), args, None, &claim);
    assert_eq!(none.args.len(), 4);

    for (code, state, exit) in [
        (0, RunState::Succeeded, EnvoyExitCode::Success),
        (7, RunState::Failed, EnvoyExitCode::OperationalError),
    ] {
        let (result, run, killed) = carry_out(
            vec![
                spawned(),
                RunEvent::Waited { outcome: WaitOutcome::Exited(code), at: timestamp() },
            ],
            false,
        );
        assert!(result.is_ok());
        assert!(!killed);
        assert_eq!(run.state, state);
        assert_eq!(run.exit_code, Some(code));
        assert_eq!(run.child_pid, Some(42));
        assert_eq!(run_exit(&run).code(), exit.code());
    }
}

#[test]
fn a_store_that_cannot_be_had_ends_a_run_as_it_is() {
    let lost = || RunEvent::LockFailed(StoreError::RunNotFound { run_id: 31 });
    let (stage, action) = run_step(RunStage::NotingStart, lost());
    assert!(matches!(stage, RunStage::Finished));
    assert!(matches!(action, RunAction::Fail(ForegroundRunError::Store(_))));
    let refused = RunEvent::RecordFailed(StoreError::RunNotFound { run_id: 31 });
    let (stage, action) = run_step(RunStage::NotingStart, refused);
    assert!(matches!(stage, RunStage::KillingUnnoted { .. }));
    assert!(matches!(action, RunAction::Kill));
    let unwaited = RunStage::NotingUnwaited { source: "gone".to_owned() };
    let (_, action) = run_step(unwaited, lost());
    assert!(matches!(action, RunAction::Fail(ForegroundRunError::Wait(_))));
}

#[test]
fn ownership_and_json_refusals_create_no_run_or_process() {
    let mut repository = RepositoryContext {
        repository: "o/r".to_owned(),
        remote_name: "origin".to_owned(),
        remote_url: "/srv/remote.git".to_owned(),
        current_worktree: "/work/tree-12".to_owned(),
        current_branch: Some("branch-12".to_owned()),
        main_worktree: "/work/main".to_owned(),
        common_dir: "/work/main/.git".to_owned(),
    };
    let active = vec![claim(12, 5)];
    assert_eq!(resolve_owned_claim(&repository, &active).expect("owned").claim_id, 5);

    let unclaimed = resolve_owned_claim(&repository, &vec![]).expect_err("unclaimed");
    assert!(unclaimed.is_refusal());
    assert_eq!(unclaimed.message(), "worktree /work/tree-12 has no active claim");

    repository.current_branch = Some("different-branch".to_owned());
    let elsewhere = resolve_owned_claim(&repository, &active).expect_err("other branch");
    assert!(elsewhere.is_refusal());
    assert!(elsewhere.message().contains("Some(\"different-branch\")"));
    repository.current_branch = None;
    assert!(resolve_owned_claim(&repository, &active)
        .expect_err("detached")
        .message()
        .contains("registered on branch None"));

    assert!(validate_output(false).is_ok());
    assert!(validate_output(true).expect_err("JSON").is_refusal());
}

#[test]
fn spawn_failure_is_terminal_and_reserved_agent_names_are_refused() {
    let (result, run, killed) = carry_out(
        vec![RunEvent::SpawnFailed { source: "no such file".to_owned(), at: timestamp() }],
        false,
    );
    assert_eq!(
        result.expect_err("spawn").message(),
        "failed to start agent process: no such file"
    );
    assert!(!killed);
    assert_eq!(run.state, RunState::Failed);
    assert_eq!(run.error.as_deref(), Some("no such file"));
    for reserved in ["list", "status", "wait", "stop"] {
        let error = validate_agent(reserved).expect_err(reserved);
        assert!(error.is_refusal());
        assert_eq!(error.message(), format!("agent name \"{reserved}\" is reserved"));
    }
    assert!(validate_agent("codex").is_ok());
}

#[test]
fn ctrl_c_records_failed_exit_130_and_kills_the_group() {
    assert_eq!(wait_step(true, None), WaitStep::Kill);
    assert_eq!(wait_step(true, Some(0)), WaitStep::Kill);
    assert_eq!(wait_step(false, None), WaitStep::Sleep);
    assert_eq!(
        wait_step(false, Some(3)),
        WaitStep::Finish(WaitOutcome::Exited(3))
    );
    let (result, run, _) = carry_out(
        vec![
            spawned(),
            RunEvent::Waited { outcome: WaitOutcome::Interrupted, at: timestamp() },
        ],
        false,
    );
    assert!(result.is_ok());
    assert_eq!(run.state, RunState::Failed);
    assert_eq!(run.exit_code, Some(130));
    assert_eq!(recorded_exit_code(WaitOutcome::Interrupted), 130);
    assert_eq!(recorded_exit_code(WaitOutcome::Exited(4)), 4);
}

#[test]
fn process_boundary_maps_signal_termination_to_conventional_exit_code() {
    assert_eq!(exit_status_code(None, Some(15)), 143);
    assert_eq!(exit_status_code(Some(7), None), 7);
    assert_eq!(exit_status_code(None, None), 1);
}

#[test]
fn a_start_that_cannot_be_noted_kills_the_child() {
    let (result, run, killed) = carry_out(vec![spawned()], true);
    assert!(matches!(
        result,
        Err(ForegroundRunError::Store(StoreError::RunNotFound { run_id: 31 }))
    ));
    assert!(killed);
    assert_eq!(run.state, RunState::Queued);
}

#[test]
fn waiting_that_fails_kills_the_child_and_fails_the_run() {
    let (result, run, killed) = carry_out(
        vec![spawned(), RunEvent::WaitFailed { source: "lost".to_owned() }],
        false,
    );
    assert_eq!(
        result.expect_err("wait").message(),
        "failed while waiting for agent process: lost"
    );
    assert!(killed);
    assert_eq!(run.state, RunState::Failed);
    assert_eq!(run.exit_code, Some(1));
    assert!(matches!(
        transition_run(&Some(run), 31, RunTransition::RequestStop),
        Err(StoreError::InvalidRunTransition { .. })
    ));
}

#[test]
fn a_directory_outside_of_git_is_refused() {
    let error = undiscovered(
        "/tmp",
        RepositoryError::InvalidOutput("empty".to_owned()),
    );
    assert!(matches!(error, ForegroundRunError::Repository(_)));
    assert_eq!(
        ForegroundRunError::InterruptHandler("twice".to_owned()).message(),
        "failed to install Ctrl-C handler: twice"
    );
}

fn timestamp() -> Timestamp {
    Timestamp { secs: 1783706400, nanos: 0 }
}

fn claim(number: u64, claim_id: u128) -> Claim {
    Claim {
        schema_version: SCHEMA_VERSION.to_owned(),
        claim_id,
        repo: "o/r".to_owned(),
        issue: number,
        title: None,
        branch: format!("branch-{number}"),
        worktree: format!("/work/tree-{number}"),
        base_remote: "origin".to_owned(),
        base_ref: "main".to_owned(),
        base_sha: format!("sha-{number}"),
        base_issue: None,
        base_claim_id: None,
        wait_for: Vec::new(),
        declared_scope: None,
        note: None,
        created_at: timestamp(),
    }
}
