use gh_envoy::json::{find_member, Json};
use gh_envoy::model::{Claim, RunMode, RunRecord, RunState, RunTransition, SCHEMA_VERSION};
use gh_envoy::run::{check_run_place, list_runs};
use gh_envoy::store::{transition_run, NewRun, Store, StoreError};
use gh_envoy::time::Timestamp;

fn store() -> Store {
    Store::new("/common/envoy".to_owned())
}

fn new_run(run_id: u128, mode: RunMode) -> NewRun {
    NewRun { run_id, agent: "codex".to_owned(), mode, created_at: at(0) }
}

fn at(minutes: i64) -> Timestamp {
    Timestamp { secs: 1783792800 + 60 * minutes, nanos: 0 }
}

fn created(mode: RunMode) -> RunRecord {
    let claim = claim(24, 1);
    store()
        .create_run(&vec![claim.clone()], &claim, false, new_run(31, mode))
        .expect("create run")
}

fn set(json: &mut Json, name: &str, value: Json) {
    match json {
        Json::Object(members) => {
            for member in members.iter_mut() {
                if member.0 == name {
                    member.1 = value;
                    return;
                }
            }
            panic!("no member {name}");
        }
        other => panic!("no object: {other:?}"),
    }
}

#[test]
fn run_creation_binds_an_exact_persisted_claim_and_keeps_artifacts_private() {
    let claim = claim(24, 1);
    let run = store()
        .create_run(&vec![claim.clone()], &claim, false, new_run(31, RunMode::Background))
        .expect("create run");
    assert_eq!(run.claim_id, claim.claim_id);
    assert_eq!(run.issue, claim.issue);
    assert_eq!(run.worktree, claim.worktree);
    assert_eq!(run.state, RunState::Queued);
    let place = store().run_directory(31);
    assert_eq!(run.prompt_path, format!("{place}/prompt.md"));
    assert_eq!(run.stdout_path, format!("{place}/stdout.log"));
    assert_eq!(run.stderr_path, format!("{place}/stderr.log"));
    match run.to_value().expect("record") {
        Json::Object(members) => {
            for secret in ["prompt", "arguments", "log_contents"] {
                assert!(find_member(&members, secret).is_none());
            }
        }
        other => panic!("{other:?}"),
    }
}

#[test]
fn run_creation_rejects_an_unpersisted_or_mismatched_claim_generation() {
    let claim = claim(24, 1);
    assert!(matches!(
        store().create_run(&vec![], &claim, false, new_run(31, RunMode::Interactive)),
        Err(StoreError::MissingClaimGeneration { issue: 24, claim_id: 1 })
    ));
    let mut mismatched = claim.clone();
    mismatched.branch = "different".to_owned();
    assert!(matches!(
        store().create_run(&vec![claim], &mismatched, false, new_run(31, RunMode::Interactive)),
        Err(StoreError::ClaimGenerationMismatch { issue: 24, claim_id: 1 })
    ));
}

#[test]
fn run_id_collisions_preserve_the_existing_run_and_failed_creation_rolls_back() {
    let claim = claim(24, 1);
    let recorded = vec![claim.clone()];
    assert!(matches!(
        store().create_run(&recorded, &claim, true, new_run(31, RunMode::Background)),
        Err(StoreError::RunAlreadyExists { run_id: 31 })
    ));
    let mut unnamed = new_run(32, RunMode::Background);
    unnamed.agent = "  ".to_owned();
    assert!(store().create_run(&recorded, &claim, false, unnamed).is_err());
}

#[test]
fn run_transitions_are_atomic_and_terminal_states_are_immutable() {
    let run = created(RunMode::Interactive);
    let started = transition_run(
        &Some(run),
        31,
        RunTransition::Start { worker_pid: None, child_pid: 42, started_at: at(1) },
    )
    .expect("start");
    assert_eq!(started.state, RunState::Running);
    let finished = transition_run(
        &Some(started),
        31,
        RunTransition::Exit { exit_code: 0, finished_at: at(2) },
    )
    .expect("exit");
    assert_eq!(finished.state, RunState::Succeeded);
    assert_eq!(finished.exit_code, Some(0));
    assert!(matches!(
        transition_run(&Some(finished), 31, RunTransition::RequestStop),
        Err(StoreError::InvalidRunTransition { run_id: 31, .. })
    ));
}

#[test]
fn run_validation_covers_spawn_failure_stop_and_inconsistent_terminal_fields() {
    let failed = transition_run(
        &Some(created(RunMode::Background)),
        31,
        RunTransition::SpawnFailed {
            worker_pid: Some(9),
            finished_at: at(1),
            error: "executable not found".to_owned(),
        },
    )
    .expect("spawn failure");
    assert_eq!(failed.state, RunState::Failed);
    assert_eq!(failed.started_at, None);

    let stopping = transition_run(
        &Some(created(RunMode::Background)),
        31,
        RunTransition::RequestStop,
    )
    .expect("stop requested");
    assert_eq!(stopping.state, RunState::StopRequested);
    let stopped = transition_run(
        &Some(stopping),
        31,
        RunTransition::Stopped { finished_at: at(3), exit_code: None },
    )
    .expect("stopped");
    assert_eq!(stopped.state, RunState::Stopped);

    let mut invalid = stopped.to_value().unwrap();
    set(&mut invalid, "state", Json::Text("succeeded".to_owned()));
    set(&mut invalid, "exit_code", Json::Null);
    assert!(RunRecord::from_value(&invalid).is_err());

    let mut stopped_without_child = stopped.to_value().unwrap();
    set(&mut stopped_without_child, "exit_code", Json::Unsigned(130));
    assert!(RunRecord::from_value(&stopped_without_child).is_err());
}

#[test]
fn run_lookup_rejects_misplaced_records_and_non_file_artifacts() {
    assert!(matches!(
        transition_run(&None, 31, RunTransition::RequestStop),
        Err(StoreError::RunNotFound { run_id: 31 })
    ));
    let run = created(RunMode::Background);
    assert!(check_run_place(&store(), 31, &run).is_ok());
    let mut elsewhere = run.clone();
    elsewhere.prompt_path = "/common/elsewhere/prompt.md".to_owned();
    match check_run_place(&store(), 31, &elsewhere) {
        Err(StoreError::InvalidRunStore { path, message }) => {
            assert_eq!(path, store().run_directory(31));
            assert_eq!(message, "prompt.md is not in the run directory");
        }
        other => panic!("{other:?}"),
    }
    assert!(check_run_place(&store(), 32, &run).is_err());
}

#[test]
fn run_listing_is_read_only_deterministic_and_active_first() {
    assert!(list_runs(&vec![]).is_empty());
    let claim = claim(24, 1);
    let recorded = vec![claim.clone()];
    let first_id = 0x11111111_1111_4111_8111_111111111111;
    let second_id = 0x22222222_2222_4222_8222_222222222222;
    let first = store()
        .create_run(&recorded, &claim, false, new_run(first_id, RunMode::Interactive))
        .expect("first");
    let first = transition_run(
        &Some(first),
        first_id,
        RunTransition::SpawnFailed {
            worker_pid: None,
            finished_at: at(1),
            error: "spawn failed".to_owned(),
        },
    )
    .expect("spawn failed");
    let mut later = new_run(second_id, RunMode::Background);
    later.agent = "codex".to_owned();
    later.created_at = at(60);
    let second = store().create_run(&recorded, &claim, false, later).expect("second");
    let runs = list_runs(&vec![first, second]);
    assert_eq!(
        runs.iter().map(|run| run.run_id).collect::<Vec<_>>(),
        [second_id, first_id]
    );
}

#[test]
fn run_record_json_golden_contains_paths_but_never_private_contents_or_arguments() {
    for (state, name) in [
        (RunState::Queued, "queued"),
        (RunState::Running, "running"),
        (RunState::Succeeded, "succeeded"),
        (RunState::Failed, "failed"),
        (RunState::StopRequested, "stop_requested"),
        (RunState::Stopped, "stopped"),
    ] {
        assert_eq!(state.as_str(), name);
    }
    let mut claim = claim(24, 0x321ba92e_f076_4bc7_bd5b_6cc16cf76277);
    claim.repo = "z-a-f/fixture".to_owned();
    claim.worktree = "/worktrees/issue-24".to_owned();
    let id = 0x22222222_2222_4222_8222_222222222222;
    let mut new = new_run(id, RunMode::Background);
    new.agent = "codex".to_owned();
    let run = store()
        .create_run(&vec![claim.clone()], &claim, false, new)
        .expect("run");
    let text = |value: &str| Json::Text(value.to_owned());
    let members = match run.to_value().unwrap() {
        Json::Object(members) => members,
        other => panic!("{other:?}"),
    };
    let wanted = vec![
        ("schema_version", text("0.1")),
        ("run_id", text("22222222-2222-4222-8222-222222222222")),
        ("repo", text("z-a-f/fixture")),
        ("claim_id", text("321ba92e-f076-4bc7-bd5b-6cc16cf76277")),
        ("issue", Json::Unsigned(24)),
        ("agent", text("codex")),
        ("mode", text("background")),
        ("state", text("queued")),
        ("worktree", text("/worktrees/issue-24")),
        ("worker_pid", Json::Null),
        ("child_pid", Json::Null),
        ("created_at", text("2026-07-11T18:00:00Z")),
        ("started_at", Json::Null),
        ("finished_at", Json::Null),
        ("exit_code", Json::Null),
        (
            "prompt_path",
            text("/common/envoy/runs/22222222-2222-4222-8222-222222222222/prompt.md"),
        ),
        (
            "stdout_path",
            text("/common/envoy/runs/22222222-2222-4222-8222-222222222222/stdout.log"),
        ),
        (
            "stderr_path",
            text("/common/envoy/runs/22222222-2222-4222-8222-222222222222/stderr.log"),
        ),
        ("error", Json::Null),
    ];
    let wanted: Vec<(String, Json)> =
        wanted.into_iter().map(|(name, value)| (name.to_owned(), value)).collect();
    assert_eq!(format!("{members:?}"), format!("{wanted:?}"));
}

#[test]
fn concurrent_terminal_transitions_produce_exactly_one_winner() {
    let running = transition_run(
        &Some(created(RunMode::Interactive)),
        31,
        RunTransition::Start { worker_pid: None, child_pid: 42, started_at: at(1) },
    )
    .expect("start");
    let won = transition_run(
        &Some(running),
        31,
        RunTransition::Exit { exit_code: 0, finished_at: at(2) },
    )
    .expect("winner");
    assert!(matches!(
        transition_run(
            &Some(won),
            31,
            RunTransition::Exit { exit_code: 1, finished_at: at(2) }
        ),
        Err(StoreError::InvalidRunTransition { .. })
    ));
}

fn timestamp() -> Timestamp {
    at(0)
}

fn claim(number: u64, claim_id: u128) -> Claim {
    Claim {
        schema_version: SCHEMA_VERSION.to_owned(),
        claim_id,
        repo: "o/r".to_owned(),
        issue: number,
        title: None,
        branch: format!("branch-{number}"),
        worktree: format!("/work/tree-{number}"),
        base_remote: "origin".to_owned(),
        base_ref: "main".to_owned(),
        base_sha: format!("sha-{number}"),
        base_issue: None,
        base_claim_id: None,
        wait_for: Vec::new(),
        declared_scope: None,
        note: None,
        created_at: timestamp(),
    }
}
