use gh_envoy::json::{find_member, parse_json, same_json, Json};
use gh_envoy::model::{
    Claim, DeclaredScope, ModelError, OperationKind, OperationPhase, OperationRecord,
    ReleaseMarker, ReleaseReason, RunMode, RunRecord, RunState, RunTransition, Validate,
    WaitForRef, SCHEMA_VERSION,
};
use gh_envoy::time::Timestamp;

#[test]
fn claim_round_trips_the_normative_schema() {
    let value = valid_claim();

    let claim = Claim::from_value(&value).expect("valid claim");
    let encoded = claim.to_value().expect("serialize claim");

    assert!(same_json(&encoded, &value));
}

#[test]
fn claim_rejects_relative_worktrees_unknown_state_and_wrong_versions() {
    let mut relative = valid_claim();
    set(&mut relative, "worktree", text("relative/path"));

    let mut derived = valid_claim();
    set(&mut derived, "status", text("active"));

    let mut wrong_version = valid_claim();
    set(&mut wrong_version, "schema_version", text("9.9"));

    for invalid in [relative, derived, wrong_version] {
        assert!(Claim::from_value(&invalid).is_err());
    }
}

#[test]
fn claim_requires_both_exact_parent_relationship_fields() {
    for missing in ["base_issue", "base_claim_id"] {
        let mut value = valid_claim();
        set(&mut value, "base_issue", Json::Unsigned(12));
        set(
            &mut value,
            "base_claim_id",
            text("321ba92e-f076-4bc7-bd5b-6cc16cf76277"),
        );
        if let Json::Object(members) = &mut value {
            members.retain(|(name, _)| name != missing);
        }

        assert!(Claim::from_value(&value).is_err());
    }
}

#[test]
fn release_and_every_operation_phase_are_representable() {
    let release = parse(
        r#"{
        "schema_version": "0.1",
        "repo": "z-a-f/fixture",
        "issue": 7,
        "claim_id": "321ba92e-f076-4bc7-bd5b-6cc16cf76277",
        "reason": "manual",
        "released_at": "2026-07-10T18:00:00Z"
    }"#,
    );
    let marker = ReleaseMarker::from_value(&release).expect("valid release marker");
    assert_eq!(marker.reason, ReleaseReason::Manual);
    assert_eq!(marker.released_at, timestamp());

    for phase in [
        "reserved",
        "branch_created",
        "worktree_created",
        "claim_committed",
        "cleanup_pending",
    ] {
        let operation = parse(&format!(
            r#"{{
            "schema_version": "0.1",
            "operation_id": "2c9d1ce8-1a34-4a14-b55f-8260b02dccd0",
            "kind": "claim",
            "claim_id": "321ba92e-f076-4bc7-bd5b-6cc16cf76277",
            "issue": 7,
            "branch": "envoy/issue-7-321ba92e",
            "worktree": "/tmp/worktree",
            "phase": "{phase}",
            "started_at": "2026-07-10T18:00:00Z"
        }}"#
        ));
        let record = OperationRecord::from_value(&operation).expect("valid operation");
        assert_eq!(record.phase.as_str(), phase);
    }

    assert_eq!(OperationPhase::CleanupPending.as_str(), "cleanup_pending");
}

#[test]
fn records_that_are_written_are_read_back_unchanged() {
    let claim = Claim {
        schema_version: SCHEMA_VERSION.to_owned(),
        claim_id: 5,
        repo: "o/r".to_owned(),
        issue: 3,
        title: Some("A \"title\" ☃".to_owned()),
        branch: "b".to_owned(),
        worktree: "/w".to_owned(),
        base_remote: "origin".to_owned(),
        base_ref: "main".to_owned(),
        base_sha: "abc".to_owned(),
        base_issue: Some(1),
        base_claim_id: Some(9),
        wait_for: vec![
            WaitForRef { issue: 2, claim_id: None },
            WaitForRef { issue: 4, claim_id: Some(8) },
        ],
        declared_scope: Some(DeclaredScope {
            allowed_paths: vec!["src/**".to_owned()],
            disallowed_paths: vec![],
        }),
        note: None,
        created_at: Timestamp { secs: 1783706400, nanos: 123_000_000 },
    };
    let read = Claim::from_value(&claim.to_value().unwrap()).unwrap();
    assert!(gh_envoy::store::same_claim(&claim, &read));

    let operation = OperationRecord {
        schema_version: SCHEMA_VERSION.to_owned(),
        operation_id: 1,
        kind: OperationKind::Claim,
        claim_id: 2,
        issue: 3,
        branch: "b".to_owned(),
        worktree: "/w".to_owned(),
        phase: OperationPhase::BranchCreated,
        started_at: timestamp(),
    };
    let read = OperationRecord::from_value(&operation.to_value().unwrap()).unwrap();
    assert_eq!(read.phase, OperationPhase::BranchCreated);
    assert_eq!(read.operation_id, 1);

    let run = run();
    let read = RunRecord::from_value(&run.to_value().unwrap()).unwrap();
    assert_eq!(read.run_id, run.run_id);
    assert_eq!(read.state, RunState::Queued);
    assert_eq!(read.created_at, run.created_at);
}

#[test]
fn a_record_that_breaks_a_rule_says_which() {
    let mut claim = Claim::from_value(&valid_claim()).unwrap();
    claim.branch = "  ".to_owned();
    match claim.validate() {
        Err(ModelError::Invalid(problem)) => assert!(problem.contains("branch"), "{problem}"),
        other => panic!("{other:?}"),
    }
    match Claim::from_value(&Json::Null) {
        Err(error) => assert!(!error.message().is_empty()),
        Ok(_) => panic!("null is no claim"),
    }
}

#[test]
fn runs_change_as_their_events_allow() {
    let mut run = run();
    run.apply_transition(RunTransition::Start {
        worker_pid: None,
        child_pid: 7,
        started_at: later(1),
    })
    .unwrap();
    assert_eq!(run.state, RunState::Running);
    assert_eq!(run.child_pid, Some(7));
    run.apply_transition(RunTransition::Exit { exit_code: 0, finished_at: later(2) })
        .unwrap();
    assert_eq!(run.state, RunState::Succeeded);
    assert!(run.state.is_terminal());
    let refused = run
        .apply_transition(RunTransition::RequestStop)
        .expect_err("terminal runs stay");
    assert!(refused.message().contains("succeeded"), "{}", refused.message());
    assert_eq!(run.state, RunState::Succeeded);
}

#[test]
fn a_run_can_be_stopped_and_a_spawn_can_fail() {
    let mut stopped = run();
    stopped.mode = RunMode::Background;
    stopped
        .apply_transition(RunTransition::Start {
            worker_pid: Some(6),
            child_pid: 7,
            started_at: later(1),
        })
        .unwrap();
    stopped.apply_transition(RunTransition::RequestStop).unwrap();
    assert!(stopped.state.is_active());
    stopped
        .apply_transition(RunTransition::Stopped { finished_at: later(2), exit_code: Some(143) })
        .unwrap();
    assert_eq!(stopped.state.as_str(), "stopped");

    let mut failed = run();
    failed
        .apply_transition(RunTransition::SpawnFailed {
            worker_pid: None,
            finished_at: later(1),
            error: "no such file".to_owned(),
        })
        .unwrap();
    assert_eq!(failed.state, RunState::Failed);
    assert_eq!(failed.exit_code, None);
    assert_eq!(failed.error.as_deref(), Some("no such file"));
}

#[test]
fn malformed_run_records_reject_unknown_versions_relative_paths_and_missing_identity() {
    let run = run();
    let valid = run.to_value().unwrap();
    assert!(RunRecord::from_value(&valid).is_ok());

    let mut wrong_version = valid.clone();
    set(&mut wrong_version, "schema_version", text("9.9"));
    let mut relative_worktree = valid.clone();
    set(&mut relative_worktree, "worktree", text("relative/path"));
    let mut missing_identity = valid.clone();
    if let Json::Object(members) = &mut missing_identity {
        members.retain(|(name, _)| name != "claim_id");
    }
    let mut interactive_worker = valid.clone();
    set(&mut interactive_worker, "worker_pid", Json::Unsigned(7));
    let mut reversed_time = valid.clone();
    set(&mut reversed_time, "state", text("running"));
    set(&mut reversed_time, "child_pid", Json::Unsigned(8));
    set(&mut reversed_time, "started_at", text("2026-07-10T18:00:00Z"));
    let mut child_without_start = valid;
    set(&mut child_without_start, "child_pid", Json::Unsigned(9));

    for invalid in [
        wrong_version,
        relative_worktree,
        missing_identity,
        interactive_worker,
        reversed_time,
        child_without_start,
    ] {
        assert!(RunRecord::from_value(&invalid).is_err());
    }
}

fn run() -> RunRecord {
    RunRecord {
        schema_version: SCHEMA_VERSION.to_owned(),
        run_id: 31,
        repo: "o/r".to_owned(),
        claim_id: 5,
        issue: 3,
        agent: "codex".to_owned(),
        mode: RunMode::Interactive,
        state: RunState::Queued,
        worktree: "/w".to_owned(),
        worker_pid: None,
        child_pid: None,
        created_at: later(0),
        started_at: None,
        finished_at: None,
        exit_code: None,
        prompt_path: "/s/runs/31/prompt.md".to_owned(),
        stdout_path: "/s/runs/31/stdout.log".to_owned(),
        stderr_path: "/s/runs/31/stderr.log".to_owned(),
        error: None,
    }
}

fn timestamp() -> Timestamp {
    Timestamp { secs: 1783706400, nanos: 0 }
}

fn later(minutes: i64) -> Timestamp {
    Timestamp { secs: 1783706400 + 86400 + 60 * minutes, nanos: 0 }
}

fn text(value: &str) -> Json {
    Json::Text(value.to_owned())
}

fn parse(value: &str) -> Json {
    parse_json(&value.as_bytes().to_vec()).expect("valid JSON")
}

fn set(json: &mut Json, name: &str, value: Json) {
    let Json::Object(members) = json else {
        panic!("no object");
    };
    if find_member(members, name).is_some() {
        for (other, old) in members.iter_mut() {
            if other == name {
                *old = value.clone();
            }
        }
    } else {
        members.push((name.to_owned(), value));
    }
}

#[test]
fn claims_read_back_whatever_instant_they_were_made_at() {
    let edges = [
        (-8_334_601_228_800, 0),
        (-62_167_219_201, 999_999_999),
        (-1, 1_500_000_000),
        (253_402_300_800, 1),
        (1_483_228_799, 1_000_000_000),
        (8_210_266_876_799, 1_999_999_999),
    ];
    for (secs, nanos) in edges {
        let mut claim = Claim::from_value(&valid_claim()).expect("valid claim");
        claim.created_at = Timestamp { secs, nanos };
        let value = claim.to_value().expect("notation");
        let read = Claim::from_value(&value).expect("claim");
        assert_eq!(read.created_at, claim.created_at);
    }
    for (secs, nanos) in [
        (-8_334_601_228_801, 0),
        (8_210_266_876_800, 0),
        (0, 1_000_000_000),
        (59, 2_000_000_000),
    ] {
        let mut claim = Claim::from_value(&valid_claim()).expect("valid claim");
        claim.created_at = Timestamp { secs, nanos };
        assert!(claim.to_value().is_err());
    }
}

fn valid_claim() -> Json {
    let members: Vec<(&str, Json)> = vec![
        ("schema_version", text("0.1")),
        ("claim_id", text("321ba92e-f076-4bc7-bd5b-6cc16cf76277")),
        ("repo", text("z-a-f/fixture")),
        ("issue", Json::Unsigned(7)),
        ("title", text("Build fixture")),
        ("branch", text("envoy/issue-7-321ba92e")),
        ("worktree", text("/tmp/worktree")),
        ("base_remote", text("origin")),
        ("base_ref", text("main")),
        ("base_sha", text("0123456789abcdef")),
        ("base_issue", Json::Null),
        ("base_claim_id", Json::Null),
        ("wait_for", Json::List(vec![])),
        (
            "declared_scope",
            Json::Object(vec![
                ("allowed_paths".to_owned(), Json::List(vec![])),
                ("disallowed_paths".to_owned(), Json::List(vec![])),
            ]),
        ),
        ("note", Json::Null),
        ("created_at", text("2026-07-10T18:00:00Z")),
    ];
    Json::Object(
        members
            .into_iter()
            .map(|(name, value)| (name.to_owned(), value))
            .collect(),
    )
}
