use gh_envoy::doctor::{
    coordination_checks, doctor_document, redact_doctor_paths, render_doctor_human, rollup_gate,
    CheckGate, CheckStatus, DoctorCheck, DoctorError, DoctorNodeReport, DoctorReport,
    DoctorSubject, GateRollup,
};
use gh_envoy::conflict::{
    DiffOverlap, OverlapConfidence, OverlapRelationship, OverlapSeverity, ScopeWarning,
    ScopeWarningReason,
};
use gh_envoy::exit::EnvoyExitCode;
use gh_envoy::json::{find_member, Json};
use gh_envoy::model::{Claim, WaitForRef, SCHEMA_VERSION};
use gh_envoy::observation::{ClaimObservation, DiffSummary};
use gh_envoy::redaction::{shortened_path, shortened_worktree};
use gh_envoy::time::Timestamp;

#[test]
fn gate_rollup_uses_worst_required_result() {
    assert_eq!(rollup_gate(&vec![]), GateRollup::Okay);
    assert_eq!(rollup_gate(&vec![check(CheckStatus::Pass)]), GateRollup::Okay);
    assert_eq!(rollup_gate(&vec![check(CheckStatus::Skip)]), GateRollup::Okay);
    assert_eq!(
        rollup_gate(&vec![required_check(CheckStatus::Skip)]),
        GateRollup::Error
    );
    assert_eq!(
        rollup_gate(&vec![check(CheckStatus::Warn)]),
        GateRollup::Warning
    );
    assert_eq!(
        rollup_gate(&vec![check(CheckStatus::Fail)]),
        GateRollup::Blocked
    );
    assert_eq!(
        rollup_gate(&vec![check(CheckStatus::Fail), check(CheckStatus::Error)]),
        GateRollup::Error
    );
}

#[test]
fn overall_status_is_worst_gate_and_maps_to_stable_exit_codes() {
    let checks = vec![
        DoctorCheck::new(
            "publish.ready",
            CheckGate::Publish,
            "Publish readiness",
            CheckStatus::Pass,
            "ready".to_owned(),
        ),
        DoctorCheck::new(
            "merge.overlap",
            CheckGate::Merge,
            "Merge overlap",
            CheckStatus::Fail,
            "overlap blocks merge".to_owned(),
        ),
    ];
    let report = DoctorReport::new(subject(), checks, Vec::new(), timestamp());

    assert_eq!(report.gates.publish, GateRollup::Okay);
    assert_eq!(report.gates.merge, GateRollup::Blocked);
    assert_eq!(report.status, GateRollup::Blocked);
    assert_eq!(report.exit_code(), EnvoyExitCode::Blocked);

    assert_eq!(GateRollup::Okay.exit_code(), EnvoyExitCode::Success);
    assert_eq!(GateRollup::Warning.exit_code(), EnvoyExitCode::Warning);
    assert_eq!(
        GateRollup::Error.exit_code(),
        EnvoyExitCode::OperationalError
    );
    assert_eq!(EnvoyExitCode::Success.code(), 0);
    assert_eq!(EnvoyExitCode::Warning.code(), 1);
    assert_eq!(EnvoyExitCode::Blocked.code(), 2);
    assert_eq!(EnvoyExitCode::OperationalError.code(), 3);
    assert_eq!(EnvoyExitCode::Held.code(), 4);
}

#[test]
fn human_report_and_document_are_stable() {
    let checks = vec![
        DoctorCheck::new(
            "integrity.claim_schema",
            CheckGate::Integrity,
            "Claim schema",
            CheckStatus::Pass,
            "claim schema is valid".to_owned(),
        ),
        DoctorCheck::new(
            "publish.remote",
            CheckGate::Publish,
            "Remote verification",
            CheckStatus::Skip,
            "remote checks were not requested".to_owned(),
        ),
        DoctorCheck::new(
            "merge.overlap",
            CheckGate::Merge,
            "Merge overlap",
            CheckStatus::Fail,
            "claim overlaps an unrelated active claim".to_owned(),
        )
        .required()
        .with_evidence(Json::Object(vec![(
            "issues".to_owned(),
            Json::List(vec![Json::Unsigned(12), Json::Unsigned(13)]),
        )])),
        DoctorCheck::new(
            "integrity.operation_journal",
            CheckGate::Integrity,
            "Operation journal",
            CheckStatus::Error,
            "operation journal could not be read".to_owned(),
        )
        .required(),
    ];
    let report = DoctorReport::new(
        subject(),
        checks,
        vec!["repair the operation journal before continuing".to_owned()],
        timestamp(),
    );

    assert_eq!(
        render_doctor_human(&report),
        "Doctor report for local/fixture issue #12\n\n\
         Overall: error\n\
         Gates: integrity=error publish=ok merge=blocked\n\n\
         Checks:\n\
         ✓ [integrity] Claim schema: claim schema is valid\n\
         - [publish] Remote verification: remote checks were not requested\n\
         ✗ [merge] Merge overlap: claim overlaps an unrelated active claim\n\
         × [integrity] Operation journal: operation journal could not be read\n\n\
         Recommendations:\n\
         - repair the operation journal before continuing\n"
    );

    let document = doctor_document(&report);
    let Json::Object(members) = &document else {
        panic!("a document is an object");
    };
    let names: Vec<&str> = members.iter().map(|(name, _)| name.as_str()).collect();
    assert_eq!(names, ["schema_version", "command", "status", "doctor"]);
    assert_eq!(text_of(member(&document, "schema_version")), "0.1");
    assert_eq!(text_of(member(&document, "command")), "doctor");
    assert_eq!(text_of(member(&document, "status")), "error");
    let doctor = member(&document, "doctor");
    assert_eq!(text_of(member(doctor, "generated_at")), "2026-07-10T18:00:00Z");
    let Json::Object(parts) = doctor else {
        panic!("a report is an object");
    };
    let names: Vec<&str> = parts.iter().map(|(name, _)| name.as_str()).collect();
    assert_eq!(
        names,
        ["subject", "status", "gates", "checks", "recommendations", "generated_at"]
    );
    let overlap = item(member(doctor, "checks"), 2);
    let Json::Object(fields) = overlap else {
        panic!("a check is an object");
    };
    let names: Vec<&str> = fields.iter().map(|(name, _)| name.as_str()).collect();
    assert_eq!(
        names,
        ["id", "gate", "title", "status", "required", "message", "evidence"]
    );
    let plain = item(member(doctor, "checks"), 0);
    let Json::Object(fields) = plain else {
        panic!("a check is an object");
    };
    assert_eq!(fields.len(), 5);
}

#[test]
fn json_path_redaction_preserves_human_report_source() {
    let worktree = "/tmp/fixture/feature";
    let journal = "/tmp/fixture/main/.git/envoy/operations/op.json";
    let report = DoctorReport::new(
        subject(),
        vec![DoctorCheck::new(
            "integrity.operation_journal",
            CheckGate::Integrity,
            "Operation journal",
            CheckStatus::Fail,
            format!("cleanup {worktree} before continuing"),
        )
        .with_evidence(Json::Object(vec![
            (
                "recovery".to_owned(),
                Json::Object(vec![
                    (
                        "commands".to_owned(),
                        Json::List(vec![Json::Object(vec![
                            (
                                "args".to_owned(),
                                Json::List(vec![
                                    Json::Text("worktree".to_owned()),
                                    Json::Text("remove".to_owned()),
                                    Json::Text("--".to_owned()),
                                    Json::Text(worktree.to_owned()),
                                ]),
                            ),
                            ("program".to_owned(), Json::Text("git".to_owned())),
                        ])]),
                    ),
                    ("remove_journal".to_owned(), Json::Text(journal.to_owned())),
                ]),
            ),
            ("worktree".to_owned(), Json::Text(worktree.to_owned())),
        ]))],
        vec![format!("Run: git worktree remove -- {worktree}")],
        timestamp(),
    );

    let redacted = redact_doctor_paths(&report);
    let evidence = redacted.checks[0].evidence.as_ref().expect("evidence");

    assert_eq!(
        redacted.checks[0].message,
        "cleanup …/feature before continuing"
    );
    assert_eq!(text_of(member(evidence, "worktree")), "…/feature");
    let recovery = member(evidence, "recovery");
    let command = item(member(recovery, "commands"), 0);
    assert_eq!(text_of(item(member(command, "args"), 3)), "…/feature");
    assert_eq!(text_of(member(recovery, "remove_journal")), "…/op.json");
    assert_eq!(
        redacted.recommendations,
        ["Run: git worktree remove -- …/feature"]
    );
    assert!(report.recommendations[0].contains(worktree));
    assert_eq!(redacted.status, report.status);
}

#[test]
fn paths_are_shortened_to_their_names() {
    assert_eq!(shortened_path("/a/b/name"), "…/name");
    assert_eq!(shortened_path("/"), "…");
    assert_eq!(shortened_worktree("/a/b/name"), "…/name");
    assert_eq!(shortened_worktree("…/name"), "…/name");
    assert_eq!(shortened_worktree(&shortened_worktree("/a/b")), "…/b");
}

#[test]
fn human_renderer_distinguishes_warning_symbol_and_stack_subject() {
    let report = DoctorReport::new(
        DoctorSubject {
            repo: "local/fixture".to_owned(),
            issue: None,
            stack: true,
        },
        vec![check(CheckStatus::Warn)],
        Vec::new(),
        timestamp(),
    );

    let human = render_doctor_human(&report);

    assert!(human.starts_with("Doctor report for local/fixture stack"));
    assert!(human.contains("! [integrity] Example: example result"));
    assert!(human.ends_with("Recommendations:\n- None\n"));
}

#[test]
fn ordered_stack_nodes_roll_up_into_the_aggregate_report() {
    let root_id = id("11111111-1111-4111-8111-111111111111");
    let child_id = id("22222222-2222-4222-8222-222222222222");
    let root = DoctorNodeReport::new(
        11,
        root_id,
        vec![DoctorCheck::new(
            "publish.parent_generation",
            CheckGate::Publish,
            "Parent generation",
            CheckStatus::Pass,
            "root has no parent".to_owned(),
        )],
        Vec::new(),
    );
    let child = DoctorNodeReport::new(
        12,
        child_id,
        vec![DoctorCheck::new(
            "merge.overlap",
            CheckGate::Merge,
            "Diff overlap",
            CheckStatus::Fail,
            "risk-path overlap blocks merge".to_owned(),
        )],
        vec!["resolve overlap before merge".to_owned()],
    );
    let report = DoctorReport::new(
        DoctorSubject {
            repo: "local/fixture".to_owned(),
            issue: Some(12),
            stack: true,
        },
        Vec::new(),
        Vec::new(),
        timestamp(),
    )
    .with_nodes(vec![root, child]);

    assert_eq!(report.status, GateRollup::Blocked);
    assert_eq!(report.gates.publish, GateRollup::Okay);
    assert_eq!(report.gates.merge, GateRollup::Blocked);
    assert_eq!(report.nodes[0].claim_id, root_id);
    assert_eq!(report.nodes[1].claim_id, child_id);
    let value = doctor_document(&report);
    let nodes = member(member(&value, "doctor"), "nodes");
    assert_eq!(number_of(member(item(nodes, 0), "issue")), 11);
    assert_eq!(number_of(member(item(nodes, 1), "issue")), 12);
    assert!(render_doctor_human(&report).contains("\n#11 11111111: ok"));
}

#[test]
fn risk_overlap_blocks_merge_without_blocking_publish() {
    let mut observed = observation(1);
    observed.overlaps.push(DiffOverlap {
        with_issue: 2,
        with_claim_id: 22,
        relationship: OverlapRelationship::Sibling,
        shared_paths: vec!["Cargo.lock".to_owned()],
        confidence: OverlapConfidence::Full,
        severity: OverlapSeverity::Blocking,
        labels: vec!["lockfile".to_owned()],
    });

    let (checks, recommendations) = coordination_checks(&observed);
    assert_eq!(
        recommendations,
        ["Resolve overlap between issue #1 and issue #2 before merge"]
    );
    assert_eq!(
        checks[0].message,
        "sibling overlap with issue #2 generation 00000000 across 1 path(s)"
    );
    let node = DoctorNodeReport::new(
        observed.claim.issue,
        observed.claim.claim_id,
        checks,
        recommendations,
    );

    assert_eq!(node.gates.publish, GateRollup::Okay);
    assert_eq!(node.gates.merge, GateRollup::Blocked);
    assert!(node
        .checks
        .iter()
        .any(|check| check.id == "merge.overlap" && check.status == CheckStatus::Fail));
}

#[test]
fn scope_warns_and_consolidation_diff_is_neutral() {
    let mut observed = observation(3);
    observed.claim.wait_for.push(WaitForRef { issue: 4, claim_id: None });
    observed.scope_warnings.push(ScopeWarning {
        path: "outside/file.rs".to_owned(),
        reason: ScopeWarningReason::OutsideAllowedScope,
    });

    let (checks, _) = coordination_checks(&observed);

    assert!(checks
        .iter()
        .any(|check| check.id == "merge.scope" && check.status == CheckStatus::Warn));
    assert!(checks.iter().any(|check| {
        check.id == "merge.consolidation_diff" && check.status == CheckStatus::Pass
    }));
}

#[test]
fn a_doctor_error_tells_what_git_printed() {
    let error = DoctorError::InvalidGitOutput("x".to_owned());
    assert_eq!(error.message(), "invalid Git output: x");
}

fn observation(number: u64) -> ClaimObservation {
    ClaimObservation {
        claim: claim(number, number as u128),
        diff: Some(DiffSummary {
            changed_paths: vec!["src/lib.rs".to_owned()],
            ..DiffSummary::default()
        }),
        overlaps: Vec::new(),
        scope_warnings: Vec::new(),
    }
}

fn check(status: CheckStatus) -> DoctorCheck {
    DoctorCheck::new(
        "integrity.example",
        CheckGate::Integrity,
        "Example",
        status,
        "example result".to_owned(),
    )
}

fn required_check(status: CheckStatus) -> DoctorCheck {
    check(status).required()
}

fn subject() -> DoctorSubject {
    DoctorSubject {
        repo: "local/fixture".to_owned(),
        issue: Some(12),
        stack: false,
    }
}

fn id(text: &str) -> u128 {
    uuid::Uuid::parse_str(text).unwrap().as_u128()
}

fn claim(number: u64, claim_id: u128) -> Claim {
    Claim {
        schema_version: SCHEMA_VERSION.to_owned(),
        claim_id,
        repo: "local/fixture".to_owned(),
        issue: number,
        title: None,
        branch: format!("branch-{number}"),
        worktree: format!("/tmp/worktree-{number}"),
        base_remote: "origin".to_owned(),
        base_ref: "main".to_owned(),
        base_sha: "base".to_owned(),
        base_issue: None,
        base_claim_id: None,
        wait_for: Vec::new(),
        declared_scope: None,
        note: None,
        created_at: timestamp(),
    }
}

fn timestamp() -> Timestamp {
    Timestamp { secs: 1783706400, nanos: 0 }
}

fn member<'a>(json: &'a Json, name: &str) -> &'a Json {
    match json {
        Json::Object(members) => find_member(members, name).expect("member"),
        other => panic!("no object: {other:?}"),
    }
}

fn item(json: &Json, at: usize) -> &Json {
    match json {
        Json::List(items) => &items[at],
        other => panic!("no list: {other:?}"),
    }
}

fn text_of(json: &Json) -> &str {
    match json {
        Json::Text(text) => text,
        other => panic!("no text: {other:?}"),
    }
}

fn number_of(json: &Json) -> u64 {
    match json {
        Json::Unsigned(number) => *number,
        other => panic!("no number: {other:?}"),
    }
}
