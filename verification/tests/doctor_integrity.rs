use gh_envoy::command::{CommandOutput, CommandRunner, CommandSpec, RunnerError};
use gh_envoy::doctor::{
    doctor_repository, doctor_stack, CheckStatus, DoctorError, DoctorReport, GateRollup,
};
use gh_envoy::examination::unobserved_report;
use gh_envoy::git::RepositoryContext;
use gh_envoy::json::{find_member, Json};
use gh_envoy::model::{
    Claim, DeclaredScope, OperationKind, OperationPhase, OperationRecord, ReleaseMarker,
    ReleaseReason, WaitForRef, SCHEMA_VERSION,
};
use gh_envoy::observation::{ObservationError, Surroundings, WorktreeEntry};
use gh_envoy::store::{load_claims, Ledger, RecordFile, Store};
use gh_envoy::time::Timestamp;
use std::cell::RefCell;

const LOCAL: &str = "/srv/remote.git";

/// What Git says of a claim whose base, branch and worktree are there.
fn healthy(claim: &Claim) -> Vec<(String, CommandOutput)> {
    vec![
        (
            format!("git rev-parse --verify --quiet {}^{{commit}}", claim.base_sha),
            success(&format!("{}\n", claim.base_sha)),
        ),
        (
            format!("git rev-parse --verify --quiet refs/heads/{}^{{commit}}", claim.branch),
            success("tip\n"),
        ),
        (
            format!("git diff --no-renames --name-status -z {} --", claim.base_sha),
            success("M\0src/lib.rs\0"),
        ),
        (
            "git ls-files --others --exclude-standard -z --".to_owned(),
            success(""),
        ),
    ]
}

fn runner_for(claims: &[&Claim]) -> FakeRunner {
    let mut runner = FakeRunner::new(vec![]);
    for claim in claims {
        runner.answers.extend(healthy(claim));
    }
    runner
}

fn ledger(claims: Vec<Claim>) -> Ledger {
    Ledger { claims, releases: vec![], operations: vec![] }
}

fn site_of(claims: &[&Claim]) -> Surroundings {
    surroundings(
        LOCAL,
        claims
            .iter()
            .map(|claim| worktree(&claim.worktree, &claim.branch))
            .collect(),
    )
}

#[test]
fn valid_claim_passes_every_local_integrity_check() {
    let claim = claim(11, 1);
    let runner = runner_for(&[&claim]);
    let site = site_of(&[&claim]);

    let report = doctor_repository(&runner, &site, &ledger(vec![claim]), Some(11), timestamp())
        .expect("run doctor");

    assert_eq!(report.status, GateRollup::Okay);
    for id in [
        "integrity.claim_store",
        "integrity.claim_exists",
        "integrity.claim_schema",
        "integrity.worktree",
        "integrity.branch",
        "integrity.base",
        "integrity.diff",
        "integrity.ownership",
        "integrity.operation_journal",
    ] {
        assert!(
            report
                .checks
                .iter()
                .any(|check| check.id == id && check.status == CheckStatus::Pass),
            "missing passing check {id}: {:?}",
            report.checks
        );
    }
    assert_eq!(report.generated_at, timestamp());
}

#[test]
fn missing_claim_branch_worktree_and_base_block_without_mutation() {
    let mut claim = claim(21, 1);
    claim.branch = "missing-branch".to_owned();
    claim.worktree = "/work/missing-worktree".to_owned();
    claim.base_sha = "deadbeef".to_owned();
    let runner = FakeRunner::new(vec![]);

    let report = doctor_repository(
        &runner,
        &surroundings(LOCAL, vec![]),
        &ledger(vec![claim]),
        Some(21),
        timestamp(),
    )
    .expect("run doctor");

    assert_eq!(report.status, GateRollup::Blocked);
    for id in ["integrity.worktree", "integrity.branch", "integrity.base"] {
        assert!(report.checks.iter().any(|check| {
            check.id == id && check.status == CheckStatus::Fail && check.required
        }));
    }
    assert!(report.checks.iter().any(|check| {
        check.id == "integrity.diff" && check.status == CheckStatus::Skip && !check.required
    }));
    assert!(report.recommendations.iter().any(|recommendation| {
        recommendation == "If issue #21 is stale, run: gh envoy release 21 --reason abandoned"
    }));
    assert!(runner.calls().iter().all(|call| call.starts_with("git rev-parse ")));
}

#[test]
fn issue_filter_still_detects_duplicate_worktree_ownership() {
    let mut first = claim(31, 1);
    let mut second = claim(32, 2);
    for claim in [&mut first, &mut second] {
        claim.branch = "shared".to_owned();
        claim.worktree = "/work/shared".to_owned();
    }
    let runner = runner_for(&[&first, &second]);
    let site = site_of(&[&first]);

    let report =
        doctor_repository(&runner, &site, &ledger(vec![first, second]), Some(31), timestamp())
            .expect("run doctor");

    let check = report
        .checks
        .iter()
        .find(|check| check.id == "integrity.ownership")
        .expect("ownership check");
    assert_eq!(check.status, CheckStatus::Fail);
    let issues = member(check.evidence.as_ref().expect("evidence"), "issues");
    assert!(matches!(
        items(issues).as_slice(),
        [Json::Unsigned(31), Json::Unsigned(32)]
    ));
}

#[test]
fn corrupt_claim_store_is_a_structured_error_check() {
    let store = Store::new("/work/main/.git/envoy".to_owned());
    let error = load_claims(
        &store.claim_issue_directory(41),
        41,
        &vec![RecordFile {
            name: "broken.json".to_owned(),
            bytes: b"{not-json\n".to_vec(),
        }],
    )
    .expect_err("corrupt record");

    let report = unobserved_report(
        &surroundings(LOCAL, vec![]),
        None,
        &ObservationError::Store(error),
        timestamp(),
    );

    assert_eq!(report.status, GateRollup::Error);
    assert!(report.checks.iter().any(|check| {
        check.id == "integrity.claim_store"
            && check.status == CheckStatus::Error
            && check.required
            && check.message.contains("invalid JSON")
    }));
}

#[test]
fn requested_issue_without_an_active_claim_is_blocked() {
    let report = doctor_repository(
        &FakeRunner::new(vec![]),
        &surroundings(LOCAL, vec![]),
        &ledger(vec![]),
        Some(45),
        timestamp(),
    )
    .expect("run doctor");

    assert_eq!(report.status, GateRollup::Blocked);
    assert!(report.checks.iter().any(|check| {
        check.id == "integrity.claim_exists" && check.status == CheckStatus::Fail && check.required
    }));
}

#[test]
fn observation_failure_is_distinct_from_corrupt_store() {
    let mut claim = claim(46, 1);
    claim.declared_scope = Some(DeclaredScope {
        allowed_paths: vec!["[".to_owned()],
        disallowed_paths: Vec::new(),
    });
    let runner = runner_for(&[&claim]);
    let site = site_of(&[&claim]);

    let report = doctor_repository(&runner, &site, &ledger(vec![claim]), Some(46), timestamp())
        .expect("run doctor");

    assert_eq!(report.status, GateRollup::Error);
    assert!(report.checks.iter().any(|check| {
        check.id == "integrity.observation" && check.status == CheckStatus::Error && check.required
    }));
}

#[test]
fn base_and_wait_for_cycles_are_publish_errors() {
    let mut first = claim(47, 1);
    let mut second = claim(48, 2);
    first.base_issue = Some(second.issue);
    first.base_claim_id = Some(second.claim_id);
    second.base_issue = Some(first.issue);
    second.base_claim_id = Some(first.claim_id);
    first.wait_for.push(WaitForRef {
        issue: second.issue,
        claim_id: Some(second.claim_id),
    });
    second.wait_for.push(WaitForRef { issue: first.issue, claim_id: None });
    let runner = runner_for(&[&first, &second]);
    let site = site_of(&[&first, &second]);

    let report =
        doctor_repository(&runner, &site, &ledger(vec![first, second]), None, timestamp())
            .expect("run doctor");

    assert_eq!(report.status, GateRollup::Error);
    for id in ["publish.base_cycle", "publish.wait_for_cycle"] {
        assert_eq!(
            report
                .checks
                .iter()
                .filter(|check| {
                    check.id == id && check.status == CheckStatus::Error && check.required
                })
                .count(),
            1
        );
    }
}

#[test]
fn abandoned_generated_worktree_has_safe_exact_recovery_commands() {
    let claim_id = id("12345678-1111-4111-8111-111111111111");
    let branch = "envoy/issue-51-12345678";
    let operation = operation(51, claim_id, branch, "/work/tree-51", OperationPhase::WorktreeCreated);
    let operation_id = operation.operation_id;
    let runner = FakeRunner::new(vec![
        (
            "git worktree list --porcelain -z",
            success("worktree /work/tree-51\0branch refs/heads/envoy/issue-51-12345678\0\0"),
        ),
        (
            "git rev-parse --verify --quiet refs/heads/envoy/issue-51-12345678^{commit}",
            success("tip\n"),
        ),
    ]);
    let mut records = ledger(vec![]);
    records.operations.push(operation);

    let report = doctor_repository(
        &runner,
        &surroundings(LOCAL, vec![worktree("/work/tree-51", branch)]),
        &records,
        Some(51),
        timestamp(),
    )
    .expect("run doctor");

    let recovery = recovery_of(&report);
    let commands = items(member(recovery, "commands"));
    assert_eq!(commands.len(), 2);
    assert_eq!(text_of(member(&commands[0], "program")), "git");
    assert_eq!(
        texts(member(&commands[0], "args")),
        ["worktree", "remove", "--", "/work/tree-51"]
    );
    assert_eq!(
        texts(member(&commands[1], "args")),
        ["branch", "-d", "--", branch]
    );
    let store = Store::new("/work/main/.git/envoy".to_owned());
    assert_eq!(
        text_of(member(recovery, "remove_journal")),
        store.operation_path(operation_id)
    );
    assert!(report
        .recommendations
        .iter()
        .any(|value| value.contains("git worktree remove --")));
    assert!(report
        .recommendations
        .iter()
        .any(|value| value.contains("only after cleanup succeeds")));
}

#[test]
fn branch_only_and_adopted_operations_get_conservative_recovery() {
    let generated_id = id("87654321-1111-4111-8111-111111111111");
    let generated_branch = "envoy/issue-61-87654321";
    let generated = operation(
        61,
        generated_id,
        generated_branch,
        "/work/never-created",
        OperationPhase::BranchCreated,
    );
    let adopted = operation(
        62,
        9,
        "user-owned-branch",
        "/work/also-not-created",
        OperationPhase::Reserved,
    );
    let runner = FakeRunner::new(vec![
        ("git worktree list --porcelain -z", success("worktree /work/main\0\0")),
        (
            "git rev-parse --verify --quiet refs/heads/envoy/issue-61-87654321^{commit}",
            success("tip\n"),
        ),
        (
            "git rev-parse --verify --quiet refs/heads/user-owned-branch^{commit}",
            success("tip\n"),
        ),
    ]);
    let mut records = ledger(vec![]);
    records.operations = vec![generated, adopted];
    let site = surroundings(LOCAL, vec![]);

    let generated_report =
        doctor_repository(&runner, &site, &records, Some(61), timestamp()).expect("generated");
    let commands = items(member(recovery_of(&generated_report), "commands"));
    assert_eq!(commands.len(), 1);
    assert_eq!(
        texts(member(&commands[0], "args")),
        ["branch", "-d", "--", generated_branch]
    );

    let adopted_report =
        doctor_repository(&runner, &site, &records, Some(62), timestamp()).expect("adopted");
    assert!(items(member(recovery_of(&adopted_report), "commands")).is_empty());
    assert!(adopted_report
        .recommendations
        .iter()
        .any(|value| value.contains("will not recommend deleting")));
}

#[test]
fn committed_claim_operation_retains_git_state_and_only_clears_journal() {
    let mut claim = claim(63, 7);
    claim.branch = "committed".to_owned();
    let runner = runner_for(&[&claim]);
    let site = site_of(&[&claim]);
    let mut records = ledger(vec![claim]);
    records.operations.push(operation(
        63,
        7,
        "committed",
        "/work/tree-63",
        OperationPhase::ClaimCommitted,
    ));

    let report =
        doctor_repository(&runner, &site, &records, Some(63), timestamp()).expect("run doctor");

    assert!(items(member(recovery_of(&report), "commands")).is_empty());
    assert!(report
        .recommendations
        .iter()
        .any(|value| value.contains("committed claim is intact")));
    assert!(!runner.calls().iter().any(|call| call.contains("worktree list")));
}

#[test]
fn stack_reports_go_from_the_root_to_the_target() {
    let parent = claim(1, 1);
    let mut child = claim(2, 2);
    child.base_issue = Some(1);
    child.base_claim_id = Some(1);
    child.base_ref = parent.branch.clone();
    child.base_sha = "tip".to_owned();
    let runner = runner_for(&[&parent, &child]);
    let site = site_of(&[&parent, &child]);

    let report = doctor_stack(&runner, &site, &ledger(vec![parent, child]), 2, timestamp())
        .expect("run stack doctor");

    assert_eq!(
        report.nodes.iter().map(|node| node.issue).collect::<Vec<_>>(),
        [1, 2]
    );
    assert!(report.subject.stack);
    let drift = &report.checks[0];
    assert_eq!(drift.id, "publish.parent_generation");
    assert_eq!(drift.message, "captured parent generation is current");
    assert_eq!(report.gates.publish, GateRollup::Okay);
}

#[test]
fn an_advanced_parent_warns_and_a_rewritten_one_blocks() {
    let parent = claim(1, 1);
    let mut child = claim(2, 2);
    child.base_issue = Some(1);
    child.base_claim_id = Some(1);
    child.base_sha = "older".to_owned();
    let site = site_of(&[&parent, &child]);

    for (code, publish, merge) in [
        (0, GateRollup::Okay, GateRollup::Warning),
        (1, GateRollup::Blocked, GateRollup::Okay),
        (128, GateRollup::Error, GateRollup::Okay),
    ] {
        let mut runner = runner_for(&[&parent, &child]);
        let mut answer = success("");
        answer.exit_code = Some(code);
        runner
            .answers
            .push(("git merge-base --is-ancestor older tip".to_owned(), answer));
        // Both claims change the same path, so only the drift is looked at.
        runner.answers.retain(|(line, _)| !line.starts_with("git diff"));
        runner.answers.push((
            "git diff --no-renames --name-status -z older --".to_owned(),
            success("M\0a\0"),
        ));
        runner.answers.push((
            "git diff --no-renames --name-status -z sha-1 --".to_owned(),
            success("M\0b\0"),
        ));
        let records = ledger(vec![parent.clone(), child.clone()]);
        let report = doctor_stack(&runner, &site, &records, 2, timestamp()).expect("stack");
        assert_eq!(report.gates.publish, publish, "{code}");
        assert_eq!(report.gates.merge, merge, "{code}");
        assert_eq!(
            report.recommendations.iter().any(|value| {
                value == "Restack manually: git -C /work/tree-2 rebase --onto branch-1 older"
            }),
            code == 1
        );
    }
}

#[test]
fn a_released_parent_blocks_publishing() {
    let parent = claim(1, 1);
    let mut child = claim(2, 2);
    child.base_issue = Some(1);
    child.base_claim_id = Some(1);
    let runner = runner_for(&[&parent, &child]);
    let site = site_of(&[&parent, &child]);
    let mut records = ledger(vec![parent, child]);
    records.releases.push(ReleaseMarker {
        schema_version: SCHEMA_VERSION.to_owned(),
        repo: "o/r".to_owned(),
        issue: 1,
        claim_id: 1,
        reason: ReleaseReason::Merged,
        released_at: timestamp(),
    });
    let report = doctor_stack(&runner, &site, &records, 2, timestamp()).expect("stack");
    assert_eq!(report.gates.publish, GateRollup::Blocked);
    assert!(report.recommendations.iter().any(|value| {
        value == "Restack manually: git -C /work/tree-2 rebase --onto origin/main sha-2"
    }));
    assert!(report.nodes[0]
        .checks
        .iter()
        .any(|check| check.message == "this exact stack generation has been released"));
}

#[test]
fn a_missing_target_is_reported() {
    let report = doctor_stack(
        &FakeRunner::new(vec![]),
        &surroundings(LOCAL, vec![]),
        &ledger(vec![]),
        1,
        timestamp(),
    )
    .expect("stack");
    assert_eq!(report.status, GateRollup::Blocked);
    assert!(report.checks[0].message.contains("no active local claim"));
}

struct BrokenRunner;

impl CommandRunner for BrokenRunner {
    fn run(&self, spec: &CommandSpec) -> Result<CommandOutput, RunnerError> {
        Err(RunnerError::Spawn {
            program: spec.program.clone(),
            message: "gone".to_owned(),
        })
    }
}

#[test]
fn a_stack_whose_history_cannot_be_asked_for_is_an_error() {
    let parent = claim(1, 1);
    let mut child = claim(2, 2);
    child.base_issue = Some(1);
    child.base_claim_id = Some(1);
    let site = site_of(&[&parent, &child]);
    match doctor_stack(&BrokenRunner, &site, &ledger(vec![parent, child]), 2, timestamp()) {
        Err(DoctorError::Runner(error)) => assert!(error.message().contains("gone")),
        other => panic!("{other:?}"),
    }
}

fn recovery_of(report: &DoctorReport) -> &Json {
    let check = report
        .checks
        .iter()
        .find(|check| check.id == "integrity.operation_journal")
        .expect("journal check");
    assert_eq!(check.status, CheckStatus::Fail);
    member(check.evidence.as_ref().expect("evidence"), "recovery")
}

fn operation(
    issue: u64,
    claim_id: u128,
    branch: &str,
    worktree: &str,
    phase: OperationPhase,
) -> OperationRecord {
    OperationRecord {
        schema_version: SCHEMA_VERSION.to_owned(),
        operation_id: 1000 + issue as u128,
        kind: OperationKind::Claim,
        claim_id,
        issue,
        branch: branch.to_owned(),
        worktree: worktree.to_owned(),
        phase,
        started_at: timestamp(),
    }
}

fn id(value: &str) -> u128 {
    uuid::Uuid::parse_str(value).unwrap().as_u128()
}

fn member<'a>(json: &'a Json, name: &str) -> &'a Json {
    match json {
        Json::Object(members) => find_member(members, name).expect("member"),
        other => panic!("no object: {other:?}"),
    }
}

fn items(json: &Json) -> &Vec<Json> {
    match json {
        Json::List(items) => items,
        other => panic!("no list: {other:?}"),
    }
}

fn texts(json: &Json) -> Vec<&str> {
    items(json).iter().map(text_of).collect()
}

fn text_of(json: &Json) -> &str {
    match json {
        Json::Text(text) => text,
        other => panic!("no text: {other:?}"),
    }
}

/// Answers commands by what their arguments are.
struct FakeRunner {
    answers: Vec<(String, CommandOutput)>,
    calls: RefCell<Vec<String>>,
}

impl FakeRunner {
    fn new(answers: Vec<(&str, CommandOutput)>) -> Self {
        Self {
            answers: answers
                .into_iter()
                .map(|(line, output)| (line.to_owned(), output))
                .collect(),
            calls: RefCell::new(Vec::new()),
        }
    }

    fn calls(&self) -> Vec<String> {
        self.calls.borrow().clone()
    }
}

impl CommandRunner for FakeRunner {
    fn run(&self, spec: &CommandSpec) -> Result<CommandOutput, RunnerError> {
        let line = format!("{} {}", spec.program, spec.args.join(" "));
        self.calls.borrow_mut().push(line.clone());
        for (wanted, output) in &self.answers {
            if line == *wanted {
                return Ok(CommandOutput {
                    exit_code: output.exit_code,
                    stdout: output.stdout.clone(),
                    stderr: output.stderr.clone(),
                });
            }
        }
        Ok(failure(1, ""))
    }
}

fn success(stdout: &str) -> CommandOutput {
    CommandOutput {
        exit_code: Some(0),
        stdout: stdout.as_bytes().to_vec(),
        stderr: Vec::new(),
    }
}

fn failure(code: i32, stderr: &str) -> CommandOutput {
    CommandOutput {
        exit_code: Some(code),
        stdout: Vec::new(),
        stderr: stderr.as_bytes().to_vec(),
    }
}

fn timestamp() -> Timestamp {
    Timestamp { secs: 1783706400, nanos: 0 }
}

fn claim(number: u64, claim_id: u128) -> Claim {
    Claim {
        schema_version: SCHEMA_VERSION.to_owned(),
        claim_id,
        repo: "o/r".to_owned(),
        issue: number,
        title: None,
        branch: format!("branch-{number}"),
        worktree: format!("/work/tree-{number}"),
        base_remote: "origin".to_owned(),
        base_ref: "main".to_owned(),
        base_sha: format!("sha-{number}"),
        base_issue: None,
        base_claim_id: None,
        wait_for: Vec::new(),
        declared_scope: None,
        note: None,
        created_at: timestamp(),
    }
}

fn surroundings(remote_url: &str, worktrees: Vec<WorktreeEntry>) -> Surroundings {
    let places = worktrees
        .iter()
        .filter_map(|entry| {
            entry
                .canonical
                .as_ref()
                .map(|canonical| (entry.path.clone(), canonical.clone()))
        })
        .collect();
    Surroundings {
        repository: RepositoryContext {
            repository: "o/r".to_owned(),
            remote_name: "origin".to_owned(),
            remote_url: remote_url.to_owned(),
            current_worktree: "/work/main".to_owned(),
            current_branch: Some("main".to_owned()),
            main_worktree: "/work/main".to_owned(),
            common_dir: "/work/main/.git".to_owned(),
        },
        worktrees,
        places,
        risk_paths: Vec::new(),
    }
}

fn worktree(path: &str, branch: &str) -> WorktreeEntry {
    WorktreeEntry {
        path: path.to_owned(),
        branch: Some(branch.to_owned()),
        canonical: Some(path.to_owned()),
    }
}
