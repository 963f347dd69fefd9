use gh_envoy::cli::{error_exit, status_exit};
use gh_envoy::command::{CommandOutput, CommandRunner, CommandSpec, RunnerError};
use gh_envoy::discovery::{continue_discovery, DiscoveryStep};
use gh_envoy::document::error_document;
use gh_envoy::doctor::{
    doctor_document, doctor_repository, doctor_stack, redact_doctor_paths, render_doctor_human,
};
use gh_envoy::git::{RepositoryContext, RepositoryError};
use gh_envoy::json::{find_member, Json};
use gh_envoy::list::{get_claim_list, render_claim_list_human};
use gh_envoy::model::{Claim, ReleaseMarker, ReleaseReason, SCHEMA_VERSION};
use gh_envoy::observation::{Surroundings, WorktreeEntry};
use gh_envoy::status::{get_status, render_status_human, status_document};
use gh_envoy::store::Ledger;
use gh_envoy::time::Timestamp;
use std::cell::RefCell;

const LOCAL: &str = "/srv/remote.git";

fn ledger(claims: Vec<Claim>) -> Ledger {
    Ledger { claims, releases: vec![], operations: vec![] }
}

fn observed(claim: &Claim) -> FakeRunner {
    let mut runner = FakeRunner::new(vec![]);
    for (line, output) in [
        (
            format!("git rev-parse --verify --quiet {}^{{commit}}", claim.base_sha),
            success(&format!("{}\n", claim.base_sha)),
        ),
        (
            format!("git rev-parse --verify --quiet refs/heads/{}^{{commit}}", claim.branch),
            success("tip\n"),
        ),
        (
            format!("git diff --no-renames --name-status -z {} --", claim.base_sha),
            success(""),
        ),
        (
            "git ls-files --others --exclude-standard -z --".to_owned(),
            success(""),
        ),
    ] {
        runner.answers.push((line, output));
    }
    runner
}

#[test]
fn status_is_identical_from_main_and_secondary_worktrees() {
    let mut claim = claim(11, 7);
    claim.branch = "feature".to_owned();
    claim.worktree = "/work/feature".to_owned();
    let runner = observed(&claim);
    let mut site = surroundings(LOCAL, vec![worktree("/work/feature", "feature")]);
    let records = ledger(vec![claim]);
    let main = get_status(&runner, &site, &records, true).expect("status");
    site.repository.current_worktree = "/work/feature".to_owned();
    site.repository.current_branch = Some("feature".to_owned());
    let secondary = get_status(&runner, &site, &records, true).expect("status");
    assert_eq!(status_exit(&main).code(), 0);
    assert_eq!(render_status_human(&main), render_status_human(&secondary));
    let document = status_document(&main);
    assert_eq!(format!("{document:?}"), format!("{:?}", status_document(&secondary)));
    let shown = &items(member(&document, "claims"))[0];
    assert_eq!(
        text_of(member(member(shown, "claim"), "claim_id")),
        "00000000-0000-0000-0000-000000000007"
    );
    assert_eq!(text_of(member(member(shown, "claim"), "worktree")), "…/feature");
    assert!(matches!(member(shown, "pr"), Json::Null));
    assert_eq!(text_of(member(shown, "github_state")), "unverified");
}

#[test]
fn json_path_redaction_can_be_disabled_without_changing_storage() {
    let claim = claim(12, 7);
    let runner = observed(&claim);
    let site = surroundings(LOCAL, vec![worktree("/work/tree-12", "branch-12")]);
    let records = ledger(vec![claim]);
    let report = get_status(&runner, &site, &records, false).expect("status");
    assert_eq!(status_exit(&report).code(), 0);
    let document = status_document(&report);
    let shown = member(&items(member(&document, "claims"))[0], "claim");
    assert_eq!(text_of(member(shown, "worktree")), "/work/tree-12");
    assert_eq!(records.claims[0].worktree, "/work/tree-12");
}

#[test]
fn released_claims_are_hidden_and_missing_state_warns_with_an_empty_diff() {
    let mut records = ledger(vec![claim(13, 7)]);
    records.releases.push(ReleaseMarker {
        schema_version: SCHEMA_VERSION.to_owned(),
        repo: "o/r".to_owned(),
        issue: 13,
        claim_id: 7,
        reason: ReleaseReason::Merged,
        released_at: timestamp(),
    });
    let site = surroundings(LOCAL, vec![]);
    let hidden = get_status(&FakeRunner::new(vec![]), &site, &records, true).expect("status");
    assert_eq!(status_exit(&hidden).code(), 0);
    assert!(items(member(&status_document(&hidden), "claims")).is_empty());

    let mut missing = claim(14, 8);
    missing.branch = "missing".to_owned();
    missing.worktree = "/secret/root/missing".to_owned();
    let warning = get_status(
        &FakeRunner::new(vec![]),
        &site,
        &ledger(vec![missing]),
        true,
    )
    .expect("status");
    assert_eq!(status_exit(&warning).code(), 1);
    let document = status_document(&warning);
    assert_eq!(text_of(member(&document, "status")), "warning");
    let diff = member(&items(member(&document, "claims"))[0], "diff");
    for list in [
        "changed_paths",
        "added_paths",
        "modified_paths",
        "deleted_paths",
        "untracked_paths",
    ] {
        assert!(items(member(diff, list)).is_empty());
    }
    assert!(items(member(&document, "problems")).iter().any(|problem| {
        let code = text_of(member(problem, "code"));
        code == "missing_branch" || code == "missing_worktree"
    }));
    assert!(!format!("{document:?}").contains("/secret/root"));
}

#[test]
fn status_outside_a_repository_is_an_operational_error() {
    let document = error_document("status", "operational_error", "no repository", false);
    assert_eq!(error_exit(false).code(), 3);
    assert_eq!(text_of(member(&document, "command")), "status");
    assert_eq!(text_of(member(&document, "status")), "error");
    assert_eq!(
        text_of(member(member(&document, "error"), "code")),
        "operational_error"
    );
}

#[test]
fn list_is_read_only_when_no_claims_exist() {
    let list = get_claim_list(&vec![], &vec![], true);
    assert_eq!(render_claim_list_human(&list), "No claims have been recorded.\n");
}

#[test]
fn stack_doctor_reports_a_missing_target_without_creating_store_state() {
    let runner = FakeRunner::new(vec![]);
    let report = doctor_stack(&runner, &surroundings(LOCAL, vec![]), &ledger(vec![]), 1, timestamp())
        .expect("run stack doctor");
    assert_eq!(report.exit_code().code(), 2);
    assert!(render_doctor_human(&report).contains("no active local claim"));
    assert!(runner.calls().is_empty());
}

#[test]
fn doctor_runs_read_only_in_human_and_json_modes() {
    let runner = FakeRunner::new(vec![]);
    let report = doctor_repository(
        &runner,
        &surroundings(LOCAL, vec![]),
        &ledger(vec![]),
        None,
        timestamp(),
    )
    .expect("run doctor");
    assert_eq!(report.exit_code().code(), 0);
    assert!(render_doctor_human(&report).contains("Overall: ok"));
    let document = doctor_document(&redact_doctor_paths(&report));
    assert_eq!(text_of(member(&document, "command")), "doctor");
    assert_eq!(text_of(member(&document, "status")), "ok");
    assert!(runner.calls().is_empty());
}

#[test]
fn doctor_uses_blocked_exit_for_a_missing_requested_claim() {
    let report = doctor_repository(
        &FakeRunner::new(vec![]),
        &surroundings(LOCAL, vec![]),
        &ledger(vec![]),
        Some(99),
        timestamp(),
    )
    .expect("run issue doctor");
    assert_eq!(report.exit_code().code(), 2);
    let document = doctor_document(&report);
    assert_eq!(text_of(member(&document, "status")), "blocked");
    assert_eq!(
        text_of(member(member(member(&document, "doctor"), "gates"), "integrity")),
        "blocked"
    );
}

#[test]
fn json_mode_is_global_and_machine_readable() {
    let report = get_status(
        &FakeRunner::new(vec![]),
        &surroundings(LOCAL, vec![]),
        &ledger(vec![]),
        true,
    )
    .expect("status");
    assert_eq!(status_exit(&report).code(), 0);
    let document = status_document(&report);
    assert_eq!(text_of(member(&document, "schema_version")), "0.1");
    assert_eq!(text_of(member(&document, "command")), "status");
    assert_eq!(text_of(member(&document, "status")), "success");
    assert!(items(member(&document, "claims")).is_empty());
    assert!(items(member(&document, "problems")).is_empty());
}

/// Answers as Git does in the main worktree and in a linked one.
struct WorktreeRunner;

impl CommandRunner for WorktreeRunner {
    fn run(&self, spec: &CommandSpec) -> Result<CommandOutput, RunnerError> {
        let line = spec.args.join(" ");
        let cwd = spec.cwd.clone().unwrap_or_default();
        Ok(if line.contains("--show-toplevel") {
            success(&format!("{cwd}\n"))
        } else if line.contains("--git-common-dir") {
            success("/work/main/.git\n")
        } else if line == "worktree list --porcelain" {
            success("worktree /work/main\n\nworktree /work/linked\n\n")
        } else if line == "remote get-url origin" {
            success("git@github.com:z-a-f/fixture.git\n")
        } else if line == "symbolic-ref --quiet --short HEAD" && cwd == "/work/main" {
            success("main\n")
        } else {
            failure(1, "")
        })
    }
}

/// Discovers a repository whose paths lead to themselves, except for those below `/lost`.
fn discovered(
    runner: &impl CommandRunner,
    cwd: &str,
) -> Result<RepositoryContext, RepositoryError> {
    let mut step = RepositoryContext::discover_with_runner(runner, cwd)?;
    loop {
        match step {
            DiscoveryStep::Found(repository) => return Ok(repository),
            DiscoveryStep::Locate { path, stage } => {
                let place = if path.starts_with("/lost") {
                    Err("no such directory".to_owned())
                } else {
                    Ok(path.clone())
                };
                step = continue_discovery(runner, cwd, "origin", stage, path, place)?;
            }
        }
    }
}

#[test]
fn main_and_linked_worktrees_resolve_the_same_shared_store() {
    let runner = WorktreeRunner;
    let main = discovered(&runner, "/work/main").expect("discover main worktree");
    let secondary = discovered(&runner, "/work/linked").expect("discover linked worktree");

    assert_eq!(main.common_dir, secondary.common_dir);
    assert_eq!(main.main_worktree, secondary.main_worktree);
    assert_ne!(main.current_worktree, secondary.current_worktree);
    assert_eq!(main.store_root(), secondary.store_root());
    assert_eq!(main.repository, "z-a-f/fixture");
    assert_eq!(secondary.remote_name, "origin");
    assert_eq!(main.current_branch.as_deref(), Some("main"));
    assert_eq!(secondary.current_branch, None);
}

#[test]
fn a_path_that_leads_nowhere_ends_the_discovery() {
    match discovered(&WorktreeRunner, "/lost/worktree") {
        Err(RepositoryError::Canonicalize { path, message }) => {
            assert_eq!(path, "/lost/worktree");
            assert_eq!(message, "no such directory");
        }
        other => panic!("{other:?}"),
    }
}

#[test]
fn repository_discovery_reports_git_failures() {
    let error = discovered(&FakeRunner::new(vec![]), "/tmp").expect_err("non-repository must fail");
    assert!(error.message().contains("rev-parse"), "{error:?}");
}

fn member<'a>(json: &'a Json, name: &str) -> &'a Json {
    match json {
        Json::Object(members) => find_member(members, name).expect("member"),
        other => panic!("no object: {other:?}"),
    }
}

fn items(json: &Json) -> &Vec<Json> {
    match json {
        Json::List(items) => items,
        other => panic!("no list: {other:?}"),
    }
}

fn text_of(json: &Json) -> &str {
    match json {
        Json::Text(text) => text,
        other => panic!("no text: {other:?}"),
    }
}

/// Answers commands by what their arguments are.
struct FakeRunner {
    answers: Vec<(String, CommandOutput)>,
    calls: RefCell<Vec<String>>,
}

impl FakeRunner {
    fn new(answers: Vec<(&str, CommandOutput)>) -> Self {
        Self {
            answers: answers
                .into_iter()
                .map(|(line, output)| (line.to_owned(), output))
                .collect(),
            calls: RefCell::new(Vec::new()),
        }
    }

    fn calls(&self) -> Vec<String> {
        self.calls.borrow().clone()
    }
}

impl CommandRunner for FakeRunner {
    fn run(&self, spec: &CommandSpec) -> Result<CommandOutput, RunnerError> {
        let line = format!("{} {}", spec.program, spec.args.join(" "));
        self.calls.borrow_mut().push(line.clone());
        for (wanted, output) in &self.answers {
            if line == *wanted {
                return Ok(CommandOutput {
                    exit_code: output.exit_code,
                    stdout: output.stdout.clone(),
                    stderr: output.stderr.clone(),
                });
            }
        }
        Ok(failure(1, ""))
    }
}

fn success(stdout: &str) -> CommandOutput {
    CommandOutput {
        exit_code: Some(0),
        stdout: stdout.as_bytes().to_vec(),
        stderr: Vec::new(),
    }
}

fn failure(code: i32, stderr: &str) -> CommandOutput {
    CommandOutput {
        exit_code: Some(code),
        stdout: Vec::new(),
        stderr: stderr.as_bytes().to_vec(),
    }
}

fn timestamp() -> Timestamp {
    Timestamp { secs: 1783706400, nanos: 0 }
}

fn claim(number: u64, claim_id: u128) -> Claim {
    Claim {
        schema_version: SCHEMA_VERSION.to_owned(),
        claim_id,
        repo: "o/r".to_owned(),
        issue: number,
        title: None,
        branch: format!("branch-{number}"),
        worktree: format!("/work/tree-{number}"),
        base_remote: "origin".to_owned(),
        base_ref: "main".to_owned(),
        base_sha: format!("sha-{number}"),
        base_issue: None,
        base_claim_id: None,
        wait_for: Vec::new(),
        declared_scope: None,
        note: None,
        created_at: timestamp(),
    }
}

fn surroundings(remote_url: &str, worktrees: Vec<WorktreeEntry>) -> Surroundings {
    let places = worktrees
        .iter()
        .filter_map(|entry| {
            entry
                .canonical
                .as_ref()
                .map(|canonical| (entry.path.clone(), canonical.clone()))
        })
        .collect();
    Surroundings {
        repository: RepositoryContext {
            repository: "o/r".to_owned(),
            remote_name: "origin".to_owned(),
            remote_url: remote_url.to_owned(),
            current_worktree: "/work/main".to_owned(),
            current_branch: Some("main".to_owned()),
            main_worktree: "/work/main".to_owned(),
            common_dir: "/work/main/.git".to_owned(),
        },
        worktrees,
        places,
        risk_paths: Vec::new(),
    }
}

fn worktree(path: &str, branch: &str) -> WorktreeEntry {
    WorktreeEntry {
        path: path.to_owned(),
        branch: Some(branch.to_owned()),
        canonical: Some(path.to_owned()),
    }
}
