use gh_envoy::command::{CommandOutput, CommandRunner, CommandSpec, RunnerError};
use gh_envoy::doctor::{doctor_repository, CheckStatus, GateRollup};
use gh_envoy::git::RepositoryContext;
use gh_envoy::github::{
    interpret_issue, interpret_pull_request, observe_issue, observe_pull_request,
    GithubIssueError, GithubIssueObservation, GithubIssueState, GithubPullRequestObservation,
    GithubPullRequestState,
};
use gh_envoy::model::{Claim, SCHEMA_VERSION};
use gh_envoy::observation::{Surroundings, WorktreeEntry};
use gh_envoy::status::{get_status, GithubState, PrState};
use gh_envoy::store::Ledger;
use gh_envoy::time::Timestamp;
use std::cell::RefCell;

const ISSUE_10: &str = "gh issue view 10 --repo o/r --json state,title";
const PR_TOPIC: &str = "gh pr list --repo o/r --head topic --state all --json number,url,headRefName,baseRefName,state,isDraft,mergedAt";

fn github_answers() -> Vec<(&'static str, CommandOutput)> {
    vec![
        (ISSUE_10, success(r#"{"state":"CLOSED","title":"Observed title"}"#)),
        (
            PR_TOPIC,
            success(
                r#"[{"number":42,"url":"https://github.com/o/r/pull/42","headRefName":"topic","baseRefName":"main","state":"MERGED","isDraft":false,"mergedAt":"2026-07-10T18:00:00Z"}]"#,
            ),
        ),
    ]
}

struct FailingRunner;

impl CommandRunner for FailingRunner {
    fn run(&self, spec: &CommandSpec) -> Result<CommandOutput, RunnerError> {
        Err(RunnerError::Spawn {
            program: spec.program.clone(),
            message: "missing gh".to_owned(),
        })
    }
}

#[test]
fn missing_github_cli_is_an_unavailable_observation() {
    let observed = observe_issue(&FailingRunner, ".", "owner/repository", 8)
        .expect("a missing gh executable is an offline condition");

    assert!(matches!(observed, GithubIssueObservation::Unavailable));
}

#[test]
fn issue_and_exact_branch_pr_facts_use_only_read_only_github_calls() {
    let runner = FakeRunner::new(github_answers());

    let issue = observe_issue(&runner, ".", "o/r", 10).unwrap();
    let pr = observe_pull_request(&runner, ".", "o/r", "topic").unwrap();

    let GithubIssueObservation::Available(issue) = issue else {
        panic!("issue should be available: {:?}", runner.calls());
    };
    assert_eq!(issue.title, "Observed title");
    assert_eq!(issue.state, GithubIssueState::Closed);
    let GithubPullRequestObservation::Available(Some(pr)) = pr else {
        panic!("pull request should be available: {:?}", runner.calls());
    };
    assert_eq!(pr.number, 42);
    assert_eq!(pr.head, "topic");
    assert_eq!(pr.base, "main");
    assert_eq!(pr.state, GithubPullRequestState::Merged);
    assert!(!pr.draft);

    let calls = runner.calls();
    assert_eq!(calls.len(), 2);
    assert!(calls.iter().all(|call| call.starts_with("gh ")));
    assert!(calls.iter().all(|call| {
        !call.split(' ').any(|arg| {
            matches!(arg, "create" | "edit" | "close" | "merge" | "reopen" | "ready")
        })
    }));
    assert!(calls[1].contains("--head topic"));
}

#[test]
fn a_reachable_missing_issue_is_distinct_from_unavailable_github() {
    let runner = FakeRunner::new(vec![(
        "gh issue view 999 --repo o/r --json state,title",
        failure(1, "could not resolve to an issue with the number of 999"),
    )]);
    let observed = observe_issue(&runner, ".", "o/r", 999).unwrap();

    assert!(matches!(observed, GithubIssueObservation::NotFound));
}

#[test]
fn status_derives_remote_facts_without_rewriting_claims_and_doctor_blocks_wrong_base() {
    let mut answers = github_answers();
    answers.extend(local_answers());
    let runner = FakeRunner::new(answers);
    let site = surroundings(
        "https://github.com/o/r.git",
        vec![worktree("/work/topic", "topic")],
    );
    let ledger = ledger();

    let status = get_status(&runner, &site, &ledger, true).unwrap();

    assert_eq!(
        status.claims[0].claim.title.as_deref(),
        Some("Observed title")
    );
    assert_eq!(status.claims[0].github_state, GithubState::Available);
    assert_eq!(status.claims[0].pr.as_ref().unwrap().state, PrState::Merged);
    assert_eq!(ledger.claims[0].title, None);

    let doctor = doctor_repository(&runner, &site, &ledger, Some(10), timestamp()).unwrap();
    assert_eq!(doctor.gates.publish, GateRollup::Blocked);
    assert!(doctor
        .checks
        .iter()
        .any(|check| check.id == "publish.pr_base" && check.status == CheckStatus::Fail));
    assert!(doctor
        .recommendations
        .iter()
        .any(|recommendation| recommendation.contains("--reason merged")));
    assert!(doctor
        .recommendations
        .iter()
        .any(|recommendation| recommendation.contains("--reason closed")));
}

#[test]
fn doctor_keeps_local_checks_available_when_github_is_offline() {
    let mut answers = local_answers();
    answers.push((ISSUE_10, failure(1, "network unavailable")));
    answers.push((PR_TOPIC, failure(1, "network unavailable")));
    let runner = FakeRunner::new(answers);
    let site = surroundings(
        "https://github.com/o/r.git",
        vec![worktree("/work/topic", "topic")],
    );

    let doctor = doctor_repository(&runner, &site, &ledger(), Some(10), timestamp()).unwrap();

    assert!(doctor.checks.iter().any(|check| {
        check.id == "integrity.claim_schema" && check.status == CheckStatus::Pass
    }));
    assert!(doctor
        .checks
        .iter()
        .any(|check| check.id == "publish.issue_state" && check.status == CheckStatus::Skip));
    assert!(doctor
        .checks
        .iter()
        .any(|check| check.id == "publish.pr_base" && check.status == CheckStatus::Skip));
}

#[test]
fn answers_that_make_no_sense_are_errors() {
    match interpret_issue(Ok(success("not JSON"))) {
        Err(GithubIssueError::Json(_)) => {}
        other => panic!("{other:?}"),
    }
    let unknown = interpret_issue(Ok(success(r#"{"state":"LOCKED","title":"x"}"#)))
        .expect_err("unknown state");
    assert_eq!(
        unknown.message(),
        "GitHub issue query returned unknown state \"LOCKED\""
    );
    let shape = interpret_issue(Ok(success("[]"))).expect_err("no object");
    assert!(shape.message().contains("invalid JSON"));

    let other = interpret_pull_request(
        Ok(success(
            r#"[{"number":1,"url":"u","headRefName":"b","baseRefName":"m","state":"LOCKED","isDraft":true,"mergedAt":null}]"#,
        )),
        "b",
    )
    .expect_err("unknown state");
    assert!(matches!(other, GithubIssueError::UnknownPullRequestState(_)));
}

#[test]
fn only_the_pull_request_of_the_exact_branch_counts() {
    let found = interpret_pull_request(
        Ok(success(
            r#"[{"number":1,"url":"u","headRefName":"other","baseRefName":"m","state":"OPEN","isDraft":true,"mergedAt":null},
               {"number":2,"url":"v","headRefName":"b","baseRefName":"m","state":"CLOSED","isDraft":true,"mergedAt":null}]"#,
        )),
        "b",
    )
    .unwrap();
    let GithubPullRequestObservation::Available(Some(pr)) = found else {
        panic!("a pull request");
    };
    assert_eq!(pr.number, 2);
    assert_eq!(pr.state, GithubPullRequestState::Closed);
    assert!(pr.draft);
    assert!(matches!(
        interpret_pull_request(Ok(success("[]")), "b").unwrap(),
        GithubPullRequestObservation::Available(None)
    ));
    assert!(matches!(
        interpret_pull_request(Ok(failure(1, "offline")), "b").unwrap(),
        GithubPullRequestObservation::Unavailable
    ));
}

#[test]
fn what_is_read_stands_once_and_all_else_is_skipped() {
    let available = |answer: &str| {
        matches!(
            interpret_issue(Ok(success(answer))),
            Ok(GithubIssueObservation::Available(_))
        )
    };
    assert!(available(r#" { "state" : "OPEN" , "title" : "x" } "#));
    assert!(available("[\"OPEN\",\n\"x\"]"));
    assert!(available(r#"{"st\u0061te":"OPEN","title":"x"}"#));
    assert!(available(r#"{"more":1e999,"state":"OPEN","title":"x","more":[2,{}]}"#));
    let deep = format!(
        r#"{{"more":{}{},"state":"OPEN","title":"x"}}"#,
        "[".repeat(500),
        "]".repeat(500)
    );
    assert!(available(&deep));
    for refused in [
        r#"{"state":"OPEN","title":"x","state":"OPEN"}"#,
        r#"{"state":"OPEN","title":"x","st\u0061te":"CLOSED"}"#,
        r#"{"state":"OPEN"}"#,
        r#"{"state":"OPEN","title":1}"#,
        r#"{"state":"OPEN","title":"x",}"#,
        r#"{"state":"OPEN" "title":"x"}"#,
        r#"{"state" "OPEN","title":"x"}"#,
        r#"{"state":"OPEN","title":"x"} x"#,
        r#"{1:"OPEN","title":"x"}"#,
        r#"["OPEN"]"#,
        r#"["OPEN","x","y"]"#,
        r#"["OPEN","x",]"#,
        "{}",
        "null",
        "",
    ] {
        assert!(
            matches!(
                interpret_issue(Ok(success(refused))),
                Err(GithubIssueError::Json(_))
            ),
            "{refused}"
        );
    }
    let twice = r#"[{"number":1,"number":1,"url":"u","headRefName":"b","baseRefName":"m","state":"OPEN","isDraft":true}]"#;
    assert!(interpret_pull_request(Ok(success(twice)), "b").is_err());
    let open = r#"[{"number":1,"url":"u","headRefName":"b","baseRefName":"m","state":"OPEN","isDraft":true}]"#;
    assert!(matches!(
        interpret_pull_request(Ok(success(open)), "b"),
        Ok(GithubPullRequestObservation::Available(Some(_)))
    ));
}

fn local_answers() -> Vec<(&'static str, CommandOutput)> {
    vec![
        ("git rev-parse --verify --quiet sha-10^{commit}", success("sha-10\n")),
        (
            "git rev-parse --verify --quiet refs/heads/topic^{commit}",
            success("sha-11\n"),
        ),
        ("git diff --no-renames --name-status -z sha-10 --", success("")),
        ("git ls-files --others --exclude-standard -z --", success("")),
    ]
}

fn ledger() -> Ledger {
    let mut claim = claim(10, 5);
    claim.branch = "topic".to_owned();
    claim.worktree = "/work/topic".to_owned();
    claim.base_ref = "expected-parent".to_owned();
    claim.base_issue = Some(9);
    claim.base_claim_id = Some(77);
    Ledger { claims: vec![claim], releases: vec![], operations: vec![] }
}

/// Answers commands by what their arguments are.
struct FakeRunner {
    answers: Vec<(String, CommandOutput)>,
    calls: RefCell<Vec<String>>,
}

impl FakeRunner {
    fn new(answers: Vec<(&str, CommandOutput)>) -> Self {
        Self {
            answers: answers
                .into_iter()
                .map(|(line, output)| (line.to_owned(), output))
                .collect(),
            calls: RefCell::new(Vec::new()),
        }
    }

    fn calls(&self) -> Vec<String> {
        self.calls.borrow().clone()
    }
}

impl CommandRunner for FakeRunner {
    fn run(&self, spec: &CommandSpec) -> Result<CommandOutput, RunnerError> {
        let line = format!("{} {}", spec.program, spec.args.join(" "));
        self.calls.borrow_mut().push(line.clone());
        for (wanted, output) in &self.answers {
            if line == *wanted {
                return Ok(CommandOutput {
                    exit_code: output.exit_code,
                    stdout: output.stdout.clone(),
                    stderr: output.stderr.clone(),
                });
            }
        }
        Ok(failure(1, ""))
    }
}

fn success(stdout: &str) -> CommandOutput {
    CommandOutput {
        exit_code: Some(0),
        stdout: stdout.as_bytes().to_vec(),
        stderr: Vec::new(),
    }
}

fn failure(code: i32, stderr: &str) -> CommandOutput {
    CommandOutput {
        exit_code: Some(code),
        stdout: Vec::new(),
        stderr: stderr.as_bytes().to_vec(),
    }
}

fn timestamp() -> Timestamp {
    Timestamp { secs: 1783706400, nanos: 0 }
}

fn claim(number: u64, claim_id: u128) -> Claim {
    Claim {
        schema_version: SCHEMA_VERSION.to_owned(),
        claim_id,
        repo: "o/r".to_owned(),
        issue: number,
        title: None,
        branch: format!("branch-{number}"),
        worktree: format!("/work/tree-{number}"),
        base_remote: "origin".to_owned(),
        base_ref: "main".to_owned(),
        base_sha: format!("sha-{number}"),
        base_issue: None,
        base_claim_id: None,
        wait_for: Vec::new(),
        declared_scope: None,
        note: None,
        created_at: timestamp(),
    }
}

fn surroundings(remote_url: &str, worktrees: Vec<WorktreeEntry>) -> Surroundings {
    let places = worktrees
        .iter()
        .filter_map(|entry| {
            entry
                .canonical
                .as_ref()
                .map(|canonical| (entry.path.clone(), canonical.clone()))
        })
        .collect();
    Surroundings {
        repository: RepositoryContext {
            repository: "o/r".to_owned(),
            remote_name: "origin".to_owned(),
            remote_url: remote_url.to_owned(),
            current_worktree: "/work/main".to_owned(),
            current_branch: Some("main".to_owned()),
            main_worktree: "/work/main".to_owned(),
            common_dir: "/work/main/.git".to_owned(),
        },
        worktrees,
        places,
        risk_paths: Vec::new(),
    }
}

fn worktree(path: &str, branch: &str) -> WorktreeEntry {
    WorktreeEntry {
        path: path.to_owned(),
        branch: Some(branch.to_owned()),
        canonical: Some(path.to_owned()),
    }
}
