use gh_envoy::command::{CommandOutput, CommandRunner, CommandSpec, RunnerError};
use gh_envoy::git::RepositoryContext;
use gh_envoy::model::{
    Claim, OperationKind, OperationPhase, OperationRecord, ReleaseMarker, ReleaseReason,
    SCHEMA_VERSION,
};
use gh_envoy::observation::{
    find_entry_at, interpret_commit, list_worktrees, observe_repository, parse_name_status,
    parse_paths, parse_worktrees, LocalProblemCode, ObservationError, Surroundings, WorktreeEntry,
};
use gh_envoy::time::Timestamp;
use std::cell::RefCell;

const LOCAL: &str = "/srv/remote.git";

fn present(runner: &mut FakeRunner, claim: &Claim, diff: &str, untracked: &str) {
    runner.answers.push((
        format!("git rev-parse --verify --quiet {}^{{commit}}", claim.base_sha),
        success(&format!("{}\n", claim.base_sha)),
    ));
    runner.answers.push((
        format!("git rev-parse --verify --quiet refs/heads/{}^{{commit}}", claim.branch),
        success("tip\n"),
    ));
    runner.answers.push((
        format!("git diff --no-renames --name-status -z {} --", claim.base_sha),
        success(diff),
    ));
    runner.answers.push((
        "git ls-files --others --exclude-standard -z --".to_owned(),
        success(untracked),
    ));
}

#[test]
fn stacked_child_diff_excludes_parent_changes_from_every_worktree() {
    let mut parent = claim(11, 1);
    parent.base_sha = "base".to_owned();
    let mut child = claim(12, 2);
    child.base_issue = Some(11);
    child.base_claim_id = Some(1);
    child.base_sha = "parent-tip".to_owned();
    let mut runner = FakeRunner::new(vec![]);
    present(&mut runner, &parent, "A\0parent.txt\0A\0later.txt\0", "");
    present(&mut runner, &child, "", "");
    let mut site = surroundings(
        LOCAL,
        vec![
            worktree("/work/tree-11", "branch-11"),
            worktree("/work/tree-12", "branch-12"),
        ],
    );
    let claims = vec![parent, child];
    let from_main =
        observe_repository(&runner, &site, &claims, &vec![], vec![]).expect("observe main");
    assert!(from_main.claims[1].diff.as_ref().expect("child diff").changed_paths.is_empty());
    assert_eq!(
        from_main.claims[0].diff.as_ref().expect("parent diff").changed_paths,
        ["later.txt", "parent.txt"]
    );

    site.repository.current_worktree = "/work/tree-12".to_owned();
    let from_child =
        observe_repository(&runner, &site, &claims, &vec![], vec![]).expect("observe child");
    assert_eq!(format!("{from_main:?}"), format!("{from_child:?}"));
}

#[test]
fn observation_collects_every_tracked_state_and_excludes_ignored_files() {
    let claim = claim(21, 1);
    let mut runner = FakeRunner::new(vec![]);
    present(
        &mut runner,
        &claim,
        "A\0staged-added.txt\0A\0committed-added.txt\0M\0committed-modified.txt\0\
         D\0committed-deleted.txt\0M\0staged-modified.txt\0D\0staged-deleted.txt\0\
         M\0unstaged-modified.txt\0D\0unstaged-deleted.txt\0",
        "untracked.txt\0 leading-space.txt\0",
    );
    let site = surroundings(LOCAL, vec![worktree("/work/tree-21", "branch-21")]);
    let observation =
        observe_repository(&runner, &site, &vec![claim], &vec![], vec![]).expect("observe");
    let diff = observation.claims[0].diff.as_ref().expect("complete diff");

    assert_eq!(diff.added_paths, ["committed-added.txt", "staged-added.txt"]);
    assert_eq!(
        diff.modified_paths,
        ["committed-modified.txt", "staged-modified.txt", "unstaged-modified.txt"]
    );
    assert_eq!(
        diff.deleted_paths,
        ["committed-deleted.txt", "staged-deleted.txt", "unstaged-deleted.txt"]
    );
    assert_eq!(diff.untracked_paths, [" leading-space.txt", "untracked.txt"]);
    assert_eq!(diff.changed_paths.len(), 8);
    assert!(!diff.changed_paths.iter().any(|path| path == "ignored.log"));
    assert!(runner.calls().iter().any(|call| call.contains("--exclude-standard")));
}

#[test]
fn missing_git_objects_and_worktrees_are_structured_read_only_problems() {
    let mut missing_base = claim(31, 1);
    missing_base.branch = "missing-base".to_owned();
    missing_base.worktree = "/work/missing-base".to_owned();
    missing_base.base_sha = "abcd1234".to_owned();
    let mut missing_worktree = claim(32, 2);
    missing_worktree.branch = "missing-branch".to_owned();
    missing_worktree.worktree = "/work/removed-worktree".to_owned();
    missing_worktree.base_sha = "base".to_owned();
    let mut mismatched = claim(33, 3);
    mismatched.branch = "wrong-branch".to_owned();
    mismatched.worktree = "/work/missing-base".to_owned();
    mismatched.base_sha = "base".to_owned();
    let runner = FakeRunner::new(vec![
        ("git rev-parse --verify --quiet base^{commit}", success("base\n")),
        // The base of the first claim is written short: Git resolves it to another text.
        ("git rev-parse --verify --quiet abcd1234^{commit}", success("abcd1234ffff\n")),
        ("git rev-parse --verify --quiet refs/heads/missing-base^{commit}", success("tip\n")),
        ("git rev-parse --verify --quiet refs/heads/wrong-branch^{commit}", success("tip\n")),
        ("git diff --no-renames --name-status -z base refs/heads/wrong-branch --", success("")),
    ]);
    let site = surroundings(LOCAL, vec![worktree("/work/missing-base", "missing-base")]);

    let observation = observe_repository(
        &runner,
        &site,
        &vec![missing_base, missing_worktree, mismatched],
        &vec![],
        vec![],
    )
    .expect("observe");

    for (code, claim_id) in [
        (LocalProblemCode::MissingBase, 1),
        (LocalProblemCode::MissingBranch, 2),
        (LocalProblemCode::MissingWorktree, 2),
        (LocalProblemCode::WorktreeMismatch, 3),
    ] {
        assert!(
            observation
                .problems
                .iter()
                .any(|problem| problem.code == code && problem.claim_id == Some(claim_id)),
            "{code:?}: {:?}",
            observation.problems
        );
    }
    assert!(observation.claims[0].diff.is_none());
}

#[test]
fn abandoned_operations_are_visible_as_observed_problems() {
    let operation = OperationRecord {
        schema_version: SCHEMA_VERSION.to_owned(),
        operation_id: 900,
        kind: OperationKind::Claim,
        claim_id: 901,
        issue: 41,
        branch: "interrupted".to_owned(),
        worktree: "/work/main".to_owned(),
        phase: OperationPhase::WorktreeCreated,
        started_at: timestamp(),
    };
    let runner = FakeRunner::new(vec![]);
    let observation = observe_repository(
        &runner,
        &surroundings(LOCAL, vec![]),
        &vec![],
        &vec![],
        vec![operation.clone()],
    )
    .expect("observe");
    assert_eq!(
        format!("{:?}", observation.operations),
        format!("{:?}", vec![operation])
    );
    assert!(observation.problems.iter().any(|problem| {
        problem.code == LocalProblemCode::AbandonedOperation && problem.operation_id == Some(900)
    }));
    assert!(runner.calls().is_empty());
}

#[test]
fn released_claims_are_not_observed() {
    let released = claim(1, 1);
    let mut active = claim(2, 2);
    active.worktree = "/work/gone".to_owned();
    let marker = ReleaseMarker {
        schema_version: SCHEMA_VERSION.to_owned(),
        repo: "o/r".to_owned(),
        issue: 1,
        claim_id: 1,
        reason: ReleaseReason::Closed,
        released_at: timestamp(),
    };
    let observation = observe_repository(
        &FakeRunner::new(vec![]),
        &surroundings(LOCAL, vec![]),
        &vec![released, active],
        &vec![marker],
        vec![],
    )
    .expect("observe");
    assert_eq!(observation.claims.len(), 1);
    assert_eq!(observation.claims[0].claim.claim_id, 2);
    assert!(observation.claims[0].diff.is_none());
}

#[test]
fn name_status_output_is_read_pair_by_pair() {
    let diff = parse_name_status(&b"A\0b\0M\0a\0D\0c\0T\0d\0".to_vec()).expect("diff");
    assert_eq!(diff.added_paths, ["b"]);
    assert_eq!(diff.modified_paths, ["a", "d"]);
    assert_eq!(diff.deleted_paths, ["c"]);
    assert_eq!(diff.changed_paths, ["a", "b", "c", "d"]);
    assert!(parse_name_status(&b"A\0b\0M\0".to_vec()).is_err());
    assert!(parse_name_status(&b"\xff\0b\0".to_vec()).is_err());
    assert!(parse_name_status(&vec![]).expect("empty").changed_paths.is_empty());
}

#[test]
fn paths_are_read_without_trimming() {
    assert_eq!(
        parse_paths(&b" a \0b\0".to_vec(), "git ls-files").expect("paths"),
        [" a ", "b"]
    );
    assert!(parse_paths(&b"\xff\0".to_vec(), "git ls-files")
        .expect_err("no UTF-8")
        .contains("git ls-files"));
}

#[test]
fn worktrees_are_read_from_their_porcelain() {
    let output = b"worktree /work/main\0HEAD abc\0branch refs/heads/main\0\0worktree /work/two\0HEAD def\0detached\0\0";
    let entries = parse_worktrees(&output.to_vec()).expect("worktrees");
    assert_eq!(entries.len(), 2);
    assert_eq!(entries[0].path, "/work/main");
    assert_eq!(entries[0].branch.as_deref(), Some("main"));
    assert_eq!(entries[1].path, "/work/two");
    assert_eq!(entries[1].branch, None);
    let runner = FakeRunner::new(vec![(
        "git worktree list --porcelain -z",
        success("worktree /work/main\0branch refs/heads/main\0\0"),
    )]);
    assert_eq!(list_worktrees(&runner, "/work/main").expect("listed").len(), 1);
    assert!(matches!(
        list_worktrees(&FakeRunner::new(vec![]), "/work/main"),
        Err(ObservationError::Git(_))
    ));
    let found = vec![worktree("/work/two", "two")];
    assert!(find_entry_at(&found, "/work/two").is_some());
    assert!(find_entry_at(&found, "/work/three").is_none());
}

#[test]
fn a_commit_is_there_or_not() {
    assert_eq!(
        interpret_commit(Ok(success("abc\n"))).expect("found").as_deref(),
        Some("abc")
    );
    assert_eq!(interpret_commit(Ok(failure(1, ""))).expect("absent"), None);
    assert!(interpret_commit(Err(RunnerError::Spawn {
        program: "git".to_owned(),
        message: "gone".to_owned(),
    }))
    .is_err());
}

/// Answers commands by what their arguments are.
struct FakeRunner {
    answers: Vec<(String, CommandOutput)>,
    calls: RefCell<Vec<String>>,
}

impl FakeRunner {
    fn new(answers: Vec<(&str, CommandOutput)>) -> Self {
        Self {
            answers: answers
                .into_iter()
                .map(|(line, output)| (line.to_owned(), output))
                .collect(),
            calls: RefCell::new(Vec::new()),
        }
    }

    fn calls(&self) -> Vec<String> {
        self.calls.borrow().clone()
    }
}

impl CommandRunner for FakeRunner {
    fn run(&self, spec: &CommandSpec) -> Result<CommandOutput, RunnerError> {
        let line = format!("{} {}", spec.program, spec.args.join(" "));
        self.calls.borrow_mut().push(line.clone());
        for (wanted, output) in &self.answers {
            if line == *wanted {
                return Ok(CommandOutput {
                    exit_code: output.exit_code,
                    stdout: output.stdout.clone(),
                    stderr: output.stderr.clone(),
                });
            }
        }
        Ok(failure(1, ""))
    }
}

fn success(stdout: &str) -> CommandOutput {
    CommandOutput {
        exit_code: Some(0),
        stdout: stdout.as_bytes().to_vec(),
        stderr: Vec::new(),
    }
}

fn failure(code: i32, stderr: &str) -> CommandOutput {
    CommandOutput {
        exit_code: Some(code),
        stdout: Vec::new(),
        stderr: stderr.as_bytes().to_vec(),
    }
}

fn timestamp() -> Timestamp {
    Timestamp { secs: 1783706400, nanos: 0 }
}

fn claim(number: u64, claim_id: u128) -> Claim {
    Claim {
        schema_version: SCHEMA_VERSION.to_owned(),
        claim_id,
        repo: "o/r".to_owned(),
        issue: number,
        title: None,
        branch: format!("branch-{number}"),
        worktree: format!("/work/tree-{number}"),
        base_remote: "origin".to_owned(),
        base_ref: "main".to_owned(),
        base_sha: format!("sha-{number}"),
        base_issue: None,
        base_claim_id: None,
        wait_for: Vec::new(),
        declared_scope: None,
        note: None,
        created_at: timestamp(),
    }
}

fn surroundings(remote_url: &str, worktrees: Vec<WorktreeEntry>) -> Surroundings {
    let places = worktrees
        .iter()
        .filter_map(|entry| {
            entry
                .canonical
                .as_ref()
                .map(|canonical| (entry.path.clone(), canonical.clone()))
        })
        .collect();
    Surroundings {
        repository: RepositoryContext {
            repository: "o/r".to_owned(),
            remote_name: "origin".to_owned(),
            remote_url: remote_url.to_owned(),
            current_worktree: "/work/main".to_owned(),
            current_branch: Some("main".to_owned()),
            main_worktree: "/work/main".to_owned(),
            common_dir: "/work/main/.git".to_owned(),
        },
        worktrees,
        places,
        risk_paths: Vec::new(),
    }
}

fn worktree(path: &str, branch: &str) -> WorktreeEntry {
    WorktreeEntry {
        path: path.to_owned(),
        branch: Some(branch.to_owned()),
        canonical: Some(path.to_owned()),
    }
}
