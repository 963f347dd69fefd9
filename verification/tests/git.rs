use gh_envoy::command::{CommandOutput, CommandRunner, CommandSpec, RunnerError};
use gh_envoy::discovery::{continue_discovery, DiscoveryStep};
use gh_envoy::git::{
    common_dir_path, current_worktree_path, main_worktree_path, remote_identity, repository_slug,
    without_windows_verbatim_prefix, CliCommandError, GitCli, GithubCli, RepositoryContext,
    RepositoryError,
};
use std::cell::RefCell;

#[test]
fn repository_slug_supports_common_github_remote_forms() {
    for remote in [
        "git@github.com:z-a-f/gh-envoy.git",
        "https://github.com/z-a-f/gh-envoy.git",
        "ssh://git@github.com/z-a-f/gh-envoy.git",
    ] {
        assert_eq!(repository_slug(remote).expect("valid remote"), "z-a-f/gh-envoy");
    }
}

#[test]
fn repository_slug_supports_windows_local_remote_paths() {
    assert_eq!(
        repository_slug(r"C:\Users\runner\fixture\remote.git").expect("valid local remote"),
        "fixture/remote"
    );
}

#[test]
fn repository_slug_refuses_a_remote_without_an_owner() {
    let error = repository_slug("invalid-remote").expect_err("no owner");
    assert!(error.message().contains("owner/repository"));
}

#[test]
fn git_paths_drop_windows_verbatim_prefixes() {
    assert_eq!(
        without_windows_verbatim_prefix(r"\\?\C:\work\fixture"),
        r"C:\work\fixture"
    );
    assert_eq!(
        without_windows_verbatim_prefix(r"\\?\UNC\server\share\fixture"),
        r"\\server\share\fixture"
    );
    assert_eq!(without_windows_verbatim_prefix("/work/fixture"), "/work/fixture");
}

struct Call {
    program: String,
    args: Vec<String>,
    cwd: Option<String>,
}

struct RecordingRunner {
    calls: RefCell<Vec<Call>>,
}

impl CommandRunner for RecordingRunner {
    fn run(&self, spec: &CommandSpec) -> Result<CommandOutput, RunnerError> {
        self.calls.borrow_mut().push(Call {
            program: spec.program.clone(),
            args: spec.args.clone(),
            cwd: spec.cwd.clone(),
        });
        Ok(success("ok\n"))
    }
}

struct ScriptedRunner {
    outputs: RefCell<Vec<CommandOutput>>,
}

impl ScriptedRunner {
    fn new(mut outputs: Vec<CommandOutput>) -> Self {
        outputs.reverse();
        Self { outputs: RefCell::new(outputs) }
    }
}

impl CommandRunner for ScriptedRunner {
    fn run(&self, _spec: &CommandSpec) -> Result<CommandOutput, RunnerError> {
        Ok(self.outputs.borrow_mut().pop().expect("scripted command output"))
    }
}

fn success(stdout: impl Into<Vec<u8>>) -> CommandOutput {
    CommandOutput { exit_code: Some(0), stdout: stdout.into(), stderr: Vec::new() }
}

fn strings(parts: &[&str]) -> Vec<String> {
    parts.iter().map(|part| part.to_string()).collect()
}

#[test]
fn git_and_github_clients_use_structured_commands() {
    let runner = RecordingRunner { calls: RefCell::new(Vec::new()) };
    let cwd = "/tmp/repository";

    GitCli::new(&runner)
        .run(cwd, strings(&["status", "--porcelain=v1"]))
        .expect("fake git succeeds");
    GithubCli::new(&runner)
        .run(cwd, strings(&["issue", "view", "7"]))
        .expect("fake gh succeeds");

    let calls = runner.calls.borrow();
    assert_eq!(calls.len(), 2);
    assert_eq!(calls[0].program, "git");
    assert_eq!(calls[0].args, ["status", "--porcelain=v1"]);
    assert_eq!(calls[0].cwd.as_deref(), Some(cwd));
    assert_eq!(calls[1].program, "gh");
    assert_eq!(calls[1].args, ["issue", "view", "7"]);
}

#[test]
fn cli_adapter_preserves_failed_command_context() {
    let runner = ScriptedRunner::new(vec![CommandOutput {
        exit_code: Some(7),
        stdout: Vec::new(),
        stderr: b"fixture failure\n".to_vec(),
    }]);

    let error = GitCli::new(&runner)
        .run("fixture", strings(&["status", "--short"]))
        .expect_err("nonzero Git command must fail");

    let message = error.message();
    assert!(message.contains("git status --short"), "{message}");
    assert!(message.contains("fixture failure"), "{message}");
    assert_eq!(message, "git status --short failed with exit code Some(7): fixture failure");
}

#[test]
fn failed_commands_keep_bytes_that_are_no_text() {
    let runner = ScriptedRunner::new(vec![CommandOutput {
        exit_code: None,
        stdout: Vec::new(),
        stderr: vec![b'a', 0xff, b'b'],
    }]);
    let error = GitCli::new(&runner).run("x", strings(&["status"])).expect_err("killed");
    assert_eq!(error.message(), "git status failed with exit code None: a\u{fffd}b");
}

#[test]
fn a_runner_that_cannot_start_a_program_says_which() {
    let error = CliCommandError::Runner(RunnerError::Spawn {
        program: "gh".to_owned(),
        message: "not found".to_owned(),
    });
    assert_eq!(error.message(), "failed to start \"gh\": not found");
}

#[test]
fn repository_parts_are_read_from_git_output() {
    let runner = ScriptedRunner::new(vec![
        success("/work/fixture\n"),
        success("/work/fixture/.git\n"),
        success("worktree /work/fixture\nHEAD 0123\nbranch refs/heads/main\n\n"),
        success("git@github.com:z-a-f/fixture.git\n"),
    ]);
    assert_eq!(current_worktree_path(&runner, ".").unwrap(), "/work/fixture");
    assert_eq!(common_dir_path(&runner, ".").unwrap(), "/work/fixture/.git");
    assert_eq!(main_worktree_path(&runner, ".").unwrap(), "/work/fixture");
    let (url, repository) = remote_identity(&runner, ".", "origin", "/work/fixture").unwrap();
    assert_eq!(repository, "z-a-f/fixture");
    assert_eq!(url, "git@github.com:z-a-f/fixture.git");
}

#[test]
fn repository_discovery_rejects_invalid_git_output() {
    let runner = ScriptedRunner::new(vec![success(Vec::new())]);
    let error = main_worktree_path(&runner, ".").expect_err("no worktree");
    assert!(error.message().contains("did not report a worktree"), "{}", error.message());

    let runner = ScriptedRunner::new(vec![success("invalid-remote\n")]);
    let error = remote_identity(&runner, ".", "origin", "/work/fixture").expect_err("no owner");
    assert!(error.message().contains("owner/repository"));

    let runner = ScriptedRunner::new(vec![success(vec![0xff])]);
    let error = current_worktree_path(&runner, ".").expect_err("not UTF-8");
    assert!(error.message().contains("non-UTF-8"));
}

#[test]
fn repository_without_a_remote_uses_a_local_identity() {
    let runner = ScriptedRunner::new(vec![CommandOutput {
        exit_code: Some(2),
        stdout: Vec::new(),
        stderr: b"error: No such remote".to_vec(),
    }]);
    let (url, repository) = remote_identity(&runner, ".", "missing", "/work/fixture").unwrap();
    assert_eq!(repository, "local/fixture");
    assert_eq!(url, "");
}

#[test]
fn a_directory_outside_of_a_worktree_is_told_apart() {
    let outside = RepositoryError::Command(CliCommandError::Failed {
        command: "git rev-parse".to_owned(),
        exit_code: Some(128),
        stderr: "fatal: not a git repository".to_owned(),
    });
    assert!(outside.is_outside_worktree());
    let other = RepositoryError::InvalidOutput("x".to_owned());
    assert!(!other.is_outside_worktree());
    assert_eq!(other.message(), "invalid Git output: x");
    let lost = RepositoryError::Canonicalize {
        path: "/a".to_owned(),
        message: "gone".to_owned(),
    };
    assert_eq!(lost.message(), "failed to canonicalize \"/a\": gone");
}

#[test]
fn a_repository_knows_its_store_and_whether_it_is_on_github() {
    let mut context = RepositoryContext {
        repository: "o/r".to_owned(),
        remote_name: "origin".to_owned(),
        remote_url: "git@github.com:o/r.git".to_owned(),
        current_worktree: "/w".to_owned(),
        current_branch: None,
        main_worktree: "/w".to_owned(),
        common_dir: "/w/.git".to_owned(),
    };
    assert_eq!(context.store_root(), "/w/.git/envoy");
    assert!(context.is_github_remote());
    context.remote_url = "/srv/remote.git".to_owned();
    assert!(!context.is_github_remote());
}

fn discovered(cwd: &str, current: &str) -> RepositoryContext {
    let runner = ScriptedRunner::new(vec![
        success(format!("{current}\n")),
        success("/work/main/.git\n"),
        success("worktree /work/main\nHEAD 1\n\nworktree /work/linked\nHEAD 1\n"),
        success("git@github.com:z-a-f/fixture.git\n"),
        success("main\n"),
    ]);
    let mut step = RepositoryContext::discover_with_runner(&runner, cwd).expect("start");
    loop {
        match step {
            DiscoveryStep::Found(repository) => return repository,
            DiscoveryStep::Locate { path, stage } => {
                let place = Ok(path.clone());
                step = continue_discovery(&runner, cwd, "origin", stage, path, place)
                    .expect("next step");
            }
        }
    }
}

#[test]
fn main_and_linked_worktrees_share_one_store() {
    let main = discovered("/work/main/src", "/work/main");
    let linked = discovered("/work/linked", "/work/linked");
    assert_eq!(main.common_dir, linked.common_dir);
    assert_eq!(main.main_worktree, linked.main_worktree);
    assert_eq!(main.store_root(), linked.store_root());
    assert_eq!(main.store_root(), "/work/main/.git/envoy");
    assert_eq!(main.repository, linked.repository);
    assert_eq!(main.remote_name, "origin");
    assert_ne!(main.current_worktree, linked.current_worktree);
}
