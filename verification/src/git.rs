//! Git and GitHub command lines, and what they tell of a repository.
use vstd::prelude::*;
use vstd::string::*;

use crate::command::{
    answers, arguments, command, display_command, displayed, printed, run_in,
    text_from_utf8_output, CommandOutput, CommandRunner, RunnerError,
};
use crate::path::{file_name, join_path, joined_path, name_of};
use crate::text::{
    after_first, after_last, clone_texts, contains, holds, lines, lines_of, lossy, lossy_text,
    optional, quote, quoted, replace, replaced, signed_decimal, signed_decimal_text, split,
    split_text, strip_char, strip_prefix, strip_suffix, stripped, text_after_first, text_after_last,
    trim, trimmed, views, without_prefix, without_suffix,
};

verus! {

/// Why a command line did not succeed.
#[derive(Debug)]
pub enum CliCommandError {
    Runner(RunnerError),
    Failed { command: String, exit_code: Option<i32>, stderr: String },
}

/// An optional exit code, as `Debug` shows it.
pub open spec fn exit_code_text(exit_code: Option<i32>) -> Seq<char> {
    match exit_code {
        Some(code) => "Some("@ + signed_decimal(code as int) + ")"@,
        None => "None"@,
    }
}

fn show_exit_code(exit_code: Option<i32>) -> (text: String)
    ensures
        text@ == exit_code_text(exit_code),
{
    match exit_code {
        Some(code) => {
            let mut text = "Some(".to_owned();
            text.append(signed_decimal_text(code).as_str());
            text.append(")");
            text
        },
        None => "None".to_owned(),
    }
}

impl CliCommandError {
    pub open spec fn text(self) -> Seq<char> {
        match self {
            CliCommandError::Runner(error) => error.text(),
            CliCommandError::Failed { command, exit_code, stderr } => command@
                + " failed with exit code "@ + exit_code_text(exit_code) + ": "@ + stderr@,
        }
    }

    pub fn message(&self) -> (text: String)
        ensures
            text@ == self.text(),
    {
        match self {
            CliCommandError::Runner(error) => error.message(),
            CliCommandError::Failed { command, exit_code, stderr } => {
                let mut text = command.clone();
                text.append(" failed with exit code ");
                text.append(show_exit_code(*exit_code).as_str());
                text.append(": ");
                text.append(stderr.as_str());
                text
            },
        }
    }
}

/// What a command line comes to, by what its runner answered: output where it exited with zero,
/// and else a complaint that names the command, its exit code and what it printed as errors.
pub open spec fn cli_outcome(
    program: Seq<char>,
    args: Seq<Seq<char>>,
    answer: Result<CommandOutput, RunnerError>,
    result: Result<CommandOutput, CliCommandError>,
) -> bool {
    match answer {
        Err(error) => result == Err::<CommandOutput, _>(CliCommandError::Runner(error)),
        Ok(output) => if output.exit_code == Some(0i32) {
            result == Ok::<_, CliCommandError>(output)
        } else {
            result matches Err(CliCommandError::Failed { command, exit_code, stderr }) && command@
                == displayed(program, args) && exit_code == output.exit_code && stderr@ == trimmed(
                lossy(output.stderr@),
            )
        },
    }
}

/// Whether running a command line may come to that result.
pub open spec fn cli_result<R: CommandRunner>(
    runner: &R,
    program: Seq<char>,
    args: Seq<Seq<char>>,
    cwd: Seq<char>,
    result: Result<CommandOutput, CliCommandError>,
) -> bool {
    exists|answer: Result<CommandOutput, RunnerError>| #[trigger]
        answers(runner, command(program, args, cwd), answer) && cli_outcome(
            program,
            args,
            answer,
            result,
        )
}

/// What a command line comes to, by what its runner answered.
pub fn cli_verdict(
    program: &str,
    args: &Vec<String>,
    answer: Result<CommandOutput, RunnerError>,
) -> (result: Result<CommandOutput, CliCommandError>)
    ensures
        cli_outcome(program@, views(args@), answer, result),
{
    match answer {
        Err(error) => Err(CliCommandError::Runner(error)),
        Ok(output) => {
            let success = match output.exit_code {
                Some(code) => code == 0,
                None => false,
            };
            if success {
                Ok(output)
            } else {
                Err(
                    CliCommandError::Failed {
                        command: display_command(program, args),
                        exit_code: output.exit_code,
                        stderr: trim(lossy_text(output.stderr.as_slice()).as_str()),
                    },
                )
            }
        },
    }
}

fn run_cli<R: CommandRunner>(runner: &R, program: &str, cwd: &str, args: Vec<String>) -> (result:
    Result<CommandOutput, CliCommandError>)
    requires
        runner.permits(command(program@, views(args@), cwd@)),
    ensures
        cli_result(runner, program@, views(args@), cwd@, result),
{
    let shown = clone_texts(&args);
    let answer = run_in(runner, program, cwd, args);
    cli_verdict(program, &shown, answer)
}

/// Git, run through a runner.
pub struct GitCli<'a, R: CommandRunner> {
    pub runner: &'a R,
}

impl<'a, R: CommandRunner> GitCli<'a, R> {
    pub fn new(runner: &'a R) -> (git: Self)
        ensures
            git.runner == runner,
    {
        GitCli { runner }
    }

    /// Runs Git; an exit code other than zero is an error.
    pub fn run(&self, cwd: &str, args: Vec<String>) -> (result: Result<
        CommandOutput,
        CliCommandError,
    >)
        requires
            self.runner.permits(command("git"@, views(args@), cwd@)),
        ensures
            cli_result(self.runner, "git"@, views(args@), cwd@, result),
    {
        run_cli(self.runner, "git", cwd, args)
    }

    /// Runs Git, whatever it exits with.
    pub fn attempt(&self, cwd: &str, args: Vec<String>) -> (result: Result<
        CommandOutput,
        RunnerError,
    >)
        requires
            self.runner.permits(command("git"@, views(args@), cwd@)),
        ensures
            answers(self.runner, command("git"@, views(args@), cwd@), result),
    {
        run_in(self.runner, "git", cwd, args)
    }
}

/// The GitHub command line, run through a runner.
pub struct GithubCli<'a, R: CommandRunner> {
    pub runner: &'a R,
}

impl<'a, R: CommandRunner> GithubCli<'a, R> {
    pub fn new(runner: &'a R) -> (github: Self)
        ensures
            github.runner == runner,
    {
        GithubCli { runner }
    }

    /// Runs `gh`; an exit code other than zero is an error.
    pub fn run(&self, cwd: &str, args: Vec<String>) -> (result: Result<
        CommandOutput,
        CliCommandError,
    >)
        requires
            self.runner.permits(command("gh"@, views(args@), cwd@)),
        ensures
            cli_result(self.runner, "gh"@, views(args@), cwd@, result),
    {
        run_cli(self.runner, "gh", cwd, args)
    }

    /// Runs `gh`, whatever it exits with.
    pub fn attempt(&self, cwd: &str, args: Vec<String>) -> (result: Result<
        CommandOutput,
        RunnerError,
    >)
        requires
            self.runner.permits(command("gh"@, views(args@), cwd@)),
        ensures
            answers(self.runner, command("gh"@, views(args@), cwd@), result),
    {
        run_in(self.runner, "gh", cwd, args)
    }
}

// ---------------------------------------------------------------------------------------------
// Repositories
// ---------------------------------------------------------------------------------------------
/// Why a repository could not be made out.
#[derive(Debug)]
pub enum RepositoryError {
    Command(CliCommandError),
    InvalidOutput(String),
    Canonicalize { path: String, message: String },
}

impl RepositoryError {
    pub open spec fn text(self) -> Seq<char> {
        match self {
            RepositoryError::Command(error) => error.text(),
            RepositoryError::InvalidOutput(problem) => "invalid Git output: "@ + problem@,
            RepositoryError::Canonicalize { path, message } => "failed to canonicalize "@ + quoted(
                path@,
            ) + ": "@ + message@,
        }
    }

    pub fn message(&self) -> (text: String)
        ensures
            text@ == self.text(),
    {
        match self {
            RepositoryError::Command(error) => error.message(),
            RepositoryError::InvalidOutput(problem) => {
                let mut text = "invalid Git output: ".to_owned();
                text.append(problem.as_str());
                text
            },
            RepositoryError::Canonicalize { path, message } => {
                let mut text = "failed to canonicalize ".to_owned();
                text.append(quote(path.as_str()).as_str());
                text.append(": ");
                text.append(message.as_str());
                text
            },
        }
    }

    /// Whether Git said that it was not run inside of a worktree.
    pub open spec fn outside_worktree(self) -> bool {
        self matches RepositoryError::Command(CliCommandError::Failed { stderr, .. }) && (holds(
            stderr@,
            "not a git repository"@,
        ) || holds(stderr@, "must be run in a work tree"@))
    }

    pub fn is_outside_worktree(&self) -> (result: bool)
        ensures
            result == self.outside_worktree(),
    {
        match self {
            RepositoryError::Command(CliCommandError::Failed { stderr, .. }) => {
                contains(stderr.as_str(), "not a git repository") || contains(
                    stderr.as_str(),
                    "must be run in a work tree",
                )
            },
            _ => false,
        }
    }
}

/// A repository and the worktree from which it is looked at.
#[derive(Debug)]
pub struct RepositoryContext {
    pub repository: String,
    pub remote_name: String,
    pub remote_url: String,
    pub current_worktree: String,
    pub current_branch: Option<String>,
    pub main_worktree: String,
    pub common_dir: String,
}

impl RepositoryContext {
    /// Where the records of the repository are kept.
    pub open spec fn store_place(self) -> Seq<char> {
        joined_path(self.common_dir@, "envoy"@)
    }

    pub fn store_root(&self) -> (root: String)
        ensures
            root@ == self.store_place(),
    {
        join_path(self.common_dir.as_str(), "envoy")
    }

    /// Whether the remote is on GitHub.
    pub open spec fn on_github(self) -> bool {
        holds(self.remote_url@, "github.com/"@) || holds(self.remote_url@, "github.com:"@)
    }

    pub fn is_github_remote(&self) -> (result: bool)
        ensures
            result == self.on_github(),
    {
        contains(self.remote_url.as_str(), "github.com/") || contains(
            self.remote_url.as_str(),
            "github.com:",
        )
    }
}

/// A path without the prefix by which Windows marks paths that are taken literally.
pub open spec fn plain_path(path: Seq<char>) -> Seq<char> {
    match without_prefix(path, "\\\\?\\UNC\\"@) {
        Some(rest) => "\\\\"@ + rest,
        None => match without_prefix(path, "\\\\?\\"@) {
            Some(rest) => rest,
            None => path,
        },
    }
}

pub fn without_windows_verbatim_prefix(path: &str) -> (result: String)
    ensures
        result@ == plain_path(path@),
{
    match strip_prefix(path, "\\\\?\\UNC\\") {
        Some(rest) => {
            let mut result = "\\\\".to_owned();
            result.append(rest.as_str());
            result
        },
        None => match strip_prefix(path, "\\\\?\\") {
            Some(rest) => rest,
            None => path.to_owned(),
        },
    }
}

/// The part of a remote URL that names the repository on its host: behind the host of a URL with
/// a scheme, else behind the last colon.
pub open spec fn remote_path(url: Seq<char>) -> Seq<char> {
    if holds(url, "://"@) {
        match after_first(url, "://"@) {
            Some(rest) => match after_first(rest, "/"@) {
                Some(path) => path,
                None => url,
            },
            None => url,
        }
    } else {
        match after_last(url, ':') {
            Some(path) => path,
            None => url,
        }
    }
}

/// The path of a repository on its host without `.git`, and then without slashes around it.
pub open spec fn slug_path(path: Seq<char>) -> Seq<char> {
    match without_suffix(stripped(path, '/'), ".git"@) {
        Some(slug) => slug,
        None => path,
    }
}

/// The URL with backslashes as slashes.
pub open spec fn slashed(url: Seq<char>) -> Seq<char> {
    replaced(url, "\\"@, "/"@)
}

/// The owner and the name of the repository that a remote URL leads to.
pub open spec fn slug(url: Seq<char>) -> Option<Seq<char>> {
    let segments = split(slug_path(remote_path(slashed(url))), '/');
    if segments.len() >= 2 && segments.last().len() > 0 && segments[segments.len() - 2].len() > 0 {
        Some(segments[segments.len() - 2] + "/"@ + segments.last())
    } else {
        None
    }
}

pub fn repository_slug(remote_url: &str) -> (result: Result<String, RepositoryError>)
    ensures
        match result {
            Ok(name) => slug(remote_url@) == Some(name@),
            Err(error) => slug(remote_url@) is None && (error matches RepositoryError::InvalidOutput(
                message,
            ) && message@ == "remote URL does not identify an owner/repository: "@ + slashed(
                remote_url@,
            )),
        },
{
    let url = replace(remote_url, "\\", "/");
    let path = if contains(url.as_str(), "://") {
        match text_after_first(url.as_str(), "://") {
            Some(rest) => match text_after_first(rest.as_str(), "/") {
                Some(path) => path,
                None => url.clone(),
            },
            None => url.clone(),
        }
    } else {
        match text_after_last(url.as_str(), ':') {
            Some(path) => path,
            None => url.clone(),
        }
    };
    let name = match strip_suffix(strip_char(path.as_str(), '/').as_str(), ".git") {
        Some(name) => name,
        None => path,
    };
    let segments = split_text(name.as_str(), '/');
    let ghost all = views(segments@);
    let count: usize = segments.len();
    if count >= 2 {
        assert(all.last() == segments@[count - 1]@);
        assert(all[count - 2] == segments@[count - 2]@);
        if !segments[count - 1].as_str().is_empty() && !segments[count - 2].as_str().is_empty() {
            let mut result = segments[count - 2].clone();
            result.append("/");
            result.append(segments[count - 1].as_str());
            return Ok(result);
        }
    }
    let mut message = "remote URL does not identify an owner/repository: ".to_owned();
    message.append(url.as_str());
    Err(RepositoryError::InvalidOutput(message))
}

/// What a command that prints one path comes to.
pub open spec fn path_outcome(
    answer: Result<CommandOutput, CliCommandError>,
    source: Seq<char>,
    result: Result<String, RepositoryError>,
) -> bool {
    match answer {
        Err(error) => result == Err::<String, _>(RepositoryError::Command(error)),
        Ok(output) => match printed(output.stdout@, source) {
            Ok(path) => result matches Ok(found) && found@ == path,
            Err(problem) => result matches Err(RepositoryError::InvalidOutput(message)) && message@
                == problem,
        },
    }
}

/// Reads a path that Git printed.
pub fn interpret_path(
    answer: Result<CommandOutput, CliCommandError>,
    source: &str,
) -> (result: Result<String, RepositoryError>)
    ensures
        path_outcome(answer, source@, result),
{
    match answer {
        Err(error) => Err(RepositoryError::Command(error)),
        Ok(output) => match text_from_utf8_output(&output.stdout, source) {
            Ok(path) => Ok(path),
            Err(problem) => Err(RepositoryError::InvalidOutput(problem)),
        },
    }
}

pub open spec fn toplevel_args() -> Seq<Seq<char>> {
    seq!["rev-parse"@, "--show-toplevel"@]
}

/// Whether Git may be found to name that worktree as the one that a directory belongs to.
pub open spec fn current_worktree_asked<R: CommandRunner>(
    runner: &R,
    cwd: Seq<char>,
    result: Result<String, RepositoryError>,
) -> bool {
    exists|answer: Result<CommandOutput, CliCommandError>| #[trigger]
        cli_result(runner, "git"@, toplevel_args(), cwd, answer) && path_outcome(
            answer,
            "git rev-parse --show-toplevel"@,
            result,
        )
}

/// Asks Git for the worktree that a directory belongs to.
pub fn current_worktree_path<R: CommandRunner>(runner: &R, cwd: &str) -> (result: Result<
    String,
    RepositoryError,
>)
    requires
        runner.permits(command("git"@, toplevel_args(), cwd@)),
    ensures
        current_worktree_asked(runner, cwd@, result),
{
    let args: Vec<&str> = vec!["rev-parse", "--show-toplevel"];
    assert(views(args@) =~= toplevel_args());
    let answer = GitCli::new(runner).run(cwd, arguments(&args));
    interpret_path(answer, "git rev-parse --show-toplevel")
}

pub open spec fn common_dir_args() -> Seq<Seq<char>> {
    seq!["rev-parse"@, "--path-format=absolute"@, "--git-common-dir"@]
}

/// Whether Git may be found to name that directory as the one that all worktrees share.
pub open spec fn common_dir_asked<R: CommandRunner>(
    runner: &R,
    cwd: Seq<char>,
    result: Result<String, RepositoryError>,
) -> bool {
    exists|answer: Result<CommandOutput, CliCommandError>| #[trigger]
        cli_result(runner, "git"@, common_dir_args(), cwd, answer) && path_outcome(
            answer,
            "git rev-parse --path-format=absolute --git-common-dir"@,
            result,
        )
}

/// Asks Git for the directory that all worktrees of a repository share.
pub fn common_dir_path<R: CommandRunner>(runner: &R, cwd: &str) -> (result: Result<
    String,
    RepositoryError,
>)
    requires
        runner.permits(command("git"@, common_dir_args(), cwd@)),
    ensures
        common_dir_asked(runner, cwd@, result),
{
    let args: Vec<&str> = vec!["rev-parse", "--path-format=absolute", "--git-common-dir"];
    assert(views(args@) =~= common_dir_args());
    let answer = GitCli::new(runner).run(cwd, arguments(&args));
    interpret_path(answer, "git rev-parse --path-format=absolute --git-common-dir")
}

/// What stands behind `prefix` in the first of the lines that begins with it.
pub open spec fn first_value(lines: Seq<Seq<char>>, prefix: Seq<char>) -> Option<Seq<char>>
    decreases lines.len(),
{
    if lines.len() == 0 {
        None
    } else {
        match without_prefix(lines[0], prefix) {
            Some(value) => Some(value),
            None => first_value(lines.drop_first(), prefix),
        }
    }
}

fn find_value(lines: &Vec<String>, prefix: &str) -> (value: Option<String>)
    ensures
        optional(value) == first_value(views(lines@), prefix@),
{
    let ghost all = views(lines@);
    let mut i: usize = 0;
    assert(all.skip(0) =~= all);
    while i < lines.len()
        invariant
            i <= lines.len(),
            all == views(lines@),
            first_value(all, prefix@) == first_value(all.skip(i as int), prefix@),
        decreases lines.len() - i,
    {
        assert(all.skip(i as int)[0] == lines@[i as int]@);
        assert(all.skip(i as int).drop_first() =~= all.skip(i + 1));
        if let Some(value) = strip_prefix(lines[i].as_str(), prefix) {
            return Some(value);
        }
        i = i + 1;
    }
    None
}

pub open spec fn worktree_list_args() -> Seq<Seq<char>> {
    seq!["worktree"@, "list"@, "--porcelain"@]
}

/// The main worktree, by what Git lists: the first that it names.
pub open spec fn main_worktree_outcome(
    answer: Result<CommandOutput, CliCommandError>,
    result: Result<String, RepositoryError>,
) -> bool {
    match answer {
        Err(error) => result == Err::<String, _>(RepositoryError::Command(error)),
        Ok(output) => match printed(output.stdout@, "git worktree list --porcelain"@) {
            Ok(text) => match first_value(lines_of(text), "worktree "@) {
                Some(path) => result matches Ok(found) && found@ == path,
                None => result matches Err(RepositoryError::InvalidOutput(message)) && message@
                    == "git worktree list --porcelain did not report a worktree"@,
            },
            Err(problem) => result matches Err(RepositoryError::InvalidOutput(message)) && message@
                == problem,
        },
    }
}

/// Reads the main worktree from what Git lists.
pub fn interpret_main_worktree(answer: Result<CommandOutput, CliCommandError>) -> (result: Result<
    String,
    RepositoryError,
>)
    ensures
        main_worktree_outcome(answer, result),
{
    match answer {
        Err(error) => Err(RepositoryError::Command(error)),
        Ok(output) => match text_from_utf8_output(&output.stdout, "git worktree list --porcelain") {
            Ok(text) => match find_value(&lines(text.as_str()), "worktree ") {
                Some(path) => Ok(path),
                None => Err(
                    RepositoryError::InvalidOutput(
                        "git worktree list --porcelain did not report a worktree".to_owned(),
                    ),
                ),
            },
            Err(problem) => Err(RepositoryError::InvalidOutput(problem)),
        },
    }
}

/// Whether Git may be found to name that worktree as the main one.
pub open spec fn main_worktree_asked<R: CommandRunner>(
    runner: &R,
    cwd: Seq<char>,
    result: Result<String, RepositoryError>,
) -> bool {
    exists|answer: Result<CommandOutput, CliCommandError>| #[trigger]
        cli_result(runner, "git"@, worktree_list_args(), cwd, answer) && main_worktree_outcome(
            answer,
            result,
        )
}

/// Asks Git for the main worktree of a repository.
pub fn main_worktree_path<R: CommandRunner>(runner: &R, cwd: &str) -> (result: Result<
    String,
    RepositoryError,
>)
    requires
        runner.permits(command("git"@, worktree_list_args(), cwd@)),
    ensures
        main_worktree_asked(runner, cwd@, result),
{
    let args: Vec<&str> = vec!["worktree", "list", "--porcelain"];
    assert(views(args@) =~= worktree_list_args());
    let answer = GitCli::new(runner).run(cwd, arguments(&args));
    interpret_main_worktree(answer)
}

pub open spec fn remote_url_args(remote_name: Seq<char>) -> Seq<Seq<char>> {
    seq!["remote"@, "get-url"@, remote_name]
}

/// The URL and the name of a repository: of its remote where it has one, and else a name that is
/// made of the name of its main worktree.
pub open spec fn identity_outcome(
    answer: Result<CommandOutput, CliCommandError>,
    remote_name: Seq<char>,
    main_worktree: Seq<char>,
    result: Result<(String, String), RepositoryError>,
) -> bool {
    match answer {
        Ok(output) => match printed(output.stdout@, "git remote get-url "@ + remote_name) {
            Ok(url) => match slug(url) {
                Some(name) => result matches Ok(found) && found.0@ == url && found.1@ == name,
                None => result matches Err(RepositoryError::InvalidOutput(message)) && message@
                    == "remote URL does not identify an owner/repository: "@ + slashed(url),
            },
            Err(problem) => result matches Err(RepositoryError::InvalidOutput(message)) && message@
                == problem,
        },
        Err(CliCommandError::Failed { .. }) => match name_of(main_worktree) {
            Some(name) => result matches Ok(found) && found.0@ == Seq::<char>::empty() && found.1@
                == "local/"@ + name,
            None => result matches Err(RepositoryError::InvalidOutput(message)) && message@
                == "main worktree does not have a usable repository name"@,
        },
        Err(error) => result == Err::<(String, String), _>(RepositoryError::Command(error)),
    }
}

/// Names a repository by what Git says of its remote.
pub fn interpret_identity(
    answer: Result<CommandOutput, CliCommandError>,
    remote_name: &str,
    main_worktree: &str,
) -> (result: Result<(String, String), RepositoryError>)
    ensures
        identity_outcome(answer, remote_name@, main_worktree@, result),
{
    match answer {
        Ok(output) => {
            let mut source = "git remote get-url ".to_owned();
            source.append(remote_name);
            match text_from_utf8_output(&output.stdout, source.as_str()) {
                Ok(url) => match repository_slug(url.as_str()) {
                    Ok(name) => Ok((url, name)),
                    Err(error) => Err(error),
                },
                Err(problem) => Err(RepositoryError::InvalidOutput(problem)),
            }
        },
        Err(CliCommandError::Failed { .. }) => match file_name(main_worktree) {
            Some(name) => {
                let mut local = "local/".to_owned();
                local.append(name.as_str());
                Ok((String::new(), local))
            },
            None => Err(
                RepositoryError::InvalidOutput(
                    "main worktree does not have a usable repository name".to_owned(),
                ),
            ),
        },
        Err(error) => Err(RepositoryError::Command(error)),
    }
}

/// Whether a repository may be found to have that URL and that name.
pub open spec fn identity_asked<R: CommandRunner>(
    runner: &R,
    cwd: Seq<char>,
    remote_name: Seq<char>,
    main_worktree: Seq<char>,
    result: Result<(String, String), RepositoryError>,
) -> bool {
    exists|answer: Result<CommandOutput, CliCommandError>| #[trigger]
        cli_result(runner, "git"@, remote_url_args(remote_name), cwd, answer) && identity_outcome(
            answer,
            remote_name,
            main_worktree,
            result,
        )
}

/// Asks Git for the remote of a repository, and names the repository.
pub fn remote_identity<R: CommandRunner>(
    runner: &R,
    cwd: &str,
    remote_name: &str,
    main_worktree: &str,
) -> (result: Result<(String, String), RepositoryError>)
    requires
        runner.permits(command("git"@, remote_url_args(remote_name@), cwd@)),
    ensures
        identity_asked(runner, cwd@, remote_name@, main_worktree@, result),
{
    let args: Vec<&str> = vec!["remote", "get-url", remote_name];
    assert(views(args@) =~= remote_url_args(remote_name@));
    let answer = GitCli::new(runner).run(cwd, arguments(&args));
    interpret_identity(answer, remote_name, main_worktree)
}

pub open spec fn head_branch_args() -> Seq<Seq<char>> {
    seq!["symbolic-ref"@, "--quiet"@, "--short"@, "HEAD"@]
}

/// The branch of a worktree, by what Git says of its head: none where it is detached.
pub open spec fn branch_outcome(
    answer: Result<CommandOutput, RunnerError>,
    result: Result<Option<String>, RepositoryError>,
) -> bool {
    match answer {
        Err(error) => result == Err::<Option<String>, _>(
            RepositoryError::Command(CliCommandError::Runner(error)),
        ),
        Ok(output) => if output.exit_code != Some(0i32) {
            result == Ok::<Option<String>, RepositoryError>(None)
        } else {
            match printed(output.stdout@, "git symbolic-ref HEAD"@) {
                Ok(branch) => result matches Ok(Some(found)) && found@ == branch,
                Err(problem) => result matches Err(RepositoryError::InvalidOutput(message))
                    && message@ == problem,
            }
        },
    }
}

/// Reads the branch of a worktree from what Git says of its head.
pub fn interpret_branch(answer: Result<CommandOutput, RunnerError>) -> (result: Result<
    Option<String>,
    RepositoryError,
>)
    ensures
        branch_outcome(answer, result),
{
    match answer {
        Err(error) => Err(RepositoryError::Command(CliCommandError::Runner(error))),
        Ok(output) => {
            let succeeded = match output.exit_code {
                Some(code) => code == 0,
                None => false,
            };
            if !succeeded {
                return Ok(None);
            }
            match text_from_utf8_output(&output.stdout, "git symbolic-ref HEAD") {
                Ok(branch) => Ok(Some(branch)),
                Err(problem) => Err(RepositoryError::InvalidOutput(problem)),
            }
        },
    }
}

/// Whether a worktree may be found to be on that branch.
pub open spec fn branch_asked<R: CommandRunner>(
    runner: &R,
    cwd: Seq<char>,
    result: Result<Option<String>, RepositoryError>,
) -> bool {
    exists|answer: Result<CommandOutput, RunnerError>| #[trigger]
        answers(runner, command("git"@, head_branch_args(), cwd), answer) && branch_outcome(
            answer,
            result,
        )
}

/// Asks Git for the branch of a worktree.
pub fn current_branch<R: CommandRunner>(runner: &R, cwd: &str) -> (result: Result<
    Option<String>,
    RepositoryError,
>)
    requires
        runner.permits(command("git"@, head_branch_args(), cwd@)),
    ensures
        branch_asked(runner, cwd@, result),
{
    let args: Vec<&str> = vec!["symbolic-ref", "--quiet", "--short", "HEAD"];
    assert(views(args@) =~= head_branch_args());
    let answer = GitCli::new(runner).attempt(cwd, arguments(&args));
    interpret_branch(answer)
}

} // verus!
