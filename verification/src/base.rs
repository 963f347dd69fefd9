//! Bases: the branches, commits and worktrees that a claim is made from, as Git tells of them.
use vstd::prelude::*;
use vstd::string::*;

use crate::command::{
    answers, arguments, command, permits_observing, permits_reading, printed,
    text_from_utf8_output, CommandOutput, CommandRunner, RunnerError,
};
use crate::config::{Config, ConfigView};
use crate::drift::{ancestor_args, ancestor_arguments};
use crate::git::GitCli;
use crate::lifecycle::{complains, refuses, LifecycleError};
use crate::text::{
    lossy, lossy_text, optional, quote, quoted, strip_prefix, trim, trimmed, views, without_prefix,
};

verus! {

/// Whether a runner may answer so when Git is asked.
pub open spec fn git_answers<R: CommandRunner>(
    runner: &R,
    cwd: Seq<char>,
    args: Seq<Seq<char>>,
    answer: Result<CommandOutput, RunnerError>,
) -> bool {
    answers(runner, command("git"@, args, cwd), answer)
}

// ---------------------------------------------------------------------------------------------
// References
// ---------------------------------------------------------------------------------------------
pub open spec fn verify_args(reference: Seq<char>) -> Seq<Seq<char>> {
    seq!["rev-parse"@, "--verify"@, reference]
}

/// What Git says a reference resolves to: nothing, a commit, or what makes no sense.
pub open spec fn lookup_outcome(
    answer: Result<CommandOutput, RunnerError>,
    result: Result<Option<String>, LifecycleError>,
) -> bool {
    match answer {
        Err(error) => result == Err::<Option<String>, _>(LifecycleError::Runner(error)),
        Ok(output) => if output.exit_code != Some(0i32) {
            result == Ok::<Option<String>, LifecycleError>(None)
        } else {
            match printed(output.stdout@, "git rev-parse --verify"@) {
                Err(problem) => result matches Err(error) && complains(error, problem),
                Ok(value) => if value.len() == 0 {
                    result matches Err(error) && complains(
                        error,
                        "git resolved an empty base SHA"@,
                    )
                } else {
                    result matches Ok(Some(found)) && found@ == value
                },
            }
        },
    }
}

/// Whether looking up a reference may come to that result.
pub open spec fn looked_up<R: CommandRunner>(
    runner: &R,
    cwd: Seq<char>,
    reference: Seq<char>,
    result: Result<Option<String>, LifecycleError>,
) -> bool {
    exists|answer: Result<CommandOutput, RunnerError>| #[trigger]
        git_answers(runner, cwd, verify_args(reference), answer) && lookup_outcome(answer, result)
}

/// Reads what Git says a reference resolves to.
pub fn interpret_lookup(answer: Result<CommandOutput, RunnerError>) -> (result: Result<
    Option<String>,
    LifecycleError,
>)
    ensures
        lookup_outcome(answer, result),
{
    let output = match answer {
        Ok(output) => output,
        Err(error) => return Err(LifecycleError::Runner(error)),
    };
    let success = match output.exit_code {
        Some(code) => code == 0,
        None => false,
    };
    if !success {
        return Ok(None);
    }
    match text_from_utf8_output(&output.stdout, "git rev-parse --verify") {
        Err(problem) => Err(LifecycleError::InvalidState(problem)),
        Ok(value) => if value.as_str().is_empty() {
            Err(LifecycleError::InvalidState("git resolved an empty base SHA".to_owned()))
        } else {
            Ok(Some(value))
        },
    }
}

/// The commit that a reference resolves to, if it does.
pub fn resolve_optional<R: CommandRunner>(runner: &R, cwd: &str, reference: &str) -> (result: Result<
    Option<String>,
    LifecycleError,
>)
    requires
        runner.permits(command("git"@, verify_args(reference@), cwd@)),
    ensures
        looked_up(runner, cwd@, reference@, result),
{
    let parts: Vec<&str> = vec!["rev-parse", "--verify", reference];
    let args = arguments(&parts);
    assert(views(args@) =~= verify_args(reference@));
    let answer = GitCli::new(runner).attempt(cwd, args);
    assert(git_answers(runner, cwd@, verify_args(reference@), answer));
    interpret_lookup(answer)
}

/// The commit at the tip of a local branch.
pub open spec fn local_tip(branch: Seq<char>) -> Seq<char> {
    "refs/heads/"@ + branch + "^{commit}"@
}

fn make_local_tip(branch: &str) -> (reference: String)
    ensures
        reference@ == local_tip(branch@),
{
    let mut reference = "refs/heads/".to_owned();
    reference.append(branch);
    reference.append("^{commit}");
    reference
}

/// What a lookup of a local branch comes to: its tip, or a refusal where there is none.
pub open spec fn tip_outcome(
    branch: Seq<char>,
    found: Result<Option<String>, LifecycleError>,
    result: Result<String, LifecycleError>,
) -> bool {
    match found {
        Err(error) => result == Err::<String, _>(error),
        Ok(Some(tip)) => result == Ok::<_, LifecycleError>(tip),
        Ok(None) => result matches Err(error) && refuses(
            error,
            "local branch "@ + quoted(branch) + " does not exist"@,
        ),
    }
}

/// Whether asking for the tip of a local branch may come to that result.
pub open spec fn tip_found<R: CommandRunner>(
    runner: &R,
    cwd: Seq<char>,
    branch: Seq<char>,
    result: Result<String, LifecycleError>,
) -> bool {
    exists|found: Result<Option<String>, LifecycleError>| #[trigger]
        looked_up(runner, cwd, local_tip(branch), found) && tip_outcome(branch, found, result)
}

/// The tip of a local branch.
pub fn resolve_local_branch_tip<R: CommandRunner>(runner: &R, cwd: &str, branch: &str) -> (result:
    Result<String, LifecycleError>)
    requires
        permits_observing(runner),
    ensures
        tip_found(runner, cwd@, branch@, result),
{
    let reference = make_local_tip(branch);
    let found = resolve_optional(runner, cwd, reference.as_str());
    assert(looked_up(runner, cwd@, local_tip(branch@), found));
    match found {
        Err(error) => Err(error),
        Ok(Some(tip)) => Ok(tip),
        Ok(None) => {
            let mut reason = "local branch ".to_owned();
            reason.append(quote(branch).as_str());
            reason.append(" does not exist");
            Err(LifecycleError::Refused(reason))
        },
    }
}

pub open spec fn branch_name_args(branch: Seq<char>) -> Seq<Seq<char>> {
    seq!["check-ref-format"@, "--branch"@, branch]
}

/// Whether checking a local branch may come to that result: it must have a valid name and a tip.
pub open spec fn branch_validated<R: CommandRunner>(
    runner: &R,
    cwd: Seq<char>,
    branch: Seq<char>,
    result: Result<(), LifecycleError>,
) -> bool {
    exists|answer: Result<CommandOutput, RunnerError>| #[trigger]
        git_answers(runner, cwd, branch_name_args(branch), answer) && match answer {
            Err(error) => result == Err::<(), _>(LifecycleError::Runner(error)),
            Ok(output) => if output.exit_code != Some(0i32) {
                result matches Err(error) && refuses(
                    error,
                    "branch "@ + quoted(branch) + " is not a valid local branch name"@,
                )
            } else {
                branch_has_tip(runner, cwd, branch, result)
            },
        }
}

pub open spec fn branch_has_tip<R: CommandRunner>(
    runner: &R,
    cwd: Seq<char>,
    branch: Seq<char>,
    result: Result<(), LifecycleError>,
) -> bool {
    exists|tip: Result<String, LifecycleError>| #[trigger]
        tip_found(runner, cwd, branch, tip) && match tip {
            Ok(_) => result is Ok,
            Err(error) => result == Err::<(), _>(error),
        }
}

/// Refuses a branch that has no valid name or is not there.
pub fn validate_local_branch<R: CommandRunner>(runner: &R, cwd: &str, branch: &str) -> (result: Result<
    (),
    LifecycleError,
>)
    requires
        permits_reading(runner),
    ensures
        branch_validated(runner, cwd@, branch@, result),
{
    let parts: Vec<&str> = vec!["check-ref-format", "--branch", branch];
    let args = arguments(&parts);
    assert(views(args@) =~= branch_name_args(branch@));
    let answer = GitCli::new(runner).attempt(cwd, args);
    assert(git_answers(runner, cwd@, branch_name_args(branch@), answer));
    let output = match answer {
        Ok(output) => output,
        Err(error) => return Err(LifecycleError::Runner(error)),
    };
    let valid = match output.exit_code {
        Some(code) => code == 0,
        None => false,
    };
    if !valid {
        let mut reason = "branch ".to_owned();
        reason.append(quote(branch).as_str());
        reason.append(" is not a valid local branch name");
        return Err(LifecycleError::Refused(reason));
    }
    let tip = resolve_local_branch_tip(runner, cwd, branch);
    assert(tip_found(runner, cwd@, branch@, tip));
    match tip {
        Ok(_) => Ok(()),
        Err(error) => Err(error),
    }
}

/// What Git says of whether a branch contains a base.
pub open spec fn ancestry_outcome(
    base_sha: Seq<char>,
    branch: Seq<char>,
    answer: Result<CommandOutput, RunnerError>,
    result: Result<(), LifecycleError>,
) -> bool {
    match answer {
        Err(error) => result == Err::<(), _>(LifecycleError::Runner(error)),
        Ok(output) => if output.exit_code == Some(0i32) {
            result is Ok
        } else if output.exit_code == Some(1i32) {
            result matches Err(error) && refuses(
                error,
                "branch "@ + quoted(branch) + " does not contain captured base "@ + base_sha,
            )
        } else {
            result matches Err(error) && complains(
                error,
                "git could not validate ancestry for branch "@ + quoted(branch) + ": "@ + trimmed(
                    lossy(output.stderr@),
                ),
            )
        },
    }
}

/// Reads what Git says of whether a branch contains a base.
pub fn interpret_ancestry(
    base_sha: &str,
    branch: &str,
    answer: Result<CommandOutput, RunnerError>,
) -> (result: Result<(), LifecycleError>)
    ensures
        ancestry_outcome(base_sha@, branch@, answer, result),
{
    let output = match answer {
        Ok(output) => output,
        Err(error) => return Err(LifecycleError::Runner(error)),
    };
    let code: i32 = match output.exit_code {
        Some(code) => code,
        None => -1,
    };
    if code == 0 {
        Ok(())
    } else if code == 1 {
        let mut reason = "branch ".to_owned();
        reason.append(quote(branch).as_str());
        reason.append(" does not contain captured base ");
        reason.append(base_sha);
        Err(LifecycleError::Refused(reason))
    } else {
        let mut problem = "git could not validate ancestry for branch ".to_owned();
        problem.append(quote(branch).as_str());
        problem.append(": ");
        problem.append(trim(lossy_text(output.stderr.as_slice()).as_str()).as_str());
        Err(LifecycleError::InvalidState(problem))
    }
}

/// Whether requiring that a branch contains a base may come to that result.
pub open spec fn ancestor_required<R: CommandRunner>(
    runner: &R,
    cwd: Seq<char>,
    base_sha: Seq<char>,
    branch: Seq<char>,
    result: Result<(), LifecycleError>,
) -> bool {
    exists|tip: Result<String, LifecycleError>| #[trigger]
        tip_found(runner, cwd, branch, tip) && match tip {
            Err(error) => result == Err::<(), _>(error),
            Ok(commit) => ancestry_asked(runner, cwd, base_sha, branch, commit@, result),
        }
}

pub open spec fn ancestry_asked<R: CommandRunner>(
    runner: &R,
    cwd: Seq<char>,
    base_sha: Seq<char>,
    branch: Seq<char>,
    tip: Seq<char>,
    result: Result<(), LifecycleError>,
) -> bool {
    exists|answer: Result<CommandOutput, RunnerError>| #[trigger]
        git_answers(runner, cwd, ancestor_args(base_sha, tip), answer) && ancestry_outcome(
            base_sha,
            branch,
            answer,
            result,
        )
}

/// Refuses a branch that does not contain a base.
pub fn require_ancestor<R: CommandRunner>(
    runner: &R,
    cwd: &str,
    base_sha: &str,
    branch: &str,
) -> (result: Result<(), LifecycleError>)
    requires
        permits_observing(runner),
    ensures
        ancestor_required(runner, cwd@, base_sha@, branch@, result),
{
    let found = resolve_local_branch_tip(runner, cwd, branch);
    assert(tip_found(runner, cwd@, branch@, found));
    let tip = match found {
        Ok(tip) => tip,
        Err(error) => return Err(error),
    };
    let answer = GitCli::new(runner).attempt(cwd, ancestor_arguments(base_sha, tip.as_str()));
    assert(git_answers(runner, cwd@, ancestor_args(base_sha@, tip@), answer));
    interpret_ancestry(base_sha, branch, answer)
}

// ---------------------------------------------------------------------------------------------
// The base of a claim on its own
// ---------------------------------------------------------------------------------------------
pub open spec fn remote_head_args(remote: Seq<char>) -> Seq<Seq<char>> {
    seq!["symbolic-ref"@, "--quiet"@, "--short"@, "refs/remotes/"@ + remote + "/HEAD"@]
}

/// The branch that a remote points to, where Git knows it.
pub open spec fn head_of(remote: Seq<char>, answer: Result<CommandOutput, RunnerError>) -> Option<
    Seq<char>,
> {
    match answer {
        Err(_) => None,
        Ok(output) => if output.exit_code != Some(0i32) {
            None
        } else {
            match printed(output.stdout@, "git symbolic-ref"@) {
                Err(_) => None,
                Ok(value) => without_prefix(value, remote + "/"@),
            }
        },
    }
}

/// Reads which branch a remote points to.
pub fn interpret_head(remote: &str, answer: Result<CommandOutput, RunnerError>) -> (head: Option<
    String,
>)
    ensures
        optional(head) == head_of(remote@, answer),
{
    let output = match answer {
        Ok(output) => output,
        Err(_) => return None,
    };
    let success = match output.exit_code {
        Some(code) => code == 0,
        None => false,
    };
    if !success {
        return None;
    }
    match text_from_utf8_output(&output.stdout, "git symbolic-ref") {
        Err(_) => None,
        Ok(value) => {
            let mut prefix = remote.to_owned();
            prefix.append("/");
            strip_prefix(value.as_str(), prefix.as_str())
        },
    }
}

pub open spec fn remote_head_seen<R: CommandRunner>(
    runner: &R,
    cwd: Seq<char>,
    remote: Seq<char>,
    head: Option<Seq<char>>,
) -> bool {
    exists|answer: Result<CommandOutput, RunnerError>| #[trigger]
        git_answers(runner, cwd, remote_head_args(remote), answer) && head == head_of(
            remote,
            answer,
        )
}

/// The branch that a remote points to, where Git knows it.
pub fn remote_head<R: CommandRunner>(runner: &R, cwd: &str, remote: &str) -> (head: Option<String>)
    requires
        runner.permits(command("git"@, remote_head_args(remote@), cwd@)),
    ensures
        remote_head_seen(runner, cwd@, remote@, optional(head)),
{
    let mut symbolic = "refs/remotes/".to_owned();
    symbolic.append(remote);
    symbolic.append("/HEAD");
    let parts: Vec<&str> = vec!["symbolic-ref", "--quiet", "--short", symbolic.as_str()];
    let args = arguments(&parts);
    assert(views(args@) =~= remote_head_args(remote@));
    let answer = GitCli::new(runner).attempt(cwd, args);
    assert(git_answers(runner, cwd@, remote_head_args(remote@), answer));
    interpret_head(remote, answer)
}

/// What a claim starts from.
#[derive(Debug)]
pub struct ResolvedBase {
    pub remote: String,
    pub reference: String,
    pub sha: String,
    pub warnings: Vec<String>,
}

pub struct BaseView {
    pub remote: Seq<char>,
    pub reference: Seq<char>,
    pub sha: Seq<char>,
    pub warnings: Seq<Seq<char>>,
}

impl View for ResolvedBase {
    type V = BaseView;

    open spec fn view(&self) -> BaseView {
        BaseView {
            remote: self.remote@,
            reference: self.reference@,
            sha: self.sha@,
            warnings: views(self.warnings@),
        }
    }
}

/// Whether that branch may be the base: the configured one, else the one that the remote points
/// to, else `main`.
pub open spec fn base_ref_chosen<R: CommandRunner>(
    runner: &R,
    cwd: Seq<char>,
    config: ConfigView,
    reference: Seq<char>,
) -> bool {
    match config.default_base_ref {
        Some(configured) => reference == configured,
        None => exists|head: Option<Seq<char>>| #[trigger]
            remote_head_seen(runner, cwd, config.base_remote, head) && reference == (match head {
                Some(branch) => branch,
                None => "main"@,
            }),
    }
}

fn choose_base_ref<R: CommandRunner>(runner: &R, cwd: &str, config: &Config) -> (reference: String)
    requires
        config@.default_base_ref is None ==> runner.permits(
            command("git"@, remote_head_args(config@.base_remote), cwd@),
        ),
    ensures
        base_ref_chosen(runner, cwd@, config@, reference@),
{
    match &config.default_base_ref {
        Some(configured) => configured.clone(),
        None => {
            let head = remote_head(runner, cwd, config.base_remote.as_str());
            assert(remote_head_seen(runner, cwd@, config@.base_remote, optional(head)));
            match head {
                Some(branch) => branch,
                None => "main".to_owned(),
            }
        },
    }
}

pub open spec fn fetch_args(remote: Seq<char>, reference: Seq<char>) -> Seq<Seq<char>> {
    seq!["fetch"@, remote, reference]
}

/// The tip of a remote-tracking branch.
pub open spec fn remote_tip(remote: Seq<char>, reference: Seq<char>) -> Seq<char> {
    "refs/remotes/"@ + remote + "/"@ + reference + "^{commit}"@
}

pub open spec fn stale_warning(remote: Seq<char>, reference: Seq<char>) -> Seq<char> {
    "could not refresh "@ + remote + "/"@ + reference
        + "; using the existing remote-tracking branch"@
}

pub open spec fn local_base_warning(
    remote: Seq<char>,
    reference: Seq<char>,
    sha: Seq<char>,
) -> Seq<char> {
    "base "@ + remote + "/"@ + reference + " is unverified; using local branch "@ + reference
        + " at "@ + sha
}

/// The base at a remote-tracking branch, which could be refreshed or not.
pub open spec fn tracking_base(
    remote: Seq<char>,
    reference: Seq<char>,
    sha: Seq<char>,
    refreshed: bool,
) -> BaseView {
    BaseView {
        remote,
        reference,
        sha,
        warnings: if refreshed {
            Seq::empty()
        } else {
            seq![stale_warning(remote, reference)]
        },
    }
}

/// The base at a local branch.
pub open spec fn local_base(
    remote: Seq<char>,
    reference: Seq<char>,
    sha: Seq<char>,
) -> BaseView {
    BaseView {
        remote,
        reference,
        sha,
        warnings: seq![local_base_warning(remote, reference, sha)],
    }
}

/// Whether resolving a base may come to that result: the base branch is chosen and fetched. Its
/// remote-tracking branch is the base, with a warning where it could not be refreshed; else the
/// local branch, with a warning; else there is none.
pub open spec fn base_resolved<R: CommandRunner>(
    runner: &R,
    cwd: Seq<char>,
    config: ConfigView,
    result: Result<ResolvedBase, LifecycleError>,
) -> bool {
    exists|reference: Seq<char>| #[trigger]
        base_ref_chosen(runner, cwd, config, reference) && base_fetched(
            runner,
            cwd,
            config.base_remote,
            reference,
            result,
        )
}

pub open spec fn base_fetched<R: CommandRunner>(
    runner: &R,
    cwd: Seq<char>,
    remote: Seq<char>,
    reference: Seq<char>,
    result: Result<ResolvedBase, LifecycleError>,
) -> bool {
    exists|answer: Result<CommandOutput, RunnerError>| #[trigger]
        git_answers(runner, cwd, fetch_args(remote, reference), answer) && match answer {
            Err(error) => result == Err::<ResolvedBase, _>(LifecycleError::Runner(error)),
            Ok(output) => base_tracked(
                runner,
                cwd,
                remote,
                reference,
                output.exit_code == Some(0i32),
                result,
            ),
        }
}

pub open spec fn base_tracked<R: CommandRunner>(
    runner: &R,
    cwd: Seq<char>,
    remote: Seq<char>,
    reference: Seq<char>,
    refreshed: bool,
    result: Result<ResolvedBase, LifecycleError>,
) -> bool {
    exists|found: Result<Option<String>, LifecycleError>| #[trigger]
        looked_up(runner, cwd, remote_tip(remote, reference), found) && match found {
            Err(error) => result == Err::<ResolvedBase, _>(error),
            Ok(Some(sha)) => result matches Ok(base) && base@ == tracking_base(
                remote,
                reference,
                sha@,
                refreshed,
            ),
            Ok(None) => base_local(runner, cwd, remote, reference, result),
        }
}

pub open spec fn base_local<R: CommandRunner>(
    runner: &R,
    cwd: Seq<char>,
    remote: Seq<char>,
    reference: Seq<char>,
    result: Result<ResolvedBase, LifecycleError>,
) -> bool {
    exists|found: Result<Option<String>, LifecycleError>| #[trigger]
        looked_up(runner, cwd, local_tip(reference), found) && match found {
            Err(error) => result == Err::<ResolvedBase, _>(error),
            Ok(Some(sha)) => result matches Ok(base) && base@ == local_base(
                remote,
                reference,
                sha@,
            ),
            Ok(None) => result matches Err(
                LifecycleError::BaseUnavailable { remote: r, reference: b },
            ) && r@ == remote && b@ == reference,
        }
}

fn fetch_base<R: CommandRunner>(runner: &R, cwd: &str, remote: &str, reference: &str) -> (answer: Result<
    CommandOutput,
    RunnerError,
>)
    requires
        runner.permits(command("git"@, fetch_args(remote@, reference@), cwd@)),
    ensures
        git_answers(runner, cwd@, fetch_args(remote@, reference@), answer),
{
    let parts: Vec<&str> = vec!["fetch", remote, reference];
    let args = arguments(&parts);
    assert(views(args@) =~= fetch_args(remote@, reference@));
    GitCli::new(runner).attempt(cwd, args)
}

fn local_base_at<R: CommandRunner>(runner: &R, cwd: &str, remote: &str, reference: &str) -> (result:
    Result<ResolvedBase, LifecycleError>)
    requires
        runner.permits(command("git"@, verify_args(local_tip(reference@)), cwd@)),
    ensures
        base_local(runner, cwd@, remote@, reference@, result),
{
    let name = make_local_tip(reference);
    let found = resolve_optional(runner, cwd, name.as_str());
    assert(looked_up(runner, cwd@, local_tip(reference@), found));
    match found {
        Err(error) => Err(error),
        Ok(None) => Err(
            LifecycleError::BaseUnavailable {
                remote: remote.to_owned(),
                reference: reference.to_owned(),
            },
        ),
        Ok(Some(sha)) => {
            let mut warning = "base ".to_owned();
            warning.append(remote);
            warning.append("/");
            warning.append(reference);
            warning.append(" is unverified; using local branch ");
            warning.append(reference);
            warning.append(" at ");
            warning.append(sha.as_str());
            let warnings: Vec<String> = vec![warning];
            assert(views(warnings@) =~= seq![
                local_base_warning(remote@, reference@, sha@),
            ]);
            Ok(
                ResolvedBase {
                    remote: remote.to_owned(),
                    reference: reference.to_owned(),
                    sha,
                    warnings,
                },
            )
        },
    }
}

/// Whether a runner may be asked what a base is resolved by, in that order: the branch that the
/// remote points to where none is configured; then to fetch the branch that was chosen; its
/// remote-tracking branch once that was answered; and the local branch once there was none.
pub open spec fn permits_refreshing<R: CommandRunner>(
    runner: &R,
    cwd: Seq<char>,
    config: ConfigView,
) -> bool {
    let remote = config.base_remote;
    &&& config.default_base_ref is None ==> runner.permits(
        command("git"@, remote_head_args(remote), cwd),
    )
    &&& forall|reference: Seq<char>| #[trigger]
        base_ref_chosen(runner, cwd, config, reference) ==> runner.permits(
            command("git"@, fetch_args(remote, reference), cwd),
        )
    &&& forall|reference: Seq<char>, answer: Result<CommandOutput, RunnerError>| #[trigger]
        git_answers(runner, cwd, fetch_args(remote, reference), answer) ==> runner.permits(
            command("git"@, verify_args(remote_tip(remote, reference)), cwd),
        )
    &&& forall|reference: Seq<char>, found: Result<Option<String>, LifecycleError>| #[trigger]
        looked_up(runner, cwd, remote_tip(remote, reference), found) && found == Ok::<
            Option<String>,
            LifecycleError,
        >(None) ==> runner.permits(command("git"@, verify_args(local_tip(reference)), cwd))
}

/// Resolves the base of a claim on its own. The remote is asked first: no branch is looked up before
/// the fetch was answered.
pub fn resolve_base<R: CommandRunner>(runner: &R, cwd: &str, config: &Config) -> (result: Result<
    ResolvedBase,
    LifecycleError,
>)
    requires
        permits_refreshing(runner, cwd@, config@),
    ensures
        base_resolved(runner, cwd@, config@, result),
{
    let reference = choose_base_ref(runner, cwd, config);
    assert(base_ref_chosen(runner, cwd@, config@, reference@));
    let remote = config.base_remote.as_str();
    let answer = fetch_base(runner, cwd, remote, reference.as_str());
    let output = match answer {
        Ok(output) => output,
        Err(error) => {
            let result = Err::<ResolvedBase, LifecycleError>(LifecycleError::Runner(error));
            assert(base_fetched(runner, cwd@, config@.base_remote, reference@, result));
            return result;
        },
    };
    let refreshed = match output.exit_code {
        Some(code) => code == 0,
        None => false,
    };
    let mut name = "refs/remotes/".to_owned();
    name.append(remote);
    name.append("/");
    name.append(reference.as_str());
    name.append("^{commit}");
    let found = resolve_optional(runner, cwd, name.as_str());
    assert(looked_up(runner, cwd@, remote_tip(config@.base_remote, reference@), found));
    let result = match found {
        Err(error) => Err(error),
        Ok(None) => local_base_at(runner, cwd, remote, reference.as_str()),
        Ok(Some(sha)) => {
            let mut warnings: Vec<String> = Vec::new();
            if !refreshed {
                let mut warning = "could not refresh ".to_owned();
                warning.append(remote);
                warning.append("/");
                warning.append(reference.as_str());
                warning.append("; using the existing remote-tracking branch");
                warnings.push(warning);
            }
            assert(views(warnings@) =~= tracking_base(
                config@.base_remote,
                reference@,
                sha@,
                refreshed,
            ).warnings);
            Ok(
                ResolvedBase {
                    remote: remote.to_owned(),
                    reference: reference.clone(),
                    sha,
                    warnings,
                },
            )
        },
    };
    assert(base_tracked(
        runner,
        cwd@,
        config@.base_remote,
        reference@,
        refreshed,
        result,
    ));
    assert(base_fetched(runner, cwd@, config@.base_remote, reference@, result));
    result
}

} // verus!
