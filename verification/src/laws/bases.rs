//! What a claim is based on.
use vstd::prelude::*;

use crate::base::{
    ancestor_required, ancestry_asked, ancestry_outcome, base_fetched, base_local, base_ref_chosen,
    base_resolved, base_tracked, branch_has_tip, branch_name_args, branch_validated, fetch_args,
    git_answers, head_of, local_base, local_tip, looked_up, lookup_outcome, remote_head_args,
    remote_head_seen, remote_tip, tip_found, tracking_base, verify_args, ResolvedBase,
};
use crate::command::{answers, command, printed, CommandOutput, CommandRunner, RunnerError};
use crate::config::ConfigView;
use crate::drift::ancestor_args;
use crate::laws::drift::is_in_history;
use crate::lifecycle::LifecycleError;
use crate::text::begins;

verus! {

/// Asking what a reference resolves to.
pub open spec fn resolving(reference: Seq<char>) -> Seq<Seq<char>> {
    seq!["rev-parse"@, "--verify"@, reference]
}

/// Whether Git, asked in a directory, said that a reference resolves to a commit.
pub open spec fn resolves_to<R: CommandRunner>(
    runner: &R,
    cwd: Seq<char>,
    reference: Seq<char>,
    sha: Seq<char>,
) -> bool {
    exists|output: CommandOutput| #[trigger]
        answers(runner, command("git"@, resolving(reference), cwd), Ok(output)) && output.exit_code
            == Some(0i32) && printed(output.stdout@, "git rev-parse --verify"@) == Ok::<
            _,
            Seq<char>,
        >(sha) && sha.len() > 0
}

/// Whether Git, asked in a directory, said that a reference does not resolve.
pub open spec fn does_not_resolve<R: CommandRunner>(
    runner: &R,
    cwd: Seq<char>,
    reference: Seq<char>,
) -> bool {
    exists|output: CommandOutput| #[trigger]
        answers(runner, command("git"@, resolving(reference), cwd), Ok(output)) && output.exit_code
            != Some(0i32)
}

/// What is looked up is what Git says that the reference resolves to.
pub proof fn lookups_resolve<R: CommandRunner>(
    runner: &R,
    cwd: Seq<char>,
    reference: Seq<char>,
    found: Option<String>,
)
    requires
        looked_up(runner, cwd, reference, Ok(found)),
    ensures
        found matches Some(sha) ==> resolves_to(runner, cwd, reference, sha@),
        found is None ==> does_not_resolve(runner, cwd, reference),
{
    let answer = choose|answer: Result<CommandOutput, RunnerError>| #[trigger]
        git_answers(runner, cwd, verify_args(reference), answer) && lookup_outcome(
            answer,
            Ok(found),
        );
    assert(verify_args(reference) =~= resolving(reference));
    let output = answer->Ok_0;
    assert(answers(runner, command("git"@, resolving(reference), cwd), Ok(output)));
}

/// The tip of a local branch is what its reference among the heads resolves to.
pub proof fn tips_are_local_commits<R: CommandRunner>(
    runner: &R,
    cwd: Seq<char>,
    branch: Seq<char>,
    tip: String,
)
    requires
        tip_found(runner, cwd, branch, Ok(tip)),
    ensures
        resolves_to(runner, cwd, "refs/heads/"@ + branch + "^{commit}"@, tip@),
{
    let found = choose|found: Result<Option<String>, LifecycleError>| #[trigger]
        looked_up(runner, cwd, local_tip(branch), found) && found == Ok::<_, LifecycleError>(
            Some(tip),
        );
    lookups_resolve(runner, cwd, local_tip(branch), Some(tip));
}

/// A branch is adopted only where it is a valid name, and is there.
pub proof fn validated_branches_are_there<R: CommandRunner>(
    runner: &R,
    cwd: Seq<char>,
    branch: Seq<char>,
    named: Seq<Seq<char>>,
)
    requires
        branch_validated(runner, cwd, branch, Ok(())),
        named == seq!["check-ref-format"@, "--branch"@, branch],
    ensures
        exists|output: CommandOutput| #[trigger]
            answers(runner, command("git"@, named, cwd), Ok(output)) && output.exit_code == Some(
                0i32,
            ),
        exists|tip: Seq<char>| #[trigger]
            resolves_to(runner, cwd, "refs/heads/"@ + branch + "^{commit}"@, tip),
{
    let args = branch_name_args(branch);
    assert(args =~= named);
    let answer = choose|answer: Result<CommandOutput, RunnerError>| #[trigger]
        git_answers(runner, cwd, args, answer) && answer is Ok && answer->Ok_0.exit_code == Some(
            0i32,
        ) && branch_has_tip(runner, cwd, branch, Ok(()));
    assert(answers(runner, command("git"@, named, cwd), Ok(answer->Ok_0)));
    let tip = choose|tip: Result<String, LifecycleError>| #[trigger]
        tip_found(runner, cwd, branch, tip) && tip is Ok;
    tips_are_local_commits(runner, cwd, branch, tip->Ok_0);
}

/// A branch that has to contain a base is let through only where Git says that the base is in the
/// history of its tip.
pub proof fn required_ancestors_are_in_history<R: CommandRunner>(
    runner: &R,
    cwd: Seq<char>,
    base_sha: Seq<char>,
    branch: Seq<char>,
)
    requires
        ancestor_required(runner, cwd, base_sha, branch, Ok(())),
    ensures
        exists|tip: String, output: CommandOutput| #[trigger]
            tip_found(runner, cwd, branch, Ok(tip)) && #[trigger] answers(
                runner,
                command("git"@, is_in_history(base_sha, tip@), cwd),
                Ok(output),
            ) && output.exit_code == Some(0i32),
{
    let tip = choose|tip: Result<String, LifecycleError>| #[trigger]
        tip_found(runner, cwd, branch, tip) && tip is Ok && ancestry_asked(
            runner,
            cwd,
            base_sha,
            branch,
            tip->Ok_0@,
            Ok(()),
        );
    let commit = tip->Ok_0;
    assert(tip_found(runner, cwd, branch, Ok(commit)));
    assert(ancestor_args(base_sha, commit@) =~= is_in_history(base_sha, commit@));
    let answer = choose|answer: Result<CommandOutput, RunnerError>| #[trigger]
        git_answers(runner, cwd, ancestor_args(base_sha, commit@), answer) && ancestry_outcome(
            base_sha,
            branch,
            answer,
            Ok(()),
        );
    assert(answers(
        runner,
        command("git"@, is_in_history(base_sha, commit@), cwd),
        Ok(answer->Ok_0),
    ));
}

/// What Git says of history decides: a base that is there is accepted, one that is not is refused,
/// and any other end is a trouble of its own.
pub proof fn history_decides(
    base_sha: Seq<char>,
    branch: Seq<char>,
    answer: Result<CommandOutput, RunnerError>,
    result: Result<(), LifecycleError>,
)
    requires
        ancestry_outcome(base_sha, branch, answer, result),
    ensures
        result is Ok <==> (answer matches Ok(output) && output.exit_code == Some(0i32)),
        (result matches Err(LifecycleError::Refused(_))) <==> (answer matches Ok(output)
            && output.exit_code == Some(1i32)),
        (result matches Err(LifecycleError::Runner(_))) <==> answer is Err,
{
}

/// Asking for the default branch of a remote.
pub open spec fn heading(remote: Seq<char>) -> Seq<Seq<char>> {
    seq!["symbolic-ref"@, "--quiet"@, "--short"@, "refs/remotes/"@ + remote + "/HEAD"@]
}

/// Fetching a branch of a remote.
pub open spec fn fetching(remote: Seq<char>, reference: Seq<char>) -> Seq<Seq<char>> {
    seq!["fetch"@, remote, reference]
}

/// Whether a branch is the default branch of a remote, as Git answered, or `main` where it did not
/// name one.
pub open spec fn is_default(
    remote: Seq<char>,
    answer: Result<CommandOutput, RunnerError>,
    reference: Seq<char>,
) -> bool {
    match answer {
        Ok(output) => if output.exit_code == Some(0i32) {
            match printed(output.stdout@, "git symbolic-ref"@) {
                Ok(head) => if begins(head, remote + "/"@) {
                    head == remote + "/"@ + reference
                } else {
                    reference == "main"@
                },
                Err(_) => reference == "main"@,
            }
        } else {
            reference == "main"@
        },
        Err(_) => reference == "main"@,
    }
}

/// The branch that a claim is based on is the one that is configured. Where none is, it is the
/// default branch of the remote, and where that is not known, `main`.
pub proof fn bases_are_chosen<R: CommandRunner>(
    runner: &R,
    cwd: Seq<char>,
    config: ConfigView,
    reference: Seq<char>,
)
    requires
        base_ref_chosen(runner, cwd, config, reference),
    ensures
        config.default_base_ref is Some ==> config.default_base_ref == Some(reference),
        config.default_base_ref is None ==> exists|answer: Result<CommandOutput, RunnerError>|
            #[trigger]
            answers(runner, command("git"@, heading(config.base_remote), cwd), answer)
                && is_default(config.base_remote, answer, reference),
{
    if config.default_base_ref is None {
        let remote = config.base_remote;
        let head = choose|head: Option<Seq<char>>| #[trigger]
            remote_head_seen(runner, cwd, remote, head) && reference == (match head {
                Some(branch) => branch,
                None => "main"@,
            });
        let answer = choose|answer: Result<CommandOutput, RunnerError>| #[trigger]
            git_answers(runner, cwd, remote_head_args(remote), answer) && head == head_of(
                remote,
                answer,
            );
        assert(remote_head_args(remote) =~= heading(remote));
        assert(answers(runner, command("git"@, heading(remote), cwd), answer));
        if let Ok(output) = answer {
            if let Ok(told) = printed(output.stdout@, "git symbolic-ref"@) {
                let prefix = remote + "/"@;
                if begins(told, prefix) {
                    assert(told =~= prefix + told.skip(prefix.len() as int));
                }
            }
        }
    }
}

/// What a claim is based on, where it is not put onto another claim. The branch is fetched from the
/// remote first. The base is the commit that the remote-tracking branch is at then, with a warning
/// exactly where fetching failed; where there is no such branch, it is the commit of the local
/// branch of that name, with a warning.
pub proof fn bases_are_fetched_first<R: CommandRunner>(
    runner: &R,
    cwd: Seq<char>,
    config: ConfigView,
    base: ResolvedBase,
)
    requires
        base_resolved(runner, cwd, config, Ok(base)),
    ensures
        base@.remote == config.base_remote,
        base_ref_chosen(runner, cwd, config, base@.reference),
        exists|output: CommandOutput| #[trigger]
            answers(
                runner,
                command("git"@, fetching(config.base_remote, base@.reference), cwd),
                Ok(output),
            ) && {
                let tracking = "refs/remotes/"@ + config.base_remote + "/"@ + base@.reference
                    + "^{commit}"@;
                ||| resolves_to(runner, cwd, tracking, base@.sha) && (base@.warnings.len() == 0
                    <==> output.exit_code == Some(0i32))
                ||| does_not_resolve(runner, cwd, tracking) && resolves_to(
                    runner,
                    cwd,
                    "refs/heads/"@ + base@.reference + "^{commit}"@,
                    base@.sha,
                ) && base@.warnings.len() > 0
            },
{
    let remote = config.base_remote;
    let reference = choose|reference: Seq<char>| #[trigger]
        base_ref_chosen(runner, cwd, config, reference) && base_fetched(
            runner,
            cwd,
            remote,
            reference,
            Ok(base),
        );
    let answer = choose|answer: Result<CommandOutput, RunnerError>| #[trigger]
        git_answers(runner, cwd, fetch_args(remote, reference), answer) && answer is Ok
            && base_tracked(
            runner,
            cwd,
            remote,
            reference,
            answer->Ok_0.exit_code == Some(0i32),
            Ok(base),
        );
    assert(fetch_args(remote, reference) =~= fetching(remote, reference));
    let output = answer->Ok_0;
    assert(answers(runner, command("git"@, fetching(remote, reference), cwd), Ok(output)));
    let found = choose|found: Result<Option<String>, LifecycleError>| #[trigger]
        looked_up(runner, cwd, remote_tip(remote, reference), found) && match found {
            Err(error) => false,
            Ok(Some(sha)) => base@ == tracking_base(
                remote,
                reference,
                sha@,
                output.exit_code == Some(0i32),
            ),
            Ok(None) => base_local(runner, cwd, remote, reference, Ok(base)),
        };
    lookups_resolve(runner, cwd, remote_tip(remote, reference), found->Ok_0);
    if found->Ok_0 is None {
        let local = choose|local: Result<Option<String>, LifecycleError>| #[trigger]
            looked_up(runner, cwd, local_tip(reference), local) && local is Ok && local->Ok_0
                is Some && base@ == local_base(remote, reference, local->Ok_0->0@);
        lookups_resolve(runner, cwd, local_tip(reference), local->Ok_0);
    }
}

} // verus!
