//! What Git is understood to have said.
use vstd::prelude::*;

use crate::command::{printed, CommandOutput, RunnerError};
use crate::git::{
    branch_outcome, cli_outcome, first_value, identity_outcome, main_worktree_outcome, slug,
    CliCommandError, RepositoryError,
};
use crate::path::name_of;
use crate::porcelain::{block_branch, block_path, last_value, listed, path_of_branch};
use crate::text::{begins, blank, lines_of, lossy, trimmed, without_prefix};

verus! {

/// A command has succeeded where it could be run and ended in zero, and what it printed is passed
/// on; any other end of it is an error with its number and what it complained of.
pub proof fn commands_succeed_by_ending_in_zero(
    program: Seq<char>,
    args: Seq<Seq<char>>,
    answer: Result<CommandOutput, RunnerError>,
    result: Result<CommandOutput, CliCommandError>,
)
    requires
        cli_outcome(program, args, answer, result),
    ensures
        result is Ok <==> (answer matches Ok(output) && output.exit_code == Some(0i32)),
        result matches Ok(output) ==> answer == Ok::<_, RunnerError>(output),
        answer matches Err(error) ==> result == Err::<CommandOutput, _>(
            CliCommandError::Runner(error),
        ),
        result matches Err(CliCommandError::Failed { command: _, exit_code, stderr }) ==> (
        answer matches Ok(output) && exit_code == output.exit_code && stderr@ == trimmed(
            lossy(output.stderr@),
        )),
{
}

/// A worktree is on a branch where Git says which; it is on none where Git refuses to say.
pub proof fn branches_are_as_git_says(
    answer: Result<CommandOutput, RunnerError>,
    result: Result<Option<String>, RepositoryError>,
)
    requires
        branch_outcome(answer, result),
    ensures
        answer is Err ==> result is Err,
        answer matches Ok(output) ==> (result == Ok::<Option<String>, RepositoryError>(None)
            <==> output.exit_code != Some(0i32)),
        answer matches Ok(output) ==> (result matches Ok(Some(branch)) ==> printed(
            output.stdout@,
            "git symbolic-ref HEAD"@,
        ) == Ok::<_, Seq<char>>(branch@)),
{
}

/// A repository goes by the name of its remote; one without a remote goes by that of its main
/// worktree, and no remote is told of.
pub proof fn repositories_go_by_their_remote(
    answer: Result<CommandOutput, CliCommandError>,
    remote_name: Seq<char>,
    main_worktree: Seq<char>,
    result: Result<(String, String), RepositoryError>,
)
    requires
        identity_outcome(answer, remote_name, main_worktree, result),
    ensures
        result matches Ok(found) ==> (answer is Ok ==> slug(found.0@) == Some(found.1@)),
        result matches Ok(found) ==> (answer is Err ==> found.0@.len() == 0 && (name_of(
            main_worktree,
        ) matches Some(name) && found.1@ == "local/"@ + name)),
        answer matches Err(error) && error is Runner ==> result is Err,
        answer matches Err(error) ==> (error is Failed ==> (result is Ok <==> name_of(main_worktree)
            is Some)),
{
}

proof fn first_of_its_kind(lines: Seq<Seq<char>>, prefix: Seq<char>)
    ensures
        first_value(lines, prefix) matches Some(value) ==> exists|k: int|
            0 <= k < lines.len() && without_prefix(#[trigger] lines[k], prefix) == Some(value)
                && none_before(lines, prefix, k),
        first_value(lines, prefix) is None ==> none_before(lines, prefix, lines.len() as int),
    decreases lines.len(),
{
    if lines.len() > 0 {
        let rest = lines.drop_first();
        if !begins(lines[0], prefix) {
            first_of_its_kind(rest, prefix);
            if let Some(value) = first_value(rest, prefix) {
                let k = choose|k: int|
                    0 <= k < rest.len() && without_prefix(#[trigger] rest[k], prefix) == Some(value)
                        && none_before(rest, prefix, k);
                assert forall|i: int| 0 <= i < k + 1 implies !begins(
                    #[trigger] lines[i],
                    prefix,
                ) by {
                    if i > 0 {
                        assert(rest[i - 1] == lines[i]);
                    }
                }
                assert(without_prefix(lines[k + 1], prefix) == Some(value));
            } else {
                assert forall|i: int| 0 <= i < lines.len() implies !begins(
                    #[trigger] lines[i],
                    prefix,
                ) by {
                    if i > 0 {
                        assert(rest[i - 1] == lines[i]);
                    }
                }
            }
        } else {
            assert(none_before(lines, prefix, 0));
        }
    }
}

/// Whether no line in front of one begins with a prefix.
pub open spec fn none_before(lines: Seq<Seq<char>>, prefix: Seq<char>, k: int) -> bool {
    forall|i: int| 0 <= i < k ==> !begins(#[trigger] lines[i], prefix)
}

/// The main worktree is the one that Git lists first, and there is none only where Git lists none.
pub proof fn main_worktrees_are_listed_first(
    answer: Result<CommandOutput, CliCommandError>,
    text: Seq<char>,
    result: Result<String, RepositoryError>,
)
    requires
        main_worktree_outcome(answer, result),
        answer matches Ok(output) && printed(output.stdout@, "git worktree list --porcelain"@)
            == Ok::<_, Seq<char>>(text),
    ensures
        result matches Ok(path) ==> exists|k: int|
            0 <= k < lines_of(text).len() && #[trigger] lines_of(text)[k] == "worktree "@ + path@
                && none_before(lines_of(text), "worktree "@, k),
        result is Err ==> none_before(
            lines_of(text),
            "worktree "@,
            lines_of(text).len() as int,
        ),
{
    let lines = lines_of(text);
    first_of_its_kind(lines, "worktree "@);
    if let Ok(path) = result {
        let k = choose|k: int|
            0 <= k < lines.len() && without_prefix(#[trigger] lines[k], "worktree "@) == Some(path@)
                && none_before(lines, "worktree "@, k);
        assert(lines[k] =~= "worktree "@ + path@);
    }
}

proof fn among_the_lines(lines: Seq<Seq<char>>, prefix: Seq<char>)
    ensures
        last_value(lines, prefix) matches Some(value) ==> lines.contains(prefix + value),
        last_value(lines, prefix) is None ==> none_before(lines, prefix, lines.len() as int),
    decreases lines.len(),
{
    if lines.len() > 0 {
        let front = lines.drop_last();
        let end = lines.len() - 1;
        assert(lines[end] == lines.last());
        if begins(lines.last(), prefix) {
            assert(lines[end] =~= prefix + lines[end].skip(prefix.len() as int));
        } else {
            among_the_lines(front, prefix);
            if let Some(value) = last_value(front, prefix) {
                let k = front.index_of(prefix + value);
                assert(lines[k] == front[k]);
            } else {
                assert forall|i: int| 0 <= i < lines.len() implies !begins(
                    #[trigger] lines[i],
                    prefix,
                ) by {
                    if i < end {
                        assert(front[i] == lines[i]);
                    }
                }
            }
        }
    }
}

/// What a listing says of a worktree: where it is, and the branch that is checked out in it, if any.
pub open spec fn says(block: Seq<char>, path: Seq<char>, branch: Option<Seq<char>>) -> bool {
    &&& lines_of(block).contains("worktree "@ + path)
    &&& match branch {
        Some(name) => lines_of(block).contains("branch refs/heads/"@ + name),
        None => none_before(
            lines_of(block),
            "branch refs/heads/"@,
            lines_of(block).len() as int,
        ),
    }
}

/// The worktrees that Git lists are told one by one, in its order, with the place and the branch
/// that it gives of each; a listing with an entry that has no place is not understood.
pub proof fn listed_worktrees_are_told(blocks: Seq<Seq<char>>)
    requires
        forall|i: int| 0 <= i < blocks.len() ==> !blank(#[trigger] blocks[i]),
    ensures
        match listed(blocks) {
            Some(entries) => entries.len() == blocks.len() && forall|i: int|
                0 <= i < blocks.len() ==> says(
                    #[trigger] blocks[i],
                    entries[i].path,
                    entries[i].branch,
                ),
            None => exists|i: int|
                0 <= i < blocks.len() && none_before(
                    lines_of(#[trigger] blocks[i]),
                    "worktree "@,
                    lines_of(blocks[i]).len() as int,
                ),
        },
    decreases blocks.len(),
{
    if blocks.len() > 0 {
        let front = blocks.drop_last();
        let end = blocks.len() - 1;
        assert forall|i: int| 0 <= i < front.len() implies !blank(#[trigger] front[i]) by {
            assert(front[i] == blocks[i]);
        }
        listed_worktrees_are_told(front);
        assert(blocks[end] == blocks.last());
        assert(!blank(blocks[end]));
        let lines = lines_of(blocks[end]);
        among_the_lines(lines, "worktree "@);
        among_the_lines(lines, "branch refs/heads/"@);
        assert(block_path(blocks[end]) == last_value(lines, "worktree "@));
        assert(block_branch(blocks[end]) == last_value(lines, "branch refs/heads/"@));
        match listed(front) {
            None => {
                let i = choose|i: int|
                    0 <= i < front.len() && none_before(
                        lines_of(#[trigger] front[i]),
                        "worktree "@,
                        lines_of(front[i]).len() as int,
                    );
                assert(blocks[i] == front[i]);
            },
            Some(early) => {
                if let Some(entries) = listed(blocks) {
                    assert forall|i: int| 0 <= i < blocks.len() implies says(
                        #[trigger] blocks[i],
                        entries[i].path,
                        entries[i].branch,
                    ) by {
                        if i < end {
                            assert(front[i] == blocks[i]);
                            assert(entries[i] == early[i]);
                        }
                    }
                }
            },
        }
    }
}

/// The place of a branch is that of a worktree in which Git says the branch is checked out.
pub proof fn branches_are_where_they_are_checked_out(blocks: Seq<Seq<char>>, branch: Seq<char>)
    ensures
        path_of_branch(blocks, branch) matches Some(path) ==> exists|i: int|
            0 <= i < blocks.len() && lines_of(#[trigger] blocks[i]).contains(
                "branch "@ + ("refs/heads/"@ + branch),
            ) && lines_of(blocks[i]).contains("worktree "@ + path),
    decreases blocks.len(),
{
    if blocks.len() > 0 {
        let lines = lines_of(blocks[0]);
        among_the_lines(lines, "branch "@);
        among_the_lines(lines, "worktree "@);
        if last_value(lines, "branch "@) != Some("refs/heads/"@ + branch) {
            let rest = blocks.drop_first();
            branches_are_where_they_are_checked_out(rest, branch);
            if let Some(path) = path_of_branch(rest, branch) {
                let i = choose|i: int|
                    0 <= i < rest.len() && lines_of(#[trigger] rest[i]).contains(
                        "branch "@ + ("refs/heads/"@ + branch),
                    ) && lines_of(rest[i]).contains("worktree "@ + path);
                assert(blocks[i + 1] == rest[i]);
            }
        } else {
            assert(block_path(blocks[0]) == last_value(lines, "worktree "@));
        }
    }
}

} // verus!
