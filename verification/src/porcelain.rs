//! Worktrees, as `git worktree list --porcelain` prints them: in blocks of lines, with an empty line
//! between each two.
use vstd::prelude::*;
use vstd::string::*;

use crate::command::{
    arguments, command, printed, text_from_utf8_output, CommandOutput, CommandRunner,
};
use crate::git::{cli_result, worktree_list_args, CliCommandError, GitCli};
use crate::lifecycle::{complains, LifecycleError};
use crate::text::{
    around_first, blank, first_place, is_blank, lines, lines_of, optional, quote, quoted, same,
    split_once, strip_prefix, views, without_prefix,
};

verus! {

proof fn first_place_fits(text: Seq<char>, pattern: Seq<char>)
    ensures
        first_place(text, pattern) matches Some(place) ==> place + pattern.len() <= text.len(),
    decreases text.len(),
{
    if !crate::text::begins(text, pattern) && text.len() > 0 {
        first_place_fits(text.drop_first(), pattern);
    }
}

/// The blocks of a text.
pub open spec fn blocks(text: Seq<char>) -> Seq<Seq<char>>
    decreases text.len(),
    via blocks_end
{
    match around_first(text, "\n\n"@) {
        Some((block, rest)) => seq![block] + blocks(rest),
        None => seq![text],
    }
}

#[via_fn]
proof fn blocks_end(text: Seq<char>) {
    first_place_fits(text, "\n\n"@);
    reveal_strlit("\n\n");
}

fn split_blocks(text: &str) -> (result: Vec<String>)
    ensures
        views(result@) == blocks(text@),
{
    let mut result: Vec<String> = Vec::new();
    let mut rest = text.to_owned();
    assert(views(result@) + blocks(rest@) =~= blocks(text@));
    loop
        invariant
            views(result@) + blocks(rest@) == blocks(text@),
        decreases rest@.len(),
    {
        let ghost done = views(result@);
        match split_once(rest.as_str(), "\n\n") {
            Some((block, after)) => {
                proof {
                    first_place_fits(rest@, "\n\n"@);
                    reveal_strlit("\n\n");
                    assert(done + blocks(rest@) =~= done.push(block@) + blocks(after@));
                }
                let ghost added = block@;
                result.push(block);
                assert(views(result@) =~= done.push(added));
                rest = after;
            },
            None => {
                let ghost added = rest@;
                assert(blocks(rest@) =~= seq![added]);
                result.push(rest);
                assert(views(result@) =~= done.push(added));
                assert(done + seq![added] =~= done.push(added));
                return result;
            },
        }
    }
}

/// What stands behind `prefix` in the last of the lines that begins with it.
pub open spec fn last_value(lines: Seq<Seq<char>>, prefix: Seq<char>) -> Option<Seq<char>>
    decreases lines.len(),
{
    if lines.len() == 0 {
        None
    } else {
        match without_prefix(lines.last(), prefix) {
            Some(value) => Some(value),
            None => last_value(lines.drop_last(), prefix),
        }
    }
}

fn find_last_value(lines: &Vec<String>, prefix: &str) -> (value: Option<String>)
    ensures
        optional(value) == last_value(views(lines@), prefix@),
{
    let ghost all = views(lines@);
    let mut i: usize = lines.len();
    assert(all.take(i as int) =~= all);
    while i > 0
        invariant
            i <= lines.len(),
            all == views(lines@),
            last_value(all, prefix@) == last_value(all.take(i as int), prefix@),
        decreases i,
    {
        assert(all.take(i as int).last() == lines@[i - 1]@);
        assert(all.take(i as int).drop_last() =~= all.take(i - 1));
        if let Some(value) = strip_prefix(lines[i - 1].as_str(), prefix) {
            return Some(value);
        }
        i = i - 1;
    }
    None
}

/// A worktree that Git lists, and the branch that it is attached to.
#[derive(Debug)]
pub struct ListedWorktree {
    pub path: String,
    pub branch: Option<String>,
}

pub struct ListedView {
    pub path: Seq<char>,
    pub branch: Option<Seq<char>>,
}

impl View for ListedWorktree {
    type V = ListedView;

    open spec fn view(&self) -> ListedView {
        ListedView { path: self.path@, branch: optional(self.branch) }
    }
}

pub open spec fn block_path(block: Seq<char>) -> Option<Seq<char>> {
    last_value(lines_of(block), "worktree "@)
}

pub open spec fn block_branch(block: Seq<char>) -> Option<Seq<char>> {
    last_value(lines_of(block), "branch refs/heads/"@)
}

/// The worktrees of blocks, unless one that is not blank names no path.
pub open spec fn listed(blocks: Seq<Seq<char>>) -> Option<Seq<ListedView>>
    decreases blocks.len(),
{
    if blocks.len() == 0 {
        Some(Seq::empty())
    } else {
        match listed(blocks.drop_last()) {
            None => None,
            Some(front) => if blank(blocks.last()) {
                Some(front)
            } else {
                match block_path(blocks.last()) {
                    None => None,
                    Some(path) => Some(
                        front.push(ListedView { path, branch: block_branch(blocks.last()) }),
                    ),
                }
            },
        }
    }
}

proof fn listed_fails(blocks: Seq<Seq<char>>, count: int)
    requires
        0 <= count <= blocks.len(),
        listed(blocks.take(count)) is None,
    ensures
        listed(blocks) is None,
    decreases blocks.len() - count,
{
    if count < blocks.len() {
        assert(blocks.take(count + 1).drop_last() =~= blocks.take(count));
        listed_fails(blocks, count + 1);
    } else {
        assert(blocks.take(count) =~= blocks);
    }
}

/// What a list of worktrees comes to.
pub open spec fn list_outcome(
    answer: Result<CommandOutput, CliCommandError>,
    result: Result<Vec<ListedWorktree>, LifecycleError>,
) -> bool {
    match answer {
        Err(error) => result == Err::<Vec<ListedWorktree>, _>(LifecycleError::Git(error)),
        Ok(output) => match printed(output.stdout@, "git worktree list --porcelain"@) {
            Err(problem) => result matches Err(error) && complains(error, problem),
            Ok(text) => match listed(blocks(text)) {
                None => result matches Err(error) && complains(
                    error,
                    "git worktree list reported an entry without a path"@,
                ),
                Some(entries) => result matches Ok(found) && views(found@) == entries,
            },
        },
    }
}

/// Reads a list of worktrees.
pub fn interpret_list(answer: Result<CommandOutput, CliCommandError>) -> (result: Result<
    Vec<ListedWorktree>,
    LifecycleError,
>)
    ensures
        list_outcome(answer, result),
{
    let output = match answer {
        Ok(output) => output,
        Err(error) => return Err(LifecycleError::Git(error)),
    };
    let text = match text_from_utf8_output(&output.stdout, "git worktree list --porcelain") {
        Ok(text) => text,
        Err(problem) => return Err(LifecycleError::InvalidState(problem)),
    };
    let pieces = split_blocks(text.as_str());
    let ghost all = blocks(text@);
    let mut entries: Vec<ListedWorktree> = Vec::new();
    let mut i: usize = 0;
    assert(all.take(0) =~= Seq::empty());
    assert(views(entries@) =~= Seq::empty());
    while i < pieces.len()
        invariant
            i <= pieces.len(),
            all == views(pieces@),
            all == blocks(text@),
            printed(output.stdout@, "git worktree list --porcelain"@) == Ok::<_, Seq<char>>(text@),
            answer == Ok::<_, CliCommandError>(output),
            listed(all.take(i as int)) == Some(views(entries@)),
        decreases pieces.len() - i,
    {
        let ghost done = views(entries@);
        let block = pieces[i].as_str();
        assert(all.take(i + 1).drop_last() =~= all.take(i as int));
        assert(all.take(i + 1).last() == block@);
        if !is_blank(block) {
            let rows = lines(block);
            match find_last_value(&rows, "worktree ") {
                Some(path) => {
                    let branch = find_last_value(&rows, "branch refs/heads/");
                    let entry = ListedWorktree { path, branch };
                    let ghost added = entry@;
                    entries.push(entry);
                    assert(views(entries@) =~= done.push(added));
                },
                None => {
                    proof {
                        listed_fails(all, i + 1);
                    }
                    return Err(
                        LifecycleError::InvalidState(
                            "git worktree list reported an entry without a path".to_owned(),
                        ),
                    );
                },
            }
        }
        i = i + 1;
    }
    assert(all.take(i as int) =~= all);
    Ok(entries)
}

/// Whether listing worktrees may come to that result.
pub open spec fn worktrees_listed<R: CommandRunner>(
    runner: &R,
    cwd: Seq<char>,
    result: Result<Vec<ListedWorktree>, LifecycleError>,
) -> bool {
    exists|answer: Result<CommandOutput, CliCommandError>| #[trigger]
        cli_result(runner, "git"@, worktree_list_args(), cwd, answer) && list_outcome(
            answer,
            result,
        )
}

/// Asks Git for its worktrees.
pub fn list_worktrees<R: CommandRunner>(runner: &R, cwd: &str) -> (result: Result<
    Vec<ListedWorktree>,
    LifecycleError,
>)
    requires
        runner.permits(command("git"@, worktree_list_args(), cwd@)),
    ensures
        worktrees_listed(runner, cwd@, result),
{
    let answer = ask_worktrees(runner, cwd);
    interpret_list(answer)
}

fn ask_worktrees<R: CommandRunner>(runner: &R, cwd: &str) -> (answer: Result<
    CommandOutput,
    CliCommandError,
>)
    requires
        runner.permits(command("git"@, worktree_list_args(), cwd@)),
    ensures
        cli_result(runner, "git"@, worktree_list_args(), cwd@, answer),
{
    let parts: Vec<&str> = vec!["worktree", "list", "--porcelain"];
    let args = arguments(&parts);
    assert(views(args@) =~= worktree_list_args());
    GitCli::new(runner).run(cwd, args)
}

/// The path in the first of the blocks that is of a branch.
pub open spec fn path_of_branch(blocks: Seq<Seq<char>>, branch: Seq<char>) -> Option<Seq<char>>
    decreases blocks.len(),
{
    if blocks.len() == 0 {
        None
    } else if last_value(lines_of(blocks[0]), "branch "@) == Some("refs/heads/"@ + branch) {
        block_path(blocks[0])
    } else {
        path_of_branch(blocks.drop_first(), branch)
    }
}

/// Where a list of worktrees says that a branch is.
pub open spec fn branch_place_outcome(
    branch: Seq<char>,
    answer: Result<CommandOutput, CliCommandError>,
    result: Result<String, LifecycleError>,
) -> bool {
    match answer {
        Err(error) => result == Err::<String, _>(LifecycleError::Git(error)),
        Ok(output) => match printed(output.stdout@, "git worktree list --porcelain"@) {
            Err(problem) => result matches Err(error) && complains(error, problem),
            Ok(text) => match path_of_branch(blocks(text), branch) {
                None => result matches Err(error) && complains(
                    error,
                    "git worktree list did not report branch "@ + quoted(branch),
                ),
                Some(path) => result matches Ok(found) && found@ == path,
            },
        },
    }
}

fn find_path_of_branch(pieces: &Vec<String>, branch: &str) -> (path: Option<String>)
    ensures
        optional(path) == path_of_branch(views(pieces@), branch@),
{
    let ghost all = views(pieces@);
    let mut wanted = "refs/heads/".to_owned();
    wanted.append(branch);
    let mut i: usize = 0;
    assert(all.skip(0) =~= all);
    while i < pieces.len()
        invariant
            i <= pieces.len(),
            all == views(pieces@),
            wanted@ == "refs/heads/"@ + branch@,
            path_of_branch(all, branch@) == path_of_branch(all.skip(i as int), branch@),
        decreases pieces.len() - i,
    {
        assert(all.skip(i as int)[0] == pieces@[i as int]@);
        assert(all.skip(i as int).drop_first() =~= all.skip(i + 1));
        let rows = lines(pieces[i].as_str());
        if let Some(attached) = find_last_value(&rows, "branch ") {
            if same(attached.as_str(), wanted.as_str()) {
                return find_last_value(&rows, "worktree ");
            }
        }
        i = i + 1;
    }
    None
}

/// Reads where a list of worktrees says that a branch is.
pub fn interpret_branch_place(branch: &str, answer: Result<CommandOutput, CliCommandError>) -> (result:
    Result<String, LifecycleError>)
    ensures
        branch_place_outcome(branch@, answer, result),
{
    let output = match answer {
        Ok(output) => output,
        Err(error) => return Err(LifecycleError::Git(error)),
    };
    let text = match text_from_utf8_output(&output.stdout, "git worktree list --porcelain") {
        Ok(text) => text,
        Err(problem) => return Err(LifecycleError::InvalidState(problem)),
    };
    let pieces = split_blocks(text.as_str());
    match find_path_of_branch(&pieces, branch) {
        Some(path) => Ok(path),
        None => {
            let mut problem = "git worktree list did not report branch ".to_owned();
            problem.append(quote(branch).as_str());
            Err(LifecycleError::InvalidState(problem))
        },
    }
}

/// Whether asking where a branch is may come to that result.
pub open spec fn branch_placed<R: CommandRunner>(
    runner: &R,
    cwd: Seq<char>,
    branch: Seq<char>,
    result: Result<String, LifecycleError>,
) -> bool {
    exists|answer: Result<CommandOutput, CliCommandError>| #[trigger]
        cli_result(runner, "git"@, worktree_list_args(), cwd, answer) && branch_place_outcome(
            branch,
            answer,
            result,
        )
}

/// Asks Git for the worktree of a branch. Where it leads to in the file system is not resolved.
pub fn worktree_of_branch<R: CommandRunner>(runner: &R, cwd: &str, branch: &str) -> (result: Result<
    String,
    LifecycleError,
>)
    requires
        runner.permits(command("git"@, worktree_list_args(), cwd@)),
    ensures
        branch_placed(runner, cwd@, branch@, result),
{
    let answer = ask_worktrees(runner, cwd);
    interpret_branch_place(branch, answer)
}

} // verus!
