//! What the changes of a claim are.
use vstd::prelude::*;

use crate::command::{CommandOutput, CommandRunner};
use crate::git::{cli_result, CliCommandError};
use crate::model::ClaimView;
use crate::observation::{
    changes_in, diff_args, diff_continued, diff_result, nul_fields, nul_output, paths_of_kind,
    paths_of_pairs, tracked_outcome, untracked_args, untracked_outcome, ChangeKind, DiffSummary,
    DiffView, ObservationError,
};
use crate::text::{ascending, ascending_texts_are_sorted, with_text_is_sorted};

verus! {

/// Whether a listing of states and paths, one after the other, gives a path a state that begins
/// with that letter.
pub open spec fn is_listed(fields: Seq<Seq<char>>, letter: char, path: Seq<char>) -> bool {
    exists|i: int|
        #![trigger fields[2 * i + 1]]
        0 <= i && 2 * i + 1 < fields.len() && fields[2 * i + 1] == path && fields[2 * i].len() > 0
            && fields[2 * i][0] == letter
}

/// Whether a listing has a path, in any state.
pub open spec fn is_listed_at_all(fields: Seq<Seq<char>>, path: Seq<char>) -> bool {
    exists|i: int|
        #![trigger fields[2 * i + 1]]
        0 <= i && 2 * i + 1 < fields.len() && fields[2 * i + 1] == path
}

/// Whether a listing has a path in a state that is neither of an addition nor of a deletion.
pub open spec fn is_listed_otherwise(fields: Seq<Seq<char>>, path: Seq<char>) -> bool {
    exists|i: int|
        #![trigger fields[2 * i + 1]]
        0 <= i && 2 * i + 1 < fields.len() && fields[2 * i + 1] == path && !(fields[2 * i].len() > 0
            && (fields[2 * i][0] == 'A' || fields[2 * i][0] == 'D'))
}

proof fn pairs_one_by_one(fields: Seq<Seq<char>>, path: Seq<char>)
    requires
        fields.len() % 2 == 0,
    ensures
        ascending(paths_of_pairs(fields)),
        ascending(paths_of_kind(fields, ChangeKind::Added)),
        ascending(paths_of_kind(fields, ChangeKind::Deleted)),
        ascending(paths_of_kind(fields, ChangeKind::Modified)),
        paths_of_pairs(fields).contains(path) <==> is_listed_at_all(fields, path),
        paths_of_kind(fields, ChangeKind::Added).contains(path) <==> is_listed(fields, 'A', path),
        paths_of_kind(fields, ChangeKind::Deleted).contains(path) <==> is_listed(fields, 'D', path),
        paths_of_kind(fields, ChangeKind::Modified).contains(path) <==> is_listed_otherwise(
            fields,
            path,
        ),
    decreases fields.len(),
{
    if fields.len() >= 2 {
        let end = fields.len() - 2;
        let front = fields.take(end);
        pairs_one_by_one(front, path);
        with_text_is_sorted(paths_of_pairs(front), fields.last());
        with_text_is_sorted(paths_of_kind(front, ChangeKind::Added), fields.last());
        with_text_is_sorted(paths_of_kind(front, ChangeKind::Deleted), fields.last());
        with_text_is_sorted(paths_of_kind(front, ChangeKind::Modified), fields.last());
        let at = end / 2;
        assert(2 * at == end);
        assert(fields[2 * at + 1] == fields.last());
        assert forall|i: int| 0 <= i && 2 * i + 1 < end implies #[trigger] fields[2 * i + 1]
            == front[2 * i + 1] && fields[2 * i] == front[2 * i] by {}
        assert forall|i: int| 0 <= i && 2 * i + 1 < fields.len() && i != at implies 2 * i + 1
            < end && #[trigger] fields[2 * i + 1] == front[2 * i + 1] by {}
        if is_listed_at_all(front, path) {
            let i = choose|i: int|
                #![trigger front[2 * i + 1]]
                0 <= i && 2 * i + 1 < front.len() && front[2 * i + 1] == path;
            assert(fields[2 * i + 1] == path);
        }
        if is_listed(front, 'A', path) {
            let i = choose|i: int|
                #![trigger front[2 * i + 1]]
                0 <= i && 2 * i + 1 < front.len() && front[2 * i + 1] == path && front[2 * i].len()
                    > 0 && front[2 * i][0] == 'A';
            assert(fields[2 * i + 1] == path);
        }
        if is_listed(front, 'D', path) {
            let i = choose|i: int|
                #![trigger front[2 * i + 1]]
                0 <= i && 2 * i + 1 < front.len() && front[2 * i + 1] == path && front[2 * i].len()
                    > 0 && front[2 * i][0] == 'D';
            assert(fields[2 * i + 1] == path);
        }
        if is_listed_otherwise(front, path) {
            let i = choose|i: int|
                #![trigger front[2 * i + 1]]
                0 <= i && 2 * i + 1 < front.len() && front[2 * i + 1] == path && !(
                front[2 * i].len() > 0 && (front[2 * i][0] == 'A' || front[2 * i][0] == 'D'));
            assert(fields[2 * i + 1] == path);
        }
        assert(is_listed_at_all(fields, path) ==> is_listed_at_all(front, path) || path
            == fields.last());
        assert(is_listed(fields, 'A', path) ==> is_listed(front, 'A', path) || (path
            == fields.last() && fields[end].len() > 0 && fields[end][0] == 'A'));
        assert(is_listed(fields, 'D', path) ==> is_listed(front, 'D', path) || (path
            == fields.last() && fields[end].len() > 0 && fields[end][0] == 'D'));
        assert(is_listed_otherwise(fields, path) ==> is_listed_otherwise(front, path) || (path
            == fields.last() && !(fields[end].len() > 0 && (fields[end][0] == 'A' || fields[end][0]
            == 'D'))));
    }
}

/// What Git lists as changed is what a claim has changed: every path that is listed, the added and
/// the deleted ones by the letter of their state, the others as modified, each in ascending order;
/// and none of them as untracked.
pub proof fn listed_changes_are_told(fields: Seq<Seq<char>>, path: Seq<char>)
    requires
        fields.len() % 2 == 0,
    ensures
        ({
            let changes = changes_in(fields);
            &&& changes.changed_paths.contains(path) <==> is_listed_at_all(fields, path)
            &&& changes.added_paths.contains(path) <==> is_listed(fields, 'A', path)
            &&& changes.deleted_paths.contains(path) <==> is_listed(fields, 'D', path)
            &&& changes.modified_paths.contains(path) <==> is_listed_otherwise(fields, path)
            &&& changes.untracked_paths.len() == 0
            &&& ascending(changes.changed_paths)
        }),
{
    pairs_one_by_one(fields, path);
}

/// Whether changes are those that a listing of states and paths gives.
pub open spec fn are_changes_in(listing: Seq<u8>, changes: DiffView) -> bool {
    nul_output(listing, "git diff --name-status -z"@) matches Ok(text) && {
        let told = changes_in(nul_fields(text));
        &&& nul_fields(text).len() % 2 == 0
        &&& changes.changed_paths == told.changed_paths
        &&& changes.added_paths == told.added_paths
        &&& changes.modified_paths == told.modified_paths
        &&& changes.deleted_paths == told.deleted_paths
    }
}

/// Whether the untracked files are those that a listing gives.
pub open spec fn are_untracked_in(listing: Seq<u8>, changes: DiffView) -> bool {
    nul_output(listing, "git ls-files --others"@) matches Ok(text) && forall|path: Seq<char>|
        #[trigger]
        changes.untracked_paths.contains(path) <==> nul_fields(text).contains(path)
}

/// The changes of a claim that has its worktree are those of the files there since the commit that
/// it is based on, with renames taken apart; and its untracked files are those that Git lists as
/// others there and does not ignore.
pub proof fn worktrees_have_changes_since_the_base<R: CommandRunner>(
    runner: &R,
    main_worktree: Seq<char>,
    claim: ClaimView,
    worktree: Seq<char>,
    summary: DiffSummary,
    asked: Seq<Seq<char>>,
    others: Seq<Seq<char>>,
)
    requires
        diff_result(runner, main_worktree, claim, Some(worktree), Ok(summary)),
        asked == seq!["diff"@, "--no-renames"@, "--name-status"@, "-z"@, claim.base_sha, "--"@],
        others == seq!["ls-files"@, "--others"@, "--exclude-standard"@, "-z"@, "--"@],
    ensures
        exists|answer: CommandOutput| #[trigger]
            cli_result(runner, "git"@, asked, worktree, Ok(answer)) && are_changes_in(
                answer.stdout@,
                summary@,
            ),
        exists|answer: CommandOutput| #[trigger]
            cli_result(runner, "git"@, others, worktree, Ok(answer)) && are_untracked_in(
                answer.stdout@,
                summary@,
            ),
{
    let args = diff_args(claim, Some(worktree));
    assert(args =~= asked);
    assert(untracked_args() =~= others);
    let (answer, committed) = choose|
        answer: Result<CommandOutput, CliCommandError>,
        committed: Result<DiffSummary, ObservationError>,
    |
        cli_result(runner, "git"@, args, worktree, answer) && #[trigger] tracked_outcome(
            answer,
            committed,
        ) && diff_continued(runner, worktree, true, committed, Ok(summary));
    assert(committed is Ok);
    let output = answer->Ok_0;
    assert(cli_result(runner, "git"@, asked, worktree, Ok(output)));
    let more = choose|more: Result<CommandOutput, CliCommandError>| #[trigger]
        cli_result(runner, "git"@, others, worktree, more) && untracked_outcome(
            more,
            committed->Ok_0@,
            Ok(summary),
        );
    let listed = more->Ok_0;
    assert(cli_result(runner, "git"@, others, worktree, Ok(listed)));
    if let Ok(text) = nul_output(listed.stdout@, "git ls-files --others"@) {
        ascending_texts_are_sorted(nul_fields(text));
    }
}

/// The changes of a claim that has no worktree are those of its branch since the commit that it is
/// based on; none is untracked.
pub proof fn branches_have_changes_since_the_base<R: CommandRunner>(
    runner: &R,
    main_worktree: Seq<char>,
    claim: ClaimView,
    summary: DiffSummary,
    asked: Seq<Seq<char>>,
)
    requires
        diff_result(runner, main_worktree, claim, None, Ok(summary)),
        asked == seq![
            "diff"@,
            "--no-renames"@,
            "--name-status"@,
            "-z"@,
            claim.base_sha,
            "refs/heads/"@ + claim.branch,
            "--"@,
        ],
    ensures
        exists|answer: CommandOutput| #[trigger]
            cli_result(runner, "git"@, asked, main_worktree, Ok(answer)) && are_changes_in(
                answer.stdout@,
                summary@,
            ),
        summary@.untracked_paths.len() == 0,
{
    let args = diff_args(claim, None);
    assert(args =~= asked);
    let (answer, committed) = choose|
        answer: Result<CommandOutput, CliCommandError>,
        committed: Result<DiffSummary, ObservationError>,
    |
        cli_result(runner, "git"@, args, main_worktree, answer) && #[trigger] tracked_outcome(
            answer,
            committed,
        ) && diff_continued(runner, main_worktree, false, committed, Ok(summary));
    assert(cli_result(runner, "git"@, asked, main_worktree, Ok(answer->Ok_0)));
}

} // verus!
