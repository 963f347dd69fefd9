//! Where worktrees and records are found.
use vstd::prelude::*;

use crate::cli::EnvoyCommand;
use crate::filing::run_reading;
use crate::git::{plain_path, CliCommandError, RepositoryError};
use crate::id::{id_text, Id, IssueNumber};
use crate::lifecycle::LifecycleError;
use crate::model::{OperationView, ReleaseView, RunRecord};
use crate::observation::{worktree_field, worktree_fields, ListedWorktrees, WorktreeView};
use crate::path::{joined_path, same_path};
use crate::store::{
    operation_at, operations_at, record_stem, release_at, releases_at, run_place, RecordFile,
    StoreError,
};
use crate::text::{begins, holds, without_prefix};

verus! {

/// How worktrees are listed: of each its place, its branch where one is checked out, and an empty
/// field behind them.
pub open spec fn listing(worktrees: Seq<WorktreeView>) -> Seq<Seq<char>>
    decreases worktrees.len(),
{
    if worktrees.len() == 0 {
        Seq::empty()
    } else {
        let last = worktrees.last();
        let placed = listing(worktrees.drop_last()).push("worktree "@ + last.path);
        (match last.branch {
            Some(branch) => placed.push("branch refs/heads/"@ + branch),
            None => placed,
        }).push(Seq::empty())
    }
}

proof fn one_more_field(fields: Seq<Seq<char>>, field: Seq<char>)
    ensures
        worktree_fields(fields.push(field)) == match worktree_fields(fields) {
            Some(state) => worktree_field(state, field),
            None => None,
        },
{
    assert(fields.push(field).drop_last() =~= fields);
}

/// Worktrees that are listed are read as they are: one by one, in order, each with its place and
/// its branch.
pub proof fn listed_worktrees_are_read_back(worktrees: Seq<WorktreeView>)
    requires
        forall|i: int| 0 <= i < worktrees.len() ==> (#[trigger] worktrees[i]).canonical is None,
    ensures
        worktree_fields(listing(worktrees)) == Some(
            (ListedWorktrees { entries: worktrees, path: None, branch: None }),
        ),
    decreases worktrees.len(),
{
    reveal_strlit("worktree ");
    reveal_strlit("branch refs/heads/");
    if worktrees.len() == 0 {
        assert(worktrees =~= Seq::empty());
    } else {
        let front = worktrees.drop_last();
        let last = worktrees.last();
        assert(worktrees[worktrees.len() - 1] == last);
        assert forall|i: int| 0 <= i < front.len() implies (
        #[trigger] front[i]).canonical is None by {
            assert(front[i] == worktrees[i]);
        }
        listed_worktrees_are_read_back(front);
        let early = listing(front);
        let place = "worktree "@ + last.path;
        let placed = early.push(place);
        one_more_field(early, place);
        assert(place.take("worktree "@.len() as int) =~= "worktree "@);
        assert(place.skip("worktree "@.len() as int) =~= last.path);
        assert(without_prefix(place, "worktree "@) == Some(last.path));
        if let Some(branch) = last.branch {
            let name = "branch refs/heads/"@ + branch;
            one_more_field(placed, name);
            assert(name.take("worktree "@.len() as int)[0] == 'b');
            assert("worktree "@[0] == 'w');
            assert(!begins(name, "worktree "@));
            assert(name.take("branch refs/heads/"@.len() as int) =~= "branch refs/heads/"@);
            assert(name.skip("branch refs/heads/"@.len() as int) =~= branch);
            one_more_field(placed.push(name), Seq::empty());
        } else {
            one_more_field(placed, Seq::empty());
        }
        assert(front.push(last) =~= worktrees);
    }
}

/// A worktree that Git speaks of before it has ended the one before is not understood.
pub proof fn unended_worktrees_are_not_read(state: ListedWorktrees, path: Seq<char>)
    requires
        state.path is Some,
    ensures
        worktree_field(state, "worktree "@ + path) is None,
{
    reveal_strlit("worktree ");
    let field = "worktree "@ + path;
    assert(field.take("worktree "@.len() as int) =~= "worktree "@);
}

/// A run is read under its own number, and its prompt and what it printed lie beside it.
pub proof fn runs_are_read_where_they_belong(
    root: Seq<char>,
    run_id: Id,
    bytes: Seq<u8>,
    result: Result<RunRecord, StoreError>,
)
    requires
        run_reading(root, run_id, bytes, result),
    ensures
        result matches Ok(run) ==> {
            &&& run@.run_id == run_id
            &&& run@.problem() is None
            &&& same_path(run@.prompt_path, joined_path(run_place(root, run_id), "prompt.md"@))
            &&& same_path(run@.stdout_path, joined_path(run_place(root, run_id), "stdout.log"@))
            &&& same_path(run@.stderr_path, joined_path(run_place(root, run_id), "stderr.log"@))
        },
        run_place(root, run_id) == joined_path(joined_path(root, "runs"@), id_text(run_id)),
{
}

/// Whether a release is the one that a file is named after.
pub open spec fn is_release_of(issue: IssueNumber, file: RecordFile, release: ReleaseView) -> bool {
    release.issue == issue && record_stem(file.name@) == Some(id_text(release.claim_id))
        && release.problem() is None
}

/// The releases that are read in a directory are of its issue and each stands in a file named
/// after it, and every record there is read.
pub proof fn directories_hold_releases(
    issue: IssueNumber,
    files: Seq<RecordFile>,
    read: Seq<ReleaseView>,
)
    requires
        releases_at(issue, files) == Some(read),
    ensures
        forall|k: int|
            0 <= k < read.len() ==> exists|i: int|
                0 <= i < files.len() && is_release_of(issue, #[trigger] files[i], #[trigger] read[k]),
        forall|i: int|
            0 <= i < files.len() && record_stem((#[trigger] files[i]).name@) is Some
                ==> exists|k: int|
                0 <= k < read.len() && is_release_of(issue, files[i], #[trigger] read[k]),
    decreases files.len(),
{
    if files.len() > 0 {
        let front = files.drop_last();
        let end = files.len() - 1;
        assert(files[end] == files.last());
        let early = releases_at(issue, front)->0;
        assert(releases_at(issue, front) is Some);
        directories_hold_releases(issue, front, early);
        if record_stem(files.last().name@) is Some {
            let release = release_at(issue, files.last())->0;
            assert(read == early.push(release));
            assert(is_release_of(issue, files[end], read[early.len() as int]));
        }
        assert forall|k: int| 0 <= k < early.len() implies read[k] == #[trigger] early[k] by {}
        assert forall|k: int| 0 <= k < read.len() implies exists|i: int|
            0 <= i < files.len() && is_release_of(
                issue,
                #[trigger] files[i],
                #[trigger] read[k],
            ) by {
            if k < early.len() {
                assert(read[k] == early[k]);
                let i = choose|i: int|
                    0 <= i < front.len() && is_release_of(issue, #[trigger] front[i], early[k]);
                assert(files[i] == front[i]);
            } else {
                assert(is_release_of(issue, files[end], read[k]));
            }
        }
        assert forall|i: int|
            0 <= i < files.len() && record_stem((#[trigger] files[i]).name@) is Some implies exists|
            k: int,
        |
            0 <= k < read.len() && is_release_of(issue, files[i], #[trigger] read[k]) by {
            if i < end {
                assert(front[i] == files[i]);
                let k = choose|k: int|
                    0 <= k < early.len() && is_release_of(issue, front[i], #[trigger] early[k]);
                assert(read[k] == early[k]);
            } else {
                assert(is_release_of(issue, files[i], read[early.len() as int]));
            }
        }
    }
}

/// Whether an operation is the one that a file is named after.
pub open spec fn is_operation_of(file: RecordFile, operation: OperationView) -> bool {
    record_stem(file.name@) == Some(id_text(operation.operation_id)) && operation.problem() is None
}

/// The operations that are read in the journal each stand in a file named after them, and every
/// record there is read.
pub proof fn journals_hold_operations(files: Seq<RecordFile>, read: Seq<OperationView>)
    requires
        operations_at(files) == Some(read),
    ensures
        forall|k: int|
            0 <= k < read.len() ==> exists|i: int|
                0 <= i < files.len() && is_operation_of(#[trigger] files[i], #[trigger] read[k]),
        forall|i: int|
            0 <= i < files.len() && record_stem((#[trigger] files[i]).name@) is Some
                ==> exists|k: int|
                0 <= k < read.len() && is_operation_of(files[i], #[trigger] read[k]),
    decreases files.len(),
{
    if files.len() > 0 {
        let front = files.drop_last();
        let end = files.len() - 1;
        assert(files[end] == files.last());
        let early = operations_at(front)->0;
        assert(operations_at(front) is Some);
        journals_hold_operations(front, early);
        if record_stem(files.last().name@) is Some {
            let operation = operation_at(files.last())->0;
            assert(read == early.push(operation));
            assert(is_operation_of(files[end], read[early.len() as int]));
        }
        assert forall|k: int| 0 <= k < early.len() implies read[k] == #[trigger] early[k] by {}
        assert forall|k: int| 0 <= k < read.len() implies exists|i: int|
            0 <= i < files.len() && is_operation_of(#[trigger] files[i], #[trigger] read[k]) by {
            if k < early.len() {
                assert(read[k] == early[k]);
                let i = choose|i: int|
                    0 <= i < front.len() && is_operation_of(#[trigger] front[i], early[k]);
                assert(files[i] == front[i]);
            } else {
                assert(is_operation_of(files[end], read[k]));
            }
        }
        assert forall|i: int|
            0 <= i < files.len() && record_stem((#[trigger] files[i]).name@) is Some implies exists|
            k: int,
        |
            0 <= k < read.len() && is_operation_of(files[i], #[trigger] read[k]) by {
            if i < end {
                assert(front[i] == files[i]);
                let k = choose|k: int|
                    0 <= k < early.len() && is_operation_of(front[i], #[trigger] early[k]);
                assert(read[k] == early[k]);
            } else {
                assert(is_operation_of(files[i], read[early.len() as int]));
            }
        }
    }
}

/// A request is refused where the rules forbid it, and fails for everything else.
pub proof fn rules_alone_refuse(error: LifecycleError)
    ensures
        error.refusal() <==> match error {
            LifecycleError::AlreadyClaimed { .. } => true,
            LifecycleError::Reserved(_) => true,
            LifecycleError::Refused(_) => true,
            LifecycleError::NoClaim(_) => true,
            LifecycleError::Repository(_) => false,
            LifecycleError::Config(_) => false,
            LifecycleError::Store(_) => false,
            LifecycleError::Git(_) => false,
            LifecycleError::Runner(_) => false,
            LifecycleError::Github(_) => false,
            LifecycleError::BaseUnavailable { .. } => false,
            LifecycleError::InvalidState(_) => false,
            LifecycleError::Rollback { .. } => false,
            LifecycleError::Io { .. } => false,
        },
{
}

/// A place is outside of any worktree where Git was run there and said so.
pub proof fn git_says_what_is_no_worktree(error: RepositoryError)
    ensures
        error.outside_worktree() ==> error matches RepositoryError::Command(
            CliCommandError::Failed { .. },
        ),
        error matches RepositoryError::Command(
            CliCommandError::Failed { command: _, exit_code: _, stderr },
        ) ==> (error.outside_worktree() <==> holds(stderr@, "not a git repository"@) || holds(
            stderr@,
            "must be run in a work tree"@,
        )),
{
}

/// A path is known without the mark of a verbatim one.
pub proof fn verbatim_marks_are_left_out(rest: Seq<char>, plain: Seq<char>)
    requires
        !begins(rest, "UNC\\"@),
        !begins(plain, "\\\\?\\"@),
    ensures
        plain_path("\\\\?\\"@ + rest) == rest,
        plain_path("\\\\?\\UNC\\"@ + rest) == "\\\\"@ + rest,
        plain_path(plain) == plain,
{
    reveal_strlit("UNC\\");
    reveal_strlit("\\\\?\\");
    reveal_strlit("\\\\?\\UNC\\");
    let marked = "\\\\?\\"@ + rest;
    let shared = "\\\\?\\UNC\\"@ + rest;
    assert(marked.take(4) =~= "\\\\?\\"@);
    assert(marked.skip(4) =~= rest);
    assert(shared.take(8) =~= "\\\\?\\UNC\\"@);
    assert(shared.skip(8) =~= rest);
    assert("\\\\?\\UNC\\"@.skip(4) =~= "UNC\\"@);
    assert("\\\\?\\UNC\\"@.take(4) =~= "\\\\?\\"@);
    if begins(marked, "\\\\?\\UNC\\"@) {
        assert(rest.take(4) =~= marked.take(8).skip(4));
    }
    if begins(plain, "\\\\?\\UNC\\"@) {
        assert(plain.take(4) =~= plain.take(8).take(4));
    }
}

/// The words that the commands go by.
pub proof fn commands_go_by_their_names(command: EnvoyCommand)
    ensures
        command is Claim ==> command.word() == "claim"@,
        command is List ==> command.word() == "list"@,
        command is Status ==> command.word() == "status"@,
        command is Doctor ==> command.word() == "doctor"@,
        command is Release ==> command.word() == "release"@,
        command is Run ==> command.word() == "run"@,
{
}

} // verus!
