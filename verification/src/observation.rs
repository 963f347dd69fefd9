//! Observation: what Git shows of the claims in a repository.
use vstd::prelude::*;
use vstd::string::*;

use crate::command::{
    answers, arguments, command, permits_observing, printed, text_from_utf8_output, CommandOutput,
    CommandRunner, RunnerError,
};
use crate::conflict::{
    analysis_fault, analyze_claims, analyzed, ConflictError, DiffOverlap, OverlapView,
    ScopeWarning, ScopeWarningView,
};
use crate::git::{cli_result, CliCommandError, GitCli, RepositoryContext};
use crate::id::{id_string, id_text, Id, IssueNumber};
use crate::model::{Claim, ClaimView, OperationRecord, OperationView, ReleaseMarker};
use crate::path::{find_known_place, is_same_path, known_place, same_path};
use crate::store::{active, active_claims};
use crate::text::{
    ascending_texts, clone_texts, decimal, decimal_text, insert_text, optional, pairs, quote,
    quoted, same, split, split_text, strip_prefix, utf8_fault, utf8_text, views, with_text,
    without_prefix,
};

verus! {

/// The paths that a claim changes.
#[derive(Debug)]
pub struct DiffSummary {
    pub changed_paths: Vec<String>,
    pub added_paths: Vec<String>,
    pub modified_paths: Vec<String>,
    pub deleted_paths: Vec<String>,
    pub untracked_paths: Vec<String>,
}

pub struct DiffView {
    pub changed_paths: Seq<Seq<char>>,
    pub added_paths: Seq<Seq<char>>,
    pub modified_paths: Seq<Seq<char>>,
    pub deleted_paths: Seq<Seq<char>>,
    pub untracked_paths: Seq<Seq<char>>,
}

impl View for DiffSummary {
    type V = DiffView;

    open spec fn view(&self) -> DiffView {
        DiffView {
            changed_paths: views(self.changed_paths@),
            added_paths: views(self.added_paths@),
            modified_paths: views(self.modified_paths@),
            deleted_paths: views(self.deleted_paths@),
            untracked_paths: views(self.untracked_paths@),
        }
    }
}

impl Clone for DiffSummary {
    fn clone(&self) -> (copy: Self)
        ensures
            copy@ == self@,
    {
        DiffSummary {
            changed_paths: clone_texts(&self.changed_paths),
            added_paths: clone_texts(&self.added_paths),
            modified_paths: clone_texts(&self.modified_paths),
            deleted_paths: clone_texts(&self.deleted_paths),
            untracked_paths: clone_texts(&self.untracked_paths),
        }
    }
}

/// A summary of no changes.
pub open spec fn no_changes() -> DiffView {
    DiffView {
        changed_paths: Seq::empty(),
        added_paths: Seq::empty(),
        modified_paths: Seq::empty(),
        deleted_paths: Seq::empty(),
        untracked_paths: Seq::empty(),
    }
}

impl Default for DiffSummary {
    fn default() -> (summary: Self)
        ensures
            summary@ == no_changes(),
    {
        let summary = DiffSummary {
            changed_paths: Vec::new(),
            added_paths: Vec::new(),
            modified_paths: Vec::new(),
            deleted_paths: Vec::new(),
            untracked_paths: Vec::new(),
        };
        assert(summary@.changed_paths =~= no_changes().changed_paths);
        assert(summary@.added_paths =~= no_changes().added_paths);
        assert(summary@.modified_paths =~= no_changes().modified_paths);
        assert(summary@.deleted_paths =~= no_changes().deleted_paths);
        assert(summary@.untracked_paths =~= no_changes().untracked_paths);
        summary
    }
}

/// A claim, its changes where they can be told, and the conflicts that they lead to.
#[derive(Debug)]
pub struct ClaimObservation {
    pub claim: Claim,
    pub diff: Option<DiffSummary>,
    pub overlaps: Vec<DiffOverlap>,
    pub scope_warnings: Vec<ScopeWarning>,
}

pub struct ObservationView {
    pub claim: ClaimView,
    pub diff: Option<DiffView>,
    pub overlaps: Seq<OverlapView>,
    pub scope_warnings: Seq<ScopeWarningView>,
}

impl View for ClaimObservation {
    type V = ObservationView;

    open spec fn view(&self) -> ObservationView {
        ObservationView {
            claim: self.claim@,
            diff: optional(self.diff),
            overlaps: views(self.overlaps@),
            scope_warnings: views(self.scope_warnings@),
        }
    }
}

fn clone_overlaps(overlaps: &Vec<DiffOverlap>) -> (copy: Vec<DiffOverlap>)
    ensures
        views(copy@) == views(overlaps@),
{
    let mut copy: Vec<DiffOverlap> = Vec::new();
    let mut i: usize = 0;
    while i < overlaps.len()
        invariant
            i <= overlaps.len(),
            copy.len() == i,
            forall|j: int| 0 <= j < i ==> (#[trigger] copy@[j])@ == overlaps@[j]@,
        decreases overlaps.len() - i,
    {
        copy.push(overlaps[i].clone());
        i = i + 1;
    }
    assert(views(copy@) =~= views(overlaps@));
    copy
}

fn clone_scope_warnings(warnings: &Vec<ScopeWarning>) -> (copy: Vec<ScopeWarning>)
    ensures
        views(copy@) == views(warnings@),
{
    let mut copy: Vec<ScopeWarning> = Vec::new();
    let mut i: usize = 0;
    while i < warnings.len()
        invariant
            i <= warnings.len(),
            copy.len() == i,
            forall|j: int| 0 <= j < i ==> (#[trigger] copy@[j])@ == warnings@[j]@,
        decreases warnings.len() - i,
    {
        copy.push(warnings[i].clone());
        i = i + 1;
    }
    assert(views(copy@) =~= views(warnings@));
    copy
}

impl Clone for ClaimObservation {
    fn clone(&self) -> (copy: Self)
        ensures
            copy@ == self@,
    {
        ClaimObservation {
            claim: self.claim.clone(),
            diff: match &self.diff {
                Some(diff) => Some(diff.clone()),
                None => None,
            },
            overlaps: clone_overlaps(&self.overlaps),
            scope_warnings: clone_scope_warnings(&self.scope_warnings),
        }
    }
}

#[derive(Clone, Copy, Debug, PartialEq, Eq, Structural)]
pub enum LocalProblemCode {
    MissingBase,
    MissingBranch,
    MissingWorktree,
    WorktreeMismatch,
    AbandonedOperation,
}

/// Something that is wrong in the repository.
#[derive(Debug)]
pub struct LocalProblem {
    pub code: LocalProblemCode,
    pub issue: Option<IssueNumber>,
    pub claim_id: Option<Id>,
    pub operation_id: Option<Id>,
    pub message: String,
}

pub struct ProblemView {
    pub code: LocalProblemCode,
    pub issue: Option<IssueNumber>,
    pub claim_id: Option<Id>,
    pub operation_id: Option<Id>,
    pub message: Seq<char>,
}

impl View for LocalProblem {
    type V = ProblemView;

    open spec fn view(&self) -> ProblemView {
        ProblemView {
            code: self.code,
            issue: self.issue,
            claim_id: self.claim_id,
            operation_id: self.operation_id,
            message: self.message@,
        }
    }
}

impl Clone for LocalProblem {
    fn clone(&self) -> (copy: Self)
        ensures
            copy@ == self@,
    {
        LocalProblem {
            code: self.code,
            issue: self.issue,
            claim_id: self.claim_id,
            operation_id: self.operation_id,
            message: self.message.clone(),
        }
    }
}

/// The claims of a repository, the operations under way in it, and what is wrong.
#[derive(Debug)]
pub struct LocalObservation {
    pub claims: Vec<ClaimObservation>,
    pub operations: Vec<OperationRecord>,
    pub problems: Vec<LocalProblem>,
}

pub struct LocalView {
    pub claims: Seq<ObservationView>,
    pub operations: Seq<OperationView>,
    pub problems: Seq<ProblemView>,
}

impl View for LocalObservation {
    type V = LocalView;

    open spec fn view(&self) -> LocalView {
        LocalView {
            claims: views(self.claims@),
            operations: views(self.operations@),
            problems: views(self.problems@),
        }
    }
}

/// Why a repository could not be observed.
#[derive(Debug)]
pub enum ObservationError {
    Repository(crate::git::RepositoryError),
    Config(crate::config::ConfigError),
    Store(crate::store::StoreError),
    Conflict(ConflictError),
    Git(CliCommandError),
    Runner(RunnerError),
    InvalidGitOutput(String),
}

impl ObservationError {
    pub open spec fn text(self) -> Seq<char> {
        match self {
            ObservationError::Repository(error) => error.text(),
            ObservationError::Config(error) => error.text(),
            ObservationError::Store(error) => error.text(),
            ObservationError::Conflict(error) => error.text(),
            ObservationError::Git(error) => error.text(),
            ObservationError::Runner(error) => error.text(),
            ObservationError::InvalidGitOutput(problem) => "invalid Git output: "@ + problem@,
        }
    }

    pub fn message(&self) -> (text: String)
        ensures
            text@ == self.text(),
    {
        match self {
            ObservationError::Repository(error) => error.message(),
            ObservationError::Config(error) => error.message(),
            ObservationError::Store(error) => error.message(),
            ObservationError::Conflict(error) => error.message(),
            ObservationError::Git(error) => error.message(),
            ObservationError::Runner(error) => error.message(),
            ObservationError::InvalidGitOutput(problem) => {
                let mut text = "invalid Git output: ".to_owned();
                text.append(problem.as_str());
                text
            },
        }
    }
}

/// The characters of an output whose parts NUL separates, or a complaint.
pub open spec fn nul_output(bytes: Seq<u8>, source: Seq<char>) -> Result<Seq<char>, Seq<char>> {
    if vstd::utf8::valid_utf8(bytes) {
        Ok(vstd::utf8::decode_utf8(bytes))
    } else {
        Err(source + " returned non-UTF-8 output: "@ + utf8_fault(bytes))
    }
}

fn nul_text(bytes: &Vec<u8>, source: &str) -> (result: Result<String, String>)
    ensures
        crate::command::result_view(result) == nul_output(bytes@, source@),
{
    match utf8_text(bytes.as_slice()) {
        Ok(text) => Ok(text),
        Err(fault) => {
            let mut message = source.to_owned();
            message.append(" returned non-UTF-8 output: ");
            message.append(fault.as_str());
            Err(message)
        },
    }
}

// ---------------------------------------------------------------------------------------------
// Changes
// ---------------------------------------------------------------------------------------------
/// The parts of a text that are not empty.
pub open spec fn nonempty(list: Seq<Seq<char>>) -> Seq<Seq<char>>
    decreases list.len(),
{
    if list.len() == 0 {
        Seq::empty()
    } else if list.last().len() == 0 {
        nonempty(list.drop_last())
    } else {
        nonempty(list.drop_last()).push(list.last())
    }
}

/// What stands between the NULs of a text.
pub open spec fn nul_fields(text: Seq<char>) -> Seq<Seq<char>> {
    nonempty(split(text, '\0'))
}

fn fields_between_nuls(text: &str) -> (fields: Vec<String>)
    ensures
        views(fields@) == nul_fields(text@),
{
    let pieces = split_text(text, '\0');
    let ghost all = views(pieces@);
    let mut fields: Vec<String> = Vec::new();
    let mut i: usize = 0;
    assert(all.take(0) =~= Seq::empty());
    assert(views(fields@) =~= Seq::empty());
    while i < pieces.len()
        invariant
            i <= pieces.len(),
            all == views(pieces@),
            views(fields@) == nonempty(all.take(i as int)),
        decreases pieces.len() - i,
    {
        let ghost done = views(fields@);
        assert(all.take(i + 1).drop_last() =~= all.take(i as int));
        assert(all.take(i + 1).last() == pieces@[i as int]@);
        if !pieces[i].as_str().is_empty() {
            fields.push(pieces[i].clone());
            assert(views(fields@) =~= done.push(pieces@[i as int]@));
        }
        i = i + 1;
    }
    assert(all.take(i as int) =~= all);
    fields
}

/// What a status letter of Git stands for.
#[derive(Clone, Copy, Debug, PartialEq, Eq, Structural)]
pub enum ChangeKind {
    Added,
    Deleted,
    Modified,
}

pub open spec fn kind_of(status: Seq<char>) -> ChangeKind {
    if status.len() > 0 && status[0] == 'A' {
        ChangeKind::Added
    } else if status.len() > 0 && status[0] == 'D' {
        ChangeKind::Deleted
    } else {
        ChangeKind::Modified
    }
}

/// The paths of the pairs of status and path that are of a kind, in ascending order.
pub open spec fn paths_of_kind(fields: Seq<Seq<char>>, kind: ChangeKind) -> Seq<Seq<char>>
    decreases fields.len(),
{
    if fields.len() < 2 {
        Seq::empty()
    } else {
        let front = paths_of_kind(fields.take(fields.len() - 2), kind);
        if kind_of(fields[fields.len() - 2]) == kind {
            with_text(front, fields.last())
        } else {
            front
        }
    }
}

/// The paths of all pairs of status and path, in ascending order.
pub open spec fn paths_of_pairs(fields: Seq<Seq<char>>) -> Seq<Seq<char>>
    decreases fields.len(),
{
    if fields.len() < 2 {
        Seq::empty()
    } else {
        with_text(paths_of_pairs(fields.take(fields.len() - 2)), fields.last())
    }
}

/// The changes that a list of pairs of status and path stands for.
pub open spec fn changes_in(fields: Seq<Seq<char>>) -> DiffView {
    DiffView {
        changed_paths: paths_of_pairs(fields),
        added_paths: paths_of_kind(fields, ChangeKind::Added),
        modified_paths: paths_of_kind(fields, ChangeKind::Modified),
        deleted_paths: paths_of_kind(fields, ChangeKind::Deleted),
        untracked_paths: Seq::empty(),
    }
}

fn change_kind(status: &str) -> (kind: ChangeKind)
    ensures
        kind == kind_of(status@),
{
    let chars = crate::text::chars_of(status);
    if chars.len() > 0 && chars[0] == 'A' {
        ChangeKind::Added
    } else if chars.len() > 0 && chars[0] == 'D' {
        ChangeKind::Deleted
    } else {
        ChangeKind::Modified
    }
}

/// What the output of `git diff --name-status -z` says.
pub open spec fn name_status(bytes: Seq<u8>) -> Result<DiffView, Seq<char>> {
    match nul_output(bytes, "git diff --name-status -z"@) {
        Err(problem) => Err(problem),
        Ok(text) => if nul_fields(text).len() % 2 != 0 {
            Err("git diff --name-status -z returned an incomplete record"@)
        } else {
            Ok(changes_in(nul_fields(text)))
        },
    }
}

/// Reads the output of `git diff --name-status -z`.
pub fn parse_name_status(stdout: &Vec<u8>) -> (result: Result<DiffSummary, String>)
    ensures
        crate::command::result_view(result) == name_status(stdout@),
{
    let text = match nul_text(stdout, "git diff --name-status -z") {
        Ok(text) => text,
        Err(problem) => return Err(problem),
    };
    let fields = fields_between_nuls(text.as_str());
    if fields.len() % 2 != 0 {
        return Err("git diff --name-status -z returned an incomplete record".to_owned());
    }
    let ghost all = views(fields@);
    let mut summary = DiffSummary::default();
    let mut i: usize = 0;
    assert(all.take(0) =~= Seq::empty());
    assert(summary@ == changes_in(all.take(0)));
    while i < fields.len()
        invariant
            i <= fields.len(),
            i % 2 == 0,
            fields.len() % 2 == 0,
            all == views(fields@),
            summary@ == changes_in(all.take(i as int)),
        decreases fields.len() - i,
    {
        let path = &fields[i + 1];
        let ghost now = all.take(i + 2);
        assert(now.take(now.len() - 2) =~= all.take(i as int));
        assert(now[now.len() - 2] == fields@[i as int]@);
        assert(now.last() == path@);
        let DiffSummary {
            changed_paths,
            added_paths,
            modified_paths,
            deleted_paths,
            untracked_paths,
        } = summary;
        let mut changed_paths = changed_paths;
        let mut added_paths = added_paths;
        let mut modified_paths = modified_paths;
        let mut deleted_paths = deleted_paths;
        match change_kind(fields[i].as_str()) {
            ChangeKind::Added => insert_text(&mut added_paths, path.clone()),
            ChangeKind::Deleted => insert_text(&mut deleted_paths, path.clone()),
            ChangeKind::Modified => insert_text(&mut modified_paths, path.clone()),
        }
        insert_text(&mut changed_paths, path.clone());
        summary = DiffSummary {
            changed_paths,
            added_paths,
            modified_paths,
            deleted_paths,
            untracked_paths,
        };
        i = i + 2;
    }
    assert(all.take(i as int) =~= all);
    Ok(summary)
}

/// What an output of paths that NUL separates says: the paths in ascending order, each once.
pub open spec fn path_list(bytes: Seq<u8>, source: Seq<char>) -> Result<Seq<Seq<char>>, Seq<char>> {
    match nul_output(bytes, source) {
        Err(problem) => Err(problem),
        Ok(text) => Ok(ascending_texts(nul_fields(text))),
    }
}

/// Reads an output of paths that NUL separates.
pub fn parse_paths(stdout: &Vec<u8>, source: &str) -> (result: Result<Vec<String>, String>)
    ensures
        match result {
            Ok(paths) => path_list(stdout@, source@) == Ok::<_, Seq<char>>(views(paths@)),
            Err(problem) => path_list(stdout@, source@) == Err::<Seq<Seq<char>>, _>(problem@),
        },
{
    match nul_text(stdout, source) {
        Ok(text) => Ok(crate::text::sorted_distinct(&fields_between_nuls(text.as_str()))),
        Err(problem) => Err(problem),
    }
}

/// A path is changed exactly where it is added, modified or deleted.
pub proof fn changes_are_of_some_kind(fields: Seq<Seq<char>>, path: Seq<char>)
    ensures
        changes_in(fields).changed_paths.contains(path) <==> {
            ||| changes_in(fields).added_paths.contains(path)
            ||| changes_in(fields).modified_paths.contains(path)
            ||| changes_in(fields).deleted_paths.contains(path)
        },
{
    kinds_cover(fields, path);
}

proof fn kinds_cover(fields: Seq<Seq<char>>, path: Seq<char>)
    ensures
        crate::text::ascending(paths_of_pairs(fields)),
        crate::text::ascending(paths_of_kind(fields, ChangeKind::Added)),
        crate::text::ascending(paths_of_kind(fields, ChangeKind::Modified)),
        crate::text::ascending(paths_of_kind(fields, ChangeKind::Deleted)),
        paths_of_pairs(fields).contains(path) <==> (paths_of_kind(
            fields,
            ChangeKind::Added,
        ).contains(path) || paths_of_kind(fields, ChangeKind::Modified).contains(path)
            || paths_of_kind(fields, ChangeKind::Deleted).contains(path)),
    decreases fields.len(),
{
    if fields.len() >= 2 {
        let front = fields.take(fields.len() - 2);
        kinds_cover(front, path);
        let last = fields.last();
        crate::text::with_text_is_sorted(paths_of_pairs(front), last);
        crate::text::with_text_is_sorted(paths_of_kind(front, ChangeKind::Added), last);
        crate::text::with_text_is_sorted(paths_of_kind(front, ChangeKind::Modified), last);
        crate::text::with_text_is_sorted(paths_of_kind(front, ChangeKind::Deleted), last);
        assert(paths_of_pairs(fields).contains(path) == with_text(
            paths_of_pairs(front),
            last,
        ).contains(path));
        let kind = kind_of(fields[fields.len() - 2]);
        assert(with_text(paths_of_kind(front, kind), last).contains(path) == paths_of_kind(
            fields,
            kind,
        ).contains(path));
    }
}

// ---------------------------------------------------------------------------------------------
// Worktrees
// ---------------------------------------------------------------------------------------------
/// A worktree that Git knows of, the branch that it is attached to, and, once it was looked up,
/// where it leads to in the file system.
#[derive(Debug)]
pub struct WorktreeEntry {
    pub path: String,
    pub branch: Option<String>,
    pub canonical: Option<String>,
}

pub struct WorktreeView {
    pub path: Seq<char>,
    pub branch: Option<Seq<char>>,
    pub canonical: Option<Seq<char>>,
}

impl View for WorktreeEntry {
    type V = WorktreeView;

    open spec fn view(&self) -> WorktreeView {
        WorktreeView {
            path: self.path@,
            branch: optional(self.branch),
            canonical: optional(self.canonical),
        }
    }
}

/// How far a list of worktrees has been read: the entries that are complete, and what is known of
/// the next one.
pub struct ListedWorktrees {
    pub entries: Seq<WorktreeView>,
    pub path: Option<Seq<char>>,
    pub branch: Option<Seq<char>>,
}

/// One more field of a list of worktrees: an empty one ends an entry, and others tell its path and
/// its branch. A path before the last entry has ended is an error.
pub open spec fn worktree_field(state: ListedWorktrees, field: Seq<char>) -> Option<
    ListedWorktrees,
> {
    if field.len() == 0 {
        match state.path {
            Some(path) => Some(
                ListedWorktrees {
                    entries: state.entries.push(
                        WorktreeView { path, branch: state.branch, canonical: None },
                    ),
                    path: None,
                    branch: None,
                },
            ),
            None => Some(state),
        }
    } else {
        match without_prefix(field, "worktree "@) {
            Some(path) => if state.path is Some {
                None
            } else {
                Some(ListedWorktrees { path: Some(path), ..state })
            },
            None => match without_prefix(field, "branch refs/heads/"@) {
                Some(branch) => Some(ListedWorktrees { branch: Some(branch), ..state }),
                None => Some(state),
            },
        }
    }
}

/// What the fields of a list of worktrees say, one after the other.
pub open spec fn worktree_fields(fields: Seq<Seq<char>>) -> Option<ListedWorktrees>
    decreases fields.len(),
{
    if fields.len() == 0 {
        Some(ListedWorktrees { entries: Seq::empty(), path: None, branch: None })
    } else {
        match worktree_fields(fields.drop_last()) {
            Some(state) => worktree_field(state, fields.last()),
            None => None,
        }
    }
}

proof fn broken_fields_stay_broken(fields: Seq<Seq<char>>, end: int)
    requires
        0 <= end <= fields.len(),
        worktree_fields(fields.take(end)) is None,
    ensures
        worktree_fields(fields) is None,
    decreases fields.len() - end,
{
    if end < fields.len() {
        assert(fields.take(end + 1).drop_last() =~= fields.take(end));
        broken_fields_stay_broken(fields, end + 1);
    } else {
        assert(fields.take(end) =~= fields);
    }
}

/// What the output of `git worktree list --porcelain -z` says.
pub open spec fn worktree_list(bytes: Seq<u8>) -> Result<Seq<WorktreeView>, Seq<char>> {
    match nul_output(bytes, "git worktree list --porcelain -z"@) {
        Err(problem) => Err(problem),
        Ok(text) => match worktree_fields(split(text, '\0')) {
            None => Err("git worktree list reported an unterminated entry"@),
            Some(state) => if state.path is Some {
                Err("git worktree list reported an unterminated entry"@)
            } else if state.entries.len() == 0 {
                Err("git worktree list did not report a worktree"@)
            } else {
                Ok(state.entries)
            },
        },
    }
}

/// Reads the output of `git worktree list --porcelain -z`.
pub fn parse_worktrees(stdout: &Vec<u8>) -> (result: Result<Vec<WorktreeEntry>, String>)
    ensures
        match result {
            Ok(entries) => worktree_list(stdout@) == Ok::<_, Seq<char>>(views(entries@)),
            Err(problem) => worktree_list(stdout@) == Err::<Seq<WorktreeView>, _>(problem@),
        },
{
    let text = match nul_text(stdout, "git worktree list --porcelain -z") {
        Ok(text) => text,
        Err(problem) => return Err(problem),
    };
    let fields = split_text(text.as_str(), '\0');
    let ghost all = views(fields@);
    let mut entries: Vec<WorktreeEntry> = Vec::new();
    let mut path: Option<String> = None;
    let mut branch: Option<String> = None;
    let mut i: usize = 0;
    assert(all.take(0) =~= Seq::empty());
    assert(views(entries@) =~= Seq::empty());
    while i < fields.len()
        invariant
            i <= fields.len(),
            all == views(fields@),
            all == split(text@, '\0'),
            nul_output(stdout@, "git worktree list --porcelain -z"@) == Ok::<_, Seq<char>>(text@),
            worktree_fields(all.take(i as int)) == Some(
                ListedWorktrees {
                    entries: views(entries@),
                    path: optional(path),
                    branch: optional(branch),
                },
            ),
        decreases fields.len() - i,
    {
        let field = fields[i].as_str();
        let ghost done = views(entries@);
        assert(all.take(i + 1).drop_last() =~= all.take(i as int));
        assert(all.take(i + 1).last() == field@);
        if field.is_empty() {
            match path {
                Some(found) => {
                    let ghost entry = WorktreeView {
                        path: found@,
                        branch: optional(branch),
                        canonical: None,
                    };
                    entries.push(WorktreeEntry { path: found, branch, canonical: None });
                    assert(views(entries@) =~= done.push(entry));
                    path = None;
                    branch = None;
                },
                None => {
                    path = None;
                },
            }
        } else if let Some(value) = strip_prefix(field, "worktree ") {
            if path.is_some() {
                proof {
                    broken_fields_stay_broken(all, i + 1);
                }
                return Err("git worktree list reported an unterminated entry".to_owned());
            }
            path = Some(value);
        } else if let Some(value) = strip_prefix(field, "branch refs/heads/") {
            branch = Some(value);
        }
        i = i + 1;
    }
    assert(all.take(i as int) =~= all);
    if path.is_some() {
        return Err("git worktree list reported an unterminated entry".to_owned());
    }
    if entries.len() == 0 {
        return Err("git worktree list did not report a worktree".to_owned());
    }
    Ok(entries)
}

pub open spec fn worktrees_args() -> Seq<Seq<char>> {
    seq!["worktree"@, "list"@, "--porcelain"@, "-z"@]
}

/// What listing the worktrees comes to, by what Git answered.
pub open spec fn worktrees_outcome(
    answer: Result<CommandOutput, CliCommandError>,
    result: Result<Vec<WorktreeEntry>, ObservationError>,
) -> bool {
    match answer {
        Err(error) => result == Err::<Vec<WorktreeEntry>, _>(ObservationError::Git(error)),
        Ok(output) => match worktree_list(output.stdout@) {
            Ok(entries) => result matches Ok(found) && views(found@) == entries,
            Err(problem) => result matches Err(ObservationError::InvalidGitOutput(message))
                && message@ == problem,
        },
    }
}

/// Asks Git for the worktrees of a repository.
pub fn list_worktrees<R: CommandRunner>(runner: &R, cwd: &str) -> (result: Result<
    Vec<WorktreeEntry>,
    ObservationError,
>)
    requires
        runner.permits(command("git"@, worktrees_args(), cwd@)),
    ensures
        exists|answer: Result<CommandOutput, CliCommandError>| #[trigger]
            cli_result(runner, "git"@, worktrees_args(), cwd@, answer) && worktrees_outcome(
                answer,
                result,
            ),
{
    let args: Vec<&str> = vec!["worktree", "list", "--porcelain", "-z"];
    assert(views(args@) =~= worktrees_args());
    let answer = GitCli::new(runner).run(cwd, arguments(&args));
    match answer {
        Err(error) => Err(ObservationError::Git(error)),
        Ok(output) => match parse_worktrees(&output.stdout) {
            Ok(entries) => Ok(entries),
            Err(problem) => Err(ObservationError::InvalidGitOutput(problem)),
        },
    }
}

/// The first of the worktrees that leads to a place.
pub open spec fn entry_at(entries: Seq<WorktreeView>, place: Seq<char>) -> Option<WorktreeView>
    decreases entries.len(),
{
    if entries.len() == 0 {
        None
    } else if entries[0].canonical matches Some(canonical) && same_path(canonical, place) {
        Some(entries[0])
    } else {
        entry_at(entries.drop_first(), place)
    }
}

pub fn find_entry_at<'a>(entries: &'a Vec<WorktreeEntry>, place: &str) -> (found: Option<
    &'a WorktreeEntry,
>)
    ensures
        match found {
            Some(entry) => entry_at(views(entries@), place@) == Some(entry@),
            None => entry_at(views(entries@), place@) is None,
        },
{
    let ghost all = views(entries@);
    let mut i: usize = 0;
    assert(all.skip(0) =~= all);
    while i < entries.len()
        invariant
            i <= entries.len(),
            all == views(entries@),
            entry_at(all, place@) == entry_at(all.skip(i as int), place@),
        decreases entries.len() - i,
    {
        assert(all.skip(i as int)[0] == entries@[i as int]@);
        assert(all.skip(i as int).drop_first() =~= all.skip(i + 1));
        if let Some(canonical) = &entries[i].canonical {
            if is_same_path(canonical.as_str(), place) {
                return Some(&entries[i]);
            }
        }
        i = i + 1;
    }
    None
}

/// A problem of a claim.
pub open spec fn problem_of(
    claim: ClaimView,
    code: LocalProblemCode,
    message: Seq<char>,
) -> ProblemView {
    ProblemView {
        code,
        issue: Some(claim.issue),
        claim_id: Some(claim.claim_id),
        operation_id: None,
        message,
    }
}

fn claim_problem(claim: &Claim, code: LocalProblemCode, message: String) -> (problem: LocalProblem)
    ensures
        problem@ == problem_of(claim@, code, message@),
{
    LocalProblem {
        code,
        issue: Some(claim.issue),
        claim_id: Some(claim.claim_id),
        operation_id: None,
        message,
    }
}

/// The worktree of a claim, as Git knows it, where it is there and attached to the branch of the
/// claim; or what is wrong with it.
pub open spec fn reconciled(
    claim: ClaimView,
    place: Option<Seq<char>>,
    entries: Seq<WorktreeView>,
) -> Result<Seq<char>, ProblemView> {
    match place {
        None => Err(
            problem_of(
                claim,
                LocalProblemCode::MissingWorktree,
                "claimed worktree "@ + quoted(claim.worktree) + " does not exist"@,
            ),
        ),
        Some(place) => match entry_at(entries, place) {
            None => Err(
                problem_of(
                    claim,
                    LocalProblemCode::WorktreeMismatch,
                    "claimed worktree "@ + quoted(claim.worktree) + " is not registered with Git"@,
                ),
            ),
            Some(entry) => if entry.branch != Some(claim.branch) {
                Err(
                    problem_of(
                        claim,
                        LocalProblemCode::WorktreeMismatch,
                        "claimed worktree "@ + quoted(claim.worktree)
                            + " is not attached to branch "@ + quoted(claim.branch),
                    ),
                )
            } else {
                Ok(entry.path)
            },
        },
    }
}

fn reconcile_worktree(claim: &Claim, place: &Option<String>, entries: &Vec<WorktreeEntry>) -> (result:
    Result<String, LocalProblem>)
    ensures
        crate::command::result_view(result) == reconciled(
            claim@,
            optional(*place),
            views(entries@),
        ),
{
    let mut start = "claimed worktree ".to_owned();
    start.append(quote(claim.worktree.as_str()).as_str());
    let place = match place {
        Some(place) => place,
        None => {
            start.append(" does not exist");
            return Err(claim_problem(claim, LocalProblemCode::MissingWorktree, start));
        },
    };
    let entry = match find_entry_at(entries, place.as_str()) {
        Some(entry) => entry,
        None => {
            start.append(" is not registered with Git");
            return Err(claim_problem(claim, LocalProblemCode::WorktreeMismatch, start));
        },
    };
    let attached = match &entry.branch {
        Some(branch) => same(branch.as_str(), claim.branch.as_str()),
        None => false,
    };
    if !attached {
        start.append(" is not attached to branch ");
        start.append(quote(claim.branch.as_str()).as_str());
        return Err(claim_problem(claim, LocalProblemCode::WorktreeMismatch, start));
    }
    Ok(entry.path.clone())
}

// ---------------------------------------------------------------------------------------------
// Commits and diffs
// ---------------------------------------------------------------------------------------------
pub open spec fn commit_args(object: Seq<char>) -> Seq<Seq<char>> {
    seq!["rev-parse"@, "--verify"@, "--quiet"@, object + "^{commit}"@]
}

/// The commit that an object leads to, by what Git answered: none where it exits otherwise than
/// with zero.
pub open spec fn commit_outcome(
    answer: Result<CommandOutput, RunnerError>,
    result: Result<Option<String>, ObservationError>,
) -> bool {
    match answer {
        Err(error) => result == Err::<Option<String>, _>(ObservationError::Runner(error)),
        Ok(output) => if output.exit_code != Some(0i32) {
            result matches Ok(None)
        } else {
            match printed(output.stdout@, "git rev-parse --verify"@) {
                Err(problem) => result matches Err(ObservationError::InvalidGitOutput(message))
                    && message@ == problem,
                Ok(commit) => if commit.len() == 0 {
                    result matches Err(ObservationError::InvalidGitOutput(message)) && message@
                        == "git rev-parse --verify returned an empty object ID"@
                } else {
                    result matches Ok(Some(found)) && found@ == commit
                },
            }
        },
    }
}

/// Whether asking for the commit of an object may come to that result.
pub open spec fn commit_result<R: CommandRunner>(
    runner: &R,
    cwd: Seq<char>,
    object: Seq<char>,
    result: Result<Option<String>, ObservationError>,
) -> bool {
    exists|answer: Result<CommandOutput, RunnerError>| #[trigger]
        answers(runner, command("git"@, commit_args(object), cwd), answer) && commit_outcome(
            answer,
            result,
        )
}

/// Reads what became of asking for the commit of an object.
pub fn interpret_commit(answer: Result<CommandOutput, RunnerError>) -> (result: Result<
    Option<String>,
    ObservationError,
>)
    ensures
        commit_outcome(answer, result),
{
    let output = match answer {
        Ok(output) => output,
        Err(error) => return Err(ObservationError::Runner(error)),
    };
    let success = match output.exit_code {
        Some(code) => code == 0,
        None => false,
    };
    if !success {
        return Ok(None);
    }
    match text_from_utf8_output(&output.stdout, "git rev-parse --verify") {
        Err(problem) => Err(ObservationError::InvalidGitOutput(problem)),
        Ok(commit) => if commit.as_str().is_empty() {
            Err(
                ObservationError::InvalidGitOutput(
                    "git rev-parse --verify returned an empty object ID".to_owned(),
                ),
            )
        } else {
            Ok(Some(commit))
        },
    }
}

fn resolve_commit<R: CommandRunner>(runner: &R, cwd: &str, object: &str) -> (result: Result<
    Option<String>,
    ObservationError,
>)
    requires
        runner.permits(command("git"@, commit_args(object@), cwd@)),
    ensures
        commit_result(runner, cwd@, object@, result),
{
    let mut reference = object.to_owned();
    reference.append("^{commit}");
    let args: Vec<&str> = vec!["rev-parse", "--verify", "--quiet", reference.as_str()];
    assert(views(args@) =~= commit_args(object@));
    let answer = GitCli::new(runner).attempt(cwd, arguments(&args));
    interpret_commit(answer)
}

/// How the changes since the base of a claim are asked for: in its worktree where that can be
/// used, and else up to its branch.
pub open spec fn diff_args(claim: ClaimView, worktree: Option<Seq<char>>) -> Seq<Seq<char>> {
    let start = seq!["diff"@, "--no-renames"@, "--name-status"@, "-z"@, claim.base_sha];
    if worktree is Some {
        start.push("--"@)
    } else {
        start.push("refs/heads/"@ + claim.branch).push("--"@)
    }
}

pub open spec fn untracked_args() -> Seq<Seq<char>> {
    seq!["ls-files"@, "--others"@, "--exclude-standard"@, "-z"@, "--"@]
}

/// The changes of a claim, by what Git answered to the question for them.
pub open spec fn tracked_outcome(
    answer: Result<CommandOutput, CliCommandError>,
    result: Result<DiffSummary, ObservationError>,
) -> bool {
    match answer {
        Err(error) => result == Err::<DiffSummary, _>(ObservationError::Git(error)),
        Ok(output) => match name_status(output.stdout@) {
            Err(problem) => result matches Err(ObservationError::InvalidGitOutput(message))
                && message@ == problem,
            Ok(changes) => result matches Ok(summary) && summary@ == changes,
        },
    }
}

/// The changes of a claim with the untracked paths that Git answered with.
pub open spec fn untracked_outcome(
    answer: Result<CommandOutput, CliCommandError>,
    changes: DiffView,
    result: Result<DiffSummary, ObservationError>,
) -> bool {
    match answer {
        Err(error) => result == Err::<DiffSummary, _>(ObservationError::Git(error)),
        Ok(output) => match path_list(output.stdout@, "git ls-files --others"@) {
            Err(problem) => result matches Err(ObservationError::InvalidGitOutput(message))
                && message@ == problem,
            Ok(paths) => result matches Ok(summary) && summary@ == (DiffView {
                untracked_paths: paths,
                ..changes
            }),
        },
    }
}

/// Where the changes of a claim are asked for.
pub open spec fn diff_place(main_worktree: Seq<char>, worktree: Option<Seq<char>>) -> Seq<char> {
    match worktree {
        Some(worktree) => worktree,
        None => main_worktree,
    }
}

/// What the answer to the question for the changes of a claim leads to: where its worktree can be
/// used, the question for the untracked paths.
pub open spec fn diff_continued<R: CommandRunner>(
    runner: &R,
    cwd: Seq<char>,
    with_untracked: bool,
    committed: Result<DiffSummary, ObservationError>,
    result: Result<DiffSummary, ObservationError>,
) -> bool {
    if committed is Ok && with_untracked {
        exists|more: Result<CommandOutput, CliCommandError>| #[trigger]
            cli_result(runner, "git"@, untracked_args(), cwd, more) && untracked_outcome(
                more,
                committed->Ok_0@,
                result,
            )
    } else {
        result == committed
    }
}

/// Whether asking for the changes of a claim may come to that result.
pub open spec fn diff_result<R: CommandRunner>(
    runner: &R,
    main_worktree: Seq<char>,
    claim: ClaimView,
    worktree: Option<Seq<char>>,
    result: Result<DiffSummary, ObservationError>,
) -> bool {
    exists|answer: Result<CommandOutput, CliCommandError>, committed: Result<
        DiffSummary,
        ObservationError,
    >|
        cli_result(
            runner,
            "git"@,
            diff_args(claim, worktree),
            diff_place(main_worktree, worktree),
            answer,
        ) && #[trigger] tracked_outcome(answer, committed) && diff_continued(
            runner,
            diff_place(main_worktree, worktree),
            worktree is Some,
            committed,
            result,
        )
}

fn derive_diff<R: CommandRunner>(
    runner: &R,
    main_worktree: &str,
    claim: &Claim,
    worktree: &Option<String>,
) -> (result: Result<DiffSummary, ObservationError>)
    requires
        permits_observing(runner),
    ensures
        diff_result(runner, main_worktree@, claim@, optional(*worktree), result),
{
    let cwd = match worktree {
        Some(worktree) => worktree.as_str(),
        None => main_worktree,
    };
    let mut endpoint = "refs/heads/".to_owned();
    endpoint.append(claim.branch.as_str());
    let mut args: Vec<&str> = vec![
        "diff",
        "--no-renames",
        "--name-status",
        "-z",
        claim.base_sha.as_str(),
    ];
    if worktree.is_none() {
        args.push(endpoint.as_str());
    }
    args.push("--");
    assert(views(args@) =~= diff_args(claim@, optional(*worktree)));
    let git = GitCli::new(runner);
    let answer = git.run(cwd, arguments(&args));
    let ghost answered = answer;
    let committed = match answer {
        Err(error) => Err(ObservationError::Git(error)),
        Ok(output) => match parse_name_status(&output.stdout) {
            Ok(summary) => Ok(summary),
            Err(problem) => Err(ObservationError::InvalidGitOutput(problem)),
        },
    };
    assert(tracked_outcome(answered, committed));
    let ghost first = committed;
    let summary = match committed {
        Ok(summary) => summary,
        Err(error) => {
            let result = Err(error);
            assert(diff_continued(runner, cwd@, worktree is Some, first, result));
            return result;
        },
    };
    if worktree.is_none() {
        let result = Ok(summary);
        assert(diff_continued(runner, cwd@, false, first, result));
        return result;
    }
    let more_args: Vec<&str> = vec!["ls-files", "--others", "--exclude-standard", "-z", "--"];
    assert(views(more_args@) =~= untracked_args());
    let more = git.run(cwd, arguments(&more_args));
    let ghost answered_more = more;
    let result = match more {
        Err(error) => Err(ObservationError::Git(error)),
        Ok(output) => match parse_paths(&output.stdout, "git ls-files --others") {
            Ok(untracked_paths) => Ok(
                DiffSummary {
                    changed_paths: summary.changed_paths,
                    added_paths: summary.added_paths,
                    modified_paths: summary.modified_paths,
                    deleted_paths: summary.deleted_paths,
                    untracked_paths,
                },
            ),
            Err(problem) => Err(ObservationError::InvalidGitOutput(problem)),
        },
    };
    assert(untracked_outcome(answered_more, first->Ok_0@, result));
    assert(diff_continued(runner, cwd@, true, first, result));
    result
}

// ---------------------------------------------------------------------------------------------
// Observing a repository
// ---------------------------------------------------------------------------------------------
/// What a repository is seen in: its worktrees, where the paths that matter lead to in the file
/// system, and which paths are a risk.
#[derive(Debug)]
pub struct Surroundings {
    pub repository: RepositoryContext,
    pub worktrees: Vec<WorktreeEntry>,
    pub places: Vec<(String, String)>,
    pub risk_paths: Vec<(String, String)>,
}

/// A claim, and where its worktree leads to in the file system, if it is there.
#[derive(Debug)]
pub struct PlacedClaim {
    pub claim: Claim,
    pub canonical: Option<String>,
}

pub struct PlacedView {
    pub claim: ClaimView,
    pub canonical: Option<Seq<char>>,
}

impl View for PlacedClaim {
    type V = PlacedView;

    open spec fn view(&self) -> PlacedView {
        PlacedView { claim: self.claim@, canonical: optional(self.canonical) }
    }
}

/// What was found out about a claim: what it changes, and what is wrong with it.
pub struct Findings {
    pub diff: Option<DiffView>,
    pub problems: Seq<ProblemView>,
}

/// What is wrong with a claim, by whether its base and its branch are there and by its worktree.
pub open spec fn claim_problems(
    placed: PlacedView,
    entries: Seq<WorktreeView>,
    base_exists: bool,
    branch_exists: bool,
) -> Seq<ProblemView> {
    let claim = placed.claim;
    let base = if base_exists {
        Seq::empty()
    } else {
        seq![
            problem_of(
                claim,
                LocalProblemCode::MissingBase,
                "captured base "@ + claim.base_sha + " does not resolve to a commit"@,
            ),
        ]
    };
    let branch = if branch_exists {
        base
    } else {
        base.push(
            problem_of(
                claim,
                LocalProblemCode::MissingBranch,
                "local branch "@ + quoted(claim.branch) + " does not resolve to a commit"@,
            ),
        )
    };
    match reconciled(claim, placed.canonical, entries) {
        Ok(_) => branch,
        Err(problem) => branch.push(problem),
    }
}

/// The worktree of a claim that its changes are asked for in.
pub open spec fn usable_worktree(placed: PlacedView, entries: Seq<WorktreeView>) -> Option<Seq<char>> {
    match reconciled(placed.claim, placed.canonical, entries) {
        Ok(path) => Some(path),
        Err(_) => None,
    }
}

/// Whether the base of a claim resolves to the very commit that was captured.
pub open spec fn base_is_there(claim: ClaimView, base: Option<String>) -> bool {
    base matches Some(base) && base@ == claim.base_sha
}

/// Whether looking at a claim may find that out: its base and its branch are resolved, and where
/// both are there its changes are asked for.
pub open spec fn claim_observed<R: CommandRunner>(
    runner: &R,
    main_worktree: Seq<char>,
    placed: PlacedView,
    entries: Seq<WorktreeView>,
    findings: Findings,
) -> bool {
    exists|base: Option<String>, branch: Option<String>|
        #![trigger
            commit_result(runner, main_worktree, placed.claim.base_sha, Ok(base)),
            commit_result(
                runner,
                main_worktree,
                "refs/heads/"@ + placed.claim.branch,
                Ok(branch),
            )]
        {
            &&& commit_result(runner, main_worktree, placed.claim.base_sha, Ok(base))
            &&& commit_result(
                runner,
                main_worktree,
                "refs/heads/"@ + placed.claim.branch,
                Ok(branch),
            )
            &&& findings.problems == claim_problems(
                placed,
                entries,
                base_is_there(placed.claim, base),
                branch is Some,
            )
            &&& if base_is_there(placed.claim, base) && branch is Some {
                exists|summary: DiffSummary| #[trigger]
                    diff_result(
                        runner,
                        main_worktree,
                        placed.claim,
                        usable_worktree(placed, entries),
                        Ok(summary),
                    ) && findings.diff == Some(summary@)
            } else {
                findings.diff is None
            }
        }
}

/// Whether looking at a claim may fail with that error: where its base cannot be asked for, where
/// its branch cannot be asked for behind that, and where both are there but its changes cannot be
/// asked for.
pub open spec fn claim_unobserved<R: CommandRunner>(
    runner: &R,
    main_worktree: Seq<char>,
    placed: PlacedView,
    entries: Seq<WorktreeView>,
    error: ObservationError,
) -> bool {
    let branch_ref = "refs/heads/"@ + placed.claim.branch;
    ||| commit_result(runner, main_worktree, placed.claim.base_sha, Err(error))
    ||| exists|base: Option<String>| #[trigger]
        commit_result(runner, main_worktree, placed.claim.base_sha, Ok(base)) && commit_result(
            runner,
            main_worktree,
            branch_ref,
            Err(error),
        )
    ||| exists|base: Option<String>, branch: Option<String>|
        #![trigger
            commit_result(runner, main_worktree, placed.claim.base_sha, Ok(base)),
            commit_result(runner, main_worktree, branch_ref, Ok(branch))]
        {
            &&& commit_result(runner, main_worktree, placed.claim.base_sha, Ok(base))
            &&& commit_result(runner, main_worktree, branch_ref, Ok(branch))
            &&& base_is_there(placed.claim, base)
            &&& branch is Some
            &&& diff_result(
                runner,
                main_worktree,
                placed.claim,
                usable_worktree(placed, entries),
                Err(error),
            )
        }
}

fn observe_claim<R: CommandRunner>(
    runner: &R,
    main_worktree: &str,
    placed: PlacedClaim,
    entries: &Vec<WorktreeEntry>,
    problems: &mut Vec<LocalProblem>,
) -> (result: Result<ClaimObservation, ObservationError>)
    requires
        permits_observing(runner),
    ensures
        match result {
            Ok(observed) => exists|findings: Findings| #[trigger]
                claim_observed(runner, main_worktree@, placed@, views(entries@), findings)
                    && views(final(problems)@) == views(old(problems)@) + findings.problems
                    && observed@ == (ObservationView {
                    claim: placed@.claim,
                    diff: findings.diff,
                    overlaps: Seq::empty(),
                    scope_warnings: Seq::empty(),
                }),
            Err(error) => claim_unobserved(runner, main_worktree@, placed@, views(entries@), error),
        },
{
    let ghost seen = placed@;
    let ghost trees = views(entries@);
    let claim = placed.claim;
    let ghost before_problems = views(problems@);
    let base = match resolve_commit(runner, main_worktree, claim.base_sha.as_str()) {
        Ok(base) => base,
        Err(error) => return Err(error),
    };
    let base_exists = match &base {
        Some(base) => same(base.as_str(), claim.base_sha.as_str()),
        None => false,
    };
    if !base_exists {
        let mut message = "captured base ".to_owned();
        message.append(claim.base_sha.as_str());
        message.append(" does not resolve to a commit");
        problems.push(claim_problem(&claim, LocalProblemCode::MissingBase, message));
    }
    let mut branch_ref = "refs/heads/".to_owned();
    branch_ref.append(claim.branch.as_str());
    let branch = match resolve_commit(runner, main_worktree, branch_ref.as_str()) {
        Ok(branch) => branch,
        Err(error) => return Err(error),
    };
    let branch_exists = branch.is_some();
    if !branch_exists {
        let mut message = "local branch ".to_owned();
        message.append(quote(claim.branch.as_str()).as_str());
        message.append(" does not resolve to a commit");
        problems.push(claim_problem(&claim, LocalProblemCode::MissingBranch, message));
    }
    let worktree = match reconcile_worktree(&claim, &placed.canonical, entries) {
        Ok(path) => Some(path),
        Err(problem) => {
            problems.push(problem);
            None
        },
    };
    let ghost found = claim_problems(seen, trees, base_exists, branch_exists);
    assert(views(problems@) =~= before_problems + found);
    let diff = if base_exists && branch_exists {
        match derive_diff(runner, main_worktree, &claim, &worktree) {
            Ok(diff) => Some(diff),
            Err(error) => return Err(error),
        }
    } else {
        None
    };
    let ghost findings = Findings { diff: optional(diff), problems: found };
    assert(claim_observed(runner, main_worktree@, seen, trees, findings));
    let observed = ClaimObservation {
        claim,
        diff,
        overlaps: Vec::new(),
        scope_warnings: Vec::new(),
    };
    assert(observed@.overlaps =~= Seq::empty());
    assert(observed@.scope_warnings =~= Seq::empty());
    Ok(observed)
}

/// The problem that an operation under way is.
pub open spec fn abandoned(operation: OperationView) -> ProblemView {
    ProblemView {
        code: LocalProblemCode::AbandonedOperation,
        issue: Some(operation.issue),
        claim_id: Some(operation.claim_id),
        operation_id: Some(operation.operation_id),
        message: "operation "@ + id_text(operation.operation_id) + " for issue "@ + decimal(
            operation.issue as nat,
        ) + " was interrupted in phase "@ + operation.phase.name(),
    }
}

fn abandoned_operation(operation: &OperationRecord) -> (problem: LocalProblem)
    ensures
        problem@ == abandoned(operation@),
{
    let mut message = "operation ".to_owned();
    message.append(id_string(operation.operation_id).as_str());
    message.append(" for issue ");
    message.append(decimal_text(operation.issue).as_str());
    message.append(" was interrupted in phase ");
    message.append(operation.phase.as_str());
    LocalProblem {
        code: LocalProblemCode::AbandonedOperation,
        issue: Some(operation.issue),
        claim_id: Some(operation.claim_id),
        operation_id: Some(operation.operation_id),
        message,
    }
}

/// The problems of the operations, in their order.
pub open spec fn abandoned_all(operations: Seq<OperationView>) -> Seq<ProblemView> {
    Seq::new(operations.len(), |i: int| abandoned(operations[i]))
}

/// The problems that were found, one claim after the other.
pub open spec fn all_problems(findings: Seq<Findings>) -> Seq<ProblemView>
    decreases findings.len(),
{
    if findings.len() == 0 {
        Seq::empty()
    } else {
        all_problems(findings.drop_last()) + findings.last().problems
    }
}

/// The claims with what was found out about them.
pub open spec fn with_findings(placed: Seq<PlacedView>, findings: Seq<Findings>) -> Seq<
    ObservationView,
> {
    Seq::new(
        placed.len(),
        |i: int|
            ObservationView {
                claim: placed[i].claim,
                diff: findings[i].diff,
                overlaps: Seq::empty(),
                scope_warnings: Seq::empty(),
            },
    )
}

/// Whether the first of the claims may be found to be so.
pub open spec fn all_observed<R: CommandRunner>(
    runner: &R,
    main_worktree: Seq<char>,
    placed: Seq<PlacedView>,
    entries: Seq<WorktreeView>,
    findings: Seq<Findings>,
) -> bool {
    &&& findings.len() <= placed.len()
    &&& forall|i: int|
        0 <= i < findings.len() ==> claim_observed(
            runner,
            main_worktree,
            placed[i],
            entries,
            #[trigger] findings[i],
        )
}

/// What observing the claims of a repository may come to: all of them are looked at in turn, and
/// then held against each other; the first that cannot be looked at is reported.
pub open spec fn observation_result<R: CommandRunner>(
    runner: &R,
    main_worktree: Seq<char>,
    placed: Seq<PlacedView>,
    operations: Seq<OperationView>,
    entries: Seq<WorktreeView>,
    rules: Seq<(Seq<char>, Seq<char>)>,
    result: Result<LocalObservation, ObservationError>,
) -> bool {
    exists|findings: Seq<Findings>| #[trigger]
        all_observed(runner, main_worktree, placed, entries, findings)
            && if findings.len() < placed.len() {
            result matches Err(error) && claim_unobserved(
                runner,
                main_worktree,
                placed[findings.len() as int],
                entries,
                error,
            )
        } else {
            match analysis_fault(with_findings(placed, findings), rules) {
                Some(fault) => result matches Err(
                    ObservationError::Conflict(ConflictError::InvalidGlob { pattern, message }),
                ) && (pattern@, message@) == fault,
                None => {
                    &&& result matches Ok(observation)
                    &&& views(observation.claims@) == analyzed(
                        with_findings(placed, findings),
                        rules,
                    )
                    &&& views(observation.operations@) == operations
                    &&& views(observation.problems@) == abandoned_all(operations) + all_problems(
                        findings,
                    )
                },
            }
        }
}

/// Observes claims: whether their bases, branches and worktrees are there, what they change, and
/// where their changes meet. Nothing is changed by it.
#[verifier::loop_isolation(false)]
pub fn observe_claims<R: CommandRunner>(
    runner: &R,
    main_worktree: &str,
    claims: Vec<PlacedClaim>,
    operations: Vec<OperationRecord>,
    entries: &Vec<WorktreeEntry>,
    risk_paths: &Vec<(String, String)>,
) -> (result: Result<LocalObservation, ObservationError>)
    requires
        permits_observing(runner),
    ensures
        observation_result(
            runner,
            main_worktree@,
            views(claims@),
            views(operations@),
            views(entries@),
            pairs(risk_paths@),
            result,
        ),
{
    let ghost placed = views(claims@);
    let ghost trees = views(entries@);
    let ghost rules = pairs(risk_paths@);
    let mut problems: Vec<LocalProblem> = Vec::new();
    let mut i: usize = 0;
    while i < operations.len()
        invariant
            permits_observing(runner),
            i <= operations.len(),
            views(problems@) == abandoned_all(views(operations@)).take(i as int),
        decreases operations.len() - i,
    {
        let ghost done = views(problems@);
        problems.push(abandoned_operation(&operations[i]));
        i = i + 1;
        assert(views(problems@) =~= done.push(abandoned(operations@[i - 1]@)));
        assert(abandoned_all(views(operations@)).take(i as int) =~= done.push(
            abandoned(operations@[i - 1]@),
        ));
    }
    assert(abandoned_all(views(operations@)).take(i as int) =~= abandoned_all(views(operations@)));
    let ghost interrupted = abandoned_all(views(operations@));
    let mut observed: Vec<ClaimObservation> = Vec::new();
    let ghost mut findings: Seq<Findings> = Seq::empty();
    let mut waiting = reverse_claims(claims);
    assert(interrupted + all_problems(findings) =~= interrupted);
    assert(views(observed@) =~= with_findings(placed.take(0), findings));
    while waiting.len() > 0
        invariant
            permits_observing(runner),
            waiting.len() + findings.len() == placed.len(),
            forall|k: int|
                0 <= k < waiting.len() ==> (#[trigger] waiting@[k])@ == placed[placed.len() - 1 - k],
            trees == views(entries@),
            all_observed(runner, main_worktree@, placed, trees, findings),
            views(problems@) == interrupted + all_problems(findings),
            views(observed@) == with_findings(placed.take(findings.len() as int), findings),
        decreases waiting.len(),
    {
        let ghost at = findings.len() as int;
        assert(waiting@[waiting.len() - 1]@ == placed[at]);
        let claim = waiting.pop().unwrap();
        let ghost done = views(observed@);
        match observe_claim(runner, main_worktree, claim, entries, &mut problems) {
            Ok(one) => {
                let ghost found = choose|found: Findings| #[trigger]
                    claim_observed(runner, main_worktree@, placed[at], trees, found) && views(
                        problems@,
                    ) == interrupted + all_problems(findings) + found.problems && one@ == (
                    ObservationView {
                        claim: placed[at].claim,
                        diff: found.diff,
                        overlaps: Seq::empty(),
                        scope_warnings: Seq::empty(),
                    });
                let ghost one_view = one@;
                observed.push(one);
                proof {
                    let longer = findings.push(found);
                    assert(longer.drop_last() =~= findings);
                    assert(interrupted + all_problems(findings) + found.problems =~= interrupted
                        + all_problems(longer));
                    let seen = with_findings(placed.take(at + 1), longer);
                    assert(seen[at] == one_view);
                    assert(views(observed@) =~= done.push(one_view));
                    assert(seen =~= done.push(one_view));
                    findings = longer;
                }
            },
            Err(error) => {
                return Err(error);
            },
        }
    }
    assert(placed.take(findings.len() as int) =~= placed);
    match analyze_claims(&mut observed, risk_paths) {
        Ok(()) => Ok(LocalObservation { claims: observed, operations, problems }),
        Err(error) => Err(ObservationError::Conflict(error)),
    }
}

fn reverse_claims(claims: Vec<PlacedClaim>) -> (backwards: Vec<PlacedClaim>)
    ensures
        backwards.len() == claims.len(),
        forall|i: int|
            0 <= i < backwards.len() ==> (#[trigger] backwards@[i])@ == claims@[claims.len() - 1
                - i]@,
{
    let ghost all = claims@;
    let mut claims = claims;
    let mut backwards: Vec<PlacedClaim> = Vec::new();
    while claims.len() > 0
        invariant
            claims.len() + backwards.len() == all.len(),
            claims@ == all.take(claims.len() as int),
            forall|i: int|
                0 <= i < backwards.len() ==> (#[trigger] backwards@[i])@ == all[all.len() - 1 - i]@,
        decreases claims.len(),
    {
        let ghost left = claims@;
        let claim = claims.pop().unwrap();
        assert(claim == all[left.len() - 1]);
        backwards.push(claim);
        assert(claims@ =~= all.take(claims.len() as int));
    }
    backwards
}

/// Claims, and where their worktrees were found to lead to.
pub open spec fn placed_claims(
    claims: Seq<ClaimView>,
    places: Seq<(Seq<char>, Seq<char>)>,
) -> Seq<PlacedView> {
    Seq::new(
        claims.len(),
        |i: int|
            PlacedView { claim: claims[i], canonical: known_place(places, claims[i].worktree) },
    )
}

pub fn place_claims(claims: &Vec<Claim>, places: &Vec<(String, String)>) -> (placed: Vec<
    PlacedClaim,
>)
    ensures
        views(placed@) == placed_claims(views(claims@), pairs(places@)),
{
    let mut placed: Vec<PlacedClaim> = Vec::new();
    let mut i: usize = 0;
    while i < claims.len()
        invariant
            i <= claims.len(),
            placed.len() == i,
            forall|j: int|
                0 <= j < i ==> (#[trigger] placed@[j])@ == placed_claims(
                    views(claims@),
                    pairs(places@),
                )[j],
        decreases claims.len() - i,
    {
        let claim = claims[i].clone();
        let canonical = find_known_place(places, claim.worktree.as_str());
        placed.push(PlacedClaim { claim, canonical });
        i = i + 1;
    }
    assert(views(placed@) =~= placed_claims(views(claims@), pairs(places@)));
    placed
}

/// Whether observing a repository may come to that result: its active claims are observed.
pub open spec fn repository_observed<R: CommandRunner>(
    runner: &R,
    surroundings: Surroundings,
    active: Seq<ClaimView>,
    operations: Seq<OperationView>,
    result: Result<LocalObservation, ObservationError>,
) -> bool {
    observation_result(
        runner,
        surroundings.repository.main_worktree@,
        placed_claims(active, pairs(surroundings.places@)),
        operations,
        views(surroundings.worktrees@),
        pairs(surroundings.risk_paths@),
        result,
    )
}

/// Observes claims where they are.
pub fn observe_in_place<R: CommandRunner>(
    runner: &R,
    surroundings: &Surroundings,
    claims: &Vec<Claim>,
    operations: Vec<OperationRecord>,
) -> (result: Result<LocalObservation, ObservationError>)
    requires
        permits_observing(runner),
    ensures
        repository_observed(
            runner,
            *surroundings,
            views(claims@),
            views(operations@),
            result,
        ),
{
    observe_claims(
        runner,
        surroundings.repository.main_worktree.as_str(),
        place_claims(claims, &surroundings.places),
        operations,
        &surroundings.worktrees,
        &surroundings.risk_paths,
    )
}

/// Observes the active claims of a repository, by the claims and the releases that are recorded.
pub fn observe_repository<R: CommandRunner>(
    runner: &R,
    surroundings: &Surroundings,
    claims: &Vec<Claim>,
    releases: &Vec<ReleaseMarker>,
    operations: Vec<OperationRecord>,
) -> (result: Result<LocalObservation, ObservationError>)
    requires
        permits_observing(runner),
    ensures
        repository_observed(
            runner,
            *surroundings,
            active(views(claims@), views(releases@)),
            views(operations@),
            result,
        ),
{
    let active = active_claims(claims, releases);
    observe_in_place(runner, surroundings, &active, operations)
}

} // verus!
