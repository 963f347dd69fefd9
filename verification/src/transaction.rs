//! The making of a claim, step by step: every step is noted in a journal before the next is taken,
//! and a step that fails has what was made before it undone.
use vstd::prelude::*;
use vstd::string::*;

use crate::command::arguments;
use crate::id::Id;
use crate::lifecycle::{LifecycleError, LifecycleErrorView};
use crate::model::{Claim, ClaimView, OperationPhase, OperationRecord, OperationView};
use crate::path::{is_same_path, parent, parent_of, same_path};
use crate::text::{join, joined, quote, quoted, views};
use crate::time::Timestamp;

verus! {

/// Which step of making a claim is under way.
#[derive(Debug)]
pub enum ClaimStage {
    Reserving,
    Branching,
    NotingBranch,
    MakingRoom,
    AddingWorktree,
    NotingWorktree,
    Locating,
    Recording,
    NotingCommit,
    Closing,
    Unreserving { original: LifecycleError },
    RemovingWorktree { original: LifecycleError },
    DeletingBranch { original: LifecycleError, failures: Vec<String> },
    Forgetting { original: LifecycleError },
    Pending { original: LifecycleError, failures: Vec<String> },
    Finished,
}

pub enum StageView {
    Reserving,
    Branching,
    NotingBranch,
    MakingRoom,
    AddingWorktree,
    NotingWorktree,
    Locating,
    Recording,
    NotingCommit,
    Closing,
    Unreserving { original: LifecycleErrorView },
    RemovingWorktree { original: LifecycleErrorView },
    DeletingBranch { original: LifecycleErrorView, failures: Seq<Seq<char>> },
    Forgetting { original: LifecycleErrorView },
    Pending { original: LifecycleErrorView, failures: Seq<Seq<char>> },
    Finished,
}

impl View for ClaimStage {
    type V = StageView;

    open spec fn view(&self) -> StageView {
        match *self {
            ClaimStage::Reserving => StageView::Reserving,
            ClaimStage::Branching => StageView::Branching,
            ClaimStage::NotingBranch => StageView::NotingBranch,
            ClaimStage::MakingRoom => StageView::MakingRoom,
            ClaimStage::AddingWorktree => StageView::AddingWorktree,
            ClaimStage::NotingWorktree => StageView::NotingWorktree,
            ClaimStage::Locating => StageView::Locating,
            ClaimStage::Recording => StageView::Recording,
            ClaimStage::NotingCommit => StageView::NotingCommit,
            ClaimStage::Closing => StageView::Closing,
            ClaimStage::Unreserving { original } => StageView::Unreserving {
                original: original@,
            },
            ClaimStage::RemovingWorktree { original } => StageView::RemovingWorktree {
                original: original@,
            },
            ClaimStage::DeletingBranch { original, failures } => StageView::DeletingBranch {
                original: original@,
                failures: views(failures@),
            },
            ClaimStage::Forgetting { original } => StageView::Forgetting { original: original@ },
            ClaimStage::Pending { original, failures } => StageView::Pending {
                original: original@,
                failures: views(failures@),
            },
            ClaimStage::Finished => StageView::Finished,
        }
    }
}

/// A claim that is being made: its journal entry, the claim as it will be, what of it was there
/// before, and what has been made so far.
#[derive(Debug)]
pub struct ClaimTransaction {
    pub adopted_branch: bool,
    pub adopted_worktree: bool,
    pub operation: OperationRecord,
    pub claim: Claim,
    pub created_branch: bool,
    pub created_worktree: bool,
    pub stage: ClaimStage,
}

pub struct TransactionView {
    pub adopted_branch: bool,
    pub adopted_worktree: bool,
    pub operation: OperationView,
    pub claim: ClaimView,
    pub created_branch: bool,
    pub created_worktree: bool,
    pub stage: StageView,
}

impl View for ClaimTransaction {
    type V = TransactionView;

    open spec fn view(&self) -> TransactionView {
        TransactionView {
            adopted_branch: self.adopted_branch,
            adopted_worktree: self.adopted_worktree,
            operation: self.operation@,
            claim: self.claim@,
            created_branch: self.created_branch,
            created_worktree: self.created_worktree,
            stage: self.stage@,
        }
    }
}

/// What is to be done next.
#[derive(Debug)]
pub enum ClaimAction {
    WriteJournal(OperationRecord),
    RemoveJournal(Id),
    RunGit(Vec<String>),
    CreateDirectory(String),
    FindWorktree(String),
    RecordClaim(Claim),
    Commit(Claim),
    Fail(LifecycleError),
}

pub enum ActionView {
    WriteJournal(OperationView),
    RemoveJournal(Id),
    RunGit(Seq<Seq<char>>),
    CreateDirectory(Seq<char>),
    FindWorktree(Seq<char>),
    RecordClaim(ClaimView),
    Commit(ClaimView),
    Fail(LifecycleErrorView),
}

impl View for ClaimAction {
    type V = ActionView;

    open spec fn view(&self) -> ActionView {
        match *self {
            ClaimAction::WriteJournal(operation) => ActionView::WriteJournal(operation@),
            ClaimAction::RemoveJournal(id) => ActionView::RemoveJournal(id),
            ClaimAction::RunGit(args) => ActionView::RunGit(views(args@)),
            ClaimAction::CreateDirectory(path) => ActionView::CreateDirectory(path@),
            ClaimAction::FindWorktree(branch) => ActionView::FindWorktree(branch@),
            ClaimAction::RecordClaim(claim) => ActionView::RecordClaim(claim@),
            ClaimAction::Commit(claim) => ActionView::Commit(claim@),
            ClaimAction::Fail(error) => ActionView::Fail(error@),
        }
    }
}

/// How what was to be done has gone. A worktree that was to be found is found at a place, and at
/// an instant.
#[derive(Debug)]
pub enum ClaimEvent {
    Done,
    Found { place: String, at: Timestamp },
    Failed(LifecycleError),
}

pub enum EventView {
    Done,
    Found { place: Seq<char>, at: Timestamp },
    Failed(LifecycleErrorView),
}

impl View for ClaimEvent {
    type V = EventView;

    open spec fn view(&self) -> EventView {
        match *self {
            ClaimEvent::Done => EventView::Done,
            ClaimEvent::Found { place, at } => EventView::Found { place: place@, at },
            ClaimEvent::Failed(error) => EventView::Failed(error@),
        }
    }
}

/// Whether something may go so at a stage: a worktree is found where it is looked for, and nowhere
/// else.
pub open spec fn fits(stage: StageView, event: EventView) -> bool {
    match event {
        EventView::Failed(_) => !(stage is Finished),
        EventView::Found { .. } => stage is Locating,
        EventView::Done => !(stage is Finished) && !(stage is Locating),
    }
}

pub open spec fn create_branch_args(branch: Seq<char>, sha: Seq<char>) -> Seq<Seq<char>> {
    seq!["branch"@, branch, sha]
}

pub open spec fn add_worktree_args(worktree: Seq<char>, branch: Seq<char>) -> Seq<Seq<char>> {
    seq!["worktree"@, "add"@, "--"@, worktree, branch]
}

pub open spec fn undo_worktree_args(worktree: Seq<char>) -> Seq<Seq<char>> {
    seq!["worktree"@, "remove"@, "--force"@, worktree]
}

pub open spec fn undo_branch_args(branch: Seq<char>) -> Seq<Seq<char>> {
    seq!["branch"@, "-D"@, branch]
}

impl TransactionView {
    pub open spec fn at(self, stage: StageView) -> TransactionView {
        TransactionView { stage, ..self }
    }

    pub open spec fn in_phase(self, phase: OperationPhase) -> TransactionView {
        TransactionView { operation: OperationView { phase, ..self.operation }, ..self }
    }

    /// Notes in the journal how far the claim is.
    pub open spec fn noting(self, phase: OperationPhase, stage: StageView) -> (
        TransactionView,
        ActionView,
    ) {
        let noted = self.in_phase(phase).at(stage);
        (noted, ActionView::WriteJournal(noted.operation))
    }

    /// Takes the journal entry away.
    pub open spec fn clearing(self, stage: StageView) -> (TransactionView, ActionView) {
        (self.at(stage), ActionView::RemoveJournal(self.operation.operation_id))
    }

    pub open spec fn failing(self, error: LifecycleErrorView) -> (TransactionView, ActionView) {
        (self.at(StageView::Finished), ActionView::Fail(error))
    }

    pub open spec fn locating(self) -> (TransactionView, ActionView) {
        (self.at(StageView::Locating), ActionView::FindWorktree(self.operation.branch))
    }

    pub open spec fn adding(self) -> (TransactionView, ActionView) {
        (
            self.at(StageView::AddingWorktree),
            ActionView::RunGit(
                add_worktree_args(self.operation.worktree, self.operation.branch),
            ),
        )
    }

    /// Goes on once the branch is there: with the worktree, unless it was there before.
    pub open spec fn past_branch(self) -> (TransactionView, ActionView) {
        if self.adopted_worktree {
            self.locating()
        } else {
            match parent_of(self.operation.worktree) {
                Some(room) => (
                    self.at(StageView::MakingRoom),
                    ActionView::CreateDirectory(room),
                ),
                None => self.adding(),
            }
        }
    }

    /// Ends a failed claim once what was made has been undone, or could not be.
    pub open spec fn settling(self, original: LifecycleErrorView, failures: Seq<Seq<char>>) -> (
        TransactionView,
        ActionView,
    ) {
        if failures.len() == 0 {
            self.clearing(StageView::Forgetting { original })
        } else {
            self.noting(
                OperationPhase::CleanupPending,
                StageView::Pending { original, failures },
            )
        }
    }

    /// Undoes the branch, if one was made.
    pub open spec fn undoing_branch(
        self,
        original: LifecycleErrorView,
        failures: Seq<Seq<char>>,
    ) -> (TransactionView, ActionView) {
        if self.created_branch {
            (
                self.at(StageView::DeletingBranch { original, failures }),
                ActionView::RunGit(undo_branch_args(self.operation.branch)),
            )
        } else {
            self.settling(original, failures)
        }
    }

    /// Undoes the worktree, if one was made, and then the branch.
    pub open spec fn undoing(self, original: LifecycleErrorView) -> (TransactionView, ActionView) {
        if self.created_worktree {
            (
                self.at(StageView::RemovingWorktree { original }),
                ActionView::RunGit(undo_worktree_args(self.operation.worktree)),
            )
        } else {
            self.undoing_branch(original, Seq::empty())
        }
    }

    /// Goes on once the worktree is found. One that was adopted must be where it was.
    pub open spec fn found(self, place: Seq<char>, at: Timestamp) -> (TransactionView, ActionView) {
        if self.adopted_worktree && !same_path(place, self.operation.worktree) {
            self.undoing(
                LifecycleErrorView::Refused(
                    "branch "@ + quoted(self.operation.branch)
                        + " is no longer attached to requested worktree "@ + quoted(
                        self.operation.worktree,
                    ),
                ),
            )
        } else {
            let claim = ClaimView { worktree: place, created_at: at, ..self.claim };
            (
                TransactionView {
                    operation: OperationView { worktree: place, ..self.operation },
                    claim,
                    stage: StageView::Recording,
                    ..self
                },
                ActionView::RecordClaim(claim),
            )
        }
    }

    /// Goes on once what was to be done is done.
    pub open spec fn done(self) -> (TransactionView, ActionView) {
        match self.stage {
            StageView::Reserving => if self.adopted_branch {
                self.past_branch()
            } else {
                (
                    self.at(StageView::Branching),
                    ActionView::RunGit(
                        create_branch_args(self.operation.branch, self.claim.base_sha),
                    ),
                )
            },
            StageView::Branching => TransactionView { created_branch: true, ..self }.noting(
                OperationPhase::BranchCreated,
                StageView::NotingBranch,
            ),
            StageView::NotingBranch => self.past_branch(),
            StageView::MakingRoom => self.adding(),
            StageView::AddingWorktree => TransactionView { created_worktree: true, ..self }.noting(
                OperationPhase::WorktreeCreated,
                StageView::NotingWorktree,
            ),
            StageView::NotingWorktree => self.locating(),
            StageView::Recording => self.noting(
                OperationPhase::ClaimCommitted,
                StageView::NotingCommit,
            ),
            StageView::NotingCommit => self.clearing(StageView::Closing),
            StageView::Closing => (
                self.at(StageView::Finished),
                ActionView::Commit(self.claim),
            ),
            StageView::Unreserving { original } => self.failing(original),
            StageView::RemovingWorktree { original } => self.undoing_branch(
                original,
                Seq::empty(),
            ),
            StageView::DeletingBranch { original, failures } => self.settling(original, failures),
            StageView::Forgetting { original } => self.failing(original),
            StageView::Pending { original, failures } => self.failing(
                LifecycleErrorView::Rollback {
                    original: original.text(),
                    cleanup: joined(failures, "; "@),
                },
            ),
            StageView::Locating => self.locating(),
            StageView::Finished => (self, ActionView::Commit(self.claim)),
        }
    }

    /// Goes on once what was to be done has failed. Before the branch is made only the journal
    /// entry is taken away; once the claim is recorded it stands.
    pub open spec fn failed(self, error: LifecycleErrorView) -> (TransactionView, ActionView) {
        match self.stage {
            StageView::Branching => self.clearing(StageView::Unreserving { original: error }),
            StageView::NotingBranch | StageView::MakingRoom | StageView::AddingWorktree
            | StageView::NotingWorktree | StageView::Locating | StageView::Recording =>
                self.undoing(error),
            StageView::RemovingWorktree { original } => self.undoing_branch(
                original,
                seq![error.text()],
            ),
            StageView::DeletingBranch { original, failures } => self.settling(
                original,
                failures.push(error.text()),
            ),
            _ => self.failing(error),
        }
    }

    /// The next step, by how the last one has gone.
    pub open spec fn next(self, event: EventView) -> (TransactionView, ActionView) {
        match event {
            EventView::Done => self.done(),
            EventView::Found { place, at } => self.found(place, at),
            EventView::Failed(error) => self.failed(error),
        }
    }
}

fn git_args(parts: &Vec<&str>) -> (action: ClaimAction)
    ensures
        action@ == ActionView::RunGit(views(parts@)),
{
    ClaimAction::RunGit(arguments(parts))
}

impl ClaimTransaction {
    fn at(self, stage: ClaimStage) -> (moved: Self)
        ensures
            moved@ == self@.at(stage@),
    {
        let mut moved = self;
        moved.stage = stage;
        moved
    }

    fn noting(self, phase: OperationPhase, stage: ClaimStage) -> (next: (Self, ClaimAction))
        ensures
            (next.0@, next.1@) == self@.noting(phase, stage@),
    {
        let mut noted = self;
        noted.operation.phase = phase;
        noted.stage = stage;
        let action = ClaimAction::WriteJournal(noted.operation.clone());
        (noted, action)
    }

    fn clearing(self, stage: ClaimStage) -> (next: (Self, ClaimAction))
        ensures
            (next.0@, next.1@) == self@.clearing(stage@),
    {
        let id: Id = self.operation.operation_id;
        (self.at(stage), ClaimAction::RemoveJournal(id))
    }

    fn failing(self, error: LifecycleError) -> (next: (Self, ClaimAction))
        ensures
            (next.0@, next.1@) == self@.failing(error@),
    {
        (self.at(ClaimStage::Finished), ClaimAction::Fail(error))
    }

    fn locating(self) -> (next: (Self, ClaimAction))
        ensures
            (next.0@, next.1@) == self@.locating(),
    {
        let branch = self.operation.branch.clone();
        (self.at(ClaimStage::Locating), ClaimAction::FindWorktree(branch))
    }

    fn adding(self) -> (next: (Self, ClaimAction))
        ensures
            (next.0@, next.1@) == self@.adding(),
    {
        let parts: Vec<&str> = vec![
            "worktree",
            "add",
            "--",
            self.operation.worktree.as_str(),
            self.operation.branch.as_str(),
        ];
        let action = git_args(&parts);
        assert(views(parts@) =~= add_worktree_args(
            self.operation.worktree@,
            self.operation.branch@,
        ));
        (self.at(ClaimStage::AddingWorktree), action)
    }

    fn past_branch(self) -> (next: (Self, ClaimAction))
        ensures
            (next.0@, next.1@) == self@.past_branch(),
    {
        if self.adopted_worktree {
            return self.locating();
        }
        match parent(self.operation.worktree.as_str()) {
            Some(room) => (
                self.at(ClaimStage::MakingRoom),
                ClaimAction::CreateDirectory(room),
            ),
            None => self.adding(),
        }
    }

    fn settling(self, original: LifecycleError, failures: Vec<String>) -> (next: (
        Self,
        ClaimAction,
    ))
        ensures
            (next.0@, next.1@) == self@.settling(original@, views(failures@)),
    {
        if failures.len() == 0 {
            self.clearing(ClaimStage::Forgetting { original })
        } else {
            self.noting(
                OperationPhase::CleanupPending,
                ClaimStage::Pending { original, failures },
            )
        }
    }

    fn undoing_branch(self, original: LifecycleError, failures: Vec<String>) -> (next: (
        Self,
        ClaimAction,
    ))
        ensures
            (next.0@, next.1@) == self@.undoing_branch(original@, views(failures@)),
    {
        if !self.created_branch {
            return self.settling(original, failures);
        }
        let parts: Vec<&str> = vec!["branch", "-D", self.operation.branch.as_str()];
        let action = git_args(&parts);
        assert(views(parts@) =~= undo_branch_args(self.operation.branch@));
        (self.at(ClaimStage::DeletingBranch { original, failures }), action)
    }

    fn undoing(self, original: LifecycleError) -> (next: (Self, ClaimAction))
        ensures
            (next.0@, next.1@) == self@.undoing(original@),
    {
        if !self.created_worktree {
            let failures: Vec<String> = Vec::new();
            assert(views(failures@) =~= Seq::empty());
            return self.undoing_branch(original, failures);
        }
        let parts: Vec<&str> = vec![
            "worktree",
            "remove",
            "--force",
            self.operation.worktree.as_str(),
        ];
        let action = git_args(&parts);
        assert(views(parts@) =~= undo_worktree_args(self.operation.worktree@));
        (self.at(ClaimStage::RemovingWorktree { original }), action)
    }

    fn found(self, place: String, at: Timestamp) -> (next: (Self, ClaimAction))
        ensures
            (next.0@, next.1@) == self@.found(place@, at),
    {
        if self.adopted_worktree && !is_same_path(
            place.as_str(),
            self.operation.worktree.as_str(),
        ) {
            let mut reason = "branch ".to_owned();
            reason.append(quote(self.operation.branch.as_str()).as_str());
            reason.append(" is no longer attached to requested worktree ");
            reason.append(quote(self.operation.worktree.as_str()).as_str());
            return self.undoing(LifecycleError::Refused(reason));
        }
        let mut moved = self;
        moved.operation.worktree = place.clone();
        moved.claim.worktree = place;
        moved.claim.created_at = at;
        moved.stage = ClaimStage::Recording;
        let action = ClaimAction::RecordClaim(moved.claim.clone());
        (moved, action)
    }

    /// The first step: what is claimed is noted as reserved.
    pub fn start(&self) -> (action: ClaimAction)
        ensures
            action@ == ActionView::WriteJournal(self@.operation),
    {
        ClaimAction::WriteJournal(self.operation.clone())
    }

    fn taken(self) -> (parts: (Self, ClaimStage))
        ensures
            parts.0@ == self@.at(StageView::Finished),
            parts.1@ == self@.stage,
    {
        let mut rest = self;
        let stage = rest.stage;
        rest.stage = ClaimStage::Finished;
        (rest, stage)
    }

    fn done(self) -> (next: (Self, ClaimAction))
        requires
            fits(self@.stage, EventView::Done),
        ensures
            (next.0@, next.1@) == self@.done(),
    {
        let ghost before = self@;
        let (rest, stage) = self.taken();
        match stage {
            ClaimStage::Reserving => if rest.adopted_branch {
                rest.past_branch()
            } else {
                let parts: Vec<&str> = vec![
                    "branch",
                    rest.operation.branch.as_str(),
                    rest.claim.base_sha.as_str(),
                ];
                let action = git_args(&parts);
                assert(views(parts@) =~= create_branch_args(
                    before.operation.branch,
                    before.claim.base_sha,
                ));
                (rest.at(ClaimStage::Branching), action)
            },
            ClaimStage::Branching => {
                let mut made = rest;
                made.created_branch = true;
                made.noting(OperationPhase::BranchCreated, ClaimStage::NotingBranch)
            },
            ClaimStage::NotingBranch => rest.past_branch(),
            ClaimStage::MakingRoom => rest.adding(),
            ClaimStage::AddingWorktree => {
                let mut made = rest;
                made.created_worktree = true;
                made.noting(OperationPhase::WorktreeCreated, ClaimStage::NotingWorktree)
            },
            ClaimStage::NotingWorktree => rest.locating(),
            ClaimStage::Recording => rest.noting(
                OperationPhase::ClaimCommitted,
                ClaimStage::NotingCommit,
            ),
            ClaimStage::NotingCommit => rest.clearing(ClaimStage::Closing),
            ClaimStage::Closing => {
                let claim = rest.claim.clone();
                (rest, ClaimAction::Commit(claim))
            },
            ClaimStage::Unreserving { original } => rest.failing(original),
            ClaimStage::RemovingWorktree { original } => {
                let failures: Vec<String> = Vec::new();
                assert(views(failures@) =~= Seq::empty());
                rest.undoing_branch(original, failures)
            },
            ClaimStage::DeletingBranch { original, failures } => rest.settling(
                original,
                failures,
            ),
            ClaimStage::Forgetting { original } => rest.failing(original),
            ClaimStage::Pending { original, failures } => {
                let error = LifecycleError::Rollback {
                    original: original.message(),
                    cleanup: join(&failures, "; "),
                };
                rest.failing(error)
            },
            ClaimStage::Locating | ClaimStage::Finished => {
                let claim = rest.claim.clone();
                (rest, ClaimAction::Commit(claim))
            },
        }
    }

    fn failed(self, error: LifecycleError) -> (next: (Self, ClaimAction))
        ensures
            (next.0@, next.1@) == self@.failed(error@),
    {
        let (rest, stage) = self.taken();
        match stage {
            ClaimStage::Branching => rest.clearing(ClaimStage::Unreserving { original: error }),
            ClaimStage::NotingBranch
            | ClaimStage::MakingRoom
            | ClaimStage::AddingWorktree
            | ClaimStage::NotingWorktree
            | ClaimStage::Locating
            | ClaimStage::Recording => rest.undoing(error),
            ClaimStage::RemovingWorktree { original } => {
                let failures: Vec<String> = vec![error.message()];
                assert(views(failures@) =~= seq![error@.text()]);
                rest.undoing_branch(original, failures)
            },
            ClaimStage::DeletingBranch { original, failures } => {
                let mut failures = failures;
                let ghost known = views(failures@);
                failures.push(error.message());
                assert(views(failures@) =~= known.push(error@.text()));
                rest.settling(original, failures)
            },
            _ => rest.failing(error),
        }
    }

    /// Takes the next step, by how the last one has gone.
    pub fn step(self, event: ClaimEvent) -> (next: (Self, ClaimAction))
        requires
            fits(self@.stage, event@),
        ensures
            (next.0@, next.1@) == self@.next(event@),
    {
        match event {
            ClaimEvent::Done => self.done(),
            ClaimEvent::Found { place, at } => self.found(place, at),
            ClaimEvent::Failed(error) => self.failed(error),
        }
    }
}

// ---------------------------------------------------------------------------------------------
// What holds of every claim that is made
// ---------------------------------------------------------------------------------------------
impl TransactionView {
    /// What holds whenever a claim is being made: nothing that was there before counts as made,
    /// only what was made is undone, and the journal tells where a claim is left unfinished.
    pub open spec fn sound(self) -> bool {
        &&& self.created_branch ==> !self.adopted_branch
        &&& self.created_worktree ==> !self.adopted_worktree
        &&& self.stage is Branching || self.stage is NotingBranch ==> !self.adopted_branch
        &&& self.stage is MakingRoom || self.stage is AddingWorktree || self.stage is NotingWorktree
            ==> !self.adopted_worktree
        &&& self.stage is NotingBranch ==> self.created_branch && self.operation.phase
            is BranchCreated
        &&& self.stage is NotingWorktree ==> self.created_worktree && self.operation.phase
            is WorktreeCreated
        &&& self.stage is RemovingWorktree ==> self.created_worktree
        &&& self.stage is DeletingBranch ==> self.created_branch
        &&& self.stage is Pending ==> self.operation.phase is CleanupPending
            && self.stage->Pending_failures.len() > 0
        &&& self.stage is NotingCommit || self.stage is Closing ==> self.operation.phase
            is ClaimCommitted
        &&& self.stage is Recording || self.stage is NotingCommit || self.stage is Closing
            ==> self.operation.worktree == self.claim.worktree
    }

    /// Whether nothing has been done yet.
    pub open spec fn fresh(self) -> bool {
        self.stage is Reserving && !self.created_branch && !self.created_worktree
    }
}

/// A claim that nothing was done for yet is sound, and every step keeps it so.
pub proof fn steps_stay_sound(before: TransactionView, event: EventView)
    requires
        before.sound() || before.fresh(),
        fits(before.stage, event),
    ensures
        before.fresh() ==> before.sound(),
        before.next(event).0.sound(),
{
}

/// A branch that was there before a claim is never deleted, and a worktree that was there before
/// is never removed, however the claim goes.
pub proof fn what_was_adopted_is_kept(before: TransactionView, event: EventView)
    requires
        before.sound(),
        fits(before.stage, event),
    ensures
        before.adopted_branch ==> before.next(event).1 != ActionView::RunGit(
            undo_branch_args(before.operation.branch),
        ),
        before.adopted_worktree ==> before.next(event).1 != ActionView::RunGit(
            undo_worktree_args(before.operation.worktree),
        ),
{
    let branch = before.operation.branch;
    let worktree = before.operation.worktree;
    reveal_strlit("branch");
    reveal_strlit("worktree");
    reveal_strlit("-D");
    reveal_strlit("add");
    reveal_strlit("remove");
    assert(undo_branch_args(branch)[0].len() == 6);
    assert(undo_worktree_args(worktree)[0].len() == 8);
    assert(undo_worktree_args(worktree)[1].len() == 6);
    assert(add_worktree_args(worktree, branch)[0].len() == 8);
    assert(add_worktree_args(worktree, branch)[1].len() == 3);
    assert(create_branch_args(branch, before.claim.base_sha)[0].len() == 6);
}

/// Where something that was made for a failed claim could not be undone, the journal entry of the
/// claim is not taken away: it is left, and says that cleanup is pending.
pub proof fn failed_cleanup_stays_in_the_journal(before: TransactionView, event: EventView)
    requires
        before.sound(),
        fits(before.stage, event),
        (before.stage is RemovingWorktree && event is Failed) || (before.stage is DeletingBranch && (
        event is Failed || before.stage->DeletingBranch_failures.len() > 0)),
    ensures
        ({
            let (after, action) = before.next(event);
            ||| after.stage is DeletingBranch && after.stage->DeletingBranch_failures.len() > 0
            ||| after.stage is Pending && action == ActionView::WriteJournal(after.operation)
                && after.operation.phase is CleanupPending
        }),
{
}

/// How far a stage is from the end.
pub open spec fn steps_left(stage: StageView) -> nat {
    match stage {
        StageView::Reserving => 14,
        StageView::Branching => 13,
        StageView::NotingBranch => 12,
        StageView::MakingRoom => 11,
        StageView::AddingWorktree => 10,
        StageView::NotingWorktree => 9,
        StageView::Locating => 8,
        StageView::Recording => 7,
        StageView::RemovingWorktree { .. } => 6,
        StageView::DeletingBranch { .. } => 5,
        StageView::Forgetting { .. } => 4,
        StageView::Pending { .. } => 3,
        StageView::NotingCommit => 3,
        StageView::Closing => 2,
        StageView::Unreserving { .. } => 1,
        StageView::Finished => 0,
    }
}

/// Every step comes closer to the end, and only the last one ends: a claim is made, or fails, in
/// no more than fourteen steps.
pub proof fn claims_come_to_an_end(before: TransactionView, event: EventView)
    requires
        fits(before.stage, event),
    ensures
        steps_left(before.next(event).0.stage) < steps_left(before.stage),
        before.next(event).0.stage is Finished <==> before.next(event).1 is Commit
            || before.next(event).1 is Fail,
{
}

/// A claim that is made is the claim that was recorded: it is committed only where its record and
/// the note of it in the journal were written, and its journal entry was taken away.
pub proof fn only_recorded_claims_are_committed(before: TransactionView, event: EventView)
    requires
        before.sound(),
        fits(before.stage, event),
        before.next(event).1 is Commit,
    ensures
        before.stage is Closing,
        event is Done,
        before.operation.phase is ClaimCommitted,
        before.next(event).1 == ActionView::Commit(before.claim),
{
}

/// No step changes which claim is made: its issue, branch and generation stay, and all else but
/// where its worktree was found, and when. A worktree that was there before stays the reserved one.
pub proof fn steps_keep_identity(before: TransactionView, event: EventView)
    requires
        fits(before.stage, event),
    ensures
        ({
            let after = before.next(event).0;
            &&& after.adopted_branch == before.adopted_branch
            &&& after.adopted_worktree == before.adopted_worktree
            &&& after.claim == (ClaimView {
                worktree: after.claim.worktree,
                created_at: after.claim.created_at,
                ..before.claim
            })
            &&& after.operation == (OperationView {
                worktree: after.operation.worktree,
                phase: after.operation.phase,
                ..before.operation
            })
            &&& before.adopted_worktree ==> same_path(
                after.operation.worktree,
                before.operation.worktree,
            )
            &&& before.adopted_worktree && before.claim.worktree == before.operation.worktree
                ==> same_path(after.claim.worktree, before.claim.worktree)
            &&& after.claim.worktree == before.claim.worktree || (event matches EventView::Found {
                place,
                at,
            } && after.claim.worktree == place)
        }),
{
}

// ---------------------------------------------------------------------------------------------
// The whole course of a claim
// ---------------------------------------------------------------------------------------------
/// What is recorded: the claims, and the journal by the identifiers of its entries.
#[verifier::ext_equal]
pub struct Shelf {
    pub claims: Seq<ClaimView>,
    pub journal: Map<Id, OperationView>,
}

impl Shelf {
    /// What is recorded once something was to be done: what fails leaves everything as it was.
    pub open spec fn after(self, action: ActionView, event: EventView) -> Shelf {
        if event is Failed {
            self
        } else {
            match action {
                ActionView::WriteJournal(operation) => Shelf {
                    journal: self.journal.insert(operation.operation_id, operation),
                    ..self
                },
                ActionView::RemoveJournal(id) => Shelf { journal: self.journal.remove(id), ..self },
                ActionView::RecordClaim(claim) => Shelf { claims: self.claims.push(claim), ..self },
                _ => self,
            }
        }
    }
}

/// How far a claim has come: the claim, what is to be done next, and what is recorded.
pub struct Course {
    pub transaction: TransactionView,
    pub action: ActionView,
    pub shelf: Shelf,
}

/// How far a claim that starts so has come, by how everything has gone.
pub open spec fn course(start: TransactionView, shelf: Shelf, events: Seq<EventView>) -> Course
    decreases events.len(),
{
    if events.len() == 0 {
        Course { transaction: start, action: ActionView::WriteJournal(start.operation), shelf }
    } else {
        let before = course(start, shelf, events.drop_last());
        let (transaction, action) = before.transaction.next(events.last());
        Course { transaction, action, shelf: before.shelf.after(before.action, events.last()) }
    }
}

/// Whether everything has gone as it may at the stage that it came at.
pub open spec fn course_fits(start: TransactionView, shelf: Shelf, events: Seq<EventView>) -> bool
    decreases events.len(),
{
    events.len() == 0 || (course_fits(start, shelf, events.drop_last()) && fits(
        course(start, shelf, events.drop_last()).transaction.stage,
        events.last(),
    ))
}

/// Whether the worktree of the claim was found at a place.
pub open spec fn found_at(events: Seq<EventView>, place: Seq<char>) -> bool {
    exists|i: int|
        0 <= i < events.len() && (#[trigger] events[i] matches EventView::Found { place: p, at }
            && p == place)
}

/// Whether what is to be done next, and what is recorded, is what belongs to the stage.
pub open spec fn on_course(shelf: Shelf, now: Course) -> bool {
    let claim = now.transaction.claim;
    let id = now.transaction.operation.operation_id;
    let claims = now.shelf.claims;
    match now.transaction.stage {
        StageView::Recording => now.action == ActionView::RecordClaim(claim) && claims
            == shelf.claims,
        StageView::NotingCommit => now.action == ActionView::WriteJournal(
            now.transaction.operation,
        ) && claims == shelf.claims.push(claim),
        StageView::Closing => now.action == ActionView::RemoveJournal(id) && claims
            == shelf.claims.push(claim),
        StageView::Finished => if now.action is Commit {
            now.action == ActionView::Commit(claim) && claims == shelf.claims.push(claim)
                && now.shelf.journal == shelf.journal.remove(id)
        } else {
            now.action is Fail && (claims == shelf.claims || claims == shelf.claims.push(claim))
        },
        _ => !(now.action is RecordClaim) && claims == shelf.claims,
    }
}

/// However a claim goes, it stays the claim that was begun: only its worktree, where it was not
/// there before, may turn out to be at another place that was found. No other journal entry than
/// its own is touched; nothing is recorded but this claim; and where the claim is made, it is the
/// one that was recorded, and its journal entry is gone.
pub proof fn claims_stay_on_course(start: TransactionView, shelf: Shelf, events: Seq<EventView>)
    requires
        start.fresh(),
        start.claim.worktree == start.operation.worktree,
        course_fits(start, shelf, events),
    ensures
        ({
            let now = course(start, shelf, events);
            let claim = now.transaction.claim;
            &&& now.transaction.sound()
            &&& claim == (ClaimView {
                worktree: claim.worktree,
                created_at: claim.created_at,
                ..start.claim
            })
            &&& claim.worktree == now.transaction.operation.worktree
            &&& now.transaction.operation.operation_id == start.operation.operation_id
            &&& now.transaction.adopted_worktree == start.adopted_worktree
            &&& same_path(claim.worktree, start.claim.worktree) || (!start.adopted_worktree
                && found_at(events, claim.worktree))
            &&& now.shelf.journal.remove(start.operation.operation_id) == shelf.journal.remove(
                start.operation.operation_id,
            )
            &&& on_course(shelf, now)
        }),
    decreases events.len(),
{
    if events.len() > 0 {
        let earlier = events.drop_last();
        let event = events.last();
        claims_stay_on_course(start, shelf, earlier);
        let before = course(start, shelf, earlier);
        let now = course(start, shelf, events);
        steps_stay_sound(before.transaction, event);
        steps_keep_identity(before.transaction, event);
        let place = now.transaction.claim.worktree;
        if !same_path(place, start.claim.worktree) {
            if place == before.transaction.claim.worktree {
                let i = choose|i: int|
                    0 <= i < earlier.len() && (#[trigger] earlier[i] matches EventView::Found {
                        place: p,
                        at,
                    } && p == place);
                assert(events[i] == earlier[i]);
            } else {
                assert(events[events.len() - 1] == event);
            }
            assert(found_at(events, place));
        }
        let id = start.operation.operation_id;
        assert(now.shelf.journal.remove(id) =~= before.shelf.journal.remove(id));
        assert(before.shelf.journal.remove(id) =~= shelf.journal.remove(id));
    }
}

/// Nothing is left to be done for a claim that is made.
pub proof fn commits_end(start: TransactionView, shelf: Shelf, events: Seq<EventView>)
    requires
        course_fits(start, shelf, events),
        course(start, shelf, events).action is Commit,
    ensures
        course(start, shelf, events).transaction.stage is Finished,
{
    if events.len() > 0 {
        claims_come_to_an_end(
            course(start, shelf, events.drop_last()).transaction,
            events.last(),
        );
    }
}

} // verus!
