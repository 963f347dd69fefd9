//! The records that are kept of claims, releases, runs and unfinished operations, and the rules
//! that every record obeys.
use vstd::prelude::*;
use vstd::string::*;

use crate::id::{Id, IssueNumber};
use crate::path::{absolute, is_absolute};
use crate::text::{blank, clone_texts, is_blank, optional, quote, quoted, same, views};
use crate::time::Timestamp;

verus! {

pub const SCHEMA_VERSION: &'static str = "0.1";

/// Why a record was refused.
#[derive(Debug)]
pub enum ModelError {
    /// A rule that the record breaks.
    Invalid(String),
    /// The value does not have the shape of the record. Which part of it is amiss stays unsaid.
    Json,
}

impl ModelError {
    pub open spec fn text(self) -> Seq<char> {
        match self {
            ModelError::Invalid(problem) => "invalid persisted model: "@ + problem@,
            ModelError::Json => "invalid persisted JSON"@,
        }
    }

    pub fn message(&self) -> (message: String)
        ensures
            message@ == self.text(),
    {
        match self {
            ModelError::Invalid(problem) => {
                let mut message = "invalid persisted model: ".to_owned();
                message.append(problem.as_str());
                message
            },
            ModelError::Json => "invalid persisted JSON".to_owned(),
        }
    }
}

/// Whether a verdict on a record is the one that its problem asks for.
pub open spec fn verdict(result: Result<(), ModelError>, problem: Option<Seq<char>>) -> bool {
    match result {
        Ok(_) => problem is None,
        Err(ModelError::Invalid(message)) => problem == Some(message@),
        Err(ModelError::Json) => false,
    }
}

/// A record with rules of its own.
pub trait Validate {
    /// The first rule that the record breaks, in words.
    spec fn problem(&self) -> Option<Seq<char>>;

    fn validate(&self) -> (result: Result<(), ModelError>)
        ensures
            verdict(result, self.problem()),
    ;
}

/// The first of two problems.
pub open spec fn either(a: Option<Seq<char>>, b: Option<Seq<char>>) -> Option<Seq<char>> {
    match a {
        Some(a) => Some(a),
        None => b,
    }
}

pub open spec fn version_problem(version: Seq<char>) -> Option<Seq<char>> {
    if version == SCHEMA_VERSION@ {
        None
    } else {
        Some("unsupported schema_version "@ + quoted(version) + "; expected "@ + quoted(SCHEMA_VERSION@))
    }
}

pub open spec fn path_problem(path: Seq<char>, label: Seq<char>) -> Option<Seq<char>> {
    if absolute(path) {
        None
    } else {
        Some(label + " must be an absolute path"@)
    }
}

pub open spec fn empty_problem(field: Seq<char>, value: Seq<char>) -> Option<Seq<char>> {
    if blank(value) {
        Some(field + " must not be empty"@)
    } else {
        None
    }
}

fn validate_version(version: &str) -> (result: Result<(), ModelError>)
    ensures
        verdict(result, version_problem(version@)),
{
    if same(version, SCHEMA_VERSION) {
        Ok(())
    } else {
        let mut message = "unsupported schema_version ".to_owned();
        message.append(quote(version).as_str());
        message.append("; expected ");
        message.append(quote(SCHEMA_VERSION).as_str());
        Err(ModelError::Invalid(message))
    }
}

fn validate_absolute_path(path: &str, label: &str) -> (result: Result<(), ModelError>)
    ensures
        verdict(result, path_problem(path@, label@)),
{
    if is_absolute(path) {
        Ok(())
    } else {
        let mut message = label.to_owned();
        message.append(" must be an absolute path");
        Err(ModelError::Invalid(message))
    }
}

fn validate_non_empty(field: &str, value: &str) -> (result: Result<(), ModelError>)
    ensures
        verdict(result, empty_problem(field@, value@)),
{
    if is_blank(value) {
        let mut message = field.to_owned();
        message.append(" must not be empty");
        Err(ModelError::Invalid(message))
    } else {
        Ok(())
    }
}

// ---------------------------------------------------------------------------------------------
// Claims
// ---------------------------------------------------------------------------------------------
/// An issue whose work has to be finished first, and the claim generation that does it, where
/// there was one.
#[derive(Clone, Copy, Debug, PartialEq, Eq, Structural)]
pub struct WaitForRef {
    pub issue: IssueNumber,
    pub claim_id: Option<Id>,
}

/// The globs of the paths that a claim means to change, and of those it means to leave alone.
#[derive(Debug)]
pub struct DeclaredScope {
    pub allowed_paths: Vec<String>,
    pub disallowed_paths: Vec<String>,
}

pub struct ScopeView {
    pub allowed_paths: Seq<Seq<char>>,
    pub disallowed_paths: Seq<Seq<char>>,
}

impl View for DeclaredScope {
    type V = ScopeView;

    open spec fn view(&self) -> ScopeView {
        ScopeView {
            allowed_paths: views(self.allowed_paths@),
            disallowed_paths: views(self.disallowed_paths@),
        }
    }
}

impl Clone for DeclaredScope {
    fn clone(&self) -> (copy: Self)
        ensures
            copy@ == self@,
    {
        DeclaredScope {
            allowed_paths: clone_texts(&self.allowed_paths),
            disallowed_paths: clone_texts(&self.disallowed_paths),
        }
    }
}

impl Default for DeclaredScope {
    fn default() -> (scope: Self)
        ensures
            scope@ == (ScopeView { allowed_paths: Seq::empty(), disallowed_paths: Seq::empty() }),
    {
        let scope = DeclaredScope { allowed_paths: Vec::new(), disallowed_paths: Vec::new() };
        assert(scope@.allowed_paths =~= Seq::empty());
        assert(scope@.disallowed_paths =~= Seq::empty());
        scope
    }
}

/// One generation of a claim: an issue is worked on, on a branch, in a worktree, from a base.
#[derive(Debug)]
pub struct Claim {
    pub schema_version: String,
    pub claim_id: Id,
    pub repo: String,
    pub issue: IssueNumber,
    pub title: Option<String>,
    pub branch: String,
    pub worktree: String,
    pub base_remote: String,
    pub base_ref: String,
    pub base_sha: String,
    pub base_issue: Option<IssueNumber>,
    pub base_claim_id: Option<Id>,
    pub wait_for: Vec<WaitForRef>,
    pub declared_scope: Option<DeclaredScope>,
    pub note: Option<String>,
    pub created_at: Timestamp,
}

pub struct ClaimView {
    pub schema_version: Seq<char>,
    pub claim_id: Id,
    pub repo: Seq<char>,
    pub issue: IssueNumber,
    pub title: Option<Seq<char>>,
    pub branch: Seq<char>,
    pub worktree: Seq<char>,
    pub base_remote: Seq<char>,
    pub base_ref: Seq<char>,
    pub base_sha: Seq<char>,
    pub base_issue: Option<IssueNumber>,
    pub base_claim_id: Option<Id>,
    pub wait_for: Seq<WaitForRef>,
    pub declared_scope: Option<ScopeView>,
    pub note: Option<Seq<char>>,
    pub created_at: Timestamp,
}

impl View for Claim {
    type V = ClaimView;

    open spec fn view(&self) -> ClaimView {
        ClaimView {
            schema_version: self.schema_version@,
            claim_id: self.claim_id,
            repo: self.repo@,
            issue: self.issue,
            title: optional(self.title),
            branch: self.branch@,
            worktree: self.worktree@,
            base_remote: self.base_remote@,
            base_ref: self.base_ref@,
            base_sha: self.base_sha@,
            base_issue: self.base_issue,
            base_claim_id: self.base_claim_id,
            wait_for: self.wait_for@,
            declared_scope: optional(self.declared_scope),
            note: optional(self.note),
            created_at: self.created_at,
        }
    }
}

pub fn clone_wait_for(refs: &Vec<WaitForRef>) -> (copy: Vec<WaitForRef>)
    ensures
        copy@ == refs@,
{
    let mut copy: Vec<WaitForRef> = Vec::new();
    let mut i: usize = 0;
    while i < refs.len()
        invariant
            i <= refs.len(),
            copy@ == refs@.take(i as int),
        decreases refs.len() - i,
    {
        copy.push(refs[i]);
        i = i + 1;
        assert(refs@.take(i as int) =~= refs@.take(i - 1).push(refs@[i - 1]));
    }
    assert(refs@.take(i as int) =~= refs@);
    copy
}

pub fn clone_optional_text(text: &Option<String>) -> (copy: Option<String>)
    ensures
        optional(copy) == optional(*text),
{
    match text {
        Some(text) => Some(text.clone()),
        None => None,
    }
}

impl Clone for Claim {
    fn clone(&self) -> (copy: Self)
        ensures
            copy@ == self@,
    {
        Claim {
            schema_version: self.schema_version.clone(),
            claim_id: self.claim_id,
            repo: self.repo.clone(),
            issue: self.issue,
            title: clone_optional_text(&self.title),
            branch: self.branch.clone(),
            worktree: self.worktree.clone(),
            base_remote: self.base_remote.clone(),
            base_ref: self.base_ref.clone(),
            base_sha: self.base_sha.clone(),
            base_issue: self.base_issue,
            base_claim_id: self.base_claim_id,
            wait_for: clone_wait_for(&self.wait_for),
            declared_scope: match &self.declared_scope {
                Some(scope) => Some(scope.clone()),
                None => None,
            },
            note: clone_optional_text(&self.note),
            created_at: self.created_at,
        }
    }
}

pub fn clone_claims(claims: &Vec<Claim>) -> (copy: Vec<Claim>)
    ensures
        views(copy@) == views(claims@),
{
    let mut copy: Vec<Claim> = Vec::new();
    let mut i: usize = 0;
    while i < claims.len()
        invariant
            i <= claims.len(),
            views(copy@) == views(claims@).take(i as int),
        decreases claims.len() - i,
    {
        let ghost done = views(copy@);
        copy.push(claims[i].clone());
        i = i + 1;
        assert(views(copy@) =~= done.push(claims@[i - 1]@));
        assert(views(claims@).take(i as int) =~= done.push(claims@[i - 1]@));
    }
    assert(views(claims@).take(i as int) =~= views(claims@));
    copy
}

impl ClaimView {
    /// The first rule that the claim breaks.
    pub open spec fn problem(self) -> Option<Seq<char>> {
        either(
            version_problem(self.schema_version),
            either(
                path_problem(self.worktree, "claim worktree"@),
                either(
                    empty_problem("repo"@, self.repo),
                    either(
                        empty_problem("branch"@, self.branch),
                        either(
                            empty_problem("base_remote"@, self.base_remote),
                            either(
                                empty_problem("base_ref"@, self.base_ref),
                                either(
                                    empty_problem("base_sha"@, self.base_sha),
                                    if (self.base_issue is Some) != (self.base_claim_id is Some) {
                                        Some(
                                            "base_issue and base_claim_id must either both be set or both be null"@,
                                        )
                                    } else {
                                        None
                                    },
                                ),
                            ),
                        ),
                    ),
                ),
            ),
        )
    }
}

impl Validate for Claim {
    open spec fn problem(&self) -> Option<Seq<char>> {
        self@.problem()
    }

    fn validate(&self) -> (result: Result<(), ModelError>) {
        validate_version(self.schema_version.as_str())?;
        validate_absolute_path(self.worktree.as_str(), "claim worktree")?;
        validate_non_empty("repo", self.repo.as_str())?;
        validate_non_empty("branch", self.branch.as_str())?;
        validate_non_empty("base_remote", self.base_remote.as_str())?;
        validate_non_empty("base_ref", self.base_ref.as_str())?;
        validate_non_empty("base_sha", self.base_sha.as_str())?;
        if self.base_issue.is_some() != self.base_claim_id.is_some() {
            return Err(
                ModelError::Invalid(
                    "base_issue and base_claim_id must either both be set or both be null".to_owned(),
                ),
            );
        }
        Ok(())
    }
}

// ---------------------------------------------------------------------------------------------
// Releases
// ---------------------------------------------------------------------------------------------
#[derive(Clone, Copy, Debug, PartialEq, Eq, Structural)]
pub enum ReleaseReason {
    Merged,
    Closed,
    Abandoned,
    Manual,
}

/// The end of a claim generation.
#[derive(Debug)]
pub struct ReleaseMarker {
    pub schema_version: String,
    pub repo: String,
    pub issue: IssueNumber,
    pub claim_id: Id,
    pub reason: ReleaseReason,
    pub released_at: Timestamp,
}

pub struct ReleaseView {
    pub schema_version: Seq<char>,
    pub repo: Seq<char>,
    pub issue: IssueNumber,
    pub claim_id: Id,
    pub reason: ReleaseReason,
    pub released_at: Timestamp,
}

impl View for ReleaseMarker {
    type V = ReleaseView;

    open spec fn view(&self) -> ReleaseView {
        ReleaseView {
            schema_version: self.schema_version@,
            repo: self.repo@,
            issue: self.issue,
            claim_id: self.claim_id,
            reason: self.reason,
            released_at: self.released_at,
        }
    }
}

impl Clone for ReleaseMarker {
    fn clone(&self) -> (copy: Self)
        ensures
            copy@ == self@,
    {
        ReleaseMarker {
            schema_version: self.schema_version.clone(),
            repo: self.repo.clone(),
            issue: self.issue,
            claim_id: self.claim_id,
            reason: self.reason,
            released_at: self.released_at,
        }
    }
}

impl ReleaseView {
    pub open spec fn problem(self) -> Option<Seq<char>> {
        either(version_problem(self.schema_version), empty_problem("repo"@, self.repo))
    }
}

impl Validate for ReleaseMarker {
    open spec fn problem(&self) -> Option<Seq<char>> {
        self@.problem()
    }

    fn validate(&self) -> (result: Result<(), ModelError>) {
        validate_version(self.schema_version.as_str())?;
        validate_non_empty("repo", self.repo.as_str())
    }
}

/// What a release did.
#[derive(Clone, Copy, Debug, PartialEq, Eq, Structural)]
pub struct ReleaseReport {
    pub issue: IssueNumber,
    pub claim_id: Id,
    pub already_released: bool,
    pub worktree_deleted: bool,
    pub branch_deleted: bool,
    pub cleanup_pending: bool,
}

impl ReleaseReport {
    /// The report of a release that only put down its marker.
    pub open spec fn of_marker(issue: IssueNumber, claim_id: Id, already_released: bool) -> Self {
        ReleaseReport {
            issue,
            claim_id,
            already_released,
            worktree_deleted: false,
            branch_deleted: false,
            cleanup_pending: false,
        }
    }

    pub fn marker_only(issue: IssueNumber, claim_id: Id, already_released: bool) -> (report: Self)
        ensures
            report == Self::of_marker(issue, claim_id, already_released),
    {
        ReleaseReport {
            issue,
            claim_id,
            already_released,
            worktree_deleted: false,
            branch_deleted: false,
            cleanup_pending: false,
        }
    }
}

// ---------------------------------------------------------------------------------------------
// Runs
// ---------------------------------------------------------------------------------------------
#[derive(Clone, Copy, Debug, PartialEq, Eq, Structural)]
pub enum RunMode {
    Interactive,
    Background,
}

#[derive(Clone, Copy, Debug, PartialEq, Eq, Structural)]
pub enum RunState {
    Queued,
    Running,
    Succeeded,
    Failed,
    StopRequested,
    Stopped,
}

impl RunState {
    pub open spec fn terminal(self) -> bool {
        self is Succeeded || self is Failed || self is Stopped
    }

    pub open spec fn name(self) -> Seq<char> {
        match self {
            RunState::Queued => "queued"@,
            RunState::Running => "running"@,
            RunState::Succeeded => "succeeded"@,
            RunState::Failed => "failed"@,
            RunState::StopRequested => "stop_requested"@,
            RunState::Stopped => "stopped"@,
        }
    }

    pub fn is_terminal(self) -> (result: bool)
        ensures
            result == self.terminal(),
    {
        matches!(self, RunState::Succeeded | RunState::Failed | RunState::Stopped)
    }

    pub fn is_active(self) -> (result: bool)
        ensures
            result == !self.terminal(),
    {
        !self.is_terminal()
    }

    pub fn as_str(self) -> (name: &'static str)
        ensures
            name@ == self.name(),
    {
        match self {
            RunState::Queued => "queued",
            RunState::Running => "running",
            RunState::Succeeded => "succeeded",
            RunState::Failed => "failed",
            RunState::StopRequested => "stop_requested",
            RunState::Stopped => "stopped",
        }
    }
}

/// One run of an agent in the worktree of a claim generation.
#[derive(Debug)]
pub struct RunRecord {
    pub schema_version: String,
    pub run_id: Id,
    pub repo: String,
    pub claim_id: Id,
    pub issue: IssueNumber,
    pub agent: String,
    pub mode: RunMode,
    pub state: RunState,
    pub worktree: String,
    pub worker_pid: Option<u32>,
    pub child_pid: Option<u32>,
    pub created_at: Timestamp,
    pub started_at: Option<Timestamp>,
    pub finished_at: Option<Timestamp>,
    pub exit_code: Option<i32>,
    pub prompt_path: String,
    pub stdout_path: String,
    pub stderr_path: String,
    pub error: Option<String>,
}

pub struct RunView {
    pub schema_version: Seq<char>,
    pub run_id: Id,
    pub repo: Seq<char>,
    pub claim_id: Id,
    pub issue: IssueNumber,
    pub agent: Seq<char>,
    pub mode: RunMode,
    pub state: RunState,
    pub worktree: Seq<char>,
    pub worker_pid: Option<u32>,
    pub child_pid: Option<u32>,
    pub created_at: Timestamp,
    pub started_at: Option<Timestamp>,
    pub finished_at: Option<Timestamp>,
    pub exit_code: Option<i32>,
    pub prompt_path: Seq<char>,
    pub stdout_path: Seq<char>,
    pub stderr_path: Seq<char>,
    pub error: Option<Seq<char>>,
}

impl View for RunRecord {
    type V = RunView;

    open spec fn view(&self) -> RunView {
        RunView {
            schema_version: self.schema_version@,
            run_id: self.run_id,
            repo: self.repo@,
            claim_id: self.claim_id,
            issue: self.issue,
            agent: self.agent@,
            mode: self.mode,
            state: self.state,
            worktree: self.worktree@,
            worker_pid: self.worker_pid,
            child_pid: self.child_pid,
            created_at: self.created_at,
            started_at: self.started_at,
            finished_at: self.finished_at,
            exit_code: self.exit_code,
            prompt_path: self.prompt_path@,
            stdout_path: self.stdout_path@,
            stderr_path: self.stderr_path@,
            error: optional(self.error),
        }
    }
}

impl Clone for RunRecord {
    fn clone(&self) -> (copy: Self)
        ensures
            copy@ == self@,
    {
        RunRecord {
            schema_version: self.schema_version.clone(),
            run_id: self.run_id,
            repo: self.repo.clone(),
            claim_id: self.claim_id,
            issue: self.issue,
            agent: self.agent.clone(),
            mode: self.mode,
            state: self.state,
            worktree: self.worktree.clone(),
            worker_pid: self.worker_pid,
            child_pid: self.child_pid,
            created_at: self.created_at,
            started_at: self.started_at,
            finished_at: self.finished_at,
            exit_code: self.exit_code,
            prompt_path: self.prompt_path.clone(),
            stdout_path: self.stdout_path.clone(),
            stderr_path: self.stderr_path.clone(),
            error: clone_optional_text(&self.error),
        }
    }
}

impl RunView {
    /// Nothing that a run records happened before what has to come first.
    pub open spec fn in_order(self) -> bool {
        &&& self.started_at matches Some(started) ==> !started.earlier(self.created_at)
        &&& self.finished_at matches Some(finished) ==> !finished.earlier(self.created_at)
        &&& (self.started_at is Some && self.finished_at is Some)
            ==> !self.finished_at->0.earlier(self.started_at->0)
    }

    /// The fields that a run in its state has, and has not.
    pub open spec fn consistent(self) -> bool {
        match self.state {
            RunState::Queued => {
                self.started_at is None && self.finished_at is None && self.exit_code is None
                    && self.error is None
            },
            RunState::Running => {
                self.started_at is Some && self.finished_at is None && self.exit_code is None
                    && self.error is None
            },
            RunState::Succeeded => {
                self.started_at is Some && self.finished_at is Some && self.exit_code == Some(0i32)
                    && self.error is None
            },
            RunState::Failed => {
                &&& self.finished_at is Some
                &&& {
                    ||| self.started_at is None && self.exit_code is None && (self.error matches Some(
                        error,
                    ) && !blank(error))
                    ||| self.started_at is Some && (self.exit_code matches Some(code) && code != 0)
                        && self.error is None
                }
            },
            RunState::StopRequested => {
                self.finished_at is None && self.exit_code is None && self.error is None
            },
            RunState::Stopped => {
                self.finished_at is Some && self.error is None && (self.started_at is Some
                    || self.exit_code is None)
            },
        }
    }

    /// The first rule that the run breaks.
    pub open spec fn problem(self) -> Option<Seq<char>> {
        either(
            version_problem(self.schema_version),
            either(
                empty_problem("repo"@, self.repo),
                either(
                    empty_problem("agent"@, self.agent),
                    either(
                        path_problem(self.worktree, "run worktree"@),
                        either(
                            path_problem(self.prompt_path, "run prompt_path"@),
                            either(
                                path_problem(self.stdout_path, "run stdout_path"@),
                                either(
                                    path_problem(self.stderr_path, "run stderr_path"@),
                                    self.lifecycle_problem(),
                                ),
                            ),
                        ),
                    ),
                ),
            ),
        )
    }

    /// The first rule on the course of a run that it breaks.
    pub open spec fn lifecycle_problem(self) -> Option<Seq<char>> {
        if self.mode is Interactive && self.worker_pid is Some {
            Some("interactive runs cannot have a worker_pid"@)
        } else if !self.in_order() {
            Some("run timestamps are not in lifecycle order"@)
        } else if (self.started_at is Some) != (self.child_pid is Some) {
            Some("started_at and child_pid must either both be set or both be null"@)
        } else if !self.consistent() {
            Some("run fields are inconsistent with state "@ + self.state.name())
        } else {
            None
        }
    }
}

impl RunRecord {
    fn is_in_order(&self) -> (result: bool)
        ensures
            result == self@.in_order(),
    {
        if let Some(started) = self.started_at {
            if started.is_earlier(self.created_at) {
                return false;
            }
        }
        if let Some(finished) = self.finished_at {
            if finished.is_earlier(self.created_at) {
                return false;
            }
            if let Some(started) = self.started_at {
                if finished.is_earlier(started) {
                    return false;
                }
            }
        }
        true
    }

    fn is_consistent(&self) -> (result: bool)
        ensures
            result == self@.consistent(),
    {
        match self.state {
            RunState::Queued => {
                self.started_at.is_none() && self.finished_at.is_none() && self.exit_code.is_none()
                    && self.error.is_none()
            },
            RunState::Running => {
                self.started_at.is_some() && self.finished_at.is_none() && self.exit_code.is_none()
                    && self.error.is_none()
            },
            RunState::Succeeded => {
                self.started_at.is_some() && self.finished_at.is_some() && (match self.exit_code {
                    Some(code) => code == 0,
                    None => false,
                }) && self.error.is_none()
            },
            RunState::Failed => {
                if self.finished_at.is_none() {
                    false
                } else if self.started_at.is_none() {
                    self.exit_code.is_none() && (match &self.error {
                        Some(error) => !is_blank(error.as_str()),
                        None => false,
                    })
                } else {
                    (match self.exit_code {
                        Some(code) => code != 0,
                        None => false,
                    }) && self.error.is_none()
                }
            },
            RunState::StopRequested => {
                self.finished_at.is_none() && self.exit_code.is_none() && self.error.is_none()
            },
            RunState::Stopped => {
                self.finished_at.is_some() && self.error.is_none() && (self.started_at.is_some()
                    || self.exit_code.is_none())
            },
        }
    }
}

impl Validate for RunRecord {
    open spec fn problem(&self) -> Option<Seq<char>> {
        self@.problem()
    }

    fn validate(&self) -> (result: Result<(), ModelError>) {
        validate_version(self.schema_version.as_str())?;
        validate_non_empty("repo", self.repo.as_str())?;
        validate_non_empty("agent", self.agent.as_str())?;
        validate_absolute_path(self.worktree.as_str(), "run worktree")?;
        validate_absolute_path(self.prompt_path.as_str(), "run prompt_path")?;
        validate_absolute_path(self.stdout_path.as_str(), "run stdout_path")?;
        validate_absolute_path(self.stderr_path.as_str(), "run stderr_path")?;
        if matches!(self.mode, RunMode::Interactive) && self.worker_pid.is_some() {
            return Err(
                ModelError::Invalid("interactive runs cannot have a worker_pid".to_owned()),
            );
        }
        if !self.is_in_order() {
            return Err(
                ModelError::Invalid("run timestamps are not in lifecycle order".to_owned()),
            );
        }
        if self.started_at.is_some() != self.child_pid.is_some() {
            return Err(
                ModelError::Invalid(
                    "started_at and child_pid must either both be set or both be null".to_owned(),
                ),
            );
        }
        if self.is_consistent() {
            Ok(())
        } else {
            let mut message = "run fields are inconsistent with state ".to_owned();
            message.append(self.state.as_str());
            Err(ModelError::Invalid(message))
        }
    }
}

/// What happens to a run.
#[allow(inconsistent_fields)]
#[derive(Debug)]
pub enum RunTransition {
    Start { worker_pid: Option<u32>, child_pid: u32, started_at: Timestamp },
    SpawnFailed { worker_pid: Option<u32>, finished_at: Timestamp, error: String },
    Exit { exit_code: i32, finished_at: Timestamp },
    RequestStop,
    Stopped { finished_at: Timestamp, exit_code: Option<i32> },
}

impl RunTransition {
    /// The run after the event, where the event can happen to it.
    pub open spec fn outcome(self, run: RunView) -> Option<RunView> {
        match self {
            RunTransition::Start { worker_pid, child_pid, started_at } => if run.state is Queued {
                Some(
                    RunView {
                        state: RunState::Running,
                        worker_pid,
                        child_pid: Some(child_pid),
                        started_at: Some(started_at),
                        ..run
                    },
                )
            } else {
                None
            },
            RunTransition::SpawnFailed { worker_pid, finished_at, error } => if run.state is Queued {
                Some(
                    RunView {
                        state: RunState::Failed,
                        worker_pid,
                        finished_at: Some(finished_at),
                        error: Some(error@),
                        ..run
                    },
                )
            } else {
                None
            },
            RunTransition::Exit { exit_code, finished_at } => if run.state is Running {
                Some(
                    RunView {
                        state: if exit_code == 0 {
                            RunState::Succeeded
                        } else {
                            RunState::Failed
                        },
                        exit_code: Some(exit_code),
                        finished_at: Some(finished_at),
                        ..run
                    },
                )
            } else {
                None
            },
            RunTransition::RequestStop => if run.state is Queued || run.state is Running {
                Some(RunView { state: RunState::StopRequested, ..run })
            } else {
                None
            },
            RunTransition::Stopped { finished_at, exit_code } => if run.state is StopRequested {
                Some(
                    RunView {
                        state: RunState::Stopped,
                        finished_at: Some(finished_at),
                        exit_code,
                        ..run
                    },
                )
            } else {
                None
            },
        }
    }
}

impl RunRecord {
    /// Lets an event happen to a run. A run to which it cannot happen stays as it is; any other
    /// run changes, and is then held to the rules.
    pub fn apply_transition(&mut self, transition: RunTransition) -> (result: Result<
        (),
        ModelError,
    >)
        ensures
            match transition.outcome(old(self)@) {
                Some(next) => final(self)@ == next && verdict(result, next.problem()),
                None => final(self)@ == old(self)@ && verdict(
                    result,
                    Some(
                        "run cannot transition from "@ + old(self)@.state.name()
                            + " using the requested event"@,
                    ),
                ),
            },
    {
        let from = self.state;
        match (from, transition) {
            (RunState::Queued, RunTransition::Start { worker_pid, child_pid, started_at }) => {
                self.state = RunState::Running;
                self.worker_pid = worker_pid;
                self.child_pid = Some(child_pid);
                self.started_at = Some(started_at);
            },
            (RunState::Queued, RunTransition::SpawnFailed { worker_pid, finished_at, error }) => {
                self.state = RunState::Failed;
                self.worker_pid = worker_pid;
                self.finished_at = Some(finished_at);
                self.error = Some(error);
            },
            (RunState::Running, RunTransition::Exit { exit_code, finished_at }) => {
                self.state = if exit_code == 0 {
                    RunState::Succeeded
                } else {
                    RunState::Failed
                };
                self.exit_code = Some(exit_code);
                self.finished_at = Some(finished_at);
            },
            (RunState::Queued, RunTransition::RequestStop) => {
                self.state = RunState::StopRequested;
            },
            (RunState::Running, RunTransition::RequestStop) => {
                self.state = RunState::StopRequested;
            },
            (RunState::StopRequested, RunTransition::Stopped { finished_at, exit_code }) => {
                self.state = RunState::Stopped;
                self.finished_at = Some(finished_at);
                self.exit_code = exit_code;
            },
            _ => {
                let mut message = "run cannot transition from ".to_owned();
                message.append(from.as_str());
                message.append(" using the requested event");
                return Err(ModelError::Invalid(message));
            },
        }
        self.validate()
    }
}

/// A run that has ended stays as it ended: no event can happen to it.
pub proof fn terminal_runs_are_immutable(run: RunView, transition: RunTransition)
    requires
        run.state.terminal(),
    ensures
        transition.outcome(run) is None,
{
}

/// No event changes which run it is, what it belongs to, where it works or when it was made.
pub proof fn transitions_keep_identity(run: RunView, transition: RunTransition)
    ensures
        transition.outcome(run) matches Some(next) ==> {
            &&& next.schema_version == run.schema_version
            &&& next.run_id == run.run_id
            &&& next.repo == run.repo
            &&& next.claim_id == run.claim_id
            &&& next.issue == run.issue
            &&& next.agent == run.agent
            &&& next.mode == run.mode
            &&& next.worktree == run.worktree
            &&& next.created_at == run.created_at
            &&& next.prompt_path == run.prompt_path
            &&& next.stdout_path == run.stdout_path
            &&& next.stderr_path == run.stderr_path
        },
{
}

/// A valid run that ends with an exit code, at no earlier time than it started, is valid, and
/// has succeeded exactly where the code is zero.
pub proof fn exit_of_a_valid_run(run: RunView, exit_code: i32, finished_at: Timestamp)
    requires
        run.problem() is None,
        run.state is Running,
        !finished_at.earlier(run.started_at->0),
    ensures
        ({
            let next = (RunTransition::Exit { exit_code, finished_at }).outcome(run);
            &&& next is Some
            &&& next->0.problem() is None
            &&& next->0.state is Succeeded <==> exit_code == 0
            &&& next->0.state is Failed <==> exit_code != 0
        }),
{
}

/// Of two events that end the same running run, the one that comes second cannot happen.
pub proof fn only_one_terminal_transition_wins(
    run: RunView,
    first: RunTransition,
    second: RunTransition,
)
    requires
        first.outcome(run) is Some,
        first.outcome(run)->0.state.terminal(),
    ensures
        second.outcome(first.outcome(run)->0) is None,
{
}

// ---------------------------------------------------------------------------------------------
// Operations
// ---------------------------------------------------------------------------------------------
#[derive(Clone, Copy, Debug, PartialEq, Eq, Structural)]
pub enum OperationKind {
    Claim,
    Cleanup,
    Run,
}

#[derive(Clone, Copy, Debug, PartialEq, Eq, Structural)]
pub enum OperationPhase {
    Reserved,
    BranchCreated,
    WorktreeCreated,
    ClaimCommitted,
    CleanupPending,
    RunArtifactsCreated,
    RunCommitted,
}

impl OperationPhase {
    pub open spec fn name(self) -> Seq<char> {
        match self {
            OperationPhase::Reserved => "reserved"@,
            OperationPhase::BranchCreated => "branch_created"@,
            OperationPhase::WorktreeCreated => "worktree_created"@,
            OperationPhase::ClaimCommitted => "claim_committed"@,
            OperationPhase::CleanupPending => "cleanup_pending"@,
            OperationPhase::RunArtifactsCreated => "run_artifacts_created"@,
            OperationPhase::RunCommitted => "run_committed"@,
        }
    }

    pub fn as_str(self) -> (name: &'static str)
        ensures
            name@ == self.name(),
    {
        match self {
            OperationPhase::Reserved => "reserved",
            OperationPhase::BranchCreated => "branch_created",
            OperationPhase::WorktreeCreated => "worktree_created",
            OperationPhase::ClaimCommitted => "claim_committed",
            OperationPhase::CleanupPending => "cleanup_pending",
            OperationPhase::RunArtifactsCreated => "run_artifacts_created",
            OperationPhase::RunCommitted => "run_committed",
        }
    }
}

/// The journal entry of an operation that is under way.
#[derive(Debug)]
pub struct OperationRecord {
    pub schema_version: String,
    pub operation_id: Id,
    pub kind: OperationKind,
    pub claim_id: Id,
    pub issue: IssueNumber,
    pub branch: String,
    pub worktree: String,
    pub phase: OperationPhase,
    pub started_at: Timestamp,
}

pub struct OperationView {
    pub schema_version: Seq<char>,
    pub operation_id: Id,
    pub kind: OperationKind,
    pub claim_id: Id,
    pub issue: IssueNumber,
    pub branch: Seq<char>,
    pub worktree: Seq<char>,
    pub phase: OperationPhase,
    pub started_at: Timestamp,
}

impl View for OperationRecord {
    type V = OperationView;

    open spec fn view(&self) -> OperationView {
        OperationView {
            schema_version: self.schema_version@,
            operation_id: self.operation_id,
            kind: self.kind,
            claim_id: self.claim_id,
            issue: self.issue,
            branch: self.branch@,
            worktree: self.worktree@,
            phase: self.phase,
            started_at: self.started_at,
        }
    }
}

impl Clone for OperationRecord {
    fn clone(&self) -> (copy: Self)
        ensures
            copy@ == self@,
    {
        OperationRecord {
            schema_version: self.schema_version.clone(),
            operation_id: self.operation_id,
            kind: self.kind,
            claim_id: self.claim_id,
            issue: self.issue,
            branch: self.branch.clone(),
            worktree: self.worktree.clone(),
            phase: self.phase,
            started_at: self.started_at,
        }
    }
}

impl OperationView {
    /// Whether the phase is one that operations of this kind pass through.
    pub open spec fn phase_fits(self) -> bool {
        if self.kind is Run {
            self.phase is Reserved || self.phase is RunArtifactsCreated || self.phase is RunCommitted
        } else {
            !(self.phase is RunArtifactsCreated || self.phase is RunCommitted)
        }
    }

    pub open spec fn problem(self) -> Option<Seq<char>> {
        either(
            version_problem(self.schema_version),
            either(
                path_problem(self.worktree, "operation worktree"@),
                either(
                    empty_problem("branch"@, self.branch),
                    if self.phase_fits() {
                        None
                    } else {
                        Some("operation kind and phase describe different workflows"@)
                    },
                ),
            ),
        )
    }
}

impl Validate for OperationRecord {
    open spec fn problem(&self) -> Option<Seq<char>> {
        self@.problem()
    }

    fn validate(&self) -> (result: Result<(), ModelError>) {
        validate_version(self.schema_version.as_str())?;
        validate_absolute_path(self.worktree.as_str(), "operation worktree")?;
        validate_non_empty("branch", self.branch.as_str())?;
        let run_phase = matches!(
            self.phase,
            OperationPhase::RunArtifactsCreated | OperationPhase::RunCommitted
        );
        let run_kind = matches!(self.kind, OperationKind::Run);
        if run_phase != run_kind && !(run_kind && matches!(self.phase, OperationPhase::Reserved)) {
            return Err(
                ModelError::Invalid(
                    "operation kind and phase describe different workflows".to_owned(),
                ),
            );
        }
        Ok(())
    }
}

} // verus!
