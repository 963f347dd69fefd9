//! Lifecycle: what a claim may be made from, and how it ends.
use vstd::prelude::*;
use vstd::string::*;

use crate::command::RunnerError;
use crate::config::ConfigError;
use crate::git::{CliCommandError, RepositoryError};
use crate::github::{
    GithubIssueError, GithubIssueObservation, GithubIssueState, IssueObservationView,
};
use crate::id::{id_string, id_text, short_id, short_text, Id, IssueNumber};
use crate::model::{
    Claim, ClaimView, ReleaseMarker, ReleaseReason, ReleaseReport, ReleaseView, WaitForRef,
    SCHEMA_VERSION,
};
use crate::stack::{claims_on, claims_with_issue};
use crate::store::{
    active, active_claims, active_means_unreleased, in_order, is_released, order_keeps_records,
    ordered, StoreError,
};
use crate::path::{is_same_path, same_path};
use crate::text::{decimal, decimal_text, optional, quote, quoted, same, views};
use crate::time::Timestamp;

verus! {

// ---------------------------------------------------------------------------------------------
// Errors
// ---------------------------------------------------------------------------------------------
/// Why a claim was not made or not released.
#[derive(Debug)]
pub enum LifecycleError {
    Repository(RepositoryError),
    Config(ConfigError),
    Store(StoreError),
    Git(CliCommandError),
    Runner(RunnerError),
    Github(GithubIssueError),
    AlreadyClaimed { issue: IssueNumber, claim_id: Id },
    Reserved(String),
    Refused(String),
    NoClaim(IssueNumber),
    BaseUnavailable { remote: String, reference: String },
    InvalidState(String),
    Rollback { original: String, cleanup: String },
    Io { action: String, path: String, message: String },
}

impl LifecycleError {
    pub open spec fn text(self) -> Seq<char> {
        self@.text()
    }

    pub fn message(&self) -> (text: String)
        ensures
            text@ == self.text(),
    {
        match self {
            LifecycleError::Repository(error) => error.message(),
            LifecycleError::Config(error) => error.message(),
            LifecycleError::Store(error) => error.message(),
            LifecycleError::Git(error) => error.message(),
            LifecycleError::Runner(error) => error.message(),
            LifecycleError::Github(error) => error.message(),
            LifecycleError::AlreadyClaimed { issue, claim_id } => {
                let mut text = "issue ".to_owned();
                text.append(decimal_text(*issue).as_str());
                text.append(" is already claimed by generation ");
                text.append(id_string(*claim_id).as_str());
                text
            },
            LifecycleError::Reserved(reason) => {
                let mut text = "claim reservation refused: ".to_owned();
                text.append(reason.as_str());
                text
            },
            LifecycleError::Refused(reason) => {
                let mut text = "claim refused: ".to_owned();
                text.append(reason.as_str());
                text
            },
            LifecycleError::NoClaim(issue) => {
                let mut text = "issue ".to_owned();
                text.append(decimal_text(*issue).as_str());
                text.append(" has no claim to release");
                text
            },
            LifecycleError::BaseUnavailable { remote, reference } => {
                let mut text = "could not resolve base ".to_owned();
                text.append(remote.as_str());
                text.append("/");
                text.append(reference.as_str());
                text.append(" from a remote-tracking or local branch");
                text
            },
            LifecycleError::InvalidState(problem) => {
                let mut text = "invalid lifecycle state: ".to_owned();
                text.append(problem.as_str());
                text
            },
            LifecycleError::Rollback { original, cleanup } => {
                let mut text = "claim failed: ".to_owned();
                text.append(original.as_str());
                text.append("; rollback is incomplete: ");
                text.append(cleanup.as_str());
                text
            },
            LifecycleError::Io { action, path, message } => {
                let mut text = "failed to ".to_owned();
                text.append(action.as_str());
                text.append(" at ");
                text.append(path.as_str());
                text.append(": ");
                text.append(message.as_str());
                text
            },
        }
    }

    /// Whether something was refused, where nothing went wrong.
    pub open spec fn refusal(self) -> bool {
        self is AlreadyClaimed || self is Reserved || self is Refused || self is NoClaim
    }

    pub fn is_refusal(&self) -> (result: bool)
        ensures
            result == self.refusal(),
    {
        matches!(
            self,
            LifecycleError::AlreadyClaimed { .. } | LifecycleError::Reserved(_)
            | LifecycleError::Refused(_) | LifecycleError::NoClaim(_)
        )
    }
}

/// What an error says, with its texts as sequences of characters.
pub enum LifecycleErrorView {
    Repository(RepositoryError),
    Config(ConfigError),
    Store(StoreError),
    Git(CliCommandError),
    Runner(RunnerError),
    Github(GithubIssueError),
    AlreadyClaimed { issue: IssueNumber, claim_id: Id },
    Reserved(Seq<char>),
    Refused(Seq<char>),
    NoClaim(IssueNumber),
    BaseUnavailable { remote: Seq<char>, reference: Seq<char> },
    InvalidState(Seq<char>),
    Rollback { original: Seq<char>, cleanup: Seq<char> },
    Io { action: Seq<char>, path: Seq<char>, message: Seq<char> },
}

impl View for LifecycleError {
    type V = LifecycleErrorView;

    open spec fn view(&self) -> LifecycleErrorView {
        match *self {
            LifecycleError::Repository(error) => LifecycleErrorView::Repository(error),
            LifecycleError::Config(error) => LifecycleErrorView::Config(error),
            LifecycleError::Store(error) => LifecycleErrorView::Store(error),
            LifecycleError::Git(error) => LifecycleErrorView::Git(error),
            LifecycleError::Runner(error) => LifecycleErrorView::Runner(error),
            LifecycleError::Github(error) => LifecycleErrorView::Github(error),
            LifecycleError::AlreadyClaimed { issue, claim_id } =>
                LifecycleErrorView::AlreadyClaimed { issue, claim_id },
            LifecycleError::Reserved(reason) => LifecycleErrorView::Reserved(reason@),
            LifecycleError::Refused(reason) => LifecycleErrorView::Refused(reason@),
            LifecycleError::NoClaim(issue) => LifecycleErrorView::NoClaim(issue),
            LifecycleError::BaseUnavailable { remote, reference } =>
                LifecycleErrorView::BaseUnavailable { remote: remote@, reference: reference@ },
            LifecycleError::InvalidState(problem) => LifecycleErrorView::InvalidState(problem@),
            LifecycleError::Rollback { original, cleanup } => LifecycleErrorView::Rollback {
                original: original@,
                cleanup: cleanup@,
            },
            LifecycleError::Io { action, path, message } => LifecycleErrorView::Io {
                action: action@,
                path: path@,
                message: message@,
            },
        }
    }
}

impl LifecycleErrorView {
    pub open spec fn text(self) -> Seq<char> {
        match self {
            LifecycleErrorView::Repository(error) => error.text(),
            LifecycleErrorView::Config(error) => error.text(),
            LifecycleErrorView::Store(error) => error.text(),
            LifecycleErrorView::Git(error) => error.text(),
            LifecycleErrorView::Runner(error) => error.text(),
            LifecycleErrorView::Github(error) => error.text(),
            LifecycleErrorView::AlreadyClaimed { issue, claim_id } => "issue "@ + decimal(
                issue as nat,
            ) + " is already claimed by generation "@ + id_text(claim_id),
            LifecycleErrorView::Reserved(reason) => "claim reservation refused: "@ + reason,
            LifecycleErrorView::Refused(reason) => "claim refused: "@ + reason,
            LifecycleErrorView::NoClaim(issue) => "issue "@ + decimal(issue as nat)
                + " has no claim to release"@,
            LifecycleErrorView::BaseUnavailable { remote, reference } => "could not resolve base "@
                + remote + "/"@ + reference + " from a remote-tracking or local branch"@,
            LifecycleErrorView::InvalidState(problem) => "invalid lifecycle state: "@ + problem,
            LifecycleErrorView::Rollback { original, cleanup } => "claim failed: "@ + original
                + "; rollback is incomplete: "@ + cleanup,
            LifecycleErrorView::Io { action, path, message } => "failed to "@ + action + " at "@
                + path + ": "@ + message,
        }
    }
}

/// Whether an error refuses for a reason.
pub open spec fn refuses(error: LifecycleError, reason: Seq<char>) -> bool {
    error matches LifecycleError::Refused(said) && said@ == reason
}

/// Whether an error complains of a state.
pub open spec fn complains(error: LifecycleError, problem: Seq<char>) -> bool {
    error matches LifecycleError::InvalidState(said) && said@ == problem
}

// ---------------------------------------------------------------------------------------------
// What is asked for
// ---------------------------------------------------------------------------------------------
/// How a claim is to be made.
#[derive(Debug)]
pub struct ClaimOptions {
    pub branch: Option<String>,
    pub worktree: Option<String>,
    pub onto: Option<IssueNumber>,
    pub after: Vec<IssueNumber>,
    pub allowed_paths: Vec<String>,
    pub disallowed_paths: Vec<String>,
    pub note: Option<String>,
    pub force: bool,
}

pub struct OptionsView {
    pub branch: Option<Seq<char>>,
    pub worktree: Option<Seq<char>>,
    pub onto: Option<IssueNumber>,
    pub after: Seq<IssueNumber>,
    pub allowed_paths: Seq<Seq<char>>,
    pub disallowed_paths: Seq<Seq<char>>,
    pub note: Option<Seq<char>>,
    pub force: bool,
}

impl View for ClaimOptions {
    type V = OptionsView;

    open spec fn view(&self) -> OptionsView {
        OptionsView {
            branch: optional(self.branch),
            worktree: optional(self.worktree),
            onto: self.onto,
            after: self.after@,
            allowed_paths: views(self.allowed_paths@),
            disallowed_paths: views(self.disallowed_paths@),
            note: optional(self.note),
            force: self.force,
        }
    }
}

impl Default for ClaimOptions {
    /// A claim on its own, on a branch and in a worktree that are made for it.
    fn default() -> (options: Self)
        ensures
            options@ == (OptionsView {
                branch: None,
                worktree: None,
                onto: None,
                after: Seq::empty(),
                allowed_paths: Seq::empty(),
                disallowed_paths: Seq::empty(),
                note: None,
                force: false,
            }),
    {
        let options = ClaimOptions {
            branch: None,
            worktree: None,
            onto: None,
            after: Vec::new(),
            allowed_paths: Vec::new(),
            disallowed_paths: Vec::new(),
            note: None,
            force: false,
        };
        assert(options@.after =~= Seq::empty());
        assert(options@.allowed_paths =~= Seq::empty());
        assert(options@.disallowed_paths =~= Seq::empty());
        options
    }
}

/// A claim that was made, and what should be known of it.
#[derive(Debug)]
pub struct ClaimOutcome {
    pub claim: Claim,
    pub warnings: Vec<String>,
}

/// The first of the dependencies, from one on, that is repeated or also a parent; and what is
/// said of it.
pub open spec fn dependency_fault(
    onto: Option<IssueNumber>,
    after: Seq<IssueNumber>,
    from: nat,
) -> Option<Seq<char>>
    decreases after.len() - from,
{
    if from >= after.len() {
        None
    } else if after.take(from as int).contains(after[from as int]) {
        Some("issue "@ + decimal(after[from as int] as nat) + " is repeated in --after"@)
    } else if onto == Some(after[from as int]) {
        Some(
            "issue "@ + decimal(after[from as int] as nat)
                + " cannot be used by both --onto and --after"@,
        )
    } else {
        dependency_fault(onto, after, from + 1)
    }
}

/// Why an issue cannot depend on what it is said to depend on.
pub open spec fn relationship_fault(
    issue: IssueNumber,
    onto: Option<IssueNumber>,
    after: Seq<IssueNumber>,
) -> Option<Seq<char>> {
    if onto == Some(issue) || after.contains(issue) {
        Some("issue "@ + decimal(issue as nat) + " cannot depend on itself"@)
    } else {
        dependency_fault(onto, after, 0)
    }
}

fn names_issue(issues: &Vec<IssueNumber>, count: usize, issue: IssueNumber) -> (found: bool)
    requires
        count <= issues.len(),
    ensures
        found == issues@.take(count as int).contains(issue),
{
    let mut i: usize = 0;
    while i < count
        invariant
            i <= count <= issues.len(),
            forall|j: int| 0 <= j < i ==> #[trigger] issues@[j] != issue,
        decreases count - i,
    {
        if issues[i] == issue {
            assert(issues@.take(count as int)[i as int] == issue);
            return true;
        }
        i = i + 1;
    }
    false
}

/// Tells why an issue is no good, in a refusal.
fn refuse_issue(issue: IssueNumber, rest: &str) -> (error: LifecycleError)
    ensures
        refuses(error, "issue "@ + decimal(issue as nat) + rest@),
{
    let mut text = "issue ".to_owned();
    text.append(decimal_text(issue).as_str());
    text.append(rest);
    LifecycleError::Refused(text)
}

/// Tells why an issue is in no good state.
fn complain_of_issue(issue: IssueNumber, rest: &str) -> (error: LifecycleError)
    ensures
        complains(error, "issue "@ + decimal(issue as nat) + rest@),
{
    let mut text = "issue ".to_owned();
    text.append(decimal_text(issue).as_str());
    text.append(rest);
    LifecycleError::InvalidState(text)
}

/// Refuses an issue that would depend on itself, on the same issue twice, or on one both as its
/// parent and as something that it waits for.
pub fn validate_relationship_arguments(issue: IssueNumber, options: &ClaimOptions) -> (result: Result<
    (),
    LifecycleError,
>)
    ensures
        match relationship_fault(issue, options.onto, options.after@) {
            Some(fault) => result matches Err(error) && refuses(error, fault),
            None => result is Ok,
        },
{
    let after = &options.after;
    let onto_itself = match options.onto {
        Some(onto) => onto == issue,
        None => false,
    };
    assert(after@.take(after.len() as int) =~= after@);
    if onto_itself || names_issue(after, after.len(), issue) {
        return Err(refuse_issue(issue, " cannot depend on itself"));
    }
    let mut i: usize = 0;
    while i < after.len()
        invariant
            i <= after.len(),
            after == &options.after,
            relationship_fault(issue, options.onto, after@) == dependency_fault(
                options.onto,
                after@,
                i as nat,
            ),
        decreases after.len() - i,
    {
        let dependency: IssueNumber = after[i];
        if names_issue(after, i, dependency) {
            return Err(refuse_issue(dependency, " is repeated in --after"));
        }
        let onto_it = match options.onto {
            Some(onto) => onto == dependency,
            None => false,
        };
        if onto_it {
            return Err(refuse_issue(dependency, " cannot be used by both --onto and --after"));
        }
        i = i + 1;
    }
    Ok(())
}

// ---------------------------------------------------------------------------------------------
// Active claims
// ---------------------------------------------------------------------------------------------
/// What asking for the one active claim on an issue comes to.
pub open spec fn unique_outcome(
    active: Seq<ClaimView>,
    issue: IssueNumber,
    result: Result<Option<ClaimView>, LifecycleError>,
) -> bool {
    let found = claims_on(active, issue);
    if found.len() > 1 {
        result matches Err(error) && complains(
            error,
            "issue "@ + decimal(issue as nat) + " has multiple active claim generations"@,
        )
    } else if found.len() == 1 {
        result == Ok::<_, LifecycleError>(Some(found[0]))
    } else {
        result == Ok::<Option<ClaimView>, LifecycleError>(None)
    }
}

pub open spec fn found_claim(result: Result<Option<&Claim>, LifecycleError>) -> Result<
    Option<ClaimView>,
    LifecycleError,
> {
    match result {
        Ok(Some(claim)) => Ok(Some(claim@)),
        Ok(None) => Ok(None),
        Err(error) => Err(error),
    }
}

/// The one active claim on an issue, if there is one; several are an invalid state.
pub fn unique_active_claim<'a>(active: &'a Vec<Claim>, issue: IssueNumber) -> (result: Result<
    Option<&'a Claim>,
    LifecycleError,
>)
    ensures
        unique_outcome(views(active@), issue, found_claim(result)),
{
    let found = claims_with_issue(active, issue);
    if found.len() > 1 {
        return Err(complain_of_issue(issue, " has multiple active claim generations"));
    }
    if found.len() == 1 {
        assert(found@[0]@ == claims_on(views(active@), issue)[0]);
        return Ok(Some(found[0]));
    }
    Ok(None)
}

/// What a claim waits for: each issue, with its active generation where it has one.
pub open spec fn wait_refs(active: Seq<ClaimView>, after: Seq<IssueNumber>) -> Seq<WaitForRef> {
    Seq::new(after.len(), |i: int| wait_ref(active, after[i]))
}

pub open spec fn wait_ref(active: Seq<ClaimView>, issue: IssueNumber) -> WaitForRef {
    let found = claims_on(active, issue);
    WaitForRef {
        issue,
        claim_id: if found.len() > 0 {
            Some(found[0].claim_id)
        } else {
            None
        },
    }
}

/// The first of the issues that has several active claims.
pub open spec fn ambiguous_issue(active: Seq<ClaimView>, issues: Seq<IssueNumber>) -> Option<
    IssueNumber,
>
    decreases issues.len(),
{
    if issues.len() == 0 {
        None
    } else if claims_on(active, issues[0]).len() > 1 {
        Some(issues[0])
    } else {
        ambiguous_issue(active, issues.drop_first())
    }
}

/// What resolving the issues that a claim waits for comes to.
pub open spec fn wait_outcome(
    active: Seq<ClaimView>,
    after: Seq<IssueNumber>,
    result: Result<Vec<WaitForRef>, LifecycleError>,
) -> bool {
    match ambiguous_issue(active, after) {
        Some(issue) => result matches Err(error) && complains(
            error,
            "issue "@ + decimal(issue as nat) + " has multiple active claim generations"@,
        ),
        None => result matches Ok(refs) && refs@ == wait_refs(active, after),
    }
}

/// Resolves the issues that a claim waits for to their active generations. One that has none is
/// kept without a generation, and gets none later.
pub fn resolve_wait_for(active: &Vec<Claim>, after: &Vec<IssueNumber>) -> (result: Result<
    Vec<WaitForRef>,
    LifecycleError,
>)
    ensures
        wait_outcome(views(active@), after@, result),
{
    let ghost held = views(active@);
    let mut refs: Vec<WaitForRef> = Vec::new();
    let mut i: usize = 0;
    assert(after@.skip(0) =~= after@);
    while i < after.len()
        invariant
            i <= after.len(),
            held == views(active@),
            ambiguous_issue(held, after@) == ambiguous_issue(held, after@.skip(i as int)),
            refs.len() == i,
            forall|j: int| 0 <= j < i ==> #[trigger] refs@[j] == wait_ref(held, after@[j]),
        decreases after.len() - i,
    {
        assert(after@.skip(i as int)[0] == after@[i as int]);
        assert(after@.skip(i as int).drop_first() =~= after@.skip(i + 1));
        match unique_active_claim(active, after[i]) {
            Ok(Some(claim)) => refs.push(
                WaitForRef { issue: after[i], claim_id: Some(claim.claim_id) },
            ),
            Ok(None) => refs.push(WaitForRef { issue: after[i], claim_id: None }),
            Err(error) => return Err(error),
        }
        i = i + 1;
    }
    assert(refs@ =~= wait_refs(held, after@));
    Ok(refs)
}

// ---------------------------------------------------------------------------------------------
// Reservation
// ---------------------------------------------------------------------------------------------
/// The first active claim on an issue.
pub open spec fn first_on_issue(active: Seq<ClaimView>, issue: IssueNumber) -> Option<ClaimView>
    decreases active.len(),
{
    if active.len() == 0 {
        None
    } else if active[0].issue == issue {
        Some(active[0])
    } else {
        first_on_issue(active.drop_first(), issue)
    }
}

/// The first active claim of a branch.
pub open spec fn first_on_branch(active: Seq<ClaimView>, branch: Seq<char>) -> Option<ClaimView>
    decreases active.len(),
{
    if active.len() == 0 {
        None
    } else if active[0].branch == branch {
        Some(active[0])
    } else {
        first_on_branch(active.drop_first(), branch)
    }
}

/// The first active claim in a worktree.
pub open spec fn first_in_worktree(active: Seq<ClaimView>, worktree: Seq<char>) -> Option<ClaimView>
    decreases active.len(),
{
    if active.len() == 0 {
        None
    } else if same_path(active[0].worktree, worktree) {
        Some(active[0])
    } else {
        first_in_worktree(active.drop_first(), worktree)
    }
}

fn find_on_issue<'a>(active: &'a Vec<Claim>, issue: IssueNumber) -> (found: Option<&'a Claim>)
    ensures
        match found {
            Some(claim) => first_on_issue(views(active@), issue) == Some(claim@),
            None => first_on_issue(views(active@), issue) is None,
        },
{
    let ghost all = views(active@);
    let mut i: usize = 0;
    assert(all.skip(0) =~= all);
    while i < active.len()
        invariant
            i <= active.len(),
            all == views(active@),
            first_on_issue(all, issue) == first_on_issue(all.skip(i as int), issue),
        decreases active.len() - i,
    {
        assert(all.skip(i as int)[0] == active@[i as int]@);
        assert(all.skip(i as int).drop_first() =~= all.skip(i + 1));
        if active[i].issue == issue {
            return Some(&active[i]);
        }
        i = i + 1;
    }
    None
}

fn find_on_branch<'a>(active: &'a Vec<Claim>, branch: &str) -> (found: Option<&'a Claim>)
    ensures
        match found {
            Some(claim) => first_on_branch(views(active@), branch@) == Some(claim@),
            None => first_on_branch(views(active@), branch@) is None,
        },
{
    let ghost all = views(active@);
    let mut i: usize = 0;
    assert(all.skip(0) =~= all);
    while i < active.len()
        invariant
            i <= active.len(),
            all == views(active@),
            first_on_branch(all, branch@) == first_on_branch(all.skip(i as int), branch@),
        decreases active.len() - i,
    {
        assert(all.skip(i as int)[0] == active@[i as int]@);
        assert(all.skip(i as int).drop_first() =~= all.skip(i + 1));
        if same(active[i].branch.as_str(), branch) {
            return Some(&active[i]);
        }
        i = i + 1;
    }
    None
}

pub fn find_in_worktree<'a>(active: &'a Vec<Claim>, worktree: &str) -> (found: Option<&'a Claim>)
    ensures
        match found {
            Some(claim) => first_in_worktree(views(active@), worktree@) == Some(claim@),
            None => first_in_worktree(views(active@), worktree@) is None,
        },
{
    let ghost all = views(active@);
    let mut i: usize = 0;
    assert(all.skip(0) =~= all);
    while i < active.len()
        invariant
            i <= active.len(),
            all == views(active@),
            first_in_worktree(all, worktree@) == first_in_worktree(all.skip(i as int), worktree@),
        decreases active.len() - i,
    {
        assert(all.skip(i as int)[0] == active@[i as int]@);
        assert(all.skip(i as int).drop_first() =~= all.skip(i + 1));
        if is_same_path(active[i].worktree.as_str(), worktree) {
            return Some(&active[i]);
        }
        i = i + 1;
    }
    None
}

/// What reserving an issue, a branch and a worktree comes to: each may have one owner.
pub open spec fn reservation(
    active: Seq<ClaimView>,
    issue: IssueNumber,
    branch: Seq<char>,
    worktree: Seq<char>,
    result: Result<(), LifecycleError>,
) -> bool {
    match first_on_issue(active, issue) {
        Some(claim) => result == Err::<(), _>(
            LifecycleError::AlreadyClaimed { issue, claim_id: claim.claim_id },
        ),
        None => match first_on_branch(active, branch) {
            Some(claim) => result matches Err(LifecycleError::Reserved(reason)) && reason@
                == "branch "@ + quoted(branch) + " is already owned by issue "@ + decimal(
                claim.issue as nat,
            ),
            None => match first_in_worktree(active, worktree) {
                Some(claim) => result matches Err(LifecycleError::Reserved(reason)) && reason@
                    == "worktree "@ + quoted(worktree) + " is already owned by issue "@ + decimal(
                    claim.issue as nat,
                ),
                None => result is Ok,
            },
        },
    }
}

fn owned_by(kind: &str, name: &str, issue: IssueNumber) -> (error: LifecycleError)
    ensures
        error matches LifecycleError::Reserved(reason) && reason@ == kind@ + quoted(name@)
            + " is already owned by issue "@ + decimal(issue as nat),
{
    let mut reason = kind.to_owned();
    reason.append(quote(name).as_str());
    reason.append(" is already owned by issue ");
    reason.append(decimal_text(issue).as_str());
    LifecycleError::Reserved(reason)
}

/// Refuses an issue, a branch or a worktree that an active claim owns already.
pub fn reserve_active(
    active: &Vec<Claim>,
    issue: IssueNumber,
    branch: &str,
    worktree: &str,
) -> (result: Result<(), LifecycleError>)
    ensures
        reservation(views(active@), issue, branch@, worktree@, result),
{
    if let Some(claim) = find_on_issue(active, issue) {
        return Err(LifecycleError::AlreadyClaimed { issue, claim_id: claim.claim_id });
    }
    if let Some(claim) = find_on_branch(active, branch) {
        return Err(owned_by("branch ", branch, claim.issue));
    }
    if let Some(claim) = find_in_worktree(active, worktree) {
        return Err(owned_by("worktree ", worktree, claim.issue));
    }
    Ok(())
}

/// Whether no two claims have the same issue, the same branch or the same worktree.
pub open spec fn exclusive(active: Seq<ClaimView>) -> bool {
    forall|i: int, j: int|
        #![trigger active[i], active[j]]
        0 <= i < j < active.len() ==> active[i].issue != active[j].issue && active[i].branch
            != active[j].branch && !same_path(active[i].worktree, active[j].worktree)
}

proof fn none_on_issue(active: Seq<ClaimView>, issue: IssueNumber, i: int)
    requires
        first_on_issue(active, issue) is None,
        0 <= i < active.len(),
    ensures
        active[i].issue != issue,
    decreases active.len(),
{
    if i > 0 {
        none_on_issue(active.drop_first(), issue, i - 1);
    }
}

proof fn none_on_branch(active: Seq<ClaimView>, branch: Seq<char>, i: int)
    requires
        first_on_branch(active, branch) is None,
        0 <= i < active.len(),
    ensures
        active[i].branch != branch,
    decreases active.len(),
{
    if i > 0 {
        none_on_branch(active.drop_first(), branch, i - 1);
    }
}

proof fn none_in_worktree(active: Seq<ClaimView>, worktree: Seq<char>, i: int)
    requires
        first_in_worktree(active, worktree) is None,
        0 <= i < active.len(),
    ensures
        !same_path(active[i].worktree, worktree),
    decreases active.len(),
{
    if i > 0 {
        none_in_worktree(active.drop_first(), worktree, i - 1);
    }
}

/// Where active claims have their issues, branches and worktrees for themselves, they still have
/// once a claim is added whose issue, branch and worktree were reserved.
pub proof fn reservations_keep_ownership_exclusive(
    active: Seq<ClaimView>,
    claim: ClaimView,
    result: Result<(), LifecycleError>,
)
    requires
        exclusive(active),
        reservation(active, claim.issue, claim.branch, claim.worktree, result),
        result is Ok,
    ensures
        exclusive(active.push(claim)),
{
    let longer = active.push(claim);
    assert forall|i: int, j: int|
        #![trigger longer[i], longer[j]]
        0 <= i < j < longer.len() implies longer[i].issue != longer[j].issue && longer[i].branch
        != longer[j].branch && !same_path(longer[i].worktree, longer[j].worktree) by {
        if j < active.len() {
            assert(active[i].issue != active[j].issue);
        } else {
            none_on_issue(active, claim.issue, i);
            none_on_branch(active, claim.branch, i);
            none_in_worktree(active, claim.worktree, i);
        }
    }
}

// ---------------------------------------------------------------------------------------------
// Release
// ---------------------------------------------------------------------------------------------
/// The marker that ends a claim generation.
pub open spec fn marker_of(
    claim: ClaimView,
    issue: IssueNumber,
    reason: ReleaseReason,
    released_at: Timestamp,
) -> ReleaseView {
    ReleaseView {
        schema_version: SCHEMA_VERSION@,
        repo: claim.repo,
        issue,
        claim_id: claim.claim_id,
        reason,
        released_at,
    }
}

/// The generations of an issue, in their order.
pub open spec fn generations(claims: Seq<ClaimView>, issue: IssueNumber) -> Seq<ClaimView> {
    in_order::<Claim>(claims_on(claims, issue))
}

/// What releasing an issue comes to: the one active generation gets a marker; where none is
/// active, the latest generation has been released already.
pub open spec fn release_outcome(
    claims: Seq<ClaimView>,
    releases: Seq<ReleaseView>,
    issue: IssueNumber,
    reason: ReleaseReason,
    released_at: Timestamp,
    result: Result<(Option<ReleaseView>, ReleaseReport), LifecycleError>,
) -> bool {
    let held = claims_on(active(claims, releases), issue);
    if held.len() > 1 {
        result matches Err(error) && complains(
            error,
            "issue "@ + decimal(issue as nat) + " has multiple active claim generations"@,
        )
    } else if held.len() == 1 {
        result == Ok::<_, LifecycleError>(
            (
                Some(marker_of(held[0], issue, reason, released_at)),
                ReleaseReport::of_marker(issue, held[0].claim_id, false),
            ),
        )
    } else if generations(claims, issue).len() == 0 {
        result == Err::<(Option<ReleaseView>, ReleaseReport), _>(LifecycleError::NoClaim(issue))
    } else {
        result == Ok::<_, LifecycleError>(
            (
                None::<ReleaseView>,
                ReleaseReport::of_marker(issue, generations(claims, issue).last().claim_id, true),
            ),
        )
    }
}

pub open spec fn release_view(
    result: Result<(Option<ReleaseMarker>, ReleaseReport), LifecycleError>,
) -> Result<(Option<ReleaseView>, ReleaseReport), LifecycleError> {
    match result {
        Ok((marker, report)) => Ok((optional(marker), report)),
        Err(error) => Err(error),
    }
}

/// Releases an issue, by the claims and the releases that are recorded: gives the marker that is
/// to be recorded, if one is, and the report.
pub fn release_claim(
    claims: &Vec<Claim>,
    releases: &Vec<ReleaseMarker>,
    issue: IssueNumber,
    reason: ReleaseReason,
    released_at: Timestamp,
) -> (result: Result<(Option<ReleaseMarker>, ReleaseReport), LifecycleError>)
    ensures
        release_outcome(
            views(claims@),
            views(releases@),
            issue,
            reason,
            released_at,
            release_view(result),
        ),
{
    let active = active_claims(claims, releases);
    match unique_active_claim(&active, issue) {
        Err(error) => Err(error),
        Ok(Some(claim)) => {
            let marker = ReleaseMarker {
                schema_version: SCHEMA_VERSION.to_owned(),
                repo: claim.repo.clone(),
                issue,
                claim_id: claim.claim_id,
                reason,
                released_at,
            };
            Ok((Some(marker), ReleaseReport::marker_only(issue, claim.claim_id, false)))
        },
        Ok(None) => {
            let found = claims_with_issue(claims, issue);
            let ghost wanted = claims_on(views(claims@), issue);
            let mut copies: Vec<Claim> = Vec::new();
            let mut i: usize = 0;
            while i < found.len()
                invariant
                    i <= found.len(),
                    found.len() == wanted.len(),
                    forall|j: int| 0 <= j < found.len() ==> (#[trigger] found@[j])@ == wanted[j],
                    copies.len() == i,
                    forall|j: int| 0 <= j < i ==> (#[trigger] copies@[j])@ == wanted[j],
                decreases found.len() - i,
            {
                let one = found[i].clone();
                copies.push(one);
                i = i + 1;
            }
            assert(views(copies@) =~= wanted);
            let sorted = ordered(copies);
            assert(views(sorted@) == generations(views(claims@), issue));
            if sorted.len() == 0 {
                return Err(LifecycleError::NoClaim(issue));
            }
            let latest = &sorted[sorted.len() - 1];
            assert(latest@ == generations(views(claims@), issue).last());
            Ok((None, ReleaseReport::marker_only(issue, latest.claim_id, true)))
        },
    }
}

proof fn claims_on_contains(claims: Seq<ClaimView>, issue: IssueNumber, claim: ClaimView)
    ensures
        claims_on(claims, issue).contains(claim) <==> claims.contains(claim) && claim.issue
            == issue,
{
    let test = |claim: ClaimView| claim.issue == issue;
    let found = claims.filter(test);
    if found.contains(claim) {
        let i = choose|i: int| 0 <= i < found.len() && found[i] == claim;
        claims.lemma_filter_pred(test, i);
        claims.lemma_filter_contains_rev(test, claim);
    }
    if claims.contains(claim) && claim.issue == issue {
        let i = choose|i: int| 0 <= i < claims.len() && claims[i] == claim;
        claims.lemma_filter_contains(test, i);
    }
}

/// Once the marker of a release is recorded, no generation of the issue is active any more.
pub proof fn released_issues_are_free(
    claims: Seq<ClaimView>,
    releases: Seq<ReleaseView>,
    issue: IssueNumber,
    reason: ReleaseReason,
    released_at: Timestamp,
    marker: ReleaseView,
    report: ReleaseReport,
)
    requires
        release_outcome(
            claims,
            releases,
            issue,
            reason,
            released_at,
            Ok((Some(marker), report)),
        ),
    ensures
        claims_on(active(claims, releases.push(marker)), issue).len() == 0,
        first_on_issue(active(claims, releases.push(marker)), issue) is None,
{
    let before = active(claims, releases);
    let after = active(claims, releases.push(marker));
    let held = claims_on(before, issue);
    assert forall|claim: ClaimView| after.contains(claim) implies claim.issue != issue by {
        active_means_unreleased(claims, releases.push(marker), claim);
        active_means_unreleased(claims, releases, claim);
        if claim.issue == issue {
            assert(!is_released(claim, releases)) by {
                if is_released(claim, releases) {
                    let k = choose|k: int|
                        0 <= k < releases.len() && (#[trigger] releases[k]).issue == claim.issue
                            && releases[k].claim_id == claim.claim_id;
                    assert(releases.push(marker)[k] == releases[k]);
                }
            }
            claims_on_contains(before, issue, claim);
            assert(held.contains(claim));
            assert(claim == held[0]);
            assert(releases.push(marker)[releases.len() as int] == marker);
            assert(is_released(claim, releases.push(marker)));
        }
    }
    if claims_on(after, issue).len() > 0 {
        let one = claims_on(after, issue)[0];
        assert(claims_on(after, issue).contains(one));
        claims_on_contains(after, issue, one);
    }
    if let Some(one) = first_on_issue(after, issue) {
        first_on_issue_is_there(after, issue);
    }
}

proof fn first_on_issue_is_there(active: Seq<ClaimView>, issue: IssueNumber)
    requires
        first_on_issue(active, issue) is Some,
    ensures
        active.contains(first_on_issue(active, issue)->0),
        first_on_issue(active, issue)->0.issue == issue,
    decreases active.len(),
{
    if active.len() > 0 {
        if active[0].issue != issue {
            first_on_issue_is_there(active.drop_first(), issue);
            let one = first_on_issue(active, issue)->0;
            let k = choose|k: int|
                0 <= k < active.drop_first().len() && active.drop_first()[k] == one;
            assert(active[k + 1] == one);
        } else {
            assert(active[0] == first_on_issue(active, issue)->0);
        }
    }
}

/// Releasing is idempotent: a second release of an issue whose latest generation was released
/// records nothing, and reports the same generation as released already.
pub proof fn release_is_idempotent(
    claims: Seq<ClaimView>,
    releases: Seq<ReleaseView>,
    issue: IssueNumber,
    reason: ReleaseReason,
    released_at: Timestamp,
    marker: ReleaseView,
    report: ReleaseReport,
    later_reason: ReleaseReason,
    later: Timestamp,
    result: Result<(Option<ReleaseView>, ReleaseReport), LifecycleError>,
)
    requires
        release_outcome(
            claims,
            releases,
            issue,
            reason,
            released_at,
            Ok((Some(marker), report)),
        ),
        generations(claims, issue).last().claim_id == report.claim_id,
        release_outcome(
            claims,
            releases.push(marker),
            issue,
            later_reason,
            later,
            result,
        ),
    ensures
        result == Ok::<_, LifecycleError>(
            (None::<ReleaseView>, ReleaseReport { already_released: true, ..report }),
        ),
{
    released_issues_are_free(claims, releases, issue, reason, released_at, marker, report);
    let held = claims_on(active(claims, releases), issue)[0];
    assert(claims_on(active(claims, releases), issue).contains(held));
    claims_on_contains(active(claims, releases), issue, held);
    active_means_unreleased(claims, releases, held);
    claims_on_contains(claims, issue, held);
    order_keeps_records::<Claim>(claims_on(claims, issue));
    assert(generations(claims, issue).len() > 0);
}

// ---------------------------------------------------------------------------------------------
// What GitHub says of the issue
// ---------------------------------------------------------------------------------------------
/// What GitHub lets a claim on an issue come to: its title and what should be known, or why it is
/// refused. A closed issue is claimed only by force, and one that is not there not at all; where
/// GitHub does not answer, the claim is made unverified.
pub open spec fn gate_outcome(
    issue: IssueNumber,
    force: bool,
    observed: IssueObservationView,
    result: Result<(Option<Seq<char>>, Seq<Seq<char>>), LifecycleError>,
) -> bool {
    match observed {
        IssueObservationView::Available(found) => if found.state is Open {
            result == Ok::<_, LifecycleError>((Some(found.title), Seq::<Seq<char>>::empty()))
        } else if force {
            result == Ok::<_, LifecycleError>(
                (
                    Some(found.title),
                    seq![
                        "issue "@ + decimal(issue as nat)
                            + " is closed on GitHub; claimed because of --force"@,
                    ],
                ),
            )
        } else {
            result matches Err(error) && refuses(
                error,
                "issue "@ + decimal(issue as nat)
                    + " is closed on GitHub; use --force to claim it"@,
            )
        },
        IssueObservationView::NotFound => result matches Err(error) && refuses(
            error,
            "issue "@ + decimal(issue as nat)
                + " does not exist on GitHub or is not reachable in this repository"@,
        ),
        IssueObservationView::Unavailable => result == Ok::<_, LifecycleError>(
            (
                None::<Seq<char>>,
                seq!["issue "@ + decimal(issue as nat) + " could not be verified on GitHub"@],
            ),
        ),
    }
}

pub open spec fn gate_view(result: Result<(Option<String>, Vec<String>), LifecycleError>) -> Result<
    (Option<Seq<char>>, Seq<Seq<char>>),
    LifecycleError,
> {
    match result {
        Ok((title, warnings)) => Ok((optional(title), views(warnings@))),
        Err(error) => Err(error),
    }
}

fn issue_warning(issue: IssueNumber, rest: &str) -> (warnings: Vec<String>)
    ensures
        views(warnings@) == seq!["issue "@ + decimal(issue as nat) + rest@],
{
    let mut text = "issue ".to_owned();
    text.append(decimal_text(issue).as_str());
    text.append(rest);
    let warnings: Vec<String> = vec![text];
    assert(views(warnings@) =~= seq!["issue "@ + decimal(issue as nat) + rest@]);
    warnings
}

/// Decides, by what GitHub says of an issue, whether it may be claimed.
pub fn issue_gate(issue: IssueNumber, force: bool, observed: GithubIssueObservation) -> (result: Result<
    (Option<String>, Vec<String>),
    LifecycleError,
>)
    ensures
        gate_outcome(issue, force, observed@, gate_view(result)),
{
    match observed {
        GithubIssueObservation::Available(found) => match found.state {
            GithubIssueState::Open => {
                let warnings: Vec<String> = Vec::new();
                assert(views(warnings@) =~= Seq::empty());
                Ok((Some(found.title), warnings))
            },
            GithubIssueState::Closed => if force {
                Ok(
                    (
                        Some(found.title),
                        issue_warning(issue, " is closed on GitHub; claimed because of --force"),
                    ),
                )
            } else {
                Err(refuse_issue(issue, " is closed on GitHub; use --force to claim it"))
            },
        },
        GithubIssueObservation::NotFound => Err(
            refuse_issue(
                issue,
                " does not exist on GitHub or is not reachable in this repository",
            ),
        ),
        GithubIssueObservation::Unavailable => Ok(
            (None, issue_warning(issue, " could not be verified on GitHub")),
        ),
    }
}

/// Refuses to wait for an issue that GitHub does not have.
pub fn dependency_gate(issue: IssueNumber, observed: &GithubIssueObservation) -> (result: Result<
    (),
    LifecycleError,
>)
    ensures
        if observed@ is NotFound {
            result matches Err(error) && refuses(
                error,
                "wait_for GitHub issue "@ + decimal(issue as nat)
                    + " does not exist or is not reachable in this repository"@,
            )
        } else {
            result is Ok
        },
{
    match observed {
        GithubIssueObservation::NotFound => {
            let mut text = "wait_for GitHub issue ".to_owned();
            text.append(decimal_text(issue).as_str());
            text.append(" does not exist or is not reachable in this repository");
            Err(LifecycleError::Refused(text))
        },
        _ => Ok(()),
    }
}

// ---------------------------------------------------------------------------------------------
// Resuming
// ---------------------------------------------------------------------------------------------
/// Why a claim cannot be resumed: its worktree is not there, its branch is in no worktree, or it
/// is in another one.
pub open spec fn resume_fault(
    claim: ClaimView,
    claimed: Option<Seq<char>>,
    registered: Option<Seq<char>>,
) -> Option<Seq<char>> {
    let start = "issue "@ + decimal(claim.issue as nat) + " generation "@ + short_text(
        claim.claim_id,
    ) + " is not resumable: "@;
    if claimed is None {
        Some(start + "worktree "@ + claim.worktree + " does not exist"@)
    } else if registered is None {
        Some(start + "branch "@ + quoted(claim.branch) + " is not registered in a worktree"@)
    } else if !same_path(registered->0, claimed->0) {
        Some(
            start + "branch "@ + quoted(claim.branch) + " is registered at "@ + registered->0
                + ", not at "@ + claimed->0,
        )
    } else {
        None
    }
}

/// What resuming an issue comes to.
pub open spec fn resume_outcome(
    active: Seq<ClaimView>,
    issue: IssueNumber,
    claimed: Option<Seq<char>>,
    registered: Option<Seq<char>>,
    result: Result<Claim, LifecycleError>,
) -> bool {
    let found = claims_on(active, issue);
    if found.len() > 1 {
        result matches Err(error) && complains(
            error,
            "issue "@ + decimal(issue as nat) + " has multiple active claim generations"@,
        )
    } else if found.len() == 0 {
        result matches Err(error) && refuses(
            error,
            "issue "@ + decimal(issue as nat) + " has no active claim to resume"@,
        )
    } else {
        match resume_fault(found[0], claimed, registered) {
            Some(fault) => result matches Err(error) && refuses(error, fault),
            None => result matches Ok(claim) && claim@ == found[0],
        }
    }
}

/// The active claim on an issue, where it can be resumed: where its worktree leads to, and where
/// its branch is registered, is the same place.
pub fn resume_claim(
    active: &Vec<Claim>,
    issue: IssueNumber,
    claimed: &Option<String>,
    registered: &Option<String>,
) -> (result: Result<Claim, LifecycleError>)
    ensures
        resume_outcome(
            views(active@),
            issue,
            optional(*claimed),
            optional(*registered),
            result,
        ),
{
    let claim = match unique_active_claim(active, issue) {
        Ok(Some(claim)) => claim,
        Ok(None) => return Err(refuse_issue(issue, " has no active claim to resume")),
        Err(error) => return Err(error),
    };
    let mut text = "issue ".to_owned();
    text.append(decimal_text(claim.issue).as_str());
    text.append(" generation ");
    text.append(short_id(claim.claim_id).as_str());
    text.append(" is not resumable: ");
    match (claimed, registered) {
        (None, _) => {
            text.append("worktree ");
            text.append(claim.worktree.as_str());
            text.append(" does not exist");
            Err(LifecycleError::Refused(text))
        },
        (Some(_), None) => {
            text.append("branch ");
            text.append(quote(claim.branch.as_str()).as_str());
            text.append(" is not registered in a worktree");
            Err(LifecycleError::Refused(text))
        },
        (Some(place), Some(other)) => if is_same_path(other.as_str(), place.as_str()) {
            Ok(claim.clone())
        } else {
            text.append("branch ");
            text.append(quote(claim.branch.as_str()).as_str());
            text.append(" is registered at ");
            text.append(other.as_str());
            text.append(", not at ");
            text.append(place.as_str());
            Err(LifecycleError::Refused(text))
        },
    }
}

} // verus!
