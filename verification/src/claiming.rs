//! Claiming: what is found out and decided before a claim is made.
use vstd::prelude::*;
use vstd::string::*;

use crate::base::{
    ancestor_required, base_resolved, branch_validated, permits_refreshing, require_ancestor,
    resolve_base, resolve_local_branch_tip, tip_found, validate_local_branch, BaseView,
    ResolvedBase,
};
use crate::command::{command, permits_observing, permits_reading, CommandRunner};
use crate::config::{Config, ConfigView};
use crate::doctor::append_texts;
use crate::git::RepositoryContext;
use crate::github::{
    issue_args, issue_observed, observe_issue, GithubIssueError, GithubIssueObservation,
    IssueObservationView,
};
use crate::id::{short_id, short_text, Id, IssueNumber};
use crate::lifecycle::{
    complains, dependency_gate, exclusive, first_on_issue, gate_outcome, gate_view, issue_gate,
    refuses, relationship_fault, reservation, reservations_keep_ownership_exclusive,
    reserve_active, resolve_wait_for, unique_active_claim, validate_relationship_arguments,
    wait_outcome, ClaimOptions, LifecycleError, LifecycleErrorView, OptionsView,
};
use crate::model::{
    Claim, ClaimView, DeclaredScope, OperationKind, OperationPhase, OperationRecord, OperationView,
    ReleaseView, ScopeView, WaitForRef, SCHEMA_VERSION,
};
use crate::path::{
    absolute, is_absolute, is_same_path, join_path, joined_path, parent, parent_of, same_path,
};
use crate::recovery::{generated_branch, make_generated_branch};
use crate::stack::claims_on;
use crate::store::{active, is_released, order_keeps_records, unreleased};
use crate::text::{
    after_last, decimal, decimal_text, optional, quote, quoted, same, text_after_last, views,
};
use crate::time::Timestamp;
use crate::transaction::{
    claims_stay_on_course, commits_end, course, course_fits, found_at, ActionView, ClaimStage,
    ClaimTransaction, EventView, Shelf, StageView, TransactionView,
};

verus! {

// ---------------------------------------------------------------------------------------------
// Names
// ---------------------------------------------------------------------------------------------
/// The name of a repository without its owner.
pub open spec fn bare_name(repository: Seq<char>) -> Seq<char> {
    match after_last(repository, '/') {
        Some(name) => name,
        None => repository,
    }
}

/// The name of the worktree that is made for a claim.
pub open spec fn worktree_name(
    repository: Seq<char>,
    issue: IssueNumber,
    claim_id: Id,
) -> Seq<char> {
    bare_name(repository) + "-issue-"@ + decimal(issue as nat) + "-"@ + short_text(claim_id)
}

/// Below what the worktrees of claims are made: below what is configured, or else beside the main
/// worktree.
pub open spec fn worktree_root(main_worktree: Seq<char>, configured: Option<Seq<char>>) -> Option<
    Seq<char>,
> {
    match configured {
        Some(root) => Some(root),
        None => parent_of(main_worktree),
    }
}

/// Where the worktree of a claim is made; or what is wrong.
pub open spec fn worktree_place(
    main_worktree: Seq<char>,
    configured: Option<Seq<char>>,
    repository: Seq<char>,
    issue: IssueNumber,
    claim_id: Id,
) -> Result<Seq<char>, Seq<char>> {
    match worktree_root(main_worktree, configured) {
        None => Err("main worktree has no parent"@),
        Some(root) => {
            let path = joined_path(root, worktree_name(repository, issue, claim_id));
            if absolute(path) {
                Ok(path)
            } else {
                Err("generated worktree path is not absolute"@)
            }
        },
    }
}

fn make_worktree_place(
    repository: &RepositoryContext,
    config: &Config,
    issue: IssueNumber,
    claim_id: Id,
) -> (result: Result<String, LifecycleError>)
    ensures
        match worktree_place(
            repository.main_worktree@,
            config@.worktree_root,
            repository.repository@,
            issue,
            claim_id,
        ) {
            Ok(path) => result matches Ok(found) && found@ == path,
            Err(problem) => result matches Err(error) && complains(error, problem),
        },
{
    let root = match &config.worktree_root {
        Some(root) => root.clone(),
        None => match parent(repository.main_worktree.as_str()) {
            Some(root) => root,
            None => {
                return Err(
                    LifecycleError::InvalidState("main worktree has no parent".to_owned()),
                );
            },
        },
    };
    let mut name = match text_after_last(repository.repository.as_str(), '/') {
        Some(name) => name,
        None => repository.repository.clone(),
    };
    name.append("-issue-");
    name.append(decimal_text(issue).as_str());
    name.append("-");
    name.append(short_id(claim_id).as_str());
    let path = join_path(root.as_str(), name.as_str());
    if is_absolute(path.as_str()) {
        Ok(path)
    } else {
        Err(LifecycleError::InvalidState("generated worktree path is not absolute".to_owned()))
    }
}

// ---------------------------------------------------------------------------------------------
// What GitHub says
// ---------------------------------------------------------------------------------------------
/// Whether GitHub may be found to have an issue, or not to answer.
pub open spec fn dependency_there<R: CommandRunner>(
    runner: &R,
    cwd: Seq<char>,
    repository: Seq<char>,
    issue: IssueNumber,
) -> bool {
    exists|observed: GithubIssueObservation| #[trigger]
        issue_observed(runner, cwd, repository, issue, Ok(observed)) && !(observed@ is NotFound)
}

/// Whether asking GitHub about an issue that is waited for may end the claim with that error.
pub open spec fn dependency_lost<R: CommandRunner>(
    runner: &R,
    cwd: Seq<char>,
    repository: Seq<char>,
    issue: IssueNumber,
    error: LifecycleError,
) -> bool {
    ||| error matches LifecycleError::Github(cause) && issue_observed(
        runner,
        cwd,
        repository,
        issue,
        Err(cause),
    )
    ||| refuses(
        error,
        "wait_for GitHub issue "@ + decimal(issue as nat)
            + " does not exist or is not reachable in this repository"@,
    ) && exists|observed: GithubIssueObservation| #[trigger]
        issue_observed(runner, cwd, repository, issue, Ok(observed)) && observed@ is NotFound
}

/// Whether asking GitHub about the issues that are waited for may come to that result.
pub open spec fn dependencies_asked<R: CommandRunner>(
    runner: &R,
    cwd: Seq<char>,
    repository: Seq<char>,
    after: Seq<IssueNumber>,
    result: Result<(), LifecycleError>,
) -> bool {
    match result {
        Ok(()) => forall|i: int|
            0 <= i < after.len() ==> dependency_there(
                runner,
                cwd,
                repository,
                #[trigger] after[i],
            ),
        Err(error) => exists|count: int|
            #![trigger after[count]]
            0 <= count < after.len() && (forall|i: int|
                0 <= i < count ==> dependency_there(
                    runner,
                    cwd,
                    repository,
                    #[trigger] after[i],
                )) && dependency_lost(runner, cwd, repository, after[count], error),
    }
}

fn ask_dependencies<R: CommandRunner>(
    runner: &R,
    cwd: &str,
    repository: &str,
    after: &Vec<IssueNumber>,
) -> (result: Result<(), LifecycleError>)
    requires
        forall|i: int|
            0 <= i < after@.len() ==> permits_asking(runner, cwd@, repository@, #[trigger] after@[i]),
    ensures
        dependencies_asked(runner, cwd@, repository@, after@, result),
{
    let mut i: usize = 0;
    while i < after.len()
        invariant
            forall|j: int|
                0 <= j < after@.len() ==> permits_asking(
                    runner,
                    cwd@,
                    repository@,
                    #[trigger] after@[j],
                ),
            i <= after.len(),
            forall|j: int|
                0 <= j < i ==> dependency_there(runner, cwd@, repository@, #[trigger] after@[j]),
        decreases after.len() - i,
    {
        match observe_issue(runner, cwd, repository, after[i]) {
            Err(error) => {
                assert(dependency_lost(
                    runner,
                    cwd@,
                    repository@,
                    after@[i as int],
                    LifecycleError::Github(error),
                ));
                return Err(LifecycleError::Github(error));
            },
            Ok(observed) => {
                assert(issue_observed(runner, cwd@, repository@, after@[i as int], Ok(observed)));
                match dependency_gate(after[i], &observed) {
                    Ok(()) => {
                        assert(dependency_there(runner, cwd@, repository@, after@[i as int]));
                    },
                    Err(error) => {
                        assert(dependency_lost(
                            runner,
                            cwd@,
                            repository@,
                            after@[i as int],
                            error,
                        ));
                        return Err(error);
                    },
                }
            },
        }
        i = i + 1;
    }
    Ok(())
}

/// Whether GitHub may let a claim pass, with that title and those warnings, or stop it. It is
/// asked only where the remote is on it.
pub open spec fn gate_passed<R: CommandRunner>(
    runner: &R,
    repository: RepositoryContext,
    issue: IssueNumber,
    options: OptionsView,
    result: Result<(Option<String>, Vec<String>), LifecycleError>,
) -> bool {
    if repository.on_github() {
        exists|observed: Result<GithubIssueObservation, GithubIssueError>| #[trigger]
            issue_observed(
                runner,
                repository.main_worktree@,
                repository.repository@,
                issue,
                observed,
            ) && match observed {
                Err(error) => result == Err::<(Option<String>, Vec<String>), _>(
                    LifecycleError::Github(error),
                ),
                Ok(found) => gate_decided(runner, repository, issue, options, found@, result),
            }
    } else {
        result matches Ok((title, warnings)) && title is None && warnings@.len() == 0
    }
}

pub open spec fn gate_decided<R: CommandRunner>(
    runner: &R,
    repository: RepositoryContext,
    issue: IssueNumber,
    options: OptionsView,
    observed: IssueObservationView,
    result: Result<(Option<String>, Vec<String>), LifecycleError>,
) -> bool {
    exists|own: Result<(Option<String>, Vec<String>), LifecycleError>| #[trigger]
        gate_outcome(issue, options.force, observed, gate_view(own)) && match own {
            Err(_) => result == own,
            Ok(_) => exists|others: Result<(), LifecycleError>| #[trigger]
                dependencies_asked(
                    runner,
                    repository.main_worktree@,
                    repository.repository@,
                    options.after,
                    others,
                ) && match others {
                    Ok(()) => result == own,
                    Err(error) => result == Err::<(Option<String>, Vec<String>), _>(error),
                },
        }
}

fn ask_gate<R: CommandRunner>(
    runner: &R,
    repository: &RepositoryContext,
    issue: IssueNumber,
    options: &ClaimOptions,
) -> (result: Result<(Option<String>, Vec<String>), LifecycleError>)
    requires
        permits_gating(runner, *repository, issue, options@.after),
    ensures
        gate_passed(runner, *repository, issue, options@, result),
{
    if !repository.is_github_remote() {
        return Ok((None, Vec::new()));
    }
    let cwd = repository.main_worktree.as_str();
    let name = repository.repository.as_str();
    let observed = observe_issue(runner, cwd, name, issue);
    assert(issue_observed(
        runner,
        repository.main_worktree@,
        repository.repository@,
        issue,
        observed,
    ));
    let found = match observed {
        Ok(found) => found,
        Err(error) => return Err(LifecycleError::Github(error)),
    };
    let ghost seen = found@;
    let own = issue_gate(issue, options.force, found);
    assert(gate_outcome(issue, options@.force, seen, gate_view(own)));
    let result = match own {
        Err(error) => Err(error),
        Ok(passed) => {
            let others = ask_dependencies(runner, cwd, name, &options.after);
            assert(dependencies_asked(
                runner,
                repository.main_worktree@,
                repository.repository@,
                options@.after,
                others,
            ));
            match others {
                Ok(()) => Ok(passed),
                Err(error) => Err(error),
            }
        },
    };
    assert(gate_decided(runner, *repository, issue, options@, seen, result));
    result
}

// ---------------------------------------------------------------------------------------------
// Before the store is locked
// ---------------------------------------------------------------------------------------------
/// What a claim starts from: a base that is resolved, or the claim on an issue.
#[derive(Debug)]
pub enum StartingPoint {
    Resolved(ResolvedBase),
    Onto(IssueNumber),
}

/// What is known of a claim before the store is looked into.
#[derive(Debug)]
pub struct Groundwork {
    pub issue: IssueNumber,
    pub claim_id: Id,
    pub options: ClaimOptions,
    pub branch: String,
    pub worktree: String,
    pub title: Option<String>,
    pub warnings: Vec<String>,
    pub start: StartingPoint,
}

/// Whether that may be known of a claim: what is asked for makes sense, GitHub lets it pass, and
/// the base is resolved, unless it is the branch of another claim.
pub open spec fn groundwork_laid<R: CommandRunner>(
    runner: &R,
    repository: RepositoryContext,
    config: ConfigView,
    issue: IssueNumber,
    options: OptionsView,
    claim_id: Id,
    result: Result<Groundwork, LifecycleError>,
) -> bool {
    match relationship_fault(issue, options.onto, options.after) {
        Some(fault) => result matches Err(error) && refuses(error, fault),
        None => match worktree_place(
            repository.main_worktree@,
            config.worktree_root,
            repository.repository@,
            issue,
            claim_id,
        ) {
            Err(problem) => result matches Err(error) && complains(error, problem),
            Ok(place) => exists|gate: Result<(Option<String>, Vec<String>), LifecycleError>|
                #[trigger]
                gate_passed(runner, repository, issue, options, gate) && match gate {
                    Err(error) => result == Err::<Groundwork, _>(error),
                    Ok((title, warnings)) => base_chosen(
                        runner,
                        repository,
                        config,
                        options,
                        result,
                    ) && (result matches Ok(ground) ==> ground.issue == issue && ground.claim_id
                        == claim_id && ground.options@ == options && ground.branch@
                        == generated_branch(issue, claim_id) && ground.worktree@ == place
                        && ground.title == title && ground.warnings == warnings),
                },
        },
    }
}

/// Whether the base of a claim may be resolved so. One that builds on another claim gets its base
/// from that, later.
pub open spec fn base_chosen<R: CommandRunner>(
    runner: &R,
    repository: RepositoryContext,
    config: ConfigView,
    options: OptionsView,
    result: Result<Groundwork, LifecycleError>,
) -> bool {
    if options.onto is Some {
        result matches Ok(ground) && ground.start == StartingPoint::Onto(options.onto->0)
    } else {
        exists|base: Result<ResolvedBase, LifecycleError>| #[trigger]
            base_resolved(runner, repository.current_worktree@, config, base) && match base {
                Err(error) => result == Err::<Groundwork, _>(error),
                Ok(found) => result matches Ok(ground) && ground.start == StartingPoint::Resolved(
                    found,
                ),
            }
    }
}

/// Whether a runner may be asked for an issue of a repository.
pub open spec fn permits_asking<R: CommandRunner>(
    runner: &R,
    cwd: Seq<char>,
    repository: Seq<char>,
    issue: IssueNumber,
) -> bool {
    runner.permits(command("gh"@, issue_args(repository, issue), cwd))
}

/// Whether a runner may be asked for the issue that is to be claimed, and for those that the claim
/// is to wait for.
pub open spec fn permits_gating<R: CommandRunner>(
    runner: &R,
    repository: RepositoryContext,
    issue: IssueNumber,
    after: Seq<IssueNumber>,
) -> bool {
    let cwd = repository.main_worktree@;
    &&& permits_asking(runner, cwd, repository.repository@, issue)
    &&& forall|i: int|
        0 <= i < after.len() ==> permits_asking(
            runner,
            cwd,
            repository.repository@,
            #[trigger] after[i],
        )
}

/// Finds out what can be known of a claim before the store is looked into.
pub fn lay_groundwork<R: CommandRunner>(
    runner: &R,
    repository: &RepositoryContext,
    config: &Config,
    issue: IssueNumber,
    options: ClaimOptions,
    claim_id: Id,
) -> (result: Result<Groundwork, LifecycleError>)
    requires
        permits_gating(runner, *repository, issue, options@.after),
        permits_refreshing(runner, repository.current_worktree@, config@),
    ensures
        groundwork_laid(runner, *repository, config@, issue, options@, claim_id, result),
{
    if let Err(error) = validate_relationship_arguments(issue, &options) {
        return Err(error);
    }
    let worktree = match make_worktree_place(repository, config, issue, claim_id) {
        Ok(worktree) => worktree,
        Err(error) => return Err(error),
    };
    let gate = ask_gate(runner, repository, issue, &options);
    assert(gate_passed(runner, *repository, issue, options@, gate));
    let (title, warnings) = match gate {
        Ok(passed) => passed,
        Err(error) => return Err(error),
    };
    let start = match options.onto {
        Some(onto) => StartingPoint::Onto(onto),
        None => {
            let base = resolve_base(runner, repository.current_worktree.as_str(), config);
            assert(base_resolved(runner, repository.current_worktree@, config@, base));
            match base {
                Ok(found) => StartingPoint::Resolved(found),
                Err(error) => return Err(error),
            }
        },
    };
    Ok(
        Groundwork {
            issue,
            claim_id,
            options,
            branch: make_generated_branch(issue, claim_id),
            worktree,
            title,
            warnings,
            start,
        },
    )
}

// ---------------------------------------------------------------------------------------------
// The branch and the worktree
// ---------------------------------------------------------------------------------------------
/// A path, and where it leads to in the file system or why it leads nowhere.
#[derive(Debug)]
pub struct ResolvedPath {
    pub path: String,
    pub place: Result<String, String>,
}

pub struct ResolvedPathView {
    pub path: Seq<char>,
    pub place: Result<Seq<char>, Seq<char>>,
}

impl View for ResolvedPath {
    type V = ResolvedPathView;

    open spec fn view(&self) -> ResolvedPathView {
        ResolvedPathView {
            path: self.path@,
            place: match self.place {
                Ok(place) => Ok(place@),
                Err(problem) => Err(problem@),
            },
        }
    }
}

/// A worktree that Git knows of, the branch that it is attached to, and where it is.
#[derive(Debug)]
pub struct RegisteredWorktree {
    pub at: ResolvedPath,
    pub branch: Option<String>,
}

pub struct RegisteredView {
    pub at: ResolvedPathView,
    pub branch: Option<Seq<char>>,
}

impl View for RegisteredWorktree {
    type V = RegisteredView;

    open spec fn view(&self) -> RegisteredView {
        RegisteredView { at: self.at@, branch: optional(self.branch) }
    }
}

/// What is said of a path that leads nowhere.
pub open spec fn nowhere(path: Seq<char>, problem: Seq<char>) -> Seq<char> {
    "failed to canonicalize "@ + quoted(path) + ": "@ + problem
}

/// The path that a worktree which is asked for stands for, seen from the current worktree.
pub fn requested_path(repository: &RepositoryContext, worktree: &str) -> (path: String)
    ensures
        path@ == joined_path(repository.current_worktree@, worktree@),
{
    join_path(repository.current_worktree.as_str(), worktree)
}

/// The branch and the worktree of a claim, and which of them were there before.
#[derive(Debug)]
pub struct ClaimTarget {
    pub branch: String,
    pub worktree: String,
    pub adopted_branch: bool,
    pub adopted_worktree: bool,
}

pub struct TargetView {
    pub branch: Seq<char>,
    pub worktree: Seq<char>,
    pub adopted_branch: bool,
    pub adopted_worktree: bool,
}

impl View for ClaimTarget {
    type V = TargetView;

    open spec fn view(&self) -> TargetView {
        TargetView {
            branch: self.branch@,
            worktree: self.worktree@,
            adopted_branch: self.adopted_branch,
            adopted_worktree: self.adopted_worktree,
        }
    }
}

/// The first worktree that is at a place.
pub open spec fn registered_at(entries: Seq<RegisteredView>, place: Seq<char>) -> Option<
    RegisteredView,
>
    decreases entries.len(),
{
    if entries.len() == 0 {
        None
    } else if entries[0].at.place matches Ok(here) && same_path(here, place) {
        Some(entries[0])
    } else {
        registered_at(entries.drop_first(), place)
    }
}

/// The first worktree of a branch.
pub open spec fn registered_for(entries: Seq<RegisteredView>, branch: Seq<char>) -> Option<
    RegisteredView,
>
    decreases entries.len(),
{
    if entries.len() == 0 {
        None
    } else if entries[0].branch == Some(branch) {
        Some(entries[0])
    } else {
        registered_for(entries.drop_first(), branch)
    }
}

fn find_worktree_by_path<'a>(entries: &'a Vec<RegisteredWorktree>, place: &str) -> (found: Option<
    &'a RegisteredWorktree,
>)
    ensures
        match found {
            Some(entry) => registered_at(views(entries@), place@) == Some(entry@),
            None => registered_at(views(entries@), place@) is None,
        },
{
    let ghost all = views(entries@);
    let mut i: usize = 0;
    assert(all.skip(0) =~= all);
    while i < entries.len()
        invariant
            i <= entries.len(),
            all == views(entries@),
            registered_at(all, place@) == registered_at(all.skip(i as int), place@),
        decreases entries.len() - i,
    {
        assert(all.skip(i as int)[0] == entries@[i as int]@);
        assert(all.skip(i as int).drop_first() =~= all.skip(i + 1));
        if let Ok(here) = &entries[i].at.place {
            if is_same_path(here.as_str(), place) {
                return Some(&entries[i]);
            }
        }
        i = i + 1;
    }
    None
}

fn find_worktree_by_branch<'a>(entries: &'a Vec<RegisteredWorktree>, branch: &str) -> (found: Option<
    &'a RegisteredWorktree,
>)
    ensures
        match found {
            Some(entry) => registered_for(views(entries@), branch@) == Some(entry@),
            None => registered_for(views(entries@), branch@) is None,
        },
{
    let ghost all = views(entries@);
    let mut i: usize = 0;
    assert(all.skip(0) =~= all);
    while i < entries.len()
        invariant
            i <= entries.len(),
            all == views(entries@),
            registered_for(all, branch@) == registered_for(all.skip(i as int), branch@),
        decreases entries.len() - i,
    {
        assert(all.skip(i as int)[0] == entries@[i as int]@);
        assert(all.skip(i as int).drop_first() =~= all.skip(i + 1));
        if let Some(attached) = &entries[i].branch {
            if same(attached.as_str(), branch) {
                return Some(&entries[i]);
            }
        }
        i = i + 1;
    }
    None
}

/// The target where a branch is asked for that is there: in the worktree that is asked for, which
/// must be attached to it; else in the one that it is in; else in one that is made.
pub open spec fn target_of_branch(
    entries: Seq<RegisteredView>,
    branch: Seq<char>,
    place: Option<Seq<char>>,
    new_worktree: Seq<char>,
) -> Result<TargetView, Seq<char>> {
    match place {
        Some(place) => match registered_at(entries, place) {
            None => Err("worktree "@ + quoted(place) + " is not registered with Git"@),
            Some(entry) => if entry.branch != Some(branch) {
                Err(
                    "worktree "@ + quoted(place) + " is not attached to branch "@ + quoted(branch),
                )
            } else {
                Ok(
                    TargetView {
                        branch,
                        worktree: place,
                        adopted_branch: true,
                        adopted_worktree: true,
                    },
                )
            },
        },
        None => match registered_for(entries, branch) {
            None => Ok(
                TargetView {
                    branch,
                    worktree: new_worktree,
                    adopted_branch: true,
                    adopted_worktree: false,
                },
            ),
            Some(entry) => match entry.at.place {
                Ok(place) => Ok(
                    TargetView {
                        branch,
                        worktree: place,
                        adopted_branch: true,
                        adopted_worktree: true,
                    },
                ),
                Err(problem) => Err(nowhere(entry.at.path, problem)),
            },
        },
    }
}

/// The branch of a worktree that is asked for.
pub open spec fn branch_at(entries: Seq<RegisteredView>, place: Seq<char>) -> Result<
    Seq<char>,
    Seq<char>,
> {
    match registered_at(entries, place) {
        None => Err("worktree "@ + quoted(place) + " is not registered with Git"@),
        Some(entry) => match entry.branch {
            None => Err("worktree "@ + quoted(place) + " is detached and cannot be adopted"@),
            Some(branch) => Ok(branch),
        },
    }
}

pub open spec fn target_verdict(
    decided: Result<TargetView, Seq<char>>,
    result: Result<ClaimTarget, LifecycleError>,
) -> bool {
    match decided {
        Ok(target) => result matches Ok(found) && found@ == target,
        Err(reason) => result matches Err(error) && refuses(error, reason),
    }
}

fn unregistered(place: &str) -> (error: LifecycleError)
    ensures
        refuses(error, "worktree "@ + quoted(place@) + " is not registered with Git"@),
{
    let mut reason = "worktree ".to_owned();
    reason.append(quote(place).as_str());
    reason.append(" is not registered with Git");
    LifecycleError::Refused(reason)
}

fn leads_nowhere(path: &str, problem: &str) -> (error: LifecycleError)
    ensures
        refuses(error, nowhere(path@, problem@)),
{
    let mut reason = "failed to canonicalize ".to_owned();
    reason.append(quote(path).as_str());
    reason.append(": ");
    reason.append(problem);
    LifecycleError::Refused(reason)
}

fn decide_target_of_branch(
    entries: &Vec<RegisteredWorktree>,
    branch: &str,
    place: Option<&String>,
    new_worktree: &str,
) -> (result: Result<ClaimTarget, LifecycleError>)
    ensures
        target_verdict(
            target_of_branch(
                views(entries@),
                branch@,
                match place {
                    Some(place) => Some(place@),
                    None => None,
                },
                new_worktree@,
            ),
            result,
        ),
{
    match place {
        Some(place) => {
            let entry = match find_worktree_by_path(entries, place.as_str()) {
                Some(entry) => entry,
                None => return Err(unregistered(place.as_str())),
            };
            let attached = match &entry.branch {
                Some(attached) => same(attached.as_str(), branch),
                None => false,
            };
            if !attached {
                let mut reason = "worktree ".to_owned();
                reason.append(quote(place.as_str()).as_str());
                reason.append(" is not attached to branch ");
                reason.append(quote(branch).as_str());
                return Err(LifecycleError::Refused(reason));
            }
            Ok(
                ClaimTarget {
                    branch: branch.to_owned(),
                    worktree: place.clone(),
                    adopted_branch: true,
                    adopted_worktree: true,
                },
            )
        },
        None => match find_worktree_by_branch(entries, branch) {
            None => Ok(
                ClaimTarget {
                    branch: branch.to_owned(),
                    worktree: new_worktree.to_owned(),
                    adopted_branch: true,
                    adopted_worktree: false,
                },
            ),
            Some(entry) => match &entry.at.place {
                Ok(place) => Ok(
                    ClaimTarget {
                        branch: branch.to_owned(),
                        worktree: place.clone(),
                        adopted_branch: true,
                        adopted_worktree: true,
                    },
                ),
                Err(problem) => Err(leads_nowhere(entry.at.path.as_str(), problem.as_str())),
            },
        },
    }
}

/// Whether that may be the target of a claim. Where neither a branch nor a worktree is asked for,
/// both are made.
pub open spec fn target_found<R: CommandRunner>(
    runner: &R,
    main_worktree: Seq<char>,
    branch: Option<Seq<char>>,
    worktree: Option<ResolvedPathView>,
    listed: Result<Vec<RegisteredWorktree>, LifecycleError>,
    new_branch: Seq<char>,
    new_worktree: Seq<char>,
    result: Result<ClaimTarget, LifecycleError>,
) -> bool {
    if branch is None && worktree is None {
        result matches Ok(target) && target@ == (TargetView {
            branch: new_branch,
            worktree: new_worktree,
            adopted_branch: false,
            adopted_worktree: false,
        })
    } else {
        match listed {
            Err(error) => result == Err::<ClaimTarget, _>(error),
            Ok(entries) => adoption_found(
                runner,
                main_worktree,
                branch,
                worktree,
                views(entries@),
                new_worktree,
                result,
            ),
        }
    }
}

pub open spec fn adoption_found<R: CommandRunner>(
    runner: &R,
    main_worktree: Seq<char>,
    branch: Option<Seq<char>>,
    worktree: Option<ResolvedPathView>,
    entries: Seq<RegisteredView>,
    new_worktree: Seq<char>,
    result: Result<ClaimTarget, LifecycleError>,
) -> bool {
    if worktree is Some && worktree->0.place is Err {
        result matches Err(error) && refuses(
            error,
            nowhere(worktree->0.path, worktree->0.place->Err_0),
        )
    } else if branch is Some {
        let place = match worktree {
            Some(path) => Some(path.place->Ok_0),
            None => None,
        };
        exists|valid: Result<(), LifecycleError>| #[trigger]
            branch_validated(runner, main_worktree, branch->0, valid) && match valid {
                Err(error) => result == Err::<ClaimTarget, _>(error),
                Ok(()) => target_verdict(
                    target_of_branch(entries, branch->0, place, new_worktree),
                    result,
                ),
            }
    } else {
        let place = worktree->0.place->Ok_0;
        match branch_at(entries, place) {
            Err(reason) => result matches Err(error) && refuses(error, reason),
            Ok(attached) => worktree_adopted(runner, main_worktree, attached, place, result),
        }
    }
}

pub open spec fn worktree_adopted<R: CommandRunner>(
    runner: &R,
    main_worktree: Seq<char>,
    branch: Seq<char>,
    place: Seq<char>,
    result: Result<ClaimTarget, LifecycleError>,
) -> bool {
    exists|valid: Result<(), LifecycleError>| #[trigger]
        branch_validated(runner, main_worktree, branch, valid) && match valid {
            Err(error) => result == Err::<ClaimTarget, _>(error),
            Ok(()) => result matches Ok(target) && target@ == (TargetView {
                branch,
                worktree: place,
                adopted_branch: true,
                adopted_worktree: true,
            }),
        }
}

/// Decides on which branch and in which worktree a claim is made. The worktrees that Git knows of
/// are looked at only where something is adopted.
pub fn resolve_claim_target<R: CommandRunner>(
    runner: &R,
    main_worktree: &str,
    branch: &Option<String>,
    worktree: &Option<ResolvedPath>,
    listed: Result<Vec<RegisteredWorktree>, LifecycleError>,
    new_branch: &str,
    new_worktree: &str,
) -> (result: Result<ClaimTarget, LifecycleError>)
    requires
        permits_reading(runner),
    ensures
        target_found(
            runner,
            main_worktree@,
            optional(*branch),
            optional(*worktree),
            listed,
            new_branch@,
            new_worktree@,
            result,
        ),
{
    match (branch, worktree) {
        (None, None) => Ok(
            ClaimTarget {
                branch: new_branch.to_owned(),
                worktree: new_worktree.to_owned(),
                adopted_branch: false,
                adopted_worktree: false,
            },
        ),
        (Some(branch), _) => {
            let entries = match listed {
                Ok(entries) => entries,
                Err(error) => return Err(error),
            };
            let place: Option<&String> = match worktree {
                None => None,
                Some(path) => match &path.place {
                    Ok(place) => Some(place),
                    Err(problem) => {
                        return Err(leads_nowhere(path.path.as_str(), problem.as_str()));
                    },
                },
            };
            let valid = validate_local_branch(runner, main_worktree, branch.as_str());
            assert(branch_validated(runner, main_worktree@, branch@, valid));
            if let Err(error) = valid {
                return Err(error);
            }
            decide_target_of_branch(&entries, branch.as_str(), place, new_worktree)
        },
        (None, Some(path)) => {
            let entries = match listed {
                Ok(entries) => entries,
                Err(error) => return Err(error),
            };
            let place = match &path.place {
                Ok(place) => place,
                Err(problem) => {
                    return Err(leads_nowhere(path.path.as_str(), problem.as_str()));
                },
            };
            let entry = match find_worktree_by_path(&entries, place.as_str()) {
                Some(entry) => entry,
                None => return Err(unregistered(place.as_str())),
            };
            let attached = match &entry.branch {
                Some(attached) => attached,
                None => {
                    let mut reason = "worktree ".to_owned();
                    reason.append(quote(place.as_str()).as_str());
                    reason.append(" is detached and cannot be adopted");
                    return Err(LifecycleError::Refused(reason));
                },
            };
            let valid = validate_local_branch(runner, main_worktree, attached.as_str());
            assert(branch_validated(runner, main_worktree@, attached@, valid));
            match valid {
                Err(error) => Err(error),
                Ok(()) => Ok(
                    ClaimTarget {
                        branch: attached.clone(),
                        worktree: place.clone(),
                        adopted_branch: true,
                        adopted_worktree: true,
                    },
                ),
            }
        },
    }
}

// ---------------------------------------------------------------------------------------------
// Under the lock
// ---------------------------------------------------------------------------------------------
/// What a claim builds on: a commit and, if it is another claim, its exact generation.
#[derive(Debug)]
pub struct ClaimBase {
    pub base: ResolvedBase,
    pub parent: Option<(IssueNumber, Id)>,
}

pub struct ClaimBaseView {
    pub base: BaseView,
    pub parent: Option<(IssueNumber, Id)>,
}

impl View for ClaimBase {
    type V = ClaimBaseView;

    open spec fn view(&self) -> ClaimBaseView {
        ClaimBaseView { base: self.base@, parent: self.parent }
    }
}

/// The base that the branch of another claim is, at its tip.
pub open spec fn base_on_claim(parent: ClaimView, tip: Seq<char>) -> ClaimBaseView {
    ClaimBaseView {
        base: BaseView {
            remote: parent.base_remote,
            reference: parent.branch,
            sha: tip,
            warnings: Seq::empty(),
        },
        parent: Some((parent.issue, parent.claim_id)),
    }
}

/// Whether building on the claim on an issue may come to that result: there must be exactly one
/// active claim on it, and its branch must have a tip.
pub open spec fn stacked_on<R: CommandRunner>(
    runner: &R,
    main_worktree: Seq<char>,
    active: Seq<ClaimView>,
    onto: IssueNumber,
    result: Result<ClaimBase, LifecycleError>,
) -> bool {
    let found = claims_on(active, onto);
    if found.len() > 1 {
        result matches Err(error) && complains(
            error,
            "issue "@ + decimal(onto as nat) + " has multiple active claim generations"@,
        )
    } else if found.len() == 0 {
        result matches Err(error) && refuses(
            error,
            "--onto requires an active local claim for issue "@ + decimal(onto as nat),
        )
    } else {
        exists|tip: Result<String, LifecycleError>| #[trigger]
            tip_found(runner, main_worktree, found[0].branch, tip) && match tip {
                Err(error) => result == Err::<ClaimBase, _>(error),
                Ok(commit) => result matches Ok(base) && base@ == base_on_claim(
                    found[0],
                    commit@,
                ),
            }
    }
}

fn stack_on<R: CommandRunner>(
    runner: &R,
    main_worktree: &str,
    active: &Vec<Claim>,
    onto: IssueNumber,
) -> (result: Result<ClaimBase, LifecycleError>)
    requires
        permits_observing(runner),
    ensures
        stacked_on(runner, main_worktree@, views(active@), onto, result),
{
    let parent = match unique_active_claim(active, onto) {
        Ok(Some(parent)) => parent,
        Ok(None) => {
            let mut reason = "--onto requires an active local claim for issue ".to_owned();
            reason.append(decimal_text(onto).as_str());
            return Err(LifecycleError::Refused(reason));
        },
        Err(error) => return Err(error),
    };
    let tip = resolve_local_branch_tip(runner, main_worktree, parent.branch.as_str());
    assert(tip_found(runner, main_worktree@, parent@.branch, tip));
    match tip {
        Err(error) => Err(error),
        Ok(sha) => {
            let warnings: Vec<String> = Vec::new();
            assert(views(warnings@) =~= Seq::empty());
            Ok(
                ClaimBase {
                    base: ResolvedBase {
                        remote: parent.base_remote.clone(),
                        reference: parent.branch.clone(),
                        sha,
                        warnings,
                    },
                    parent: Some((parent.issue, parent.claim_id)),
                },
            )
        },
    }
}

/// Where in the store and in the repository a claim is to be made.
#[derive(Debug)]
pub struct ClaimSite {
    pub active: Vec<Claim>,
    pub worktree: Option<ResolvedPath>,
    pub listed: Result<Vec<RegisteredWorktree>, LifecycleError>,
    pub operation_id: Id,
    pub started_at: Timestamp,
}

/// A claim that is about to be made, and what should be known of it.
#[derive(Debug)]
pub struct ClaimBeginning {
    pub transaction: ClaimTransaction,
    pub warnings: Vec<String>,
}

/// The journal entry of a claim that is about to be made.
pub open spec fn reserved_operation(
    issue: IssueNumber,
    claim_id: Id,
    target: TargetView,
    operation_id: Id,
    started_at: Timestamp,
) -> OperationView {
    OperationView {
        schema_version: SCHEMA_VERSION@,
        operation_id,
        kind: OperationKind::Claim,
        claim_id,
        issue,
        branch: target.branch,
        worktree: target.worktree,
        phase: OperationPhase::Reserved,
        started_at,
    }
}

/// A claim as it is to be recorded. Its worktree and its instant are settled once the worktree is
/// found.
pub open spec fn drafted_claim(
    repository: Seq<char>,
    issue: IssueNumber,
    claim_id: Id,
    title: Option<Seq<char>>,
    options: OptionsView,
    target: TargetView,
    base: ClaimBaseView,
    wait_for: Seq<WaitForRef>,
    started_at: Timestamp,
) -> ClaimView {
    ClaimView {
        schema_version: SCHEMA_VERSION@,
        claim_id,
        repo: repository,
        issue,
        title,
        branch: target.branch,
        worktree: target.worktree,
        base_remote: base.base.remote,
        base_ref: base.base.reference,
        base_sha: base.base.sha,
        base_issue: match base.parent {
            Some(parent) => Some(parent.0),
            None => None,
        },
        base_claim_id: match base.parent {
            Some(parent) => Some(parent.1),
            None => None,
        },
        wait_for,
        declared_scope: Some(
            ScopeView {
                allowed_paths: options.allowed_paths,
                disallowed_paths: options.disallowed_paths,
            },
        ),
        note: options.note,
        created_at: started_at,
    }
}

/// A claim that is about to be made.
pub open spec fn reserved_transaction(
    repository: Seq<char>,
    issue: IssueNumber,
    claim_id: Id,
    title: Option<Seq<char>>,
    options: OptionsView,
    target: TargetView,
    base: ClaimBaseView,
    wait_for: Seq<WaitForRef>,
    operation_id: Id,
    started_at: Timestamp,
) -> TransactionView {
    TransactionView {
        adopted_branch: target.adopted_branch,
        adopted_worktree: target.adopted_worktree,
        operation: reserved_operation(issue, claim_id, target, operation_id, started_at),
        claim: drafted_claim(
            repository,
            issue,
            claim_id,
            title,
            options,
            target,
            base,
            wait_for,
            started_at,
        ),
        created_branch: false,
        created_worktree: false,
        stage: StageView::Reserving,
    }
}

/// The claim that begins with a target, a base and what it waits for.
pub open spec fn beginning(
    repository: Seq<char>,
    ground: Groundwork,
    site: ClaimSite,
    base: ClaimBaseView,
    wait_for: Seq<WaitForRef>,
    target: TargetView,
) -> TransactionView {
    reserved_transaction(
        repository,
        ground.issue,
        ground.claim_id,
        optional(ground.title),
        ground.options@,
        target,
        base,
        wait_for,
        site.operation_id,
        site.started_at,
    )
}

/// Whether the base of a claim may be that: the one that was resolved before, or else the branch
/// of the claim that it builds on.
pub open spec fn base_settled<R: CommandRunner>(
    runner: &R,
    main_worktree: Seq<char>,
    start: StartingPoint,
    active: Seq<ClaimView>,
    result: Result<ClaimBase, LifecycleError>,
) -> bool {
    match start {
        StartingPoint::Resolved(base) => result == Ok::<_, LifecycleError>(
            ClaimBase { base, parent: None },
        ),
        StartingPoint::Onto(onto) => stacked_on(runner, main_worktree, active, onto, result),
    }
}

/// Whether a claim whose base is settled may begin so: what it waits for is resolved, then its
/// target, which must contain the base if it was there before, and which must be free.
pub open spec fn claim_settled<R: CommandRunner>(
    runner: &R,
    repository: RepositoryContext,
    ground: Groundwork,
    site: ClaimSite,
    base: ClaimBaseView,
    result: Result<TransactionView, LifecycleErrorView>,
) -> bool {
    exists|wait_for: Result<Vec<WaitForRef>, LifecycleError>| #[trigger]
        wait_outcome(views(site.active@), ground.options.after@, wait_for) && match wait_for {
            Err(error) => result == Err::<TransactionView, _>(error@),
            Ok(refs) => target_settled(runner, repository, ground, site, base, refs@, result),
        }
}

pub open spec fn target_settled<R: CommandRunner>(
    runner: &R,
    repository: RepositoryContext,
    ground: Groundwork,
    site: ClaimSite,
    base: ClaimBaseView,
    wait_for: Seq<WaitForRef>,
    result: Result<TransactionView, LifecycleErrorView>,
) -> bool {
    exists|found: Result<ClaimTarget, LifecycleError>| #[trigger]
        target_found(
            runner,
            repository.main_worktree@,
            optional(ground.options.branch),
            optional(site.worktree),
            site.listed,
            ground.branch@,
            ground.worktree@,
            found,
        ) && match found {
            Err(error) => result == Err::<TransactionView, _>(error@),
            Ok(target) => target_checked(
                runner,
                repository,
                ground,
                site,
                base,
                wait_for,
                target@,
                result,
            ),
        }
}

pub open spec fn target_checked<R: CommandRunner>(
    runner: &R,
    repository: RepositoryContext,
    ground: Groundwork,
    site: ClaimSite,
    base: ClaimBaseView,
    wait_for: Seq<WaitForRef>,
    target: TargetView,
    result: Result<TransactionView, LifecycleErrorView>,
) -> bool {
    if target.adopted_branch {
        exists|contained: Result<(), LifecycleError>| #[trigger]
            ancestor_required(
                runner,
                repository.main_worktree@,
                base.base.sha,
                target.branch,
                contained,
            ) && match contained {
                Err(error) => result == Err::<TransactionView, _>(error@),
                Ok(()) => target_reserved(
                    repository.repository@,
                    ground,
                    site,
                    base,
                    wait_for,
                    target,
                    result,
                ),
            }
    } else {
        target_reserved(repository.repository@, ground, site, base, wait_for, target, result)
    }
}

pub open spec fn target_reserved(
    repository: Seq<char>,
    ground: Groundwork,
    site: ClaimSite,
    base: ClaimBaseView,
    wait_for: Seq<WaitForRef>,
    target: TargetView,
    result: Result<TransactionView, LifecycleErrorView>,
) -> bool {
    exists|free: Result<(), LifecycleError>| #[trigger]
        reservation(
            views(site.active@),
            ground.issue,
            target.branch,
            target.worktree,
            free,
        ) && match free {
            Err(error) => result == Err::<TransactionView, _>(error@),
            Ok(()) => result == Ok::<_, LifecycleErrorView>(
                beginning(repository, ground, site, base, wait_for, target),
            ),
        }
}

/// Whether a claim may begin so.
pub open spec fn claim_begun<R: CommandRunner>(
    runner: &R,
    repository: RepositoryContext,
    ground: Groundwork,
    site: ClaimSite,
    result: Result<ClaimBeginning, LifecycleError>,
) -> bool {
    exists|settled: Result<ClaimBase, LifecycleError>| #[trigger]
        base_settled(
            runner,
            repository.main_worktree@,
            ground.start,
            views(site.active@),
            settled,
        ) && match settled {
            Err(error) => result == Err::<ClaimBeginning, _>(error),
            Ok(base) => claim_settled(
                runner,
                repository,
                ground,
                site,
                base@,
                begun_view(result),
            ) && (result matches Ok(begun) ==> views(begun.warnings@) == views(
                ground.warnings@,
            ) + base@.base.warnings),
        }
}

pub open spec fn begun_view(result: Result<ClaimBeginning, LifecycleError>) -> Result<
    TransactionView,
    LifecycleErrorView,
> {
    match result {
        Ok(begun) => Ok(begun.transaction@),
        Err(error) => Err(error@),
    }
}

fn settle_base<R: CommandRunner>(
    runner: &R,
    main_worktree: &str,
    start: StartingPoint,
    active: &Vec<Claim>,
) -> (result: Result<ClaimBase, LifecycleError>)
    requires
        permits_observing(runner),
    ensures
        base_settled(runner, main_worktree@, start, views(active@), result),
{
    match start {
        StartingPoint::Resolved(base) => Ok(ClaimBase { base, parent: None }),
        StartingPoint::Onto(onto) => stack_on(runner, main_worktree, active, onto),
    }
}

/// Begins a claim, with the store locked: gives the steps to be taken, or why the claim is not
/// made.
pub fn begin_claim<R: CommandRunner>(
    runner: &R,
    repository: &RepositoryContext,
    ground: Groundwork,
    site: ClaimSite,
) -> (result: Result<ClaimBeginning, LifecycleError>)
    requires
        permits_reading(runner),
    ensures
        claim_begun(runner, *repository, ground, site, result),
{
    let ghost given = ground;
    let ghost place = site;
    let main_worktree = repository.main_worktree.as_str();
    let settled = settle_base(runner, main_worktree, ground.start, &site.active);
    assert(base_settled(
        runner,
        repository.main_worktree@,
        given.start,
        views(place.active@),
        settled,
    ));
    let base = match settled {
        Ok(base) => base,
        Err(error) => return Err(error),
    };
    let ghost based = base@;
    let wait_for = resolve_wait_for(&site.active, &ground.options.after);
    assert(wait_outcome(views(place.active@), given.options.after@, wait_for));
    let refs = match wait_for {
        Ok(refs) => refs,
        Err(error) => {
            let result = Err::<ClaimBeginning, LifecycleError>(error);
            assert(claim_settled(
                runner,
                *repository,
                given,
                place,
                based,
                begun_view(result),
            ));
            return result;
        },
    };
    let ghost waits = refs@;
    let found = resolve_claim_target(
        runner,
        main_worktree,
        &ground.options.branch,
        &site.worktree,
        site.listed,
        ground.branch.as_str(),
        ground.worktree.as_str(),
    );
    assert(target_found(
        runner,
        repository.main_worktree@,
        optional(given.options.branch),
        optional(place.worktree),
        place.listed,
        given.branch@,
        given.worktree@,
        found,
    ));
    let target = match found {
        Ok(target) => target,
        Err(error) => {
            let result = Err::<ClaimBeginning, LifecycleError>(error);
            assert(target_settled(
                runner,
                *repository,
                given,
                place,
                based,
                waits,
                begun_view(result),
            ));
            return result;
        },
    };
    if target.adopted_branch {
        let contained = require_ancestor(
            runner,
            main_worktree,
            base.base.sha.as_str(),
            target.branch.as_str(),
        );
        assert(ancestor_required(
            runner,
            repository.main_worktree@,
            based.base.sha,
            target@.branch,
            contained,
        ));
        if let Err(error) = contained {
            let result = Err::<ClaimBeginning, LifecycleError>(error);
            assert(target_checked(
                runner,
                *repository,
                given,
                place,
                based,
                waits,
                target@,
                begun_view(result),
            ));
            assert(target_settled(
                runner,
                *repository,
                given,
                place,
                based,
                waits,
                begun_view(result),
            ));
            return result;
        }
    }
    let free = reserve_active(
        &site.active,
        ground.issue,
        target.branch.as_str(),
        target.worktree.as_str(),
    );
    assert(reservation(
        views(place.active@),
        given.issue,
        target@.branch,
        target@.worktree,
        free,
    ));
    let result = match free {
        Err(error) => Err(error),
        Ok(()) => {
            let mut warnings = ground.warnings;
            append_texts(&mut warnings, &base.base.warnings);
            Ok(
                ClaimBeginning {
                    transaction: make_transaction(
                        repository.repository.clone(),
                        ground.issue,
                        ground.claim_id,
                        ground.title,
                        ground.options,
                        &target,
                        base,
                        refs,
                        site.operation_id,
                        site.started_at,
                    ),
                    warnings,
                },
            )
        },
    };
    proof {
        assert(target_reserved(
            repository.repository@,
            given,
            place,
            based,
            waits,
            target@,
            begun_view(result),
        ));
        assert(target_checked(
            runner,
            *repository,
            given,
            place,
            based,
            waits,
            target@,
            begun_view(result),
        ));
        assert(target_settled(
            runner,
            *repository,
            given,
            place,
            based,
            waits,
            begun_view(result),
        ));
    }
    result
}

fn make_transaction(
    repository: String,
    issue: IssueNumber,
    claim_id: Id,
    title: Option<String>,
    options: ClaimOptions,
    target: &ClaimTarget,
    base: ClaimBase,
    wait_for: Vec<WaitForRef>,
    operation_id: Id,
    started_at: Timestamp,
) -> (transaction: ClaimTransaction)
    ensures
        transaction@ == reserved_transaction(
            repository@,
            issue,
            claim_id,
            optional(title),
            options@,
            target@,
            base@,
            wait_for@,
            operation_id,
            started_at,
        ),
{
    let operation = OperationRecord {
        schema_version: SCHEMA_VERSION.to_owned(),
        operation_id,
        kind: OperationKind::Claim,
        claim_id,
        issue,
        branch: target.branch.clone(),
        worktree: target.worktree.clone(),
        phase: OperationPhase::Reserved,
        started_at,
    };
    let claim = Claim {
        schema_version: SCHEMA_VERSION.to_owned(),
        claim_id,
        repo: repository,
        issue,
        title,
        branch: target.branch.clone(),
        worktree: target.worktree.clone(),
        base_remote: base.base.remote,
        base_ref: base.base.reference,
        base_sha: base.base.sha,
        base_issue: match base.parent {
            Some((issue, _)) => Some(issue),
            None => None,
        },
        base_claim_id: match base.parent {
            Some((_, id)) => Some(id),
            None => None,
        },
        wait_for,
        declared_scope: Some(
            DeclaredScope {
                allowed_paths: options.allowed_paths,
                disallowed_paths: options.disallowed_paths,
            },
        ),
        note: options.note,
        created_at: started_at,
    };
    ClaimTransaction {
        adopted_branch: target.adopted_branch,
        adopted_worktree: target.adopted_worktree,
        operation,
        claim,
        created_branch: false,
        created_worktree: false,
        stage: ClaimStage::Reserving,
    }
}

/// How a claim that begins was settled: its base, what it waits for, and its target.
proof fn settled_so<R: CommandRunner>(
    runner: &R,
    repository: RepositoryContext,
    ground: Groundwork,
    site: ClaimSite,
    begun: ClaimBeginning,
) -> (settled: (ClaimBase, Seq<WaitForRef>, TargetView))
    requires
        claim_begun(runner, repository, ground, site, Ok(begun)),
    ensures
        base_settled(
            runner,
            repository.main_worktree@,
            ground.start,
            views(site.active@),
            Ok(settled.0),
        ),
        target_checked(
            runner,
            repository,
            ground,
            site,
            settled.0@,
            settled.1,
            settled.2,
            Ok(begun.transaction@),
        ),
{
    let active = views(site.active@);
    let result = Ok::<_, LifecycleErrorView>(begun.transaction@);
    let main_worktree = repository.main_worktree@;
    let base = choose|base: Result<ClaimBase, LifecycleError>| #[trigger]
        base_settled(runner, main_worktree, ground.start, active, base) && match base {
            Err(error) => false,
            Ok(base) => claim_settled(runner, repository, ground, site, base@, result),
        };
    let base = base->Ok_0;
    let wait_for = choose|wait_for: Result<Vec<WaitForRef>, LifecycleError>| #[trigger]
        wait_outcome(active, ground.options.after@, wait_for) && match wait_for {
            Err(error) => false,
            Ok(refs) => target_settled(runner, repository, ground, site, base@, refs@, result),
        };
    let refs = wait_for->Ok_0@;
    let found = choose|found: Result<ClaimTarget, LifecycleError>| #[trigger]
        target_found(
            runner,
            main_worktree,
            optional(ground.options.branch),
            optional(site.worktree),
            site.listed,
            ground.branch@,
            ground.worktree@,
            found,
        ) && match found {
            Err(error) => false,
            Ok(target) => target_checked(
                runner,
                repository,
                ground,
                site,
                base@,
                refs,
                target@,
                result,
            ),
        };
    (base, refs, found->Ok_0@)
}

/// A claim that begins has had nothing done for it yet, and where the active claims have their
/// issues, branches and worktrees for themselves, it has too.
pub proof fn begun_claims_are_fresh_and_exclusive<R: CommandRunner>(
    runner: &R,
    repository: RepositoryContext,
    ground: Groundwork,
    site: ClaimSite,
    begun: ClaimBeginning,
)
    requires
        claim_begun(runner, repository, ground, site, Ok(begun)),
        exclusive(views(site.active@)),
    ensures
        begun.transaction@.fresh(),
        exclusive(views(site.active@).push(begun.transaction@.claim)),
{
    let active = views(site.active@);
    let result = Ok::<_, LifecycleErrorView>(begun.transaction@);
    let (base, refs, target) = settled_so(runner, repository, ground, site, begun);
    assert(target_reserved(repository.repository@, ground, site, base@, refs, target, result));
    let free = choose|free: Result<(), LifecycleError>| #[trigger]
        reservation(active, ground.issue, target.branch, target.worktree, free) && free is Ok;
    reservations_keep_ownership_exclusive(active, begun.transaction@.claim, free);
}

/// A claim that begins on a branch that was there before was found to contain its base; and one
/// that builds on another claim names the exact generation of the active claim on that issue, and
/// its branch.
pub proof fn begun_claims_rest_on_what_they_record<R: CommandRunner>(
    runner: &R,
    repository: RepositoryContext,
    ground: Groundwork,
    site: ClaimSite,
    begun: ClaimBeginning,
)
    requires
        claim_begun(runner, repository, ground, site, Ok(begun)),
    ensures
        begun.transaction@.adopted_branch ==> ancestor_required(
            runner,
            repository.main_worktree@,
            begun.transaction@.claim.base_sha,
            begun.transaction@.claim.branch,
            Ok(()),
        ),
        begun.transaction@.claim.base_claim_id is Some <==> ground.start is Onto,
        ground.start matches StartingPoint::Onto(onto) ==> exists|parent: ClaimView| #[trigger]
            views(site.active@).contains(parent) && parent.issue == onto
                && begun.transaction@.claim.base_issue == Some(onto)
                && begun.transaction@.claim.base_claim_id == Some(parent.claim_id)
                && begun.transaction@.claim.base_ref == parent.branch,
{
    let active = views(site.active@);
    let result = Ok::<_, LifecycleErrorView>(begun.transaction@);
    let (base, refs, target) = settled_so(runner, repository, ground, site, begun);
    assert(target_reserved(repository.repository@, ground, site, base@, refs, target, result));
    if let StartingPoint::Onto(onto) = ground.start {
        let test = |claim: ClaimView| claim.issue == onto;
        let parent = claims_on(active, onto)[0];
        active.lemma_filter_pred(test, 0);
        assert(active.filter(test).contains(parent));
        active.lemma_filter_contains_rev(test, parent);
    }
}

/// Whether an active claim has its worktree at a place.
pub open spec fn occupied(active: Seq<ClaimView>, place: Seq<char>) -> bool {
    exists|i: int| 0 <= i < active.len() && same_path(
        (#[trigger] active[i]).worktree,
        place,
    )
}

/// An issue that is claimed already is not claimed again: the claim does not begin.
pub proof fn claimed_issues_are_refused<R: CommandRunner>(
    runner: &R,
    repository: RepositoryContext,
    ground: Groundwork,
    site: ClaimSite,
    result: Result<ClaimBeginning, LifecycleError>,
)
    requires
        claim_begun(runner, repository, ground, site, result),
        exists|i: int|
            0 <= i < site.active.len() && (#[trigger] views(site.active@)[i]).issue
                == ground.issue,
    ensures
        result is Err,
{
    if let Ok(begun) = result {
        let active = views(site.active@);
        let outcome = Ok::<_, LifecycleErrorView>(begun.transaction@);
        let (base, refs, target) = settled_so(runner, repository, ground, site, begun);
        assert(target_reserved(repository.repository@, ground, site, base@, refs, target, outcome));
        let i = choose|i: int|
            0 <= i < site.active.len() && (#[trigger] active[i]).issue == ground.issue;
        issue_is_held(active, ground.issue, i);
    }
}

proof fn issue_is_held(active: Seq<ClaimView>, issue: IssueNumber, i: int)
    requires
        0 <= i < active.len(),
        active[i].issue == issue,
    ensures
        first_on_issue(active, issue) is Some,
    decreases active.len(),
{
    if i > 0 {
        issue_is_held(active.drop_first(), issue, i - 1);
    }
}

/// Claims that are the same but for their order have their issues, branches and worktrees for
/// themselves where the others have.
proof fn order_keeps_exclusive(a: Seq<ClaimView>, b: Seq<ClaimView>)
    requires
        a.to_multiset() == b.to_multiset(),
        exclusive(b),
    ensures
        exclusive(a),
        forall|claim: ClaimView| a.contains(claim) <==> b.contains(claim),
{
    broadcast use vstd::seq_lib::group_to_multiset_ensures;

    assert forall|claim: ClaimView| a.contains(claim) <==> b.contains(claim) by {
        assert(a.contains(claim) <==> a.to_multiset().count(claim) > 0);
        assert(b.contains(claim) <==> b.to_multiset().count(claim) > 0);
    }
    assert(b.no_duplicates());
    b.lemma_multiset_has_no_duplicates();
    a.lemma_multiset_has_no_duplicates_conv();
    assert forall|i: int, j: int|
        #![trigger a[i], a[j]]
        0 <= i < j < a.len() implies a[i].issue != a[j].issue && a[i].branch != a[j].branch
        && !same_path(a[i].worktree, a[j].worktree) by {
        assert(a.contains(a[i]) && a.contains(a[j]));
        assert(a[i] != a[j]);
        let x = choose|x: int| 0 <= x < b.len() && b[x] == a[i];
        let y = choose|y: int| 0 <= y < b.len() && b[y] == a[j];
        if x < y {
            assert(b[x].issue != b[y].issue);
        } else {
            assert(b[y].issue != b[x].issue);
        }
    }
}

/// One active claim for each issue, branch and worktree, from the call to the records after it:
/// where the active claims have these for themselves, and a claim begins and comes to its end as
/// made, then it is a claim on the issue that was asked for; what is recorded is what was, and
/// that claim; active is what was, and that claim; all of them have their issues, branches and
/// worktrees for themselves; and the journal entry of the claim is gone. Where Git has put a new
/// worktree at another place than the one that was reserved, this holds if no active claim
/// occupies that place.
pub proof fn made_claims_are_exclusive<R: CommandRunner>(
    runner: &R,
    repository: RepositoryContext,
    ground: Groundwork,
    site: ClaimSite,
    begun: ClaimBeginning,
    shelf: Shelf,
    releases: Seq<ReleaseView>,
    events: Seq<EventView>,
    claim: ClaimView,
)
    requires
        claim_begun(runner, repository, ground, site, Ok(begun)),
        views(site.active@) == active(shelf.claims, releases),
        exclusive(active(shelf.claims, releases)),
        !is_released(begun.transaction@.claim, releases),
        course_fits(begun.transaction@, shelf, events),
        course(begun.transaction@, shelf, events).action == ActionView::Commit(claim),
        begun.transaction@.adopted_worktree || forall|place: Seq<char>| #[trigger]
            found_at(events, place) ==> !occupied(active(shelf.claims, releases), place),
    ensures
        ({
            let after = course(begun.transaction@, shelf, events).shelf;
            let before = active(shelf.claims, releases);
            &&& claim.issue == ground.issue
            &&& claim.claim_id == ground.claim_id
            &&& claim.branch == begun.transaction@.claim.branch
            &&& after.claims == shelf.claims.push(claim)
            &&& forall|other: ClaimView|
                active(after.claims, releases).contains(other) <==> (before.contains(other)
                    || other == claim)
            &&& exclusive(active(after.claims, releases))
            &&& after.journal == shelf.journal.remove(begun.transaction@.operation.operation_id)
        }),
{
    broadcast use vstd::seq_lib::group_to_multiset_ensures;

    let held = active(shelf.claims, releases);
    let result = Ok::<_, LifecycleErrorView>(begun.transaction@);
    let start = begun.transaction@;
    let (base, refs, target) = settled_so(runner, repository, ground, site, begun);
    assert(target_reserved(repository.repository@, ground, site, base@, refs, target, result));
    begun_claims_are_fresh_and_exclusive(runner, repository, ground, site, begun);
    claims_stay_on_course(start, shelf, events);
    let after = course(start, shelf, events).shelf;
    assert(course(start, shelf, events).transaction.stage is Finished) by {
        commits_end(start, shelf, events);
    }
    let longer = held.push(claim);
    let begun_longer = held.push(start.claim);
    assert forall|i: int, j: int|
        #![trigger longer[i], longer[j]]
        0 <= i < j < longer.len() implies longer[i].issue != longer[j].issue && longer[i].branch
        != longer[j].branch && !same_path(longer[i].worktree, longer[j].worktree) by {
        assert(begun_longer[i].issue != begun_longer[j].issue);
        if j == held.len() && !same_path(claim.worktree, start.claim.worktree) {
            assert(found_at(events, claim.worktree));
            assert(!occupied(held, claim.worktree));
            assert(!same_path(held[i].worktree, claim.worktree));
        }
    }
    let old_left = unreleased(shelf.claims, releases);
    let new_left = unreleased(after.claims, releases);
    assert(after.claims.drop_last() =~= shelf.claims);
    assert(!is_released(claim, releases)) by {
        if is_released(claim, releases) {
            let k = choose|k: int|
                0 <= k < releases.len() && (#[trigger] releases[k]).issue == claim.issue
                    && releases[k].claim_id == claim.claim_id;
            assert(releases[k].issue == start.claim.issue);
        }
    }
    assert(new_left == old_left.push(claim));
    order_keeps_records::<Claim>(old_left);
    order_keeps_records::<Claim>(new_left);
    assert(longer.to_multiset() =~= held.to_multiset().insert(claim));
    assert(new_left.to_multiset() =~= old_left.to_multiset().insert(claim));
    order_keeps_exclusive(active(after.claims, releases), longer);
    assert forall|other: ClaimView|
        active(after.claims, releases).contains(other) <==> (held.contains(other) || other
            == claim) by {
        assert(longer.contains(other) <==> held.contains(other) || other == claim) by {
            if held.contains(other) {
                let k = choose|k: int| 0 <= k < held.len() && held[k] == other;
                assert(longer[k] == other);
            }
            assert(longer[held.len() as int] == claim);
            if longer.contains(other) && other != claim {
                let k = choose|k: int| 0 <= k < longer.len() && longer[k] == other;
                assert(held[k] == other);
            }
        }
    }
}

} // verus!
