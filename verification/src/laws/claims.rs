//! What a claim that is made records.
use vstd::prelude::*;

use crate::base::{base_resolved, tip_found, ResolvedBase};
use crate::claiming::{
    bare_name, base_settled, claim_begun, claim_settled, dependencies_asked, dependency_there,
    gate_decided, gate_passed, groundwork_laid, registered_at, registered_for, target_checked,
    target_found, target_reserved, target_settled, ClaimBase, ClaimBeginning, ClaimSite,
    ClaimTarget, Groundwork, RegisteredView, StartingPoint,
};
use crate::command::CommandRunner;
use crate::config::ConfigView;
use crate::git::RepositoryContext;
use crate::github::{issue_observed, GithubIssueError, GithubIssueObservation, IssueObservationView};
use crate::id::{short_text, Id, IssueNumber};
use crate::lifecycle::{
    dependency_fault, first_in_worktree, first_on_branch, first_on_issue, gate_outcome, gate_view,
    relationship_fault, reservation, wait_outcome, LifecycleError, LifecycleErrorView, OptionsView,
};
use crate::model::{ClaimView, WaitForRef};
use crate::path::{absolute, joined_path, parent_of, same_path};
use crate::stack::claims_on;
use crate::text::{decimal, optional, views};
use crate::transaction::{
    claims_stay_on_course, commits_end, course, course_fits, found_at, ActionView, EventView, Shelf,
};

verus! {

/// What a claim that begins was settled on.
proof fn settled_on<R: CommandRunner>(
    runner: &R,
    repository: RepositoryContext,
    ground: Groundwork,
    site: ClaimSite,
    begun: ClaimBeginning,
) -> (settled: (ClaimBase, Vec<WaitForRef>, ClaimTarget))
    requires
        claim_begun(runner, repository, ground, site, Ok(begun)),
    ensures
        base_settled(
            runner,
            repository.main_worktree@,
            ground.start,
            views(site.active@),
            Ok(settled.0),
        ),
        wait_outcome(views(site.active@), ground.options.after@, Ok(settled.1)),
        target_found(
            runner,
            repository.main_worktree@,
            optional(ground.options.branch),
            optional(site.worktree),
            site.listed,
            ground.branch@,
            ground.worktree@,
            Ok(settled.2),
        ),
        target_reserved(
            repository.repository@,
            ground,
            site,
            settled.0@,
            settled.1@,
            settled.2@,
            Ok(begun.transaction@),
        ),
        views(begun.warnings@) == views(ground.warnings@) + settled.0@.base.warnings,
{
    let active = views(site.active@);
    let result = Ok::<_, LifecycleErrorView>(begun.transaction@);
    let main_worktree = repository.main_worktree@;
    let settled = choose|settled: Result<ClaimBase, LifecycleError>| #[trigger]
        base_settled(runner, main_worktree, ground.start, active, settled) && match settled {
            Err(error) => false,
            Ok(base) => claim_settled(runner, repository, ground, site, base@, result) && views(
                begun.warnings@,
            ) == views(ground.warnings@) + base@.base.warnings,
        };
    let base = settled->Ok_0;
    let wait_for = choose|wait_for: Result<Vec<WaitForRef>, LifecycleError>| #[trigger]
        wait_outcome(active, ground.options.after@, wait_for) && match wait_for {
            Err(error) => false,
            Ok(refs) => target_settled(runner, repository, ground, site, base@, refs@, result),
        };
    let refs = wait_for->Ok_0;
    let found = choose|found: Result<ClaimTarget, LifecycleError>| #[trigger]
        target_found(
            runner,
            main_worktree,
            optional(ground.options.branch),
            optional(site.worktree),
            site.listed,
            ground.branch@,
            ground.worktree@,
            found,
        ) && match found {
            Err(error) => false,
            Ok(target) => target_checked(
                runner,
                repository,
                ground,
                site,
                base@,
                refs@,
                target@,
                result,
            ),
        };
    (base, refs, found->Ok_0)
}

/// Whether a claim records what was asked for: the scope, the note, and the issues to wait for in
/// their order.
pub open spec fn records_request(claim: ClaimView, options: OptionsView) -> bool {
    &&& claim.declared_scope is Some
    &&& claim.declared_scope->0.allowed_paths == options.allowed_paths
    &&& claim.declared_scope->0.disallowed_paths == options.disallowed_paths
    &&& claim.note == options.note
    &&& claim.wait_for.len() == options.after.len()
    &&& forall|i: int|
        0 <= i < options.after.len() ==> (#[trigger] claim.wait_for[i]).issue == options.after[i]
}

/// A claim that begins records what was asked for, and where its issue, its identifier and its time
/// come from.
pub proof fn begun_claims_record_what_was_asked<R: CommandRunner>(
    runner: &R,
    repository: RepositoryContext,
    ground: Groundwork,
    site: ClaimSite,
    begun: ClaimBeginning,
)
    requires
        claim_begun(runner, repository, ground, site, Ok(begun)),
    ensures
        ({
            let claim = begun.transaction@.claim;
            let operation = begun.transaction@.operation;
            &&& records_request(claim, ground.options@)
            &&& claim.issue == ground.issue && claim.claim_id == ground.claim_id
            &&& claim.repo == repository.repository@
            &&& claim.title == optional(ground.title)
            &&& claim.created_at == site.started_at
            &&& operation.operation_id == site.operation_id && operation.started_at
                == site.started_at
            &&& operation.issue == ground.issue && operation.claim_id == ground.claim_id
            &&& operation.branch == claim.branch && operation.worktree == claim.worktree
            &&& operation.kind is Claim && operation.phase is Reserved
            &&& begun.transaction@.fresh()
        }),
{
    let (base, refs, target) = settled_on(runner, repository, ground, site, begun);
    assert(refs@.len() == ground.options.after@.len());
}

/// Whether a reference to an issue names its active generation, or none where it has none.
pub open spec fn names_generation(reference: WaitForRef, active: Seq<ClaimView>) -> bool {
    match reference.claim_id {
        Some(id) => exists|a: int|
            0 <= a < active.len() && (#[trigger] active[a]).issue == reference.issue
                && active[a].claim_id == id,
        None => forall|a: int|
            0 <= a < active.len() ==> (#[trigger] active[a]).issue != reference.issue,
    }
}

/// A claim that begins waits for the active generation of each issue that it was told to wait for;
/// an issue that has none is waited for without a generation.
pub proof fn begun_claims_wait_for_active_generations<R: CommandRunner>(
    runner: &R,
    repository: RepositoryContext,
    ground: Groundwork,
    site: ClaimSite,
    begun: ClaimBeginning,
    i: int,
)
    requires
        claim_begun(runner, repository, ground, site, Ok(begun)),
        0 <= i < begun.transaction@.claim.wait_for.len(),
    ensures
        names_generation(begun.transaction@.claim.wait_for[i], views(site.active@)),
{
    let (base, refs, target) = settled_on(runner, repository, ground, site, begun);
    let active = views(site.active@);
    let reference = begun.transaction@.claim.wait_for[i];
    let test = |claim: ClaimView| claim.issue == reference.issue;
    let found = claims_on(active, reference.issue);
    assert(found == active.filter(test));
    if found.len() > 0 {
        active.lemma_filter_pred(test, 0);
        assert(active.filter(test).contains(found[0]));
        active.lemma_filter_contains_rev(test, found[0]);
        let a = active.index_of(found[0]);
        assert(active[a] == found[0]);
    } else {
        assert forall|a: int| 0 <= a < active.len() implies (#[trigger] active[a]).issue
            != reference.issue by {
            if active[a].issue == reference.issue {
                active.lemma_filter_contains(test, a);
            }
        }
    }
}

/// Where a claim that begins has its branch and its worktree. Without a request they are new ones,
/// under the names that were laid out. A branch that was asked for is adopted; a worktree that was
/// asked for is adopted where it leads.
pub proof fn begun_claims_have_the_requested_place<R: CommandRunner>(
    runner: &R,
    repository: RepositoryContext,
    ground: Groundwork,
    site: ClaimSite,
    begun: ClaimBeginning,
)
    requires
        claim_begun(runner, repository, ground, site, Ok(begun)),
    ensures
        ({
            let made = begun.transaction@;
            &&& ground.options.branch is None && site.worktree is None ==> {
                &&& made.claim.branch == ground.branch@ && made.claim.worktree == ground.worktree@
                &&& !made.adopted_branch && !made.adopted_worktree
            }
            &&& ground.options.branch is Some ==> made.claim.branch == ground.options.branch->0@
                && made.adopted_branch
            &&& site.worktree is Some ==> {
                &&& site.worktree->0@.place == Ok::<_, Seq<char>>(made.claim.worktree)
                &&& made.adopted_branch && made.adopted_worktree
            }
            &&& made.adopted_branch && !made.adopted_worktree ==> made.claim.worktree
                == ground.worktree@
            &&& made.adopted_worktree ==> made.adopted_branch
            &&& made.adopted_worktree ==> (site.listed matches Ok(entries) && exists|k: int|
                0 <= k < entries@.len() && (#[trigger] views(entries@)[k]).branch == Some(
                    made.claim.branch,
                ) && (views(entries@)[k].at.place matches Ok(place) && same_path(
                    place,
                    made.claim.worktree,
                )))
        }),
{
    let (base, refs, target) = settled_on(runner, repository, ground, site, begun);
    if target@.adopted_worktree {
        let entries = views(site.listed->Ok_0@);
        if site.worktree is Some {
            let place = site.worktree->0@.place->Ok_0;
            registered_at_is_one(entries, place);
        } else {
            registered_for_is_one(entries, target@.branch);
        }
    }
}

proof fn registered_at_is_one(
    entries: Seq<RegisteredView>,
    place: Seq<char>,
)
    ensures
        registered_at(entries, place) matches Some(entry) ==> exists|k: int|
            0 <= k < entries.len() && #[trigger] entries[k] == entry && (entry.at.place matches Ok(
                here,
            ) && same_path(here, place)),
    decreases entries.len(),
{
    if entries.len() > 0 {
        let rest = entries.drop_first();
        registered_at_is_one(rest, place);
        if let Some(entry) = registered_at(entries, place) {
            if !(entries[0].at.place matches Ok(here) && same_path(here, place)) {
                let k = choose|k: int|
                    0 <= k < rest.len() && #[trigger] rest[k] == entry && (entry.at.place matches Ok(
                        here,
                    ) && same_path(here, place));
                assert(entries[k + 1] == entry);
            } else {
                assert(entries[0] == entry);
            }
        }
    }
}

proof fn registered_for_is_one(
    entries: Seq<RegisteredView>,
    branch: Seq<char>,
)
    ensures
        registered_for(entries, branch) matches Some(entry) ==> exists|k: int|
            0 <= k < entries.len() && #[trigger] entries[k] == entry && entry.branch == Some(branch),
    decreases entries.len(),
{
    if entries.len() > 0 {
        let rest = entries.drop_first();
        registered_for_is_one(rest, branch);
        if let Some(entry) = registered_for(entries, branch) {
            if entries[0].branch != Some(branch) {
                let k = choose|k: int|
                    0 <= k < rest.len() && #[trigger] rest[k] == entry && entry.branch == Some(
                        branch,
                    );
                assert(entries[k + 1] == entry);
            } else {
                assert(entries[0] == entry);
            }
        }
    }
}

/// What a claim that begins is based on. Where it is not put onto another claim, it is based on the
/// commit that was resolved, and on no claim. Where it is, it is based on the tip of the branch of
/// the one active claim on that issue, and records its generation and its remote.
pub proof fn begun_claims_record_their_base<R: CommandRunner>(
    runner: &R,
    repository: RepositoryContext,
    ground: Groundwork,
    site: ClaimSite,
    begun: ClaimBeginning,
)
    requires
        claim_begun(runner, repository, ground, site, Ok(begun)),
    ensures
        ({
            let claim = begun.transaction@.claim;
            let active = views(site.active@);
            match ground.start {
                StartingPoint::Resolved(base) => {
                    &&& claim.base_remote == base@.remote
                    &&& claim.base_ref == base@.reference
                    &&& claim.base_sha == base@.sha
                    &&& claim.base_issue is None && claim.base_claim_id is None
                },
                StartingPoint::Onto(onto) => exists|p: int|
                    0 <= p < active.len() && (#[trigger] active[p]).issue == onto && (forall|q: int|
                        0 <= q < active.len() && (#[trigger] active[q]).issue == onto ==> q == p)
                        && claim.base_issue == Some(onto) && claim.base_claim_id == Some(
                        active[p].claim_id,
                    ) && claim.base_ref == active[p].branch && claim.base_remote
                        == active[p].base_remote && exists|tip: String| #[trigger]
                        tip_found(runner, repository.main_worktree@, active[p].branch, Ok(tip))
                            && claim.base_sha == tip@,
            }
        }),
{
    let (base, refs, target) = settled_on(runner, repository, ground, site, begun);
    let active = views(site.active@);
    if let StartingPoint::Onto(onto) = ground.start {
        let test = |claim: ClaimView| claim.issue == onto;
        let found = claims_on(active, onto);
        assert(found == active.filter(test));
        active.lemma_filter_pred(test, 0);
        assert(active.filter(test).contains(found[0]));
        active.lemma_filter_contains_rev(test, found[0]);
        let p = active.index_of(found[0]);
        assert(active[p] == found[0]);
        assert forall|q: int| 0 <= q < active.len() && (#[trigger] active[q]).issue == onto implies q
            == p by {
            if q != p {
                several_on_issue(active, onto, p, q);
            }
        }
        let tip = choose|tip: Result<String, LifecycleError>| #[trigger]
            tip_found(runner, repository.main_worktree@, found[0].branch, tip) && tip is Ok
                && base@.base.sha == tip->Ok_0@ && base@.base.reference == found[0].branch
                && base@.base.remote == found[0].base_remote && base@.parent == Some(
                (found[0].issue, found[0].claim_id),
            );
        assert(tip_found(runner, repository.main_worktree@, active[p].branch, Ok(tip->Ok_0)));
    }
}

proof fn several_on_issue(active: Seq<ClaimView>, issue: IssueNumber, a: int, b: int)
    requires
        0 <= a < active.len(),
        0 <= b < active.len(),
        a != b,
        active[a].issue == issue,
        active[b].issue == issue,
    ensures
        claims_on(active, issue).len() > 1,
    decreases active.len(),
{
    reveal(Seq::filter);
    let test = |claim: ClaimView| claim.issue == issue;
    let front = active.drop_last();
    assert(claims_on(active, issue) == active.filter(test));
    assert(claims_on(front, issue) == front.filter(test));
    let last = active.len() - 1;
    if a < last && b < last {
        assert(front[a] == active[a] && front[b] == active[b]);
        several_on_issue(front, issue, a, b);
    } else {
        let other = if a == last {
            b
        } else {
            a
        };
        assert(front[other] == active[other]);
        front.lemma_filter_contains(test, other);
        assert(front.filter(test).len() > 0);
    }
}

/// A claim that is committed in the end is the one that began: it records what was asked for, under
/// the same identifier, for the same issue, on the same branch and the same base.
pub proof fn committed_claims_record_what_was_asked<R: CommandRunner>(
    runner: &R,
    repository: RepositoryContext,
    ground: Groundwork,
    site: ClaimSite,
    begun: ClaimBeginning,
    shelf: Shelf,
    events: Seq<EventView>,
    claim: ClaimView,
)
    requires
        claim_begun(runner, repository, ground, site, Ok(begun)),
        course_fits(begun.transaction@, shelf, events),
        course(begun.transaction@, shelf, events).action == ActionView::Commit(claim),
    ensures
        ({
            let start = begun.transaction@.claim;
            &&& records_request(claim, ground.options@)
            &&& claim.wait_for == start.wait_for
            &&& claim.issue == ground.issue && claim.claim_id == ground.claim_id
            &&& claim.repo == repository.repository@ && claim.title == optional(ground.title)
            &&& claim.branch == start.branch && claim.base_remote == start.base_remote
                && claim.base_ref == start.base_ref && claim.base_sha == start.base_sha
                && claim.base_issue == start.base_issue && claim.base_claim_id
                == start.base_claim_id
            &&& same_path(claim.worktree, start.worktree) || (
            !begun.transaction@.adopted_worktree && found_at(events, claim.worktree))
            &&& course(begun.transaction@, shelf, events).shelf.claims == shelf.claims.push(claim)
        }),
{
    begun_claims_record_what_was_asked(runner, repository, ground, site, begun);
    let start = begun.transaction@;
    claims_stay_on_course(start, shelf, events);
    commits_end(start, shelf, events);
}

/// What is laid out for a claim: what was asked for, and a branch that names the issue and the
/// generation. The issue may not depend on itself, nor be told twice of the same issue.
pub proof fn groundwork_keeps_what_was_asked<R: CommandRunner>(
    runner: &R,
    repository: RepositoryContext,
    config: ConfigView,
    issue: IssueNumber,
    options: OptionsView,
    claim_id: Id,
    ground: Groundwork,
)
    requires
        groundwork_laid(runner, repository, config, issue, options, claim_id, Ok(ground)),
    ensures
        ground.options@ == options,
        ground.issue == issue && ground.claim_id == claim_id,
        ground.branch@ == "envoy/issue-"@ + decimal(issue as nat) + "-"@ + short_text(claim_id),
        options.onto is Some ==> ground.start == StartingPoint::Onto(options.onto->0),
        options.onto is None ==> exists|base: ResolvedBase| #[trigger]
            base_resolved(runner, repository.current_worktree@, config, Ok(base)) && ground.start
                == StartingPoint::Resolved(base),
        options.onto != Some(issue),
        forall|i: int| 0 <= i < options.after.len() ==> #[trigger] options.after[i] != issue,
        forall|i: int|
            0 <= i < options.after.len() ==> options.onto != Some(#[trigger] options.after[i]),
        forall|i: int, j: int|
            0 <= i < j < options.after.len() ==> #[trigger] options.after[i]
                != #[trigger] options.after[j],
{
    assert(relationship_fault(issue, options.onto, options.after) is None);
    no_dependency_fault(options.onto, options.after, 0);
    assert forall|i: int| 0 <= i < options.after.len() implies #[trigger] options.after[i]
        != issue by {
        if options.after[i] == issue {
            assert(options.after.contains(issue));
        }
    }
    if options.onto is None {
        let base = choose|base: Result<ResolvedBase, LifecycleError>| #[trigger]
            base_resolved(runner, repository.current_worktree@, config, base) && base is Ok
                && ground.start == StartingPoint::Resolved(base->Ok_0);
        assert(base_resolved(runner, repository.current_worktree@, config, Ok(base->Ok_0)));
    }
}

proof fn no_dependency_fault(onto: Option<IssueNumber>, after: Seq<IssueNumber>, from: nat)
    requires
        dependency_fault(onto, after, from) is None,
    ensures
        forall|i: int| from <= i < after.len() ==> onto != Some(#[trigger] after[i]),
        forall|i: int, j: int|
            0 <= i < j < after.len() && from <= j ==> #[trigger] after[i] != #[trigger] after[j],
    decreases after.len() - from,
{
    if from < after.len() {
        no_dependency_fault(onto, after, from + 1);
        assert forall|i: int, j: int|
            0 <= i < j < after.len() && from <= j implies #[trigger] after[i]
            != #[trigger] after[j] by {
            if j == from && after[i] == after[j] {
                assert(after.take(from as int)[i] == after[j]);
                assert(after.take(from as int).contains(after[from as int]));
            }
        }
    }
}

/// The worktree that is laid out for a claim is named after the repository, the issue and the
/// generation, and stands in the configured directory, or else beside the main worktree.
pub proof fn worktrees_are_laid_out<R: CommandRunner>(
    runner: &R,
    repository: RepositoryContext,
    config: ConfigView,
    issue: IssueNumber,
    options: OptionsView,
    claim_id: Id,
    ground: Groundwork,
)
    requires
        groundwork_laid(runner, repository, config, issue, options, claim_id, Ok(ground)),
    ensures
        ({
            let name = bare_name(repository.repository@) + "-issue-"@ + decimal(issue as nat)
                + "-"@ + short_text(claim_id);
            &&& absolute(ground.worktree@)
            &&& config.worktree_root matches Some(root) ==> ground.worktree@ == joined_path(
                root,
                name,
            )
            &&& config.worktree_root is None ==> (parent_of(repository.main_worktree@) matches Some(
                beside,
            ) && ground.worktree@ == joined_path(beside, name))
        }),
{
}

/// The warnings of a claim that begins are those that were met before, and then those on its base.
pub proof fn begun_claims_pass_on_warnings<R: CommandRunner>(
    runner: &R,
    repository: RepositoryContext,
    ground: Groundwork,
    site: ClaimSite,
    begun: ClaimBeginning,
)
    requires
        claim_begun(runner, repository, ground, site, Ok(begun)),
    ensures
        ground.start matches StartingPoint::Resolved(base) ==> views(begun.warnings@) == views(
            ground.warnings@,
        ) + base@.warnings,
        ground.start is Onto ==> views(begun.warnings@) == views(ground.warnings@),
{
    let (base, refs, target) = settled_on(runner, repository, ground, site, begun);
    assert(views(ground.warnings@) + Seq::<Seq<char>>::empty() =~= views(ground.warnings@));
}

/// An issue that depends on itself, or is told twice of an issue, is refused; no other request is
/// refused on that account.
pub proof fn twisted_requests_are_refused(
    issue: IssueNumber,
    onto: Option<IssueNumber>,
    after: Seq<IssueNumber>,
)
    ensures
        relationship_fault(issue, onto, after) is Some <==> {
            ||| onto == Some(issue)
            ||| exists|i: int| 0 <= i < after.len() && #[trigger] after[i] == issue
            ||| exists|i: int| 0 <= i < after.len() && onto == Some(#[trigger] after[i])
            ||| exists|i: int, j: int|
                0 <= i < j < after.len() && #[trigger] after[i] == #[trigger] after[j]
        },
{
    if exists|i: int| 0 <= i < after.len() && #[trigger] after[i] == issue {
        let i = choose|i: int| 0 <= i < after.len() && #[trigger] after[i] == issue;
        assert(after.contains(issue));
    }
    if relationship_fault(issue, onto, after) is None {
        no_dependency_fault(onto, after, 0);
    } else if onto != Some(issue) && !after.contains(issue) {
        some_dependency_fault(onto, after, 0);
    }
}

proof fn some_dependency_fault(onto: Option<IssueNumber>, after: Seq<IssueNumber>, from: nat)
    requires
        dependency_fault(onto, after, from) is Some,
    ensures
        (exists|i: int| 0 <= i < after.len() && onto == Some(#[trigger] after[i])) || (exists|
            i: int,
            j: int,
        |
            0 <= i < j < after.len() && #[trigger] after[i] == #[trigger] after[j]),
    decreases after.len() - from,
{
    let front = after.take(from as int);
    let here = after[from as int];
    if front.contains(here) {
        let i = front.index_of(here);
        assert(after[i] == after[from as int]);
    } else if onto != Some(here) {
        some_dependency_fault(onto, after, from + 1);
    }
}

/// A claim is let through where its issue is open, where it is closed and that was overridden, and
/// where GitHub could not be asked; it is refused where the issue is closed otherwise, and where
/// there is none. The title is GitHub's. Where the issue is not known to be open, a warning says so.
pub proof fn only_open_issues_are_claimed(
    issue: IssueNumber,
    force: bool,
    observed: IssueObservationView,
    result: Result<(Option<Seq<char>>, Seq<Seq<char>>), LifecycleError>,
)
    requires
        gate_outcome(issue, force, observed, result),
    ensures
        result is Ok <==> (match observed {
            IssueObservationView::Available(found) => found.state is Open || force,
            IssueObservationView::NotFound => false,
            IssueObservationView::Unavailable => true,
        }),
        result is Err ==> result->Err_0 is Refused,
        result matches Ok((title, warnings)) ==> {
            &&& observed matches IssueObservationView::Available(found) ==> title == Some(
                found.title,
            )
            &&& observed is Unavailable ==> title is None
            &&& warnings.len() == 0 <==> (observed matches IssueObservationView::Available(found)
                && found.state is Open)
        },
{
}

/// Whether GitHub, asked for an issue, did not say that there is none.
pub open spec fn is_known<R: CommandRunner>(
    runner: &R,
    cwd: Seq<char>,
    repository: Seq<char>,
    issue: IssueNumber,
) -> bool {
    exists|observed: GithubIssueObservation| #[trigger]
        issue_observed(runner, cwd, repository, issue, Ok(observed)) && observed@ !is NotFound
}

/// What a claim passes on GitHub before anything is laid out for it: its own issue, in its own
/// repository, and each issue that it is to wait for, none of which may be missing.
pub proof fn groundwork_rests_on_known_issues<R: CommandRunner>(
    runner: &R,
    repository: RepositoryContext,
    config: ConfigView,
    issue: IssueNumber,
    options: OptionsView,
    claim_id: Id,
    ground: Groundwork,
)
    requires
        groundwork_laid(runner, repository, config, issue, options, claim_id, Ok(ground)),
    ensures
        !repository.on_github() ==> ground.title is None && ground.warnings@.len() == 0,
        repository.on_github() ==> exists|observed: GithubIssueObservation| #[trigger]
            issue_observed(
                runner,
                repository.main_worktree@,
                repository.repository@,
                issue,
                Ok(observed),
            ) && (match observed@ {
                IssueObservationView::Available(found) => (found.state is Open || options.force)
                    && optional(ground.title) == Some(found.title),
                IssueObservationView::NotFound => false,
                IssueObservationView::Unavailable => ground.title is None,
            }),
        repository.on_github() ==> forall|i: int|
            0 <= i < options.after.len() ==> is_known(
                runner,
                repository.main_worktree@,
                repository.repository@,
                #[trigger] options.after[i],
            ),
{
    let gate = choose|gate: Result<(Option<String>, Vec<String>), LifecycleError>| #[trigger]
        gate_passed(runner, repository, issue, options, gate) && gate is Ok && ground.title
            == gate->Ok_0.0 && ground.warnings == gate->Ok_0.1;
    if repository.on_github() {
        let observed = choose|observed: Result<GithubIssueObservation, GithubIssueError>| #[trigger]
            issue_observed(
                runner,
                repository.main_worktree@,
                repository.repository@,
                issue,
                observed,
            ) && observed is Ok && gate_decided(
                runner,
                repository,
                issue,
                options,
                observed->Ok_0@,
                gate,
            );
        let seen = observed->Ok_0;
        assert(issue_observed(
            runner,
            repository.main_worktree@,
            repository.repository@,
            issue,
            Ok(seen),
        ));
        let own = choose|own: Result<(Option<String>, Vec<String>), LifecycleError>| #[trigger]
            gate_outcome(issue, options.force, seen@, gate_view(own)) && match own {
                Err(_) => gate == own,
                Ok(_) => exists|others: Result<(), LifecycleError>| #[trigger]
                    dependencies_asked(
                        runner,
                        repository.main_worktree@,
                        repository.repository@,
                        options.after,
                        others,
                    ) && match others {
                        Ok(()) => gate == own,
                        Err(error) => gate == Err::<(Option<String>, Vec<String>), _>(error),
                    },
            };
        only_open_issues_are_claimed(issue, options.force, seen@, gate_view(own));
        let others = choose|others: Result<(), LifecycleError>| #[trigger]
            dependencies_asked(
                runner,
                repository.main_worktree@,
                repository.repository@,
                options.after,
                others,
            ) && match others {
                Ok(()) => gate == own,
                Err(error) => gate == Err::<(Option<String>, Vec<String>), _>(error),
            };
        assert(others is Ok);
        assert forall|i: int| 0 <= i < options.after.len() implies is_known(
            runner,
            repository.main_worktree@,
            repository.repository@,
            #[trigger] options.after[i],
        ) by {
            assert(dependency_there(
                runner,
                repository.main_worktree@,
                repository.repository@,
                options.after[i],
            ));
        }
    }
}

/// A claim may be made exactly where no active claim has its issue, its branch or its worktree.
pub proof fn reservations_are_free(
    active: Seq<ClaimView>,
    issue: IssueNumber,
    branch: Seq<char>,
    worktree: Seq<char>,
    result: Result<(), LifecycleError>,
)
    requires
        reservation(active, issue, branch, worktree, result),
    ensures
        result is Ok <==> forall|a: int|
            0 <= a < active.len() ==> (#[trigger] active[a]).issue != issue && active[a].branch
                != branch && !same_path(active[a].worktree, worktree),
        result matches Err(LifecycleError::AlreadyClaimed { issue: held, claim_id }) ==> held
            == issue && exists|a: int|
            0 <= a < active.len() && (#[trigger] active[a]).issue == issue && active[a].claim_id
                == claim_id,
        (exists|a: int| 0 <= a < active.len() && (#[trigger] active[a]).issue == issue) ==> (
        result matches Err(error) && error is AlreadyClaimed),
{
    firsts_are_there(active, issue, branch, worktree);
}

proof fn firsts_are_there(
    active: Seq<ClaimView>,
    issue: IssueNumber,
    branch: Seq<char>,
    worktree: Seq<char>,
)
    ensures
        match first_on_issue(active, issue) {
            Some(claim) => exists|a: int|
                0 <= a < active.len() && #[trigger] active[a] == claim && claim.issue == issue,
            None => forall|a: int| 0 <= a < active.len() ==> (#[trigger] active[a]).issue != issue,
        },
        match first_on_branch(active, branch) {
            Some(claim) => exists|a: int|
                0 <= a < active.len() && #[trigger] active[a] == claim && claim.branch == branch,
            None => forall|a: int|
                0 <= a < active.len() ==> (#[trigger] active[a]).branch != branch,
        },
        match first_in_worktree(active, worktree) {
            Some(claim) => exists|a: int|
                0 <= a < active.len() && #[trigger] active[a] == claim && same_path(
                    claim.worktree,
                    worktree,
                ),
            None => forall|a: int|
                0 <= a < active.len() ==> !same_path((#[trigger] active[a]).worktree, worktree),
        },
    decreases active.len(),
{
    if active.len() > 0 {
        let rest = active.drop_first();
        firsts_are_there(rest, issue, branch, worktree);
        assert forall|a: int| 0 < a < active.len() implies #[trigger] active[a] == rest[a - 1] by {}
        if active[0].issue != issue {
            if let Some(claim) = first_on_issue(rest, issue) {
                let a = choose|a: int|
                    0 <= a < rest.len() && #[trigger] rest[a] == claim && claim.issue == issue;
                assert(active[a + 1] == claim);
            }
        } else {
            assert(active[0] == first_on_issue(active, issue)->0);
        }
        if active[0].branch != branch {
            if let Some(claim) = first_on_branch(rest, branch) {
                let a = choose|a: int|
                    0 <= a < rest.len() && #[trigger] rest[a] == claim && claim.branch == branch;
                assert(active[a + 1] == claim);
            }
        } else {
            assert(active[0] == first_on_branch(active, branch)->0);
        }
        if !same_path(active[0].worktree, worktree) {
            if let Some(claim) = first_in_worktree(rest, worktree) {
                let a = choose|a: int|
                    0 <= a < rest.len() && #[trigger] rest[a] == claim && same_path(
                        claim.worktree,
                        worktree,
                    );
                assert(active[a + 1] == claim);
            }
        } else {
            assert(active[0] == first_in_worktree(active, worktree)->0);
        }
    }
}

} // verus!
