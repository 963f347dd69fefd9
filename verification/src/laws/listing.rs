//! What a status lists of a repository.
use vstd::prelude::*;

use crate::command::CommandRunner;
use crate::github::{
    issue_observed, pull_request_observed, GithubIssueObservation, GithubPullRequestObservation,
    PullRequestObservationView,
};
use crate::laws::sight::repositories_are_seen_whole;
use crate::laws::status::{
    statuses_show_claims_as_recorded, statuses_show_pull_requests_as_they_are,
    statuses_tell_whether_github_answered, statuses_warn_of_what_github_tells,
};
use crate::model::ClaimView;
use crate::observation::{
    repository_observed, LocalObservation, ObservationError, ObservationView, Surroundings,
};
use crate::status::{
    claim_statused, status_got, status_made, status_of, ClaimStatusView, GithubFacts, StatusReport,
};
use crate::store::{active, Ledger};
use crate::text::views;

verus! {

/// Whether a status shows what GitHub answered on the issue and the branch of its claim: its pull
/// request as it is, or none, and a warning where its base is not that of the claim.
pub open spec fn shows_github<R: CommandRunner>(
    runner: &R,
    surroundings: Surroundings,
    claim: ClaimView,
    shown: ClaimStatusView,
) -> bool {
    exists|issue: GithubIssueObservation, pull_request: GithubPullRequestObservation| #[trigger]
        issue_observed(
            runner,
            surroundings.repository.main_worktree@,
            surroundings.repository.repository@,
            claim.issue,
            Ok(issue),
        ) && #[trigger] pull_request_observed(
            runner,
            surroundings.repository.main_worktree@,
            surroundings.repository.repository@,
            claim.branch,
            Ok(pull_request),
        ) && (match pull_request@ {
            PullRequestObservationView::Available(Some(found)) => shown.pr is Some && (
            shown.pr->0.state is Open <==> found.state is Open) && (shown.pr->0.state is Closed
                <==> found.state is Closed) && (shown.pr->0.state is Merged <==> found.state
                is Merged) && shown.pr->0.number == found.number && shown.pr->0.base == found.base
                && shown.pr->0.head == found.head && shown.pr->0.url == found.url
                && shown.pr->0.draft == found.draft && (found.base != claim.base_ref
                ==> shown.stack_warnings.len() > 0),
            _ => shown.pr is None,
        }) && (issue@ is NotFound ==> shown.stack_warnings.len() > 0) && (
        shown.github_state is Unavailable <==> issue@ is Unavailable || pull_request@
            is Unavailable)
}

proof fn claims_are_statused<R: CommandRunner>(
    runner: &R,
    surroundings: Surroundings,
    observed: ObservationView,
    redact: bool,
    shown: ClaimStatusView,
)
    requires
        claim_statused(runner, surroundings, observed, redact, shown),
    ensures
        surroundings.repository.on_github() ==> shows_github(
            runner,
            surroundings,
            observed.claim,
            shown,
        ),
        !surroundings.repository.on_github() ==> shown.pr is None && shown.github_state is Unverified
            && shown.stack_warnings.len() == 0,
        shown.claim.claim_id == observed.claim.claim_id,
        shown.claim.issue == observed.claim.issue,
        !redact ==> shown.claim.worktree == observed.claim.worktree,
        shown.overlaps == observed.overlaps,
        shown.scope_warnings == observed.scope_warnings,
{
    if surroundings.repository.on_github() {
        let (issue, pull_request) = choose|
            issue: GithubIssueObservation,
            pull_request: GithubPullRequestObservation,
        | #[trigger]
            issue_observed(
                runner,
                surroundings.repository.main_worktree@,
                surroundings.repository.repository@,
                observed.claim.issue,
                Ok(issue),
            ) && #[trigger] pull_request_observed(
                runner,
                surroundings.repository.main_worktree@,
                surroundings.repository.repository@,
                observed.claim.branch,
                Ok(pull_request),
            ) && shown == status_of(
                observed,
                Some(GithubFacts { issue: issue@, pull_request: pull_request@ }),
                redact,
            );
        let facts = Some(GithubFacts { issue: issue@, pull_request: pull_request@ });
        statuses_show_pull_requests_as_they_are(observed, facts, redact);
        statuses_warn_of_what_github_tells(observed, facts, redact);
        statuses_tell_whether_github_answered(observed, facts, redact);
        statuses_show_claims_as_recorded(observed, facts, redact);
    } else {
        statuses_tell_whether_github_answered(observed, None, redact);
        statuses_show_claims_as_recorded(observed, None, redact);
    }
}

/// A status shows every claim that is active, in the order of the records, and no other; each with
/// what was observed of it and what GitHub says of its issue and its branch. Without GitHub no pull
/// request is shown. Every problem that was met is told.
pub proof fn statuses_show_every_active_claim<R: CommandRunner>(
    runner: &R,
    surroundings: Surroundings,
    ledger: Ledger,
    redact: bool,
    report: StatusReport,
)
    requires
        status_got(runner, surroundings, ledger, redact, Ok(report)),
    ensures
        ({
            let held = active(views(ledger.claims@), views(ledger.releases@));
            &&& report@.claims.len() == held.len()
            &&& forall|i: int|
                0 <= i < held.len() ==> (#[trigger] report@.claims[i]).claim.claim_id
                    == held[i].claim_id && report@.claims[i].claim.issue == held[i].issue
            &&& surroundings.repository.on_github() ==> forall|i: int|
                0 <= i < held.len() ==> shows_github(
                    runner,
                    surroundings,
                    held[i],
                    #[trigger] report@.claims[i],
                )
            &&& !surroundings.repository.on_github() ==> forall|i: int|
                0 <= i < held.len() ==> (#[trigger] report@.claims[i]).pr is None
                    && report@.claims[i].github_state is Unverified
            &&& exists|sight: LocalObservation| #[trigger]
                repository_observed(
                    runner,
                    surroundings,
                    held,
                    views(ledger.operations@),
                    Ok(sight),
                ) && report@.problems.len() == sight@.problems.len() && (!redact ==> report@.problems
                    == sight@.problems) && (forall|i: int|
                    0 <= i < report@.problems.len() ==> (#[trigger] report@.problems[i]).code
                        == sight@.problems[i].code && report@.problems[i].claim_id
                        == sight@.problems[i].claim_id && report@.problems[i].issue
                        == sight@.problems[i].issue) && (forall|i: int|
                    0 <= i < held.len() ==> (#[trigger] report@.claims[i]).overlaps
                        == sight@.claims[i].overlaps && report@.claims[i].scope_warnings
                        == sight@.claims[i].scope_warnings)
        }),
{
    let held = active(views(ledger.claims@), views(ledger.releases@));
    let observation = choose|observation: Result<LocalObservation, ObservationError>| #[trigger]
        repository_observed(
            runner,
            surroundings,
            held,
            views(ledger.operations@),
            observation,
        ) && observation is Ok && status_made(
            runner,
            surroundings,
            observation->Ok_0@,
            redact,
            report@,
        );
    let sight = observation->Ok_0;
    assert(repository_observed(
        runner,
        surroundings,
        held,
        views(ledger.operations@),
        Ok(sight),
    ));
    repositories_are_seen_whole(runner, surroundings, held, views(ledger.operations@), sight);
    assert forall|i: int| 0 <= i < held.len() implies claim_statused(
        runner,
        surroundings,
        sight@.claims[i],
        redact,
        #[trigger] report@.claims[i],
    ) && sight@.claims[i].claim == held[i] by {
        assert(sight@.claims[i].claim == held[i]);
    }
    assert forall|i: int| 0 <= i < held.len() implies (
    #[trigger] report@.claims[i]).claim.claim_id == held[i].claim_id
        && report@.claims[i].claim.issue == held[i].issue && report@.claims[i].overlaps
        == sight@.claims[i].overlaps && report@.claims[i].scope_warnings
        == sight@.claims[i].scope_warnings && (surroundings.repository.on_github() ==> shows_github(
        runner,
        surroundings,
        held[i],
        report@.claims[i],
    )) && (!surroundings.repository.on_github() ==> report@.claims[i].pr is None
        && report@.claims[i].github_state is Unverified) by {
        claims_are_statused(runner, surroundings, sight@.claims[i], redact, report@.claims[i]);
    }
}

} // verus!
