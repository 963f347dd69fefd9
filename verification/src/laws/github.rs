//! What GitHub's answers make of a claim.
use vstd::prelude::*;

use crate::command::CommandRunner;
use crate::diagnosis::{
    github_advice, github_checked, issue_advice, pull_request_advice, Advice,
};
use crate::doctor::{gate_rollup, CheckGate};
use crate::github::{
    issue_observed, pull_request_observed, GithubIssueObservation, GithubPullRequestObservation,
    IssueObservationView, PullRequestObservationView, PullRequestView,
};
use crate::laws::gates::{gates_tell_the_worst_of_their_checks, holds_up};
use crate::model::ClaimView;
use crate::text::{ascending_texts, ascending_texts_are_sorted, decimal};

verus! {

/// The name of the check that compares bases.
proof fn check_names_differ()
    ensures
        "publish.pr_base"@ != "publish.issue_state"@,
{
    reveal_strlit("publish.pr_base");
    reveal_strlit("publish.issue_state");
    assert("publish.pr_base"@.len() != "publish.issue_state"@.len());
}

/// The check on the pull request of a claim, whatever the state of the pull request: it passes
/// where the base of the pull request is that of the claim, and fails where it is another. Such a
/// failure holds up publishing.
pub proof fn pull_request_bases_decide_on_publishing(
    claim: ClaimView,
    issue: IssueObservationView,
    pull_request: PullRequestView,
)
    ensures
        ({
            let found = github_advice(
                claim,
                issue,
                PullRequestObservationView::Available(Some(pull_request)),
            );
            &&& exists|k: int|
                0 <= k < found.checks.len() && (#[trigger] found.checks[k]).id
                    == "publish.pr_base"@
            &&& forall|k: int|
                0 <= k < found.checks.len() && (#[trigger] found.checks[k]).id
                    == "publish.pr_base"@ ==> {
                    &&& found.checks[k].gate is Publish
                    &&& found.checks[k].required
                    &&& found.checks[k].status is Pass <==> pull_request.base == claim.base_ref
                    &&& found.checks[k].status is Fail <==> pull_request.base != claim.base_ref
                }
            &&& pull_request.base != claim.base_ref ==> holds_up(
                gate_rollup(found.checks, CheckGate::Publish),
            )
        }),
{
    check_names_differ();
    let found = github_advice(
        claim,
        issue,
        PullRequestObservationView::Available(Some(pull_request)),
    );
    gates_tell_the_worst_of_their_checks(found.checks, CheckGate::Publish);
    assert(found.checks.len() == 2);
    assert(found.checks[0].id == "publish.issue_state"@);
    assert(found.checks[1].id == "publish.pr_base"@);
}

/// Where no pull request was found, or none could be asked for, the check on it is skipped and
/// holds up nothing.
pub proof fn absent_pull_requests_hold_nothing_up(
    claim: ClaimView,
    issue: IssueObservationView,
    pull_request: PullRequestObservationView,
)
    requires
        !(pull_request matches PullRequestObservationView::Available(Some(_))),
    ensures
        ({
            let found = github_advice(claim, issue, pull_request);
            &&& exists|k: int|
                0 <= k < found.checks.len() && (#[trigger] found.checks[k]).id
                    == "publish.pr_base"@
            &&& forall|k: int|
                0 <= k < found.checks.len() && (#[trigger] found.checks[k]).id
                    == "publish.pr_base"@ ==> found.checks[k].status is Skip
                    && !found.checks[k].required && found.checks[k].gate is Publish
        }),
{
    check_names_differ();
    let found = github_advice(claim, issue, pull_request);
    assert(found.checks.len() == 2);
    assert(found.checks[0].id == "publish.issue_state"@);
    assert(found.checks[1].id == "publish.pr_base"@);
}

/// The check on the issue of a claim: it passes where the issue is open, warns where it is closed,
/// fails where there is no such issue, and is skipped where GitHub could not be asked. Nothing but
/// a missing issue keeps from publishing.
pub proof fn issues_decide_on_publishing(
    claim: ClaimView,
    issue: IssueObservationView,
    pull_request: PullRequestObservationView,
)
    ensures
        ({
            let found = github_advice(claim, issue, pull_request);
            &&& exists|k: int|
                0 <= k < found.checks.len() && (#[trigger] found.checks[k]).id
                    == "publish.issue_state"@
            &&& forall|k: int|
                0 <= k < found.checks.len() && (#[trigger] found.checks[k]).id
                    == "publish.issue_state"@ ==> {
                    &&& found.checks[k].gate is Publish
                    &&& found.checks[k].status is Pass <==> (issue matches
                        IssueObservationView::Available(seen) && seen.state is Open)
                    &&& found.checks[k].status is Warn <==> (issue matches
                        IssueObservationView::Available(seen) && seen.state is Closed)
                    &&& found.checks[k].status is Fail <==> issue is NotFound
                    &&& found.checks[k].status is Skip <==> issue is Unavailable
                    &&& issue is Unavailable ==> !found.checks[k].required
                }
            &&& issue is NotFound ==> holds_up(gate_rollup(found.checks, CheckGate::Publish))
        }),
{
    check_names_differ();
    let found = github_advice(claim, issue, pull_request);
    gates_tell_the_worst_of_their_checks(found.checks, CheckGate::Publish);
    assert(found.checks.len() == 2);
    assert(found.checks[0].id == "publish.issue_state"@);
    assert(found.checks[1].id == "publish.pr_base"@);
}

/// What is recommended on account of GitHub's answers: to release the claim as merged exactly where
/// its pull request is merged, and as closed exactly where its issue is closed.
pub proof fn ended_work_is_to_be_released(
    claim: ClaimView,
    issue: IssueObservationView,
    pull_request: PullRequestObservationView,
)
    ensures
        ({
            let found = github_advice(claim, issue, pull_request);
            let start = "Release idempotently: gh envoy release "@ + decimal(claim.issue as nat)
                + " --reason "@;
            &&& found.recommendations.contains(start + "merged"@) <==> (pull_request matches
                PullRequestObservationView::Available(Some(seen)) && seen.state is Merged)
            &&& found.recommendations.contains(start + "closed"@) <==> (issue matches
                IssueObservationView::Available(seen) && seen.state is Closed)
            &&& forall|k: int|
                0 <= k < found.recommendations.len() ==> (#[trigger] found.recommendations[k]
                    == start + "merged"@ || found.recommendations[k] == start + "closed"@)
        }),
{
    let found = github_advice(claim, issue, pull_request);
    let start = "Release idempotently: gh envoy release "@ + decimal(claim.issue as nat)
        + " --reason "@;
    let merged = start + "merged"@;
    let closed = start + "closed"@;
    reveal_strlit("merged");
    reveal_strlit("closed");
    assert(merged[start.len() as int] == 'm');
    assert(closed[start.len() as int] == 'c');
    let about_issue = issue_advice(claim, issue).recommendations;
    let about_request = pull_request_advice(claim, pull_request).recommendations;
    let both = about_issue + about_request;
    ascending_texts_are_sorted(both);
    assert(found.recommendations == ascending_texts(both));
    if pull_request matches PullRequestObservationView::Available(Some(seen)) && seen.state is Merged {
        assert(both[about_issue.len() as int] == merged);
    }
    if issue matches IssueObservationView::Available(seen) && seen.state is Closed {
        assert(both[0] == closed);
    }
    assert forall|k: int| 0 <= k < found.recommendations.len() implies (
    #[trigger] found.recommendations[k] == merged || found.recommendations[k] == closed) by {
        assert(both.contains(found.recommendations[k]));
    }
}

/// What the checks of a claim rest on: the issue is the one that the claim is for, the pull request
/// the one of its branch, both asked of its repository. A pull request with another base than the
/// claim's keeps from publishing, one with that base passes.
pub proof fn claims_are_checked_against_their_own_pull_request<R: CommandRunner>(
    runner: &R,
    cwd: Seq<char>,
    repository: Seq<char>,
    claim: ClaimView,
    found: Advice,
)
    requires
        github_checked(runner, cwd, repository, claim, found),
    ensures
        exists|issue: GithubIssueObservation, pull_request: GithubPullRequestObservation| #[trigger]
            issue_observed(runner, cwd, repository, claim.issue, Ok(issue))
                && #[trigger] pull_request_observed(
                runner,
                cwd,
                repository,
                claim.branch,
                Ok(pull_request),
            ) && (issue@ is NotFound ==> holds_up(gate_rollup(found.checks, CheckGate::Publish)))
                && match pull_request@ {
                PullRequestObservationView::Available(Some(seen)) => {
                    &&& seen.base != claim.base_ref ==> holds_up(
                        gate_rollup(found.checks, CheckGate::Publish),
                    )
                    &&& forall|k: int|
                        0 <= k < found.checks.len() && (#[trigger] found.checks[k]).id
                            == "publish.pr_base"@ && seen.base == claim.base_ref
                            ==> found.checks[k].status is Pass
                },
                _ => true,
            },
{
    let (issue, pull_request) = choose|
        issue: GithubIssueObservation,
        pull_request: GithubPullRequestObservation,
    | #[trigger]
        issue_observed(runner, cwd, repository, claim.issue, Ok(issue))
            && #[trigger] pull_request_observed(
            runner,
            cwd,
            repository,
            claim.branch,
            Ok(pull_request),
        ) && found == github_advice(claim, issue@, pull_request@);
    issues_decide_on_publishing(claim, issue@, pull_request@);
    if let PullRequestObservationView::Available(Some(seen)) = pull_request@ {
        pull_request_bases_decide_on_publishing(claim, issue@, seen);
    }
}

} // verus!
