//! What a status shows of a claim.
use vstd::prelude::*;

use crate::github::{IssueObservationView, PullRequestObservationView};
use crate::observation::ObservationView;
use crate::status::{has_findings, status_of, GithubFacts, StatusView};

verus! {

/// The pull request that a status shows is the one that GitHub told of: open exactly where GitHub
/// says that it is open, closed exactly where GitHub says that it is closed, and merged exactly
/// where GitHub says that it is merged; number, address, branches and draft are those that GitHub
/// gave. Where GitHub told of none, or was not asked, none is shown.
pub proof fn statuses_show_pull_requests_as_they_are(
    observed: ObservationView,
    facts: Option<GithubFacts>,
    redact: bool,
)
    ensures
        ({
            let shown = status_of(observed, facts, redact).pr;
            match facts {
                Some(GithubFacts {
                    pull_request: PullRequestObservationView::Available(Some(found)),
                    ..
                }) => {
                    &&& shown is Some
                    &&& shown->0.state is Open <==> found.state is Open
                    &&& shown->0.state is Closed <==> found.state is Closed
                    &&& shown->0.state is Merged <==> found.state is Merged
                    &&& shown->0.number == found.number
                    &&& shown->0.url == found.url
                    &&& shown->0.head == found.head
                    &&& shown->0.base == found.base
                    &&& shown->0.draft == found.draft
                },
                _ => shown is None,
            }
        }),
{
}

/// The state of GitHub that a status shows: unverified where it was not asked, unavailable where
/// one of the two questions was not answered, and available otherwise.
pub proof fn statuses_tell_whether_github_answered(
    observed: ObservationView,
    facts: Option<GithubFacts>,
    redact: bool,
)
    ensures
        ({
            let state = status_of(observed, facts, redact).github_state;
            &&& state is Unverified <==> facts is None
            &&& state is Unavailable <==> (facts matches Some(asked) && (asked.issue is Unavailable
                || asked.pull_request is Unavailable))
            &&& state is Available <==> (facts matches Some(asked) && asked.issue !is Unavailable
                && asked.pull_request !is Unavailable)
        }),
{
}

proof fn warning_names_differ()
    ensures
        "github.issue_not_found"@ != "github.pr_base_mismatch"@,
{
    reveal_strlit("github.issue_not_found");
    reveal_strlit("github.pr_base_mismatch");
    assert("github.issue_not_found"@.len() != "github.pr_base_mismatch"@.len());
}

/// A status warns of a missing issue exactly where GitHub does not know the issue of the claim, and
/// of a wrong base exactly where the base of the pull request is not that of the claim, naming the
/// claim that it builds on. It has no other warnings from GitHub.
pub proof fn statuses_warn_of_what_github_tells(
    observed: ObservationView,
    facts: Option<GithubFacts>,
    redact: bool,
)
    ensures
        ({
            let warnings = status_of(observed, facts, redact).stack_warnings;
            let missing = exists|k: int|
                0 <= k < warnings.len() && (#[trigger] warnings[k]).code
                    == "github.issue_not_found"@;
            let wrong = exists|k: int|
                0 <= k < warnings.len() && (#[trigger] warnings[k]).code
                    == "github.pr_base_mismatch"@;
            &&& missing <==> (facts matches Some(asked) && asked.issue is NotFound)
            &&& wrong <==> (facts matches Some(GithubFacts {
                pull_request: PullRequestObservationView::Available(Some(found)),
                ..
            }) && found.base != observed.claim.base_ref)
            &&& forall|k: int|
                0 <= k < warnings.len() ==> {
                    &&& (#[trigger] warnings[k]).issue == observed.claim.issue
                    &&& warnings[k].code == "github.issue_not_found"@ || (warnings[k].code
                        == "github.pr_base_mismatch"@ && warnings[k].related_claim_id
                        == observed.claim.base_claim_id && warnings[k].related_issue
                        == observed.claim.base_issue)
                }
        }),
{
    warning_names_differ();
    let warnings = status_of(observed, facts, redact).stack_warnings;
    if let Some(asked) = facts {
        let about = if asked.issue is NotFound {
            1int
        } else {
            0int
        };
        if asked.issue is NotFound {
            assert(warnings[0].code == "github.issue_not_found"@);
        }
        if let PullRequestObservationView::Available(Some(found)) = asked.pull_request {
            if found.base != observed.claim.base_ref {
                assert(warnings[about].code == "github.pr_base_mismatch"@);
            }
        }
    }
}

/// A status shows the claim as it is recorded. Only a title that was not recorded is filled in from
/// GitHub, and only a worktree that is to be kept out of sight is shortened. What was observed of
/// the claim is shown in full: its overlaps, its warnings on scope and its changes, or none where
/// they could not be read.
pub proof fn statuses_show_claims_as_recorded(
    observed: ObservationView,
    facts: Option<GithubFacts>,
    redact: bool,
)
    ensures
        ({
            let made = status_of(observed, facts, redact);
            let shown = made.claim;
            let claim = observed.claim;
            &&& shown.claim_id == claim.claim_id && shown.issue == claim.issue && shown.repo
                == claim.repo && shown.branch == claim.branch
            &&& shown.base_ref == claim.base_ref && shown.base_sha == claim.base_sha
                && shown.base_issue == claim.base_issue && shown.base_claim_id
                == claim.base_claim_id
            &&& shown.base_remote == claim.base_remote && shown.schema_version
                == claim.schema_version
            &&& shown.note == claim.note && shown.wait_for
                == claim.wait_for && shown.declared_scope == claim.declared_scope
            &&& shown.created_at == claim.created_at
            &&& !redact ==> shown.worktree == claim.worktree
            &&& claim.title is Some ==> shown.title == claim.title
            &&& claim.title is None ==> shown.title == (match facts {
                Some(GithubFacts { issue: IssueObservationView::Available(found), .. }) => Some(
                    found.title,
                ),
                _ => None,
            })
            &&& made.overlaps == observed.overlaps
            &&& made.scope_warnings == observed.scope_warnings
            &&& observed.diff is Some ==> made.diff == observed.diff->0
            &&& observed.diff is None ==> made.diff.changed_paths.len() == 0
                && made.diff.untracked_paths.len() == 0
        }),
{
}

/// A status has warnings exactly where a problem was met, or a claim has a warning on its scope or
/// from GitHub, or an overlap that is more than for information.
pub proof fn statuses_warn_of_findings(status: StatusView)
    ensures
        status.warns() <==> status.problems.len() > 0 || exists|i: int|
            0 <= i < status.claims.len() && ((#[trigger] status.claims[i]).scope_warnings.len() > 0
                || status.claims[i].stack_warnings.len() > 0 || exists|j: int|
                0 <= j < status.claims[i].overlaps.len() && ((
                #[trigger] status.claims[i].overlaps[j]).severity is Warning
                    || status.claims[i].overlaps[j].severity is Blocking)),
{
    if status.warns() && status.problems.len() == 0 {
        let i = choose|i: int|
            0 <= i < status.claims.len() && has_findings(#[trigger] status.claims[i]);
        assert(has_findings(status.claims[i]));
    }
    assert forall|i: int|
        0 <= i < status.claims.len() && ((#[trigger] status.claims[i]).scope_warnings.len() > 0
            || status.claims[i].stack_warnings.len() > 0 || exists|j: int|
            0 <= j < status.claims[i].overlaps.len() && ((
            #[trigger] status.claims[i].overlaps[j]).severity is Warning
                || status.claims[i].overlaps[j].severity is Blocking)) implies has_findings(
        status.claims[i],
    ) by {}
}

} // verus!
