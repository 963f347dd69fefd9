//! What is made of GitHub's answers.
use vstd::prelude::*;

use crate::answer::record_in;
use crate::command::{answers, command, CommandOutput, CommandRunner, RunnerError};
use crate::github::{
    issue_answer_fields, issue_args, issue_observed, issue_outcome, listed_fields, listed_from,
    listed_in, listed_records, lowered, pull_request_args, pull_request_observed,
    pull_request_outcome, pull_request_reading, GithubIssueError, GithubIssueObservation,
    GithubPullRequestObservation, IssueObservationView, PullRequestObservationView, PullRequestView,
};
use crate::id::IssueNumber;
use crate::json::{member, JsonView};
use crate::text::{decimal, holds, lossy};

verus! {

/// Asking GitHub for an issue of a repository.
pub open spec fn asking_for_issue(repository: Seq<char>, issue: IssueNumber) -> Seq<Seq<char>> {
    seq![
        "issue"@,
        "view"@,
        decimal(issue as nat),
        "--repo"@,
        repository,
        "--json"@,
        "state,title"@,
    ]
}

/// Asking GitHub for the pull requests, in any state, of a branch of a repository.
pub open spec fn asking_for_pull_requests(repository: Seq<char>, branch: Seq<char>) -> Seq<
    Seq<char>,
> {
    seq![
        "pr"@,
        "list"@,
        "--repo"@,
        repository,
        "--head"@,
        branch,
        "--state"@,
        "all"@,
        "--json"@,
        "number,url,headRefName,baseRefName,state,isDraft,mergedAt"@,
    ]
}

/// What is made of the answer on an issue. Where GitHub could not be asked, or failed, nothing is
/// known, but that there is no such issue where it said so. Otherwise the issue has the title that
/// the answer gives, and is open exactly where the answer says `OPEN` and closed exactly where it
/// says `CLOSED`.
pub proof fn issues_are_what_github_says(
    answer: Result<CommandOutput, RunnerError>,
    observed: GithubIssueObservation,
)
    requires
        issue_outcome(answer, Ok(observed)),
    ensures
        answer is Err ==> observed@ is Unavailable,
        answer matches Ok(output) ==> {
            &&& output.exit_code != Some(0i32) ==> (observed@ is NotFound <==> holds(
                lowered(lossy(output.stderr@)),
                "could not resolve to an issue"@,
            )) && (observed@ is NotFound || observed@ is Unavailable)
            &&& output.exit_code == Some(0i32) ==> observed@ is Available
        },
        observed@ matches IssueObservationView::Available(found) ==> (answer matches Ok(output)
            && output.exit_code == Some(0i32) && (record_in(
            output.stdout@,
            issue_answer_fields(),
        ) matches Some(value) && (value matches JsonView::Object(members) ==> {
            &&& member(members, "title"@) == Some(JsonView::Text(found.title))
            &&& found.state is Open <==> member(members, "state"@) == Some(
                JsonView::Text("OPEN"@),
            )
            &&& found.state is Closed <==> member(members, "state"@) == Some(
                JsonView::Text("CLOSED"@),
            )
        }))),
{
    assert(issue_answer_fields()[0] == "state"@ && issue_answer_fields()[1] == "title"@);
    reveal_strlit("OPEN");
    reveal_strlit("CLOSED");
    assert("OPEN"@.len() != "CLOSED"@.len());
}

/// What is observed of an issue is what GitHub answers on that issue of that repository.
pub proof fn issues_are_asked_for<R: CommandRunner>(
    runner: &R,
    cwd: Seq<char>,
    repository: Seq<char>,
    issue: IssueNumber,
    result: Result<GithubIssueObservation, GithubIssueError>,
)
    requires
        issue_observed(runner, cwd, repository, issue, result),
    ensures
        exists|answer: Result<CommandOutput, RunnerError>| #[trigger]
            answers(runner, command("gh"@, asking_for_issue(repository, issue), cwd), answer)
                && issue_outcome(answer, result),
{
    assert(issue_args(repository, issue) =~= asking_for_issue(repository, issue));
}

/// What is observed of a pull request is what GitHub answers on that branch of that repository,
/// whatever the state of the pull request.
pub proof fn pull_requests_are_asked_for<R: CommandRunner>(
    runner: &R,
    cwd: Seq<char>,
    repository: Seq<char>,
    branch: Seq<char>,
    result: Result<GithubPullRequestObservation, GithubIssueError>,
)
    requires
        pull_request_observed(runner, cwd, repository, branch, result),
    ensures
        exists|answer: Result<CommandOutput, RunnerError>| #[trigger]
            answers(
                runner,
                command("gh"@, asking_for_pull_requests(repository, branch), cwd),
                answer,
            ) && pull_request_outcome(answer, branch, result),
{
    assert(pull_request_args(repository, branch) =~= asking_for_pull_requests(repository, branch));
}

/// Whether a pull request is the one that a record tells of: merged where it has a time of merging
/// or says `MERGED`, and otherwise open or closed as it says.
pub open spec fn is_listed_as(
    members: Seq<(Seq<char>, JsonView)>,
    found: PullRequestView,
) -> bool {
    let merged = (member(members, "mergedAt"@) matches Some(at) && at is Text) || member(
        members,
        "state"@,
    ) == Some(JsonView::Text("MERGED"@));
    &&& member(members, "number"@) == Some(JsonView::Unsigned(found.number))
    &&& member(members, "url"@) == Some(JsonView::Text(found.url))
    &&& member(members, "headRefName"@) == Some(JsonView::Text(found.head))
    &&& member(members, "baseRefName"@) == Some(JsonView::Text(found.base))
    &&& member(members, "isDraft"@) == Some(JsonView::Bool(found.draft))
    &&& found.state is Merged <==> merged
    &&& found.state is Open <==> !merged && member(members, "state"@) == Some(
        JsonView::Text("OPEN"@),
    )
    &&& found.state is Closed <==> !merged && member(members, "state"@) == Some(
        JsonView::Text("CLOSED"@),
    )
}

/// Whether a record tells of the head branch that was asked for.
pub open spec fn has_head(value: JsonView, branch: Seq<char>) -> bool {
    value matches JsonView::Object(members) && member(members, "headRefName"@) == Some(
        JsonView::Text(branch),
    )
}

proof fn listed_from_is_the_first(values: Seq<JsonView>, branch: Seq<char>)
    ensures
        match listed_from(values, branch) {
            Some(listed) => listed.head == branch && exists|k: int|
                0 <= k < values.len() && listed_in(#[trigger] values[k]) == Some(listed) && forall|
                    j: int,
                |
                    0 <= j < k ==> !(listed_in(#[trigger] values[j]) matches Some(other)
                        && other.head == branch),
            None => forall|k: int|
                0 <= k < values.len() ==> !(listed_in(#[trigger] values[k]) matches Some(other)
                    && other.head == branch),
        },
    decreases values.len(),
{
    if values.len() > 0 {
        let rest = values.drop_first();
        listed_from_is_the_first(rest, branch);
        assert forall|k: int| 0 < k < values.len() implies #[trigger] values[k] == rest[k - 1] by {}
        if listed_in(values[0]) matches Some(other) && other.head == branch {
            assert(listed_in(values[0]) == listed_from(values, branch));
        } else if let Some(listed) = listed_from(rest, branch) {
            let k = choose|k: int|
                0 <= k < rest.len() && listed_in(#[trigger] rest[k]) == Some(listed) && forall|
                    j: int,
                |
                    0 <= j < k ==> !(listed_in(#[trigger] rest[j]) matches Some(other) && other.head
                        == branch);
            assert(listed_in(values[k + 1]) == Some(listed));
            assert forall|j: int| 0 <= j < k + 1 implies !(listed_in(
                #[trigger] values[j],
            ) matches Some(other) && other.head == branch) by {
                if j > 0 {
                    assert(rest[j - 1] == values[j]);
                }
            }
        }
    }
}

/// Of the listed pull requests the first is taken whose head is exactly the branch, and is taken as
/// it is listed. None is taken exactly where no listed pull request has that head.
pub proof fn pull_requests_are_what_github_lists(
    values: Seq<JsonView>,
    branch: Seq<char>,
    observed: GithubPullRequestObservation,
)
    requires
        pull_request_reading(values, branch, Ok(observed)),
        forall|k: int| 0 <= k < values.len() ==> (#[trigger] values[k]) is Object,
    ensures
        observed@ is Available,
        observed@ matches PullRequestObservationView::Available(Some(found)) ==> found.head == branch
            && exists|k: int|
            0 <= k < values.len() && is_listed_as((#[trigger] values[k])->Object_0, found) && forall|
                j: int,
            |
                0 <= j < k ==> !has_head(#[trigger] values[j], branch),
        observed@ == PullRequestObservationView::Available(None) <==> forall|k: int|
            0 <= k < values.len() ==> !has_head(#[trigger] values[k], branch),
{
    let names = listed_fields();
    assert(names[0] == "number"@ && names[1] == "url"@ && names[2] == "headRefName"@ && names[3]
        == "baseRefName"@ && names[4] == "state"@ && names[5] == "isDraft"@ && names[6]
        == "mergedAt"@);
    reveal_strlit("OPEN");
    reveal_strlit("CLOSED");
    reveal_strlit("MERGED");
    assert("OPEN"@.len() == 4 && "CLOSED"@.len() == 6 && "MERGED"@.len() == 6);
    assert("CLOSED"@[0] == 'C' && "MERGED"@[0] == 'M');
    listed_from_is_the_first(values, branch);
    assert forall|k: int| 0 <= k < values.len() implies listed_in(#[trigger] values[k]) is Some && (
    listed_in(values[k])->0.head == branch <==> has_head(values[k], branch)) by {}
    if let Some(listed) = listed_from(values, branch) {
        let k = choose|k: int|
            0 <= k < values.len() && listed_in(#[trigger] values[k]) == Some(listed) && forall|
                j: int,
            |
                0 <= j < k ==> !(listed_in(#[trigger] values[j]) matches Some(other) && other.head
                    == branch);
        assert(has_head(values[k], branch));
        if let PullRequestObservationView::Available(Some(found)) = observed@ {
            assert(is_listed_as(values[k]->Object_0, found));
            assert forall|j: int| 0 <= j < k implies !has_head(#[trigger] values[j], branch) by {
                assert(listed_in(values[j]) is Some);
            }
        }
    }
}

/// Where GitHub could not be asked, or failed, nothing is known of pull requests.
pub proof fn unanswered_pull_requests_are_unavailable(
    answer: Result<CommandOutput, RunnerError>,
    branch: Seq<char>,
    result: Result<GithubPullRequestObservation, GithubIssueError>,
)
    requires
        pull_request_outcome(answer, branch, result),
    ensures
        (result matches Ok(observed) && observed@ is Unavailable) <==> (answer is Err || (
        answer matches Ok(output) && output.exit_code != Some(0i32))),
{
    if let Ok(output) = answer {
        if output.exit_code == Some(0i32) {
            if let Some(values) = listed_records(output.stdout@) {
                assert(pull_request_reading(values, branch, result));
            }
        }
    }
}

} // verus!
