//! GitHub: what is known there of an issue, and of the pull request of a branch.
use vstd::prelude::*;
use vstd::string::*;

use crate::answer::{items_in, list_items, parse_record, record_in, slices};
use crate::command::{answers, arguments, command, CommandOutput, CommandRunner, RunnerError};
use crate::git::GithubCli;
use crate::id::IssueNumber;
use crate::json::{
    field_of, is_open_record, json_document, open_shape, parse_json, record_field, Json, JsonView,
};
use crate::record::{
    bool_in, optional_text_in, read_bool, read_optional_text, read_text, read_unsigned, text_in,
    unsigned_in,
};
use crate::text::{
    chars_of, contains, decimal, decimal_text, holds, lossy, lossy_text, optional, quote, quoted,
    same, views,
};

verus! {

#[derive(Clone, Copy, Debug, PartialEq, Eq, Structural)]
pub enum GithubIssueState {
    Open,
    Closed,
}

#[derive(Debug)]
pub struct GithubIssue {
    pub title: String,
    pub state: GithubIssueState,
}

/// What GitHub says of an issue.
#[derive(Debug)]
pub enum GithubIssueObservation {
    Available(GithubIssue),
    NotFound,
    Unavailable,
}

#[derive(Clone, Copy, Debug, PartialEq, Eq, Structural)]
pub enum GithubPullRequestState {
    Open,
    Closed,
    Merged,
}

#[derive(Debug)]
pub struct GithubPullRequest {
    pub number: u64,
    pub url: String,
    pub head: String,
    pub base: String,
    pub state: GithubPullRequestState,
    pub draft: bool,
}

/// What GitHub says of the pull request of a branch.
#[derive(Debug)]
pub enum GithubPullRequestObservation {
    Available(Option<GithubPullRequest>),
    Unavailable,
}

/// Why an answer of GitHub makes no sense.
#[derive(Debug)]
pub enum GithubIssueError {
    Json(String),
    UnknownState(String),
    UnknownPullRequestState(String),
}

impl GithubIssueError {
    pub open spec fn text(self) -> Seq<char> {
        match self {
            GithubIssueError::Json(problem) => "GitHub issue query returned invalid JSON: "@
                + problem@,
            GithubIssueError::UnknownState(state) => "GitHub issue query returned unknown state "@
                + quoted(state@),
            GithubIssueError::UnknownPullRequestState(state) =>
                "GitHub pull request query returned unknown state "@ + quoted(state@),
        }
    }

    pub fn message(&self) -> (text: String)
        ensures
            text@ == self.text(),
    {
        match self {
            GithubIssueError::Json(problem) => {
                let mut text = "GitHub issue query returned invalid JSON: ".to_owned();
                text.append(problem.as_str());
                text
            },
            GithubIssueError::UnknownState(state) => {
                let mut text = "GitHub issue query returned unknown state ".to_owned();
                text.append(quote(state.as_str()).as_str());
                text
            },
            GithubIssueError::UnknownPullRequestState(state) => {
                let mut text = "GitHub pull request query returned unknown state ".to_owned();
                text.append(quote(state.as_str()).as_str());
                text
            },
        }
    }
}

// ---------------------------------------------------------------------------------------------
// Issues
// ---------------------------------------------------------------------------------------------
pub struct IssueView {
    pub title: Seq<char>,
    pub state: GithubIssueState,
}

pub enum IssueObservationView {
    Available(IssueView),
    NotFound,
    Unavailable,
}

impl View for GithubIssueObservation {
    type V = IssueObservationView;

    open spec fn view(&self) -> IssueObservationView {
        match self {
            GithubIssueObservation::Available(issue) => IssueObservationView::Available(
                IssueView { title: issue.title@, state: issue.state },
            ),
            GithubIssueObservation::NotFound => IssueObservationView::NotFound,
            GithubIssueObservation::Unavailable => IssueObservationView::Unavailable,
        }
    }
}

/// The text with the capital letters of ASCII as small ones.
pub open spec fn lowered(text: Seq<char>) -> Seq<char> {
    Seq::new(text.len(), |i: int| lowered_char(text[i]))
}

pub open spec fn lowered_char(c: char) -> char {
    if 'A' <= c && c <= 'Z' {
        ((c as u8) + 32) as char
    } else {
        c
    }
}

fn lower(text: &str) -> (result: String)
    ensures
        result@ == lowered(text@),
{
    let chars = chars_of(text);
    let mut result = String::new();
    let mut i: usize = 0;
    while i < chars.len()
        invariant
            i <= chars.len(),
            chars@ == text@,
            result@ == lowered(text@.take(i as int)),
        decreases chars.len() - i,
    {
        let c = chars[i];
        if 'A' <= c && c <= 'Z' {
            result.push(((c as u8) + 32) as char);
        } else {
            result.push(c);
        }
        i = i + 1;
        assert(lowered(text@.take(i as int)) =~= lowered(text@.take(i - 1)).push(
            lowered_char(text@[i - 1]),
        ));
    }
    assert(text@.take(i as int) =~= text@);
    result
}

pub open spec fn issue_args(repository: Seq<char>, issue: IssueNumber) -> Seq<Seq<char>> {
    seq![
        "issue"@,
        "view"@,
        decimal(issue as nat),
        "--repo"@,
        repository,
        "--json"@,
        "state,title"@,
    ]
}

pub open spec fn issue_answer_fields() -> Seq<Seq<char>> {
    seq!["state"@, "title"@]
}

/// What is said of an answer that is JSON but not of the shape that was asked for. Which part of it
/// is amiss stays unsaid.
pub open spec fn unexpected() -> Seq<char> {
    "unexpected shape"@
}

/// What is said of an answer that cannot be read: what makes it no JSON, or else that it is not of
/// the shape that was asked for.
pub open spec fn complaint(stdout: Seq<u8>) -> Seq<char> {
    match json_document(stdout) {
        Err(problem) => problem,
        Ok(_) => unexpected(),
    }
}

fn complain(stdout: &Vec<u8>) -> (error: GithubIssueError)
    ensures
        error matches GithubIssueError::Json(message) && message@ == complaint(stdout@),
{
    match parse_json(stdout) {
        Err(problem) => GithubIssueError::Json(problem),
        Ok(_) => GithubIssueError::Json("unexpected shape".to_owned()),
    }
}

/// Whether `gh` said that there is no such issue.
pub open spec fn says_not_found(stderr: Seq<u8>) -> bool {
    holds(lowered(lossy(stderr)), "could not resolve to an issue"@)
}

/// What an answer of `gh` says of an issue: nothing where it could not be asked; that there is no
/// such issue where it says so; and else what it printed.
pub open spec fn issue_outcome(
    answer: Result<CommandOutput, RunnerError>,
    result: Result<GithubIssueObservation, GithubIssueError>,
) -> bool {
    match answer {
        Err(_) => result matches Ok(GithubIssueObservation::Unavailable),
        Ok(output) => if output.exit_code != Some(0i32) {
            if says_not_found(output.stderr@) {
                result matches Ok(GithubIssueObservation::NotFound)
            } else {
                result matches Ok(GithubIssueObservation::Unavailable)
            }
        } else {
            match record_in(output.stdout@, issue_answer_fields()) {
                Some(value) => issue_reading(value, result),
                None => result matches Err(GithubIssueError::Json(message)) && message@
                    == complaint(output.stdout@),
            }
        },
    }
}

/// What a record that `gh` printed says of an issue.
pub open spec fn issue_reading(
    value: JsonView,
    result: Result<GithubIssueObservation, GithubIssueError>,
) -> bool {
    let names = issue_answer_fields();
    let state = text_in(record_field(value, names, 0));
    let title = text_in(record_field(value, names, 1));
    if !open_shape(value, names) || state is None || title is None {
        result matches Err(GithubIssueError::Json(message)) && message@ == unexpected()
    } else if state->0 == "OPEN"@ {
        result matches Ok(observed) && observed@ == IssueObservationView::Available(
            IssueView { title: title->0, state: GithubIssueState::Open },
        )
    } else if state->0 == "CLOSED"@ {
        result matches Ok(observed) && observed@ == IssueObservationView::Available(
            IssueView { title: title->0, state: GithubIssueState::Closed },
        )
    } else {
        result matches Err(GithubIssueError::UnknownState(found)) && found@ == state->0
    }
}

/// Reads what `gh` printed of an issue.
pub fn read_issue_answer(value: &Json) -> (result: Result<GithubIssueObservation, GithubIssueError>)
    ensures
        issue_reading(value@, result),
{
    let names: Vec<&str> = vec!["state", "title"];
    assert(views(names@) =~= issue_answer_fields());
    if !is_open_record(value, &names) {
        return Err(GithubIssueError::Json("unexpected shape".to_owned()));
    }
    let state = match read_text(field_of(value, &names, 0)) {
        Some(state) => state,
        None => return Err(GithubIssueError::Json("unexpected shape".to_owned())),
    };
    let title = match read_text(field_of(value, &names, 1)) {
        Some(title) => title,
        None => return Err(GithubIssueError::Json("unexpected shape".to_owned())),
    };
    if same(state.as_str(), "OPEN") {
        Ok(GithubIssueObservation::Available(GithubIssue { title, state: GithubIssueState::Open }))
    } else if same(state.as_str(), "CLOSED") {
        Ok(GithubIssueObservation::Available(GithubIssue { title, state: GithubIssueState::Closed }))
    } else {
        Err(GithubIssueError::UnknownState(state))
    }
}

/// Reads what became of asking `gh` for an issue.
pub fn interpret_issue(answer: Result<CommandOutput, RunnerError>) -> (result: Result<
    GithubIssueObservation,
    GithubIssueError,
>)
    ensures
        issue_outcome(answer, result),
{
    let output = match answer {
        Ok(output) => output,
        Err(_) => return Ok(GithubIssueObservation::Unavailable),
    };
    let success = match output.exit_code {
        Some(code) => code == 0,
        None => false,
    };
    if !success {
        let stderr = lower(lossy_text(output.stderr.as_slice()).as_str());
        if contains(stderr.as_str(), "could not resolve to an issue") {
            return Ok(GithubIssueObservation::NotFound);
        }
        return Ok(GithubIssueObservation::Unavailable);
    }
    let names: Vec<&str> = vec!["state", "title"];
    assert(views(names@) =~= issue_answer_fields());
    match parse_record(output.stdout.as_slice(), &names) {
        Some(value) => read_issue_answer(&value),
        None => Err(complain(&output.stdout)),
    }
}

/// Whether asking a runner for an issue may come to that result.
pub open spec fn issue_observed<R: CommandRunner>(
    runner: &R,
    cwd: Seq<char>,
    repository: Seq<char>,
    issue: IssueNumber,
    result: Result<GithubIssueObservation, GithubIssueError>,
) -> bool {
    exists|answer: Result<CommandOutput, RunnerError>| #[trigger]
        answers(runner, command("gh"@, issue_args(repository, issue), cwd), answer)
            && issue_outcome(answer, result)
}

/// Asks GitHub for the state and the title of an issue, by one command and no other.
pub fn observe_issue<R: CommandRunner>(
    runner: &R,
    cwd: &str,
    repository: &str,
    issue: IssueNumber,
) -> (result: Result<GithubIssueObservation, GithubIssueError>)
    requires
        runner.permits(command("gh"@, issue_args(repository@, issue), cwd@)),
    ensures
        issue_observed(runner, cwd@, repository@, issue, result),
{
    let number = decimal_text(issue);
    let args: Vec<&str> = vec![
        "issue",
        "view",
        number.as_str(),
        "--repo",
        repository,
        "--json",
        "state,title",
    ];
    assert(views(args@) =~= issue_args(repository@, issue));
    let answer = GithubCli::new(runner).attempt(cwd, arguments(&args));
    interpret_issue(answer)
}

// ---------------------------------------------------------------------------------------------
// Pull requests
// ---------------------------------------------------------------------------------------------
pub struct PullRequestView {
    pub number: u64,
    pub url: Seq<char>,
    pub head: Seq<char>,
    pub base: Seq<char>,
    pub state: GithubPullRequestState,
    pub draft: bool,
}

impl View for GithubPullRequest {
    type V = PullRequestView;

    open spec fn view(&self) -> PullRequestView {
        PullRequestView {
            number: self.number,
            url: self.url@,
            head: self.head@,
            base: self.base@,
            state: self.state,
            draft: self.draft,
        }
    }
}

pub enum PullRequestObservationView {
    Available(Option<PullRequestView>),
    Unavailable,
}

impl View for GithubPullRequestObservation {
    type V = PullRequestObservationView;

    open spec fn view(&self) -> PullRequestObservationView {
        match self {
            GithubPullRequestObservation::Available(found) => PullRequestObservationView::Available(
                optional(*found),
            ),
            GithubPullRequestObservation::Unavailable => PullRequestObservationView::Unavailable,
        }
    }
}

pub open spec fn pull_request_args(repository: Seq<char>, branch: Seq<char>) -> Seq<Seq<char>> {
    seq![
        "pr"@,
        "list"@,
        "--repo"@,
        repository,
        "--head"@,
        branch,
        "--state"@,
        "all"@,
        "--json"@,
        "number,url,headRefName,baseRefName,state,isDraft,mergedAt"@,
    ]
}

pub open spec fn listed_fields() -> Seq<Seq<char>> {
    seq![
        "number"@,
        "url"@,
        "headRefName"@,
        "baseRefName"@,
        "state"@,
        "isDraft"@,
        "mergedAt"@,
    ]
}

/// A pull request as `gh` lists it.
pub struct ListedView {
    pub number: u64,
    pub url: Seq<char>,
    pub head: Seq<char>,
    pub base: Seq<char>,
    pub state: Seq<char>,
    pub draft: bool,
    pub merged: bool,
}

struct Listed {
    number: u64,
    url: String,
    head: String,
    base: String,
    state: String,
    draft: bool,
    merged: bool,
}

impl Listed {
    spec fn meaning(self) -> ListedView {
        ListedView {
            number: self.number,
            url: self.url@,
            head: self.head@,
            base: self.base@,
            state: self.state@,
            draft: self.draft,
            merged: self.merged,
        }
    }
}

/// The pull request that a listed value stands for.
pub open spec fn listed_in(value: JsonView) -> Option<ListedView> {
    let names = listed_fields();
    let number = unsigned_in(record_field(value, names, 0));
    let url = text_in(record_field(value, names, 1));
    let head = text_in(record_field(value, names, 2));
    let base = text_in(record_field(value, names, 3));
    let state = text_in(record_field(value, names, 4));
    let draft = bool_in(record_field(value, names, 5));
    let merged_at = optional_text_in(record_field(value, names, 6));
    if open_shape(value, names) && number is Some && url is Some && head is Some && base is Some
        && state is Some && draft is Some && merged_at is Some {
        Some(
            ListedView {
                number: number->0,
                url: url->0,
                head: head->0,
                base: base->0,
                state: state->0,
                draft: draft->0,
                merged: merged_at->0 is Some,
            },
        )
    } else {
        None
    }
}

fn read_listed(value: &Json) -> (result: Option<Listed>)
    ensures
        match result {
            Some(listed) => listed_in(value@) == Some(listed.meaning()),
            None => listed_in(value@) is None,
        },
{
    let names: Vec<&str> = vec![
        "number",
        "url",
        "headRefName",
        "baseRefName",
        "state",
        "isDraft",
        "mergedAt",
    ];
    assert(views(names@) =~= listed_fields());
    if !is_open_record(value, &names) {
        return None;
    }
    let number: u64 = read_unsigned(field_of(value, &names, 0))?;
    let url = read_text(field_of(value, &names, 1))?;
    let head = read_text(field_of(value, &names, 2))?;
    let base = read_text(field_of(value, &names, 3))?;
    let state = read_text(field_of(value, &names, 4))?;
    let draft = read_bool(field_of(value, &names, 5))?;
    let merged_at = read_optional_text(field_of(value, &names, 6))?;
    Some(Listed { number, url, head, base, state, draft, merged: merged_at.is_some() })
}

/// The first listed pull request from that very branch.
pub open spec fn listed_from(values: Seq<JsonView>, branch: Seq<char>) -> Option<ListedView>
    decreases values.len(),
{
    if values.len() == 0 {
        None
    } else if listed_in(values[0]) is Some && listed_in(values[0])->0.head == branch {
        listed_in(values[0])
    } else {
        listed_from(values.drop_first(), branch)
    }
}

/// The state of a listed pull request: merged where it says when, else what it says.
pub open spec fn listed_state(listed: ListedView) -> Option<GithubPullRequestState> {
    if listed.merged || listed.state == "MERGED"@ {
        Some(GithubPullRequestState::Merged)
    } else if listed.state == "OPEN"@ {
        Some(GithubPullRequestState::Open)
    } else if listed.state == "CLOSED"@ {
        Some(GithubPullRequestState::Closed)
    } else {
        None
    }
}

/// The records of listed pull requests, where each of them is one.
pub open spec fn records_of(items: Seq<Seq<u8>>) -> Option<Seq<JsonView>>
    decreases items.len(),
{
    if items.len() == 0 {
        Some(Seq::empty())
    } else {
        match (records_of(items.drop_last()), record_in(items.last(), listed_fields())) {
            (Some(front), Some(record)) => Some(front.push(record)),
            _ => None,
        }
    }
}

pub open spec fn listed_records(stdout: Seq<u8>) -> Option<Seq<JsonView>> {
    match items_in(stdout) {
        Some(items) => records_of(items),
        None => None,
    }
}

proof fn no_record_stays_none(items: Seq<Seq<u8>>, end: int)
    requires
        0 <= end <= items.len(),
        records_of(items.take(end)) is None,
    ensures
        records_of(items) is None,
    decreases items.len(),
{
    if end < items.len() {
        assert(items.drop_last().take(end) =~= items.take(end));
        no_record_stays_none(items.drop_last(), end);
    } else {
        assert(items.take(end) =~= items);
    }
}

fn parse_listed(stdout: &Vec<u8>) -> (records: Option<Vec<Json>>)
    ensures
        match records {
            Some(records) => listed_records(stdout@) == Some(views(records@)),
            None => listed_records(stdout@) is None,
        },
{
    let items = list_items(stdout.as_slice())?;
    let names: Vec<&str> = vec![
        "number",
        "url",
        "headRefName",
        "baseRefName",
        "state",
        "isDraft",
        "mergedAt",
    ];
    assert(views(names@) =~= listed_fields());
    let ghost all = slices(items@);
    let mut records: Vec<Json> = Vec::new();
    let mut i: usize = 0;
    assert(views(records@) =~= Seq::empty());
    assert(all.take(0) =~= Seq::empty());
    while i < items.len()
        invariant
            i <= items.len(),
            all == slices(items@),
            items_in(stdout@) == Some(all),
            views(names@) == listed_fields(),
            records_of(all.take(i as int)) == Some(views(records@)),
        decreases items.len() - i,
    {
        let ghost done = views(records@);
        assert(all.take(i + 1).drop_last() =~= all.take(i as int));
        assert(all.take(i + 1).last() == items@[i as int]@);
        match parse_record(items[i], &names) {
            Some(record) => {
                let ghost added = record@;
                records.push(record);
                assert(views(records@) =~= done.push(added));
            },
            None => {
                proof {
                    no_record_stays_none(all, i + 1);
                }
                return None;
            },
        }
        i = i + 1;
    }
    assert(all.take(i as int) =~= all);
    Some(records)
}

/// What the records that `gh` printed say of the pull request of a branch.
pub open spec fn pull_request_reading(
    values: Seq<JsonView>,
    branch: Seq<char>,
    result: Result<GithubPullRequestObservation, GithubIssueError>,
) -> bool {
    if exists|i: int| 0 <= i < values.len() && listed_in(#[trigger] values[i]) is None {
        result matches Err(GithubIssueError::Json(message)) && message@ == unexpected()
    } else {
        match listed_from(values, branch) {
            None => result matches Ok(observed) && observed@
                == PullRequestObservationView::Available(None),
            Some(listed) => match listed_state(listed) {
                Some(state) => result matches Ok(observed) && observed@
                    == PullRequestObservationView::Available(
                    Some(
                        PullRequestView {
                            number: listed.number,
                            url: listed.url,
                            head: listed.head,
                            base: listed.base,
                            state,
                            draft: listed.draft,
                        },
                    ),
                ),
                None => result matches Err(GithubIssueError::UnknownPullRequestState(state))
                    && state@ == listed.state,
            },
        }
    }
}

/// Reads what `gh` printed of the pull requests of a branch.
pub fn read_pull_request_answer(values: &Vec<Json>, branch: &str) -> (result: Result<
    GithubPullRequestObservation,
    GithubIssueError,
>)
    ensures
        pull_request_reading(views(values@), branch@, result),
{
    let ghost all = views(values@);
    let mut found: Option<Listed> = None;
    let mut i: usize = 0;
    assert(all.skip(0) =~= all);
    while i < values.len()
        invariant
            i <= values.len(),
            all == views(values@),
            forall|j: int| 0 <= j < i ==> listed_in(#[trigger] all[j]) is Some,
            match found {
                Some(listed) => listed_from(all, branch@) == Some(listed.meaning()),
                None => listed_from(all, branch@) == listed_from(all.skip(i as int), branch@),
            },
        decreases values.len() - i,
    {
        assert(all[i as int] == values@[i as int]@);
        assert(all.skip(i as int)[0] == all[i as int]);
        assert(all.skip(i as int).drop_first() =~= all.skip(i + 1));
        match read_listed(&values[i]) {
            Some(listed) => {
                if found.is_none() && same(listed.head.as_str(), branch) {
                    found = Some(listed);
                }
            },
            None => {
                assert(listed_in(all[i as int]) is None);
                return Err(GithubIssueError::Json("unexpected shape".to_owned()));
            },
        }
        i = i + 1;
    }
    let listed = match found {
        Some(listed) => listed,
        None => {
            assert(all.skip(i as int).len() == 0);
            return Ok(GithubPullRequestObservation::Available(None));
        },
    };
    let state = if listed.merged || same(listed.state.as_str(), "MERGED") {
        GithubPullRequestState::Merged
    } else if same(listed.state.as_str(), "OPEN") {
        GithubPullRequestState::Open
    } else if same(listed.state.as_str(), "CLOSED") {
        GithubPullRequestState::Closed
    } else {
        return Err(GithubIssueError::UnknownPullRequestState(listed.state));
    };
    Ok(
        GithubPullRequestObservation::Available(
            Some(
                GithubPullRequest {
                    number: listed.number,
                    url: listed.url,
                    head: listed.head,
                    base: listed.base,
                    state,
                    draft: listed.draft,
                },
            ),
        ),
    )
}

/// What an answer of `gh` says of the pull request of a branch: nothing where it could not be
/// asked, and else what it printed.
pub open spec fn pull_request_outcome(
    answer: Result<CommandOutput, RunnerError>,
    branch: Seq<char>,
    result: Result<GithubPullRequestObservation, GithubIssueError>,
) -> bool {
    match answer {
        Err(_) => result matches Ok(GithubPullRequestObservation::Unavailable),
        Ok(output) => if output.exit_code != Some(0i32) {
            result matches Ok(GithubPullRequestObservation::Unavailable)
        } else {
            match listed_records(output.stdout@) {
                Some(values) => pull_request_reading(values, branch, result),
                None => result matches Err(GithubIssueError::Json(message)) && message@
                    == complaint(output.stdout@),
            }
        },
    }
}

/// Reads what became of asking `gh` for the pull requests of a branch.
pub fn interpret_pull_request(answer: Result<CommandOutput, RunnerError>, branch: &str) -> (result:
    Result<GithubPullRequestObservation, GithubIssueError>)
    ensures
        pull_request_outcome(answer, branch@, result),
{
    let output = match answer {
        Ok(output) => output,
        Err(_) => return Ok(GithubPullRequestObservation::Unavailable),
    };
    let success = match output.exit_code {
        Some(code) => code == 0,
        None => false,
    };
    if !success {
        return Ok(GithubPullRequestObservation::Unavailable);
    }
    match parse_listed(&output.stdout) {
        Some(values) => read_pull_request_answer(&values, branch),
        None => Err(complain(&output.stdout)),
    }
}

/// Whether asking a runner for the pull request of a branch may come to that result.
pub open spec fn pull_request_observed<R: CommandRunner>(
    runner: &R,
    cwd: Seq<char>,
    repository: Seq<char>,
    branch: Seq<char>,
    result: Result<GithubPullRequestObservation, GithubIssueError>,
) -> bool {
    exists|answer: Result<CommandOutput, RunnerError>| #[trigger]
        answers(runner, command("gh"@, pull_request_args(repository, branch), cwd), answer)
            && pull_request_outcome(answer, branch, result)
}

/// Asks GitHub for the pull request of a branch, by one command and no other.
pub fn observe_pull_request<R: CommandRunner>(
    runner: &R,
    cwd: &str,
    repository: &str,
    branch: &str,
) -> (result: Result<GithubPullRequestObservation, GithubIssueError>)
    requires
        runner.permits(command("gh"@, pull_request_args(repository@, branch@), cwd@)),
    ensures
        pull_request_observed(runner, cwd@, repository@, branch@, result),
{
    let args: Vec<&str> = vec![
        "pr",
        "list",
        "--repo",
        repository,
        "--head",
        branch,
        "--state",
        "all",
        "--json",
        "number,url,headRefName,baseRefName,state,isDraft,mergedAt",
    ];
    assert(views(args@) =~= pull_request_args(repository@, branch@));
    let answer = GithubCli::new(runner).attempt(cwd, arguments(&args));
    interpret_pull_request(answer, branch)
}

} // verus!
