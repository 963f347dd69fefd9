//! Status: the active claims of a repository, and what should be known of them.
use vstd::prelude::*;
use vstd::string::*;

use crate::command::{permits_observing, CommandRunner};
use crate::config::ConfigError;
use crate::conflict::{
    DiffOverlap, OverlapRelationship, OverlapSeverity, OverlapView, ScopeWarning, ScopeWarningView,
};
use crate::diagnosis::{find_problem, first_problem};
use crate::evidence::{relationship_name, relationship_text};
use crate::git::RepositoryError;
use crate::github::{
    issue_observed, observe_issue, observe_pull_request, pull_request_observed, GithubIssueError,
    GithubIssueObservation, GithubPullRequestObservation, GithubPullRequestState,
    IssueObservationView, PullRequestObservationView, PullRequestView,
};
use crate::id::{short_id, short_text, Id, IssueNumber};
use crate::model::{Claim, ClaimView, DeclaredScope, ScopeView};
use crate::observation::{
    no_changes, observe_repository, repository_observed, ClaimObservation, DiffSummary, DiffView,
    LocalObservation, LocalProblem, LocalProblemCode, LocalView, ObservationError, ObservationView,
    ProblemView, Surroundings,
};
use crate::redaction::{redact_message, redacted_message, short_worktree, shortened_worktree};
use crate::store::{active, clone_operations, Ledger};
use crate::terminal::{append_field, field_line, paint, painted};
use crate::text::{
    ascending_texts, chars_of, decimal, decimal_text, join, joined, optional, pairs, quote, quoted,
    same, sorted_distinct, text_of, views,
};

pub use crate::document::status_document;

verus! {

// ---------------------------------------------------------------------------------------------
// What a status tells
// ---------------------------------------------------------------------------------------------
/// What GitHub was found to say.
#[derive(Clone, Copy, Debug, PartialEq, Eq, Structural)]
pub enum GithubState {
    Available,
    Unavailable,
    Unverified,
}

#[derive(Clone, Copy, Debug, PartialEq, Eq, Structural)]
pub enum PrState {
    Open,
    Closed,
    Merged,
}

/// A pull request.
#[derive(Debug)]
pub struct PrSummary {
    pub number: u64,
    pub url: String,
    pub head: String,
    pub base: String,
    pub state: PrState,
    pub draft: bool,
}

pub struct PrView {
    pub number: u64,
    pub url: Seq<char>,
    pub head: Seq<char>,
    pub base: Seq<char>,
    pub state: PrState,
    pub draft: bool,
}

impl View for PrSummary {
    type V = PrView;

    open spec fn view(&self) -> PrView {
        PrView {
            number: self.number,
            url: self.url@,
            head: self.head@,
            base: self.base@,
            state: self.state,
            draft: self.draft,
        }
    }
}

/// Something that should be known of how a claim stands to GitHub.
#[derive(Debug)]
pub struct StackWarning {
    pub code: String,
    pub issue: IssueNumber,
    pub related_issue: Option<IssueNumber>,
    pub related_claim_id: Option<Id>,
    pub message: String,
}

pub struct StackWarningView {
    pub code: Seq<char>,
    pub issue: IssueNumber,
    pub related_issue: Option<IssueNumber>,
    pub related_claim_id: Option<Id>,
    pub message: Seq<char>,
}

impl View for StackWarning {
    type V = StackWarningView;

    open spec fn view(&self) -> StackWarningView {
        StackWarningView {
            code: self.code@,
            issue: self.issue,
            related_issue: self.related_issue,
            related_claim_id: self.related_claim_id,
            message: self.message@,
        }
    }
}

/// One claim of a status.
#[derive(Debug)]
pub struct ClaimStatus {
    pub claim: Claim,
    pub pr: Option<PrSummary>,
    pub github_state: GithubState,
    pub diff: DiffSummary,
    pub overlaps: Vec<DiffOverlap>,
    pub scope_warnings: Vec<ScopeWarning>,
    pub stack_warnings: Vec<StackWarning>,
}

pub struct ClaimStatusView {
    pub claim: ClaimView,
    pub pr: Option<PrView>,
    pub github_state: GithubState,
    pub diff: DiffView,
    pub overlaps: Seq<OverlapView>,
    pub scope_warnings: Seq<ScopeWarningView>,
    pub stack_warnings: Seq<StackWarningView>,
}

impl View for ClaimStatus {
    type V = ClaimStatusView;

    open spec fn view(&self) -> ClaimStatusView {
        ClaimStatusView {
            claim: self.claim@,
            pr: optional(self.pr),
            github_state: self.github_state,
            diff: self.diff@,
            overlaps: views(self.overlaps@),
            scope_warnings: views(self.scope_warnings@),
            stack_warnings: views(self.stack_warnings@),
        }
    }
}

/// The active claims of a repository, and what is wrong.
#[derive(Debug)]
pub struct StatusReport {
    pub claims: Vec<ClaimStatus>,
    pub problems: Vec<LocalProblem>,
}

pub struct StatusView {
    pub claims: Seq<ClaimStatusView>,
    pub problems: Seq<ProblemView>,
}

impl View for StatusReport {
    type V = StatusView;

    open spec fn view(&self) -> StatusView {
        StatusView { claims: views(self.claims@), problems: views(self.problems@) }
    }
}

impl Default for StatusReport {
    fn default() -> (report: Self)
        ensures
            report@ == (StatusView { claims: Seq::empty(), problems: Seq::empty() }),
    {
        let report = StatusReport { claims: Vec::new(), problems: Vec::new() };
        assert(report@.claims =~= Seq::empty());
        assert(report@.problems =~= Seq::empty());
        report
    }
}

/// Whether an overlap is more than informative.
pub open spec fn grave(overlap: OverlapView) -> bool {
    !(overlap.severity is Info)
}

/// Whether a claim has findings of its own.
pub open spec fn has_findings(status: ClaimStatusView) -> bool {
    status.scope_warnings.len() > 0 || status.stack_warnings.len() > 0 || exists|i: int|
        0 <= i < status.overlaps.len() && grave(#[trigger] status.overlaps[i])
}

impl StatusView {
    /// Whether something is wrong, or a claim has findings.
    pub open spec fn warns(self) -> bool {
        self.problems.len() > 0 || exists|i: int|
            0 <= i < self.claims.len() && has_findings(#[trigger] self.claims[i])
    }
}

fn finds_something(status: &ClaimStatus) -> (result: bool)
    ensures
        result == has_findings(status@),
{
    if status.scope_warnings.len() > 0 || status.stack_warnings.len() > 0 {
        return true;
    }
    let ghost all = views(status.overlaps@);
    let mut i: usize = 0;
    while i < status.overlaps.len()
        invariant
            i <= status.overlaps.len(),
            all == views(status.overlaps@),
            forall|j: int| 0 <= j < i ==> !grave(#[trigger] all[j]),
        decreases status.overlaps.len() - i,
    {
        if !matches!(status.overlaps[i].severity, OverlapSeverity::Info) {
            assert(grave(status@.overlaps[i as int]));
            return true;
        }
        i = i + 1;
    }
    false
}

impl StatusReport {
    pub fn has_warnings(&self) -> (result: bool)
        ensures
            result == self@.warns(),
    {
        if self.problems.len() > 0 {
            return true;
        }
        let ghost all = views(self.claims@);
        let mut i: usize = 0;
        while i < self.claims.len()
            invariant
                i <= self.claims.len(),
                all == views(self.claims@),
                forall|j: int| 0 <= j < i ==> !has_findings(#[trigger] all[j]),
            decreases self.claims.len() - i,
        {
            if finds_something(&self.claims[i]) {
                assert(has_findings(self@.claims[i as int]));
                return true;
            }
            i = i + 1;
        }
        false
    }
}

// ---------------------------------------------------------------------------------------------
// Making a status
// ---------------------------------------------------------------------------------------------
pub open spec fn pr_state(state: GithubPullRequestState) -> PrState {
    match state {
        GithubPullRequestState::Open => PrState::Open,
        GithubPullRequestState::Closed => PrState::Closed,
        GithubPullRequestState::Merged => PrState::Merged,
    }
}

pub open spec fn pr_summary(found: PullRequestView) -> PrView {
    PrView {
        number: found.number,
        url: found.url,
        head: found.head,
        base: found.base,
        state: pr_state(found.state),
        draft: found.draft,
    }
}

/// The warning that an issue is not on GitHub.
pub open spec fn missing_issue(claim: ClaimView) -> StackWarningView {
    StackWarningView {
        code: "github.issue_not_found"@,
        issue: claim.issue,
        related_issue: None,
        related_claim_id: None,
        message: "GitHub issue #"@ + decimal(claim.issue as nat)
            + " does not exist or is not reachable in this repository"@,
    }
}

/// The warning that a pull request targets another base than its claim.
pub open spec fn wrong_base(claim: ClaimView, found: PullRequestView) -> StackWarningView {
    StackWarningView {
        code: "github.pr_base_mismatch"@,
        issue: claim.issue,
        related_issue: claim.base_issue,
        related_claim_id: claim.base_claim_id,
        message: "pull request #"@ + decimal(found.number as nat) + " targets "@ + quoted(
            found.base,
        ) + ", expected "@ + quoted(claim.base_ref),
    }
}

/// What GitHub says of a claim: of its issue and of its pull request.
pub struct GithubFacts {
    pub issue: IssueObservationView,
    pub pull_request: PullRequestObservationView,
}

pub open spec fn github_warnings(claim: ClaimView, facts: GithubFacts) -> Seq<StackWarningView> {
    let about_issue = if facts.issue is NotFound {
        seq![missing_issue(claim)]
    } else {
        Seq::empty()
    };
    match facts.pull_request {
        PullRequestObservationView::Available(Some(found)) => if found.base != claim.base_ref {
            about_issue.push(wrong_base(claim, found))
        } else {
            about_issue
        },
        _ => about_issue,
    }
}

/// The claim as it is shown: with the title of its issue where it has none of its own, and with
/// its worktree shortened where that is asked for.
pub open spec fn shown_claim(claim: ClaimView, facts: Option<GithubFacts>, redact: bool) -> ClaimView {
    ClaimView {
        title: match facts {
            Some(GithubFacts { issue: IssueObservationView::Available(found), .. }) => if claim.title
                is None {
                Some(found.title)
            } else {
                claim.title
            },
            _ => claim.title,
        },
        worktree: if redact {
            short_worktree(claim.worktree)
        } else {
            claim.worktree
        },
        ..claim
    }
}

/// The status of a claim, by what was observed of it and by what GitHub says, if it was asked.
pub open spec fn status_of(
    observed: ObservationView,
    facts: Option<GithubFacts>,
    redact: bool,
) -> ClaimStatusView {
    ClaimStatusView {
        claim: shown_claim(observed.claim, facts, redact),
        pr: match facts {
            Some(GithubFacts {
                pull_request: PullRequestObservationView::Available(Some(found)),
                ..
            }) => Some(pr_summary(found)),
            _ => None,
        },
        github_state: match facts {
            None => GithubState::Unverified,
            Some(facts) => if facts.issue is Unavailable || facts.pull_request is Unavailable {
                GithubState::Unavailable
            } else {
                GithubState::Available
            },
        },
        diff: match observed.diff {
            Some(diff) => diff,
            None => no_changes(),
        },
        overlaps: observed.overlaps,
        scope_warnings: observed.scope_warnings,
        stack_warnings: match facts {
            None => Seq::empty(),
            Some(facts) => github_warnings(observed.claim, facts),
        },
    }
}

pub open spec fn facts_of(
    github: Option<(GithubIssueObservation, GithubPullRequestObservation)>,
) -> Option<GithubFacts> {
    match github {
        Some((issue, pull_request)) => Some(
            GithubFacts { issue: issue@, pull_request: pull_request@ },
        ),
        None => None,
    }
}

fn make_missing_issue(issue: IssueNumber) -> (warning: StackWarning)
    ensures
        forall|claim: ClaimView|
            claim.issue == issue ==> warning@ == #[trigger] missing_issue(claim),
{
    let mut message = "GitHub issue #".to_owned();
    message.append(decimal_text(issue).as_str());
    message.append(" does not exist or is not reachable in this repository");
    StackWarning {
        code: "github.issue_not_found".to_owned(),
        issue,
        related_issue: None,
        related_claim_id: None,
        message,
    }
}

fn make_wrong_base(claim: &Claim, number: u64, base: &str) -> (warning: StackWarning)
    ensures
        forall|found: PullRequestView|
            found.number == number && found.base == base@ ==> warning@ == #[trigger] wrong_base(
                claim@,
                found,
            ),
{
    let mut message = "pull request #".to_owned();
    message.append(decimal_text(number).as_str());
    message.append(" targets ");
    message.append(quote(base).as_str());
    message.append(", expected ");
    message.append(quote(claim.base_ref.as_str()).as_str());
    StackWarning {
        code: "github.pr_base_mismatch".to_owned(),
        issue: claim.issue,
        related_issue: claim.base_issue,
        related_claim_id: claim.base_claim_id,
        message,
    }
}

/// Makes the status of a claim.
pub fn claim_status(
    observed: ClaimObservation,
    github: Option<(GithubIssueObservation, GithubPullRequestObservation)>,
    redact: bool,
) -> (status: ClaimStatus)
    ensures
        status@ == status_of(observed@, facts_of(github), redact),
{
    let ghost wanted = status_of(observed@, facts_of(github), redact);
    let ghost seen = observed@;
    let mut claim = observed.claim;
    let mut pr: Option<PrSummary> = None;
    let mut github_state = GithubState::Unverified;
    let mut stack_warnings: Vec<StackWarning> = Vec::new();
    if let Some((issue, pull_request)) = github {
        let unavailable = matches!(issue, GithubIssueObservation::Unavailable) || matches!(
            pull_request,
            GithubPullRequestObservation::Unavailable
        );
        github_state = if unavailable {
            GithubState::Unavailable
        } else {
            GithubState::Available
        };
        match issue {
            GithubIssueObservation::Available(found) => {
                if claim.title.is_none() {
                    claim.title = Some(found.title);
                }
            },
            GithubIssueObservation::NotFound => {
                stack_warnings.push(make_missing_issue(claim.issue));
            },
            GithubIssueObservation::Unavailable => {},
        }
        if let GithubPullRequestObservation::Available(Some(found)) = pull_request {
            if !same(found.base.as_str(), claim.base_ref.as_str()) {
                let warning = make_wrong_base(&claim, found.number, found.base.as_str());
                assert(wrong_base(seen.claim, found@) == wrong_base(claim@, found@));
                stack_warnings.push(warning);
            }
            pr = Some(
                PrSummary {
                    number: found.number,
                    url: found.url,
                    head: found.head,
                    base: found.base,
                    state: match found.state {
                        GithubPullRequestState::Open => PrState::Open,
                        GithubPullRequestState::Closed => PrState::Closed,
                        GithubPullRequestState::Merged => PrState::Merged,
                    },
                    draft: found.draft,
                },
            );
        }
    }
    assert(views(stack_warnings@) =~= wanted.stack_warnings);
    if redact {
        claim.worktree = shortened_worktree(claim.worktree.as_str());
    }
    ClaimStatus {
        claim,
        pr,
        github_state,
        diff: match observed.diff {
            Some(diff) => diff,
            None => DiffSummary::default(),
        },
        overlaps: observed.overlaps,
        scope_warnings: observed.scope_warnings,
        stack_warnings,
    }
}

/// Why there is no status.
#[derive(Debug)]
pub enum StatusError {
    Repository(RepositoryError),
    Config(ConfigError),
    Observation(ObservationError),
    Github(GithubIssueError),
}

impl StatusError {
    pub open spec fn text(self) -> Seq<char> {
        match self {
            StatusError::Repository(error) => error.text(),
            StatusError::Config(error) => error.text(),
            StatusError::Observation(error) => error.text(),
            StatusError::Github(error) => error.text(),
        }
    }

    pub fn message(&self) -> (text: String)
        ensures
            text@ == self.text(),
    {
        match self {
            StatusError::Repository(error) => error.message(),
            StatusError::Config(error) => error.message(),
            StatusError::Observation(error) => error.message(),
            StatusError::Github(error) => error.message(),
        }
    }
}

/// Whether that may be the status of a claim. GitHub is asked only where the remote is on it.
pub open spec fn claim_statused<R: CommandRunner>(
    runner: &R,
    surroundings: Surroundings,
    observed: ObservationView,
    redact: bool,
    status: ClaimStatusView,
) -> bool {
    if surroundings.repository.on_github() {
        exists|issue: GithubIssueObservation, pull_request: GithubPullRequestObservation| #[trigger]
            issue_observed(
                runner,
                surroundings.repository.main_worktree@,
                surroundings.repository.repository@,
                observed.claim.issue,
                Ok(issue),
            ) && #[trigger] pull_request_observed(
                runner,
                surroundings.repository.main_worktree@,
                surroundings.repository.repository@,
                observed.claim.branch,
                Ok(pull_request),
            ) && status == status_of(
                observed,
                Some(GithubFacts { issue: issue@, pull_request: pull_request@ }),
                redact,
            )
    } else {
        status == status_of(observed, None, redact)
    }
}

/// Whether asking GitHub about a claim may fail with that error.
pub open spec fn claim_unstatused<R: CommandRunner>(
    runner: &R,
    surroundings: Surroundings,
    observed: ObservationView,
    error: GithubIssueError,
) -> bool {
    surroundings.repository.on_github() && (issue_observed(
        runner,
        surroundings.repository.main_worktree@,
        surroundings.repository.repository@,
        observed.claim.issue,
        Err(error),
    ) || pull_request_observed(
        runner,
        surroundings.repository.main_worktree@,
        surroundings.repository.repository@,
        observed.claim.branch,
        Err(error),
    ))
}

fn ask_status<R: CommandRunner>(
    runner: &R,
    surroundings: &Surroundings,
    observed: ClaimObservation,
    redact: bool,
) -> (result: Result<ClaimStatus, GithubIssueError>)
    requires
        permits_observing(runner),
    ensures
        match result {
            Ok(status) => claim_statused(runner, *surroundings, observed@, redact, status@),
            Err(error) => claim_unstatused(runner, *surroundings, observed@, error),
        },
{
    let ghost seen = observed@;
    if !surroundings.repository.is_github_remote() {
        return Ok(claim_status(observed, None, redact));
    }
    let cwd = surroundings.repository.main_worktree.as_str();
    let name = surroundings.repository.repository.as_str();
    let issue = match observe_issue(runner, cwd, name, observed.claim.issue) {
        Ok(issue) => issue,
        Err(error) => return Err(error),
    };
    let pull_request = match observe_pull_request(
        runner,
        cwd,
        name,
        observed.claim.branch.as_str(),
    ) {
        Ok(pull_request) => pull_request,
        Err(error) => return Err(error),
    };
    assert(issue_observed(
        runner,
        surroundings.repository.main_worktree@,
        surroundings.repository.repository@,
        seen.claim.issue,
        Ok(issue),
    ));
    assert(pull_request_observed(
        runner,
        surroundings.repository.main_worktree@,
        surroundings.repository.repository@,
        seen.claim.branch,
        Ok(pull_request),
    ));
    Ok(claim_status(observed, Some((issue, pull_request)), redact))
}

/// The worktrees of claims, and how each is shown in short.
pub open spec fn worktree_replacements(claims: Seq<ClaimView>) -> Seq<(Seq<char>, Seq<char>)> {
    Seq::new(claims.len(), |i: int| (claims[i].worktree, short_worktree(claims[i].worktree)))
}

/// Problems as they are shown: with the worktrees of claims in short, where that is asked for.
pub open spec fn shown_problems(
    problems: Seq<ProblemView>,
    replacements: Seq<(Seq<char>, Seq<char>)>,
    redact: bool,
) -> Seq<ProblemView> {
    if redact {
        Seq::new(
            problems.len(),
            |i: int|
                ProblemView {
                    message: redacted_message(problems[i].message, replacements),
                    ..problems[i]
                },
        )
    } else {
        problems
    }
}

pub open spec fn observed_claims(claims: Seq<ObservationView>) -> Seq<ClaimView> {
    Seq::new(claims.len(), |i: int| claims[i].claim)
}

/// Whether that may be the status of what was observed.
pub open spec fn status_made<R: CommandRunner>(
    runner: &R,
    surroundings: Surroundings,
    sight: LocalView,
    redact: bool,
    status: StatusView,
) -> bool {
    &&& status.claims.len() == sight.claims.len()
    &&& forall|i: int|
        0 <= i < sight.claims.len() ==> claim_statused(
            runner,
            surroundings,
            #[trigger] sight.claims[i],
            redact,
            status.claims[i],
        )
    &&& status.problems == shown_problems(
        sight.problems,
        worktree_replacements(observed_claims(sight.claims)),
        redact,
    )
}

/// Whether asking for a status may come to that result.
pub open spec fn status_got<R: CommandRunner>(
    runner: &R,
    surroundings: Surroundings,
    ledger: Ledger,
    redact: bool,
    result: Result<StatusReport, StatusError>,
) -> bool {
    exists|observation: Result<LocalObservation, ObservationError>| #[trigger]
        repository_observed(
            runner,
            surroundings,
            active(views(ledger.claims@), views(ledger.releases@)),
            views(ledger.operations@),
            observation,
        ) && match observation {
            Err(error) => result == Err::<StatusReport, _>(StatusError::Observation(error)),
            Ok(sight) => match result {
                Ok(report) => status_made(runner, surroundings, sight@, redact, report@),
                Err(error) => status_failed(runner, surroundings, sight@, error),
            },
        }
}

pub open spec fn status_failed<R: CommandRunner>(
    runner: &R,
    surroundings: Surroundings,
    sight: LocalView,
    error: StatusError,
) -> bool {
    error matches StatusError::Github(cause) && exists|i: int|
        0 <= i < sight.claims.len() && claim_unstatused(
            runner,
            surroundings,
            #[trigger] sight.claims[i],
            cause,
        )
}

fn find_replacements(claims: &Vec<ClaimObservation>) -> (replacements: Vec<(String, String)>)
    ensures
        pairs(replacements@) == worktree_replacements(observed_claims(views(claims@))),
{
    let mut replacements: Vec<(String, String)> = Vec::new();
    let ghost wanted = worktree_replacements(observed_claims(views(claims@)));
    let mut i: usize = 0;
    while i < claims.len()
        invariant
            i <= claims.len(),
            wanted == worktree_replacements(observed_claims(views(claims@))),
            replacements.len() == i,
            forall|j: int|
                0 <= j < i ==> ((#[trigger] replacements@[j]).0@, replacements@[j].1@) == wanted[j],
        decreases claims.len() - i,
    {
        let worktree = claims[i].claim.worktree.clone();
        let short = shortened_worktree(worktree.as_str());
        replacements.push((worktree, short));
        i = i + 1;
    }
    assert(pairs(replacements@) =~= wanted);
    replacements
}

fn show_problems(
    problems: &Vec<LocalProblem>,
    replacements: &Vec<(String, String)>,
    redact: bool,
) -> (shown: Vec<LocalProblem>)
    ensures
        views(shown@) == shown_problems(views(problems@), pairs(replacements@), redact),
{
    let ghost wanted = shown_problems(views(problems@), pairs(replacements@), redact);
    let mut shown: Vec<LocalProblem> = Vec::new();
    let mut i: usize = 0;
    while i < problems.len()
        invariant
            i <= problems.len(),
            wanted == shown_problems(views(problems@), pairs(replacements@), redact),
            shown.len() == i,
            forall|j: int| 0 <= j < i ==> (#[trigger] shown@[j])@ == wanted[j],
        decreases problems.len() - i,
    {
        let mut problem = problems[i].clone();
        if redact {
            problem.message = redact_message(problem.message.as_str(), replacements);
        }
        shown.push(problem);
        i = i + 1;
    }
    assert(views(shown@) =~= wanted);
    shown
}

/// Gets the status of a repository, by the records of its store. Only commands that observe are
/// run for it.
pub fn get_status<R: CommandRunner>(
    runner: &R,
    surroundings: &Surroundings,
    ledger: &Ledger,
    redact: bool,
) -> (result: Result<StatusReport, StatusError>)
    requires
        permits_observing(runner),
    ensures
        status_got(runner, *surroundings, *ledger, redact, result),
{
    let observation = observe_repository(
        runner,
        surroundings,
        &ledger.claims,
        &ledger.releases,
        clone_operations(&ledger.operations),
    );
    assert(repository_observed(
        runner,
        *surroundings,
        active(views(ledger.claims@), views(ledger.releases@)),
        views(ledger.operations@),
        observation,
    ));
    let sight = match observation {
        Ok(sight) => sight,
        Err(error) => return Err(StatusError::Observation(error)),
    };
    let ghost seen = sight@;
    let replacements = find_replacements(&sight.claims);
    let problems = show_problems(&sight.problems, &replacements, redact);
    let mut claims: Vec<ClaimStatus> = Vec::new();
    let mut i: usize = 0;
    while i < sight.claims.len()
        invariant
            permits_observing(runner),
            i <= sight.claims.len(),
            seen == sight@,
            repository_observed(
                runner,
                *surroundings,
                active(views(ledger.claims@), views(ledger.releases@)),
                views(ledger.operations@),
                Ok(sight),
            ),
            claims.len() == i,
            forall|j: int|
                0 <= j < i ==> claim_statused(
                    runner,
                    *surroundings,
                    #[trigger] seen.claims[j],
                    redact,
                    claims@[j]@,
                ),
        decreases sight.claims.len() - i,
    {
        assert(seen.claims[i as int] == sight.claims@[i as int]@);
        match ask_status(runner, surroundings, sight.claims[i].clone(), redact) {
            Ok(status) => claims.push(status),
            Err(error) => {
                assert(claim_unstatused(runner, *surroundings, seen.claims[i as int], error));
                return Err(StatusError::Github(error));
            },
        }
        i = i + 1;
    }
    let report = StatusReport { claims, problems };
    assert(status_made(runner, *surroundings, seen, redact, report@));
    Ok(report)
}

// ---------------------------------------------------------------------------------------------
// A status for people
// ---------------------------------------------------------------------------------------------
pub open spec fn github_state_text(state: GithubState) -> Seq<char> {
    match state {
        GithubState::Available => "available"@,
        GithubState::Unavailable => "unavailable"@,
        GithubState::Unverified => "unverified"@,
    }
}

pub fn github_state_name(state: GithubState) -> (name: &'static str)
    ensures
        name@ == github_state_text(state),
{
    match state {
        GithubState::Available => "available",
        GithubState::Unavailable => "unavailable",
        GithubState::Unverified => "unverified",
    }
}

pub open spec fn problem_text(code: LocalProblemCode) -> Seq<char> {
    match code {
        LocalProblemCode::MissingBase => "missing_base"@,
        LocalProblemCode::MissingBranch => "missing_branch"@,
        LocalProblemCode::MissingWorktree => "missing_worktree"@,
        LocalProblemCode::WorktreeMismatch => "worktree_mismatch"@,
        LocalProblemCode::AbandonedOperation => "abandoned_operation"@,
    }
}

pub fn problem_code(code: LocalProblemCode) -> (name: &'static str)
    ensures
        name@ == problem_text(code),
{
    match code {
        LocalProblemCode::MissingBase => "missing_base",
        LocalProblemCode::MissingBranch => "missing_branch",
        LocalProblemCode::MissingWorktree => "missing_worktree",
        LocalProblemCode::WorktreeMismatch => "worktree_mismatch",
        LocalProblemCode::AbandonedOperation => "abandoned_operation",
    }
}

/// With how many claims a claim overlaps that are so related to it.
pub open spec fn related_claims(
    overlaps: Seq<OverlapView>,
    relationship: OverlapRelationship,
) -> nat
    decreases overlaps.len(),
{
    if overlaps.len() == 0 {
        0
    } else {
        let front = overlaps.drop_last();
        if overlaps.last().relationship == relationship && !relates(
            front,
            relationship,
            overlaps.last().with_claim_id,
        ) {
            related_claims(front, relationship) + 1
        } else {
            related_claims(front, relationship)
        }
    }
}

/// Whether one of the overlaps is with that claim and so related.
pub open spec fn relates(
    overlaps: Seq<OverlapView>,
    relationship: OverlapRelationship,
    id: Id,
) -> bool {
    exists|i: int|
        0 <= i < overlaps.len() && (#[trigger] overlaps[i]).relationship == relationship
            && overlaps[i].with_claim_id == id
}

fn has_relation(
    overlaps: &Vec<DiffOverlap>,
    count: usize,
    relationship: OverlapRelationship,
    id: Id,
) -> (found: bool)
    requires
        count <= overlaps.len(),
    ensures
        found == relates(views(overlaps@).take(count as int), relationship, id),
{
    let ghost all = views(overlaps@).take(count as int);
    let mut i: usize = 0;
    while i < count
        invariant
            i <= count <= overlaps.len(),
            all == views(overlaps@).take(count as int),
            forall|j: int|
                0 <= j < i ==> !((#[trigger] all[j]).relationship == relationship
                    && all[j].with_claim_id == id),
        decreases count - i,
    {
        assert(all[i as int] == overlaps@[i as int]@);
        if overlaps[i].relationship == relationship && overlaps[i].with_claim_id == id {
            return true;
        }
        i = i + 1;
    }
    false
}

fn count_related(overlaps: &Vec<DiffOverlap>, relationship: OverlapRelationship) -> (count: u64)
    ensures
        count == related_claims(views(overlaps@), relationship),
{
    let ghost all = views(overlaps@);
    let mut count: u64 = 0;
    let mut i: usize = 0;
    assert(all.take(0) =~= Seq::empty());
    while i < overlaps.len()
        invariant
            i <= overlaps.len(),
            all == views(overlaps@),
            count <= i,
            count == related_claims(all.take(i as int), relationship),
        decreases overlaps.len() - i,
    {
        assert(all.take(i + 1).drop_last() =~= all.take(i as int));
        assert(all.take(i + 1).last() == overlaps@[i as int]@);
        if overlaps[i].relationship == relationship && !has_relation(
            overlaps,
            i,
            relationship,
            overlaps[i].with_claim_id,
        ) {
            count = count + 1;
        }
        i = i + 1;
    }
    assert(all.take(i as int) =~= all);
    count
}

/// The part of a summary that is about one relationship.
pub open spec fn relationship_part(
    overlaps: Seq<OverlapView>,
    relationship: OverlapRelationship,
) -> Seq<Seq<char>> {
    if related_claims(overlaps, relationship) == 0 {
        Seq::empty()
    } else {
        seq![
            relationship_text(relationship) + ":"@ + decimal(
                related_claims(overlaps, relationship),
            ),
        ]
    }
}

/// How many claims of each relationship a claim overlaps with.
pub open spec fn relationship_parts(overlaps: Seq<OverlapView>) -> Seq<Seq<char>> {
    relationship_part(overlaps, OverlapRelationship::Sibling) + relationship_part(
        overlaps,
        OverlapRelationship::Unrelated,
    ) + relationship_part(overlaps, OverlapRelationship::Ancestor) + relationship_part(
        overlaps,
        OverlapRelationship::Descendant,
    ) + relationship_part(overlaps, OverlapRelationship::Consolidation)
}

pub open spec fn overlap_summary(overlaps: Seq<OverlapView>) -> Seq<char> {
    if overlaps.len() == 0 {
        "none (diff-based)"@
    } else {
        joined(relationship_parts(overlaps), ", "@)
    }
}

fn append_relationship(
    parts: &mut Vec<String>,
    overlaps: &Vec<DiffOverlap>,
    relationship: OverlapRelationship,
)
    ensures
        views(final(parts)@) == views(old(parts)@) + relationship_part(
            views(overlaps@),
            relationship,
        ),
{
    let ghost before = views(parts@);
    let count: u64 = count_related(overlaps, relationship);
    if count > 0 {
        let mut part = relationship_name(relationship).to_owned();
        part.append(":");
        part.append(decimal_text(count).as_str());
        parts.push(part);
    }
    assert(views(parts@) =~= before + relationship_part(views(overlaps@), relationship));
}

fn summarize_overlaps(overlaps: &Vec<DiffOverlap>) -> (text: String)
    ensures
        text@ == overlap_summary(views(overlaps@)),
{
    if overlaps.len() == 0 {
        return "none (diff-based)".to_owned();
    }
    let mut parts: Vec<String> = Vec::new();
    append_relationship(&mut parts, overlaps, OverlapRelationship::Sibling);
    append_relationship(&mut parts, overlaps, OverlapRelationship::Unrelated);
    append_relationship(&mut parts, overlaps, OverlapRelationship::Ancestor);
    append_relationship(&mut parts, overlaps, OverlapRelationship::Descendant);
    append_relationship(&mut parts, overlaps, OverlapRelationship::Consolidation);
    assert(views(parts@) =~= relationship_parts(views(overlaps@)));
    join(&parts, ", ")
}

/// What a claim says it means to change, in short.
pub open spec fn scope_summary(scope: Option<ScopeView>) -> Seq<char> {
    match scope {
        None => "none"@,
        Some(scope) => {
            let allowed = "allow: "@ + joined(scope.allowed_paths, ", "@);
            let denied = "deny: "@ + joined(scope.disallowed_paths, ", "@);
            if scope.allowed_paths.len() > 0 && scope.disallowed_paths.len() > 0 {
                allowed + "; "@ + denied
            } else if scope.allowed_paths.len() > 0 {
                allowed
            } else if scope.disallowed_paths.len() > 0 {
                denied
            } else {
                "none"@
            }
        },
    }
}

fn declared_scope_summary(scope: &Option<DeclaredScope>) -> (text: String)
    ensures
        text@ == scope_summary(optional(*scope)),
{
    let scope = match scope {
        Some(scope) => scope,
        None => return "none".to_owned(),
    };
    let mut allowed = "allow: ".to_owned();
    allowed.append(join(&scope.allowed_paths, ", ").as_str());
    let mut denied = "deny: ".to_owned();
    denied.append(join(&scope.disallowed_paths, ", ").as_str());
    if scope.allowed_paths.len() > 0 && scope.disallowed_paths.len() > 0 {
        allowed.append("; ");
        allowed.append(denied.as_str());
        allowed
    } else if scope.allowed_paths.len() > 0 {
        allowed
    } else if scope.disallowed_paths.len() > 0 {
        denied
    } else {
        "none".to_owned()
    }
}

/// The codes of the problems of a claim.
pub open spec fn problem_hints(problems: Seq<ProblemView>, id: Id) -> Seq<Seq<char>>
    decreases problems.len(),
{
    if problems.len() == 0 {
        Seq::empty()
    } else if problems.last().claim_id == Some(id) {
        problem_hints(problems.drop_last(), id).push(problem_text(problems.last().code))
    } else {
        problem_hints(problems.drop_last(), id)
    }
}

/// What is wrong with a claim, in short.
pub open spec fn local_hints(status: ClaimStatusView, problems: Seq<ProblemView>) -> Seq<Seq<char>> {
    let scope = if status.scope_warnings.len() > 0 {
        seq!["scope:"@ + decimal(status.scope_warnings.len())]
    } else {
        Seq::empty()
    };
    ascending_texts(scope + problem_hints(problems, status.claim.claim_id))
}

pub open spec fn local_summary(status: ClaimStatusView, problems: Seq<ProblemView>) -> Seq<char> {
    let hints = local_hints(status, problems);
    if hints.len() == 0 {
        "ok"@
    } else {
        joined(hints, ","@)
    }
}

fn summarize_local(status: &ClaimStatus, problems: &Vec<LocalProblem>) -> (text: String)
    ensures
        text@ == local_summary(status@, views(problems@)),
{
    let ghost all = views(problems@);
    let id: Id = status.claim.claim_id;
    let mut hints: Vec<String> = Vec::new();
    if status.scope_warnings.len() > 0 {
        let mut hint = "scope:".to_owned();
        hint.append(decimal_text(status.scope_warnings.len() as u64).as_str());
        hints.push(hint);
    }
    let ghost scope = views(hints@);
    let mut i: usize = 0;
    assert(all.take(0) =~= Seq::empty());
    assert(scope + problem_hints(all.take(0), id) =~= scope);
    while i < problems.len()
        invariant
            i <= problems.len(),
            all == views(problems@),
            views(hints@) == scope + problem_hints(all.take(i as int), id),
        decreases problems.len() - i,
    {
        let ghost done = views(hints@);
        assert(all.take(i + 1).drop_last() =~= all.take(i as int));
        assert(all.take(i + 1).last() == problems@[i as int]@);
        let own = match problems[i].claim_id {
            Some(other) => other == id,
            None => false,
        };
        if own {
            let hint = problem_code(problems[i].code).to_owned();
            let ghost added = hint@;
            hints.push(hint);
            assert(views(hints@) =~= done.push(added));
            assert(scope + problem_hints(all.take(i + 1), id) =~= done.push(added));
        }
        i = i + 1;
    }
    assert(all.take(i as int) =~= all);
    assert(scope =~= if status@.scope_warnings.len() > 0 {
        seq!["scope:"@ + decimal(status@.scope_warnings.len())]
    } else {
        Seq::empty()
    });
    let sorted = sorted_distinct(&hints);
    if sorted.len() == 0 {
        "ok".to_owned()
    } else {
        join(&sorted, ",")
    }
}

/// Whether a problem is about a claim.
pub open spec fn has_own_problem(problems: Seq<ProblemView>, id: Id) -> bool {
    exists|i: int| 0 <= i < problems.len() && (#[trigger] problems[i]).claim_id == Some(id)
}

fn finds_own_problem(problems: &Vec<LocalProblem>, id: Id) -> (found: bool)
    ensures
        found == has_own_problem(views(problems@), id),
{
    let ghost all = views(problems@);
    let mut i: usize = 0;
    while i < problems.len()
        invariant
            i <= problems.len(),
            all == views(problems@),
            forall|j: int| 0 <= j < i ==> (#[trigger] all[j]).claim_id != Some(id),
        decreases problems.len() - i,
    {
        assert(all[i as int] == problems@[i as int]@);
        if let Some(other) = problems[i].claim_id {
            if other == id {
                return true;
            }
        }
        i = i + 1;
    }
    false
}

/// What a claim changes, in short.
pub open spec fn change_summary(status: ClaimStatusView, problems: Seq<ProblemView>) -> Seq<char> {
    if first_problem(
        problems,
        status.claim.claim_id,
        seq![LocalProblemCode::MissingBase, LocalProblemCode::MissingBranch],
    ) is Some {
        "unavailable"@
    } else {
        decimal(status.diff.changed_paths.len()) + " changed, "@ + decimal(
            status.diff.untracked_paths.len(),
        ) + " untracked"@
    }
}

fn summarize_changes(status: &ClaimStatus, problems: &Vec<LocalProblem>) -> (text: String)
    ensures
        text@ == change_summary(status@, views(problems@)),
{
    let codes: Vec<LocalProblemCode> = vec![
        LocalProblemCode::MissingBase,
        LocalProblemCode::MissingBranch,
    ];
    assert(codes@ =~= seq![LocalProblemCode::MissingBase, LocalProblemCode::MissingBranch]);
    if find_problem(problems, status.claim.claim_id, &codes).is_some() {
        return "unavailable".to_owned();
    }
    let mut text = decimal_text(status.diff.changed_paths.len() as u64);
    text.append(" changed, ");
    text.append(decimal_text(status.diff.untracked_paths.len() as u64).as_str());
    text.append(" untracked");
    text
}

/// The first characters of a text.
pub open spec fn first_chars(text: Seq<char>, count: nat) -> Seq<char> {
    if text.len() <= count {
        text
    } else {
        text.take(count as int)
    }
}

fn take_chars(text: &str, count: usize) -> (result: String)
    ensures
        result@ == first_chars(text@, count as nat),
{
    let chars = chars_of(text);
    if chars.len() <= count {
        text.to_owned()
    } else {
        let result = text_of(&chars, 0, count);
        assert(result@ =~= text@.take(count as int));
        result
    }
}

pub open spec fn base_summary(claim: ClaimView) -> Seq<char> {
    claim.base_remote + "/"@ + claim.base_ref + "@"@ + first_chars(claim.base_sha, 8)
}

/// Whether a claim is shown with a warning.
pub open spec fn shown_with_warning(status: ClaimStatusView, problems: Seq<ProblemView>) -> bool {
    has_findings(status) || has_own_problem(problems, status.claim.claim_id)
}

/// The first line of a claim.
pub open spec fn claim_heading(
    status: ClaimStatusView,
    problems: Seq<ProblemView>,
    color: bool,
) -> Seq<char> {
    let marker = if shown_with_warning(status, problems) {
        painted(color, "33"@, "!"@)
    } else {
        painted(color, "32"@, "●"@)
    };
    "\n"@ + marker + " #"@ + decimal(status.claim.issue as nat) + " "@ + short_text(
        status.claim.claim_id,
    ) + "  "@ + (match status.claim.title {
        Some(title) => title,
        None => "(untitled)"@,
    }) + "\n"@
}

pub open spec fn pr_text(pr: Option<PrView>) -> Seq<char> {
    match pr {
        Some(pr) => "#"@ + decimal(pr.number as nat),
        None => "-"@,
    }
}

/// A claim for people.
#[verifier::opaque]
pub open spec fn claim_block(
    status: ClaimStatusView,
    problems: Seq<ProblemView>,
    color: bool,
) -> Seq<char> {
    claim_heading(status, problems, color) + field_line(
        color,
        14,
        "Branch"@,
        status.claim.branch,
    ) + field_line(color, 14, "Worktree"@, short_worktree(status.claim.worktree)) + field_line(
        color,
        14,
        "Base"@,
        base_summary(status.claim),
    ) + field_line(color, 14, "Changes"@, change_summary(status, problems)) + field_line(
        color,
        14,
        "Overlaps"@,
        overlap_summary(status.overlaps),
    ) + field_line(color, 14, "Scope"@, scope_summary(status.claim.declared_scope)) + field_line(
        color,
        14,
        "Pull request"@,
        pr_text(status.pr),
    ) + field_line(color, 14, "GitHub"@, github_state_text(status.github_state)) + field_line(
        color,
        14,
        "Local"@,
        local_summary(status, problems),
    )
}

fn render_heading(status: &ClaimStatus, problems: &Vec<LocalProblem>, color: bool) -> (text: String)
    ensures
        text@ == claim_heading(status@, views(problems@), color),
{
    let warning = finds_something(status) || finds_own_problem(problems, status.claim.claim_id);
    let mut text = "\n".to_owned();
    if warning {
        text.append(paint(color, "33", "!").as_str());
    } else {
        text.append(paint(color, "32", "●").as_str());
    }
    text.append(" #");
    text.append(decimal_text(status.claim.issue).as_str());
    text.append(" ");
    text.append(short_id(status.claim.claim_id).as_str());
    text.append("  ");
    match &status.claim.title {
        Some(title) => text.append(title.as_str()),
        None => text.append("(untitled)"),
    }
    text.append("\n");
    text
}

fn render_claim(status: &ClaimStatus, problems: &Vec<LocalProblem>, color: bool) -> (text: String)
    ensures
        text@ == claim_block(status@, views(problems@), color),
{
    reveal(claim_block);
    let claim = &status.claim;
    let mut text = render_heading(status, problems, color);
    append_field(&mut text, color, 14, "Branch", claim.branch.as_str());
    let worktree = shortened_worktree(claim.worktree.as_str());
    append_field(&mut text, color, 14, "Worktree", worktree.as_str());
    let mut base = claim.base_remote.clone();
    base.append("/");
    base.append(claim.base_ref.as_str());
    base.append("@");
    base.append(take_chars(claim.base_sha.as_str(), 8).as_str());
    append_field(&mut text, color, 14, "Base", base.as_str());
    let changes = summarize_changes(status, problems);
    append_field(&mut text, color, 14, "Changes", changes.as_str());
    let overlaps = summarize_overlaps(&status.overlaps);
    append_field(&mut text, color, 14, "Overlaps", overlaps.as_str());
    let scope = declared_scope_summary(&claim.declared_scope);
    append_field(&mut text, color, 14, "Scope", scope.as_str());
    let pr = match &status.pr {
        Some(pr) => {
            let mut shown = "#".to_owned();
            shown.append(decimal_text(pr.number).as_str());
            shown
        },
        None => "-".to_owned(),
    };
    append_field(&mut text, color, 14, "Pull request", pr.as_str());
    append_field(&mut text, color, 14, "GitHub", github_state_name(status.github_state));
    let local = summarize_local(status, problems);
    append_field(&mut text, color, 14, "Local", local.as_str());
    text
}

pub open spec fn claim_blocks(
    claims: Seq<ClaimStatusView>,
    problems: Seq<ProblemView>,
    color: bool,
) -> Seq<char>
    decreases claims.len(),
{
    if claims.len() == 0 {
        Seq::empty()
    } else {
        claim_blocks(claims.drop_last(), problems, color) + claim_block(
            claims.last(),
            problems,
            color,
        )
    }
}

pub open spec fn reported_claims(claims: Seq<ClaimStatusView>) -> Seq<ClaimView> {
    Seq::new(claims.len(), |i: int| claims[i].claim)
}

/// A problem for people.
pub open spec fn problem_line(
    problem: ProblemView,
    replacements: Seq<(Seq<char>, Seq<char>)>,
    color: bool,
) -> Seq<char> {
    painted(color, "31"@, "✗"@) + " "@ + problem_text(problem.code) + (match problem.issue {
        Some(issue) => " #"@ + decimal(issue as nat),
        None => ""@,
    }) + ": "@ + redacted_message(problem.message, replacements) + "\n"@
}

pub open spec fn problem_lines(
    problems: Seq<ProblemView>,
    replacements: Seq<(Seq<char>, Seq<char>)>,
    color: bool,
) -> Seq<char>
    decreases problems.len(),
{
    if problems.len() == 0 {
        Seq::empty()
    } else {
        problem_lines(problems.drop_last(), replacements, color) + problem_line(
            problems.last(),
            replacements,
            color,
        )
    }
}

/// A status for people: a block for each claim, and the problems behind them.
pub open spec fn status_text(report: StatusView, color: bool) -> Seq<char> {
    let claims = if report.claims.len() == 0 {
        "No active claims.\n"@
    } else {
        "Active claims: "@ + decimal(report.claims.len()) + "\n"@ + claim_blocks(
            report.claims,
            report.problems,
            color,
        )
    };
    if report.problems.len() == 0 {
        claims
    } else {
        claims + "\nProblems:\n"@ + problem_lines(
            report.problems,
            worktree_replacements(reported_claims(report.claims)),
            color,
        )
    }
}

fn render_problem(
    problem: &LocalProblem,
    replacements: &Vec<(String, String)>,
    color: bool,
) -> (text: String)
    ensures
        text@ == problem_line(problem@, pairs(replacements@), color),
{
    let mut text = paint(color, "31", "✗");
    text.append(" ");
    text.append(problem_code(problem.code));
    let issue = match problem.issue {
        Some(issue) => {
            let mut shown = " #".to_owned();
            shown.append(decimal_text(issue).as_str());
            shown
        },
        None => "".to_owned(),
    };
    text.append(issue.as_str());
    text.append(": ");
    text.append(redact_message(problem.message.as_str(), replacements).as_str());
    text.append("\n");
    text
}

fn find_shown_replacements(claims: &Vec<ClaimStatus>) -> (replacements: Vec<(String, String)>)
    ensures
        pairs(replacements@) == worktree_replacements(reported_claims(views(claims@))),
{
    let mut replacements: Vec<(String, String)> = Vec::new();
    let ghost wanted = worktree_replacements(reported_claims(views(claims@)));
    let mut i: usize = 0;
    while i < claims.len()
        invariant
            i <= claims.len(),
            wanted == worktree_replacements(reported_claims(views(claims@))),
            replacements.len() == i,
            forall|j: int|
                0 <= j < i ==> ((#[trigger] replacements@[j]).0@, replacements@[j].1@) == wanted[j],
        decreases claims.len() - i,
    {
        let worktree = claims[i].claim.worktree.clone();
        let short = shortened_worktree(worktree.as_str());
        replacements.push((worktree, short));
        i = i + 1;
    }
    assert(pairs(replacements@) =~= wanted);
    replacements
}

fn append_claims(
    output: &mut String,
    claims: &Vec<ClaimStatus>,
    problems: &Vec<LocalProblem>,
    color: bool,
)
    ensures
        final(output)@ == old(output)@ + claim_blocks(views(claims@), views(problems@), color),
{
    let ghost before = output@;
    let ghost all = views(claims@);
    let ghost wrong = views(problems@);
    let mut i: usize = 0;
    assert(all.take(0) =~= Seq::empty());
    assert(before + claim_blocks(all.take(0), wrong, color) =~= before);
    while i < claims.len()
        invariant
            i <= claims.len(),
            all == views(claims@),
            wrong == views(problems@),
            output@ == before + claim_blocks(all.take(i as int), wrong, color),
        decreases claims.len() - i,
    {
        assert(all.take(i + 1).drop_last() =~= all.take(i as int));
        assert(all.take(i + 1).last() == claims@[i as int]@);
        let ghost done = claim_blocks(all.take(i as int), wrong, color);
        let block = render_claim(&claims[i], problems, color);
        output.append(block.as_str());
        i = i + 1;
        assert(before + done + block@ =~= before + (done + block@));
    }
    assert(all.take(i as int) =~= all);
}

fn append_problems(
    output: &mut String,
    problems: &Vec<LocalProblem>,
    replacements: &Vec<(String, String)>,
    color: bool,
)
    ensures
        final(output)@ == old(output)@ + problem_lines(
            views(problems@),
            pairs(replacements@),
            color,
        ),
{
    let ghost before = output@;
    let ghost all = views(problems@);
    let ghost known = pairs(replacements@);
    let mut i: usize = 0;
    assert(all.take(0) =~= Seq::empty());
    assert(before + problem_lines(all.take(0), known, color) =~= before);
    while i < problems.len()
        invariant
            i <= problems.len(),
            all == views(problems@),
            known == pairs(replacements@),
            output@ == before + problem_lines(all.take(i as int), known, color),
        decreases problems.len() - i,
    {
        assert(all.take(i + 1).drop_last() =~= all.take(i as int));
        assert(all.take(i + 1).last() == problems@[i as int]@);
        let ghost done = problem_lines(all.take(i as int), known, color);
        let line = render_problem(&problems[i], replacements, color);
        output.append(line.as_str());
        i = i + 1;
        assert(before + done + line@ =~= before + (done + line@));
    }
    assert(all.take(i as int) =~= all);
}

fn render_status(report: &StatusReport, color: bool) -> (output: String)
    ensures
        output@ == status_text(report@, color),
{
    let mut output = "No active claims.\n".to_owned();
    if report.claims.len() > 0 {
        output = "Active claims: ".to_owned();
        output.append(decimal_text(report.claims.len() as u64).as_str());
        output.append("\n");
        append_claims(&mut output, &report.claims, &report.problems, color);
    }
    if report.problems.len() > 0 {
        output.append("\nProblems:\n");
        let replacements = find_shown_replacements(&report.claims);
        append_problems(&mut output, &report.problems, &replacements, color);
    }
    output
}

/// A status for people.
pub fn render_status_human(report: &StatusReport) -> (output: String)
    ensures
        output@ == status_text(report@, false),
{
    render_status(report, false)
}

/// A status for people, with colours.
pub fn render_status_human_colored(report: &StatusReport) -> (output: String)
    ensures
        output@ == status_text(report@, true),
{
    render_status(report, true)
}

} // verus!
