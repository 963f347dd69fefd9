//! Diagnosis: the checks that a doctor report is made of.
use vstd::prelude::*;
use vstd::string::*;

use crate::command::{command, CommandRunner};
use crate::conflict::{
    DiffOverlap, OverlapSeverity, OverlapView, ScopeWarning, ScopeWarningReason, ScopeWarningView,
};
use crate::doctor::{
    append_checks, append_texts, check, required_check, CheckGate, CheckStatus, CheckView,
    DoctorCheck,
};
use crate::evidence::{
    claim_evidence, claim_identity, id_list, ids_evidence, issue_list, issues_evidence, named,
    object, overlap_evidence, overlap_object, relationship_name, relationship_text,
    scope_warning_evidence, scope_warning_object, text, wait_for_evidence, wait_for_list,
};
use crate::github::{
    issue_args, issue_observed, observe_issue, observe_pull_request, pull_request_args,
    pull_request_observed, GithubIssueError, GithubIssueObservation, GithubIssueState,
    GithubPullRequestObservation, GithubPullRequestState, IssueObservationView,
    PullRequestObservationView, PullRequestView,
};
use crate::id::{short_id, short_text, Id, IssueNumber};
use crate::json::{list_view, Json, JsonView};
use crate::model::{Claim, ClaimView};
use crate::observation::{
    ClaimObservation, LocalProblem, LocalProblemCode, ObservationView, ProblemView,
};
use crate::path::{find_place, is_same_path, place_of, same_path};
use crate::record::{id_json, write_id};
use crate::text::{
    ascending_texts, decimal, decimal_text, pairs, quote, quoted, same, sorted_distinct, views,
};

verus! {

/// Checks, and what is recommended because of them.
pub struct Advice {
    pub checks: Seq<CheckView>,
    pub recommendations: Seq<Seq<char>>,
}

impl Advice {
    pub open spec fn and(self, more: Advice) -> Advice {
        Advice {
            checks: self.checks + more.checks,
            recommendations: self.recommendations + more.recommendations,
        }
    }

    pub open spec fn with_check(self, one: CheckView) -> Advice {
        Advice { checks: self.checks.push(one), recommendations: self.recommendations }
    }
}

pub open spec fn no_advice() -> Advice {
    Advice { checks: Seq::empty(), recommendations: Seq::empty() }
}

/// What checks and recommendations stand for.
pub open spec fn advice(checks: Seq<DoctorCheck>, recommendations: Seq<String>) -> Advice {
    Advice { checks: views(checks), recommendations: views(recommendations) }
}

// ---------------------------------------------------------------------------------------------
// Coordination
// ---------------------------------------------------------------------------------------------
pub open spec fn overlap_status(severity: OverlapSeverity) -> CheckStatus {
    match severity {
        OverlapSeverity::Info => CheckStatus::Pass,
        OverlapSeverity::Warning => CheckStatus::Warn,
        OverlapSeverity::Blocking => CheckStatus::Fail,
    }
}

/// The check that an overlap is.
pub open spec fn overlap_check(claim: ClaimView, overlap: OverlapView) -> CheckView {
    check(
        "merge.overlap"@,
        CheckGate::Merge,
        "Diff overlap"@,
        overlap_status(overlap.severity),
        relationship_text(overlap.relationship) + " overlap with issue #"@ + decimal(
            overlap.with_issue as nat,
        ) + " generation "@ + short_text(overlap.with_claim_id) + " across "@ + decimal(
            overlap.shared_paths.len(),
        ) + " path(s)"@,
    ).with(
        JsonView::Object(
            seq![
                ("claim_id"@, id_json(claim.claim_id)),
                ("issue"@, JsonView::Unsigned(claim.issue)),
                ("overlap"@, overlap_evidence(overlap)),
            ],
        ),
    )
}

pub open spec fn overlap_recommendation(claim: ClaimView, overlap: OverlapView) -> Seq<char> {
    "Resolve overlap between issue #"@ + decimal(claim.issue as nat) + " and issue #"@ + decimal(
        overlap.with_issue as nat,
    ) + " before merge"@
}

/// The checks that overlaps are, and a recommendation for each that matters.
pub open spec fn overlap_advice(claim: ClaimView, overlaps: Seq<OverlapView>) -> Advice
    decreases overlaps.len(),
{
    if overlaps.len() == 0 {
        no_advice()
    } else {
        let front = overlap_advice(claim, overlaps.drop_last());
        Advice {
            checks: front.checks.push(overlap_check(claim, overlaps.last())),
            recommendations: if overlaps.last().severity is Info {
                front.recommendations
            } else {
                front.recommendations.push(overlap_recommendation(claim, overlaps.last()))
            },
        }
    }
}

/// The check that a path outside of the declared scope is.
pub open spec fn scope_check(claim: ClaimView, warning: ScopeWarningView) -> CheckView {
    check(
        "merge.scope"@,
        CheckGate::Merge,
        "Declared scope"@,
        CheckStatus::Warn,
        warning.path + " "@ + (match warning.reason {
            ScopeWarningReason::OutsideAllowedScope => "is outside allowed scope"@,
            ScopeWarningReason::InsideDisallowedScope => "is inside disallowed scope"@,
        }),
    ).with(
        JsonView::Object(
            seq![
                ("claim_id"@, id_json(claim.claim_id)),
                ("issue"@, JsonView::Unsigned(claim.issue)),
                ("warning"@, scope_warning_evidence(warning)),
            ],
        ),
    )
}

pub open spec fn scope_checks(claim: ClaimView, warnings: Seq<ScopeWarningView>) -> Seq<CheckView> {
    Seq::new(warnings.len(), |i: int| scope_check(claim, warnings[i]))
}

/// How many paths a claim changes, and how many it has that are not tracked.
pub open spec fn change_counts(observed: ObservationView) -> (nat, nat) {
    match observed.diff {
        Some(diff) => (diff.changed_paths.len(), diff.untracked_paths.len()),
        None => (0, 0),
    }
}

/// The check that says why the diff of a claim that waits for others may look large.
pub open spec fn consolidation_check(observed: ObservationView) -> CheckView {
    check(
        "merge.consolidation_diff"@,
        CheckGate::Merge,
        "Consolidation diff"@,
        CheckStatus::Pass,
        "consolidation diff may appear oversized until multi-parent diff bases are supported"@,
    ).with(
        JsonView::Object(
            seq![
                ("changed_paths"@, JsonView::Unsigned(change_counts(observed).0 as u64)),
                ("claim_id"@, id_json(observed.claim.claim_id)),
                ("issue"@, JsonView::Unsigned(observed.claim.issue)),
                ("untracked_paths"@, JsonView::Unsigned(change_counts(observed).1 as u64)),
                ("wait_for"@, wait_for_evidence(observed.claim.wait_for)),
            ],
        ),
    )
}

/// The checks on how the changes of a claim go together with other claims and with its scope.
pub open spec fn coordination(observed: ObservationView) -> Advice {
    let overlaps = overlap_advice(observed.claim, observed.overlaps);
    let scoped = Advice {
        checks: overlaps.checks + scope_checks(observed.claim, observed.scope_warnings),
        ..overlaps
    };
    if observed.claim.wait_for.len() > 0 {
        scoped.with_check(consolidation_check(observed))
    } else {
        scoped
    }
}

fn make_overlap_check(claim: &Claim, overlap: &DiffOverlap) -> (result: DoctorCheck)
    ensures
        result@ == overlap_check(claim@, overlap@),
{
    let status = match overlap.severity {
        OverlapSeverity::Info => CheckStatus::Pass,
        OverlapSeverity::Warning => CheckStatus::Warn,
        OverlapSeverity::Blocking => CheckStatus::Fail,
    };
    let mut message = relationship_name(overlap.relationship).to_owned();
    message.append(" overlap with issue #");
    message.append(decimal_text(overlap.with_issue).as_str());
    message.append(" generation ");
    message.append(short_id(overlap.with_claim_id).as_str());
    message.append(" across ");
    message.append(decimal_text(overlap.shared_paths.len() as u64).as_str());
    message.append(" path(s)");
    let members: Vec<(&str, Json)> = vec![
        ("claim_id", write_id(claim.claim_id)),
        ("issue", Json::Unsigned(claim.issue)),
        ("overlap", overlap_object(overlap)),
    ];
    assert(named(members@) =~= overlap_check(claim@, overlap@).evidence->0->Object_0);
    DoctorCheck::new(
        "merge.overlap",
        CheckGate::Merge,
        "Diff overlap",
        status,
        message,
    ).with_evidence(object(members))
}

fn make_scope_check(claim: &Claim, warning: &ScopeWarning) -> (result: DoctorCheck)
    ensures
        result@ == scope_check(claim@, warning@),
{
    let mut message = warning.path.clone();
    message.append(" ");
    match warning.reason {
        ScopeWarningReason::OutsideAllowedScope => message.append("is outside allowed scope"),
        ScopeWarningReason::InsideDisallowedScope => message.append("is inside disallowed scope"),
    }
    let members: Vec<(&str, Json)> = vec![
        ("claim_id", write_id(claim.claim_id)),
        ("issue", Json::Unsigned(claim.issue)),
        ("warning", scope_warning_object(warning)),
    ];
    assert(named(members@) =~= scope_check(claim@, warning@).evidence->0->Object_0);
    DoctorCheck::new(
        "merge.scope",
        CheckGate::Merge,
        "Declared scope",
        CheckStatus::Warn,
        message,
    ).with_evidence(object(members))
}

fn make_consolidation_check(observed: &ClaimObservation) -> (result: DoctorCheck)
    ensures
        result@ == consolidation_check(observed@),
{
    let changed: u64 = match &observed.diff {
        Some(diff) => diff.changed_paths.len() as u64,
        None => 0,
    };
    let untracked: u64 = match &observed.diff {
        Some(diff) => diff.untracked_paths.len() as u64,
        None => 0,
    };
    let members: Vec<(&str, Json)> = vec![
        ("changed_paths", Json::Unsigned(changed)),
        ("claim_id", write_id(observed.claim.claim_id)),
        ("issue", Json::Unsigned(observed.claim.issue)),
        ("untracked_paths", Json::Unsigned(untracked)),
        ("wait_for", wait_for_list(&observed.claim.wait_for)),
    ];
    assert(named(members@) =~= consolidation_check(observed@).evidence->0->Object_0);
    DoctorCheck::new(
        "merge.consolidation_diff",
        CheckGate::Merge,
        "Consolidation diff",
        CheckStatus::Pass,
        "consolidation diff may appear oversized until multi-parent diff bases are supported".to_owned(),
    ).with_evidence(object(members))
}

/// Checks how the changes of a claim go together with other claims and with its scope.
pub fn coordination_checks(observed: &ClaimObservation) -> (result: (Vec<DoctorCheck>, Vec<String>))
    ensures
        advice(result.0@, result.1@) == coordination(observed@),
{
    let claim = &observed.claim;
    let ghost overlaps = observed@.overlaps;
    let mut checks: Vec<DoctorCheck> = Vec::new();
    let mut recommendations: Vec<String> = Vec::new();
    let mut i: usize = 0;
    assert(overlaps.take(0) =~= Seq::empty());
    assert(views(checks@) =~= Seq::empty());
    assert(views(recommendations@) =~= Seq::empty());
    while i < observed.overlaps.len()
        invariant
            i <= observed.overlaps.len(),
            claim == &observed.claim,
            overlaps == views(observed.overlaps@),
            advice(checks@, recommendations@) == overlap_advice(claim@, overlaps.take(i as int)),
        decreases observed.overlaps.len() - i,
    {
        let overlap = &observed.overlaps[i];
        let ghost done = advice(checks@, recommendations@);
        assert(overlaps.take(i + 1).drop_last() =~= overlaps.take(i as int));
        assert(overlaps.take(i + 1).last() == overlap@);
        checks.push(make_overlap_check(claim, overlap));
        assert(views(checks@) =~= done.checks.push(overlap_check(claim@, overlap@)));
        if !matches!(overlap.severity, OverlapSeverity::Info) {
            let mut recommendation = "Resolve overlap between issue #".to_owned();
            recommendation.append(decimal_text(claim.issue).as_str());
            recommendation.append(" and issue #");
            recommendation.append(decimal_text(overlap.with_issue).as_str());
            recommendation.append(" before merge");
            assert(recommendation@ == overlap_recommendation(claim@, overlap@));
            recommendations.push(recommendation);
            assert(views(recommendations@) =~= done.recommendations.push(
                overlap_recommendation(claim@, overlap@),
            ));
        }
        i = i + 1;
    }
    assert(overlaps.take(i as int) =~= overlaps);
    let ghost start = views(checks@);
    let ghost wanted = scope_checks(claim@, observed@.scope_warnings);
    i = 0;
    assert(start + wanted.take(0) =~= start);
    while i < observed.scope_warnings.len()
        invariant
            i <= observed.scope_warnings.len(),
            claim == &observed.claim,
            wanted == scope_checks(claim@, views(observed.scope_warnings@)),
            views(checks@) == start + wanted.take(i as int),
        decreases observed.scope_warnings.len() - i,
    {
        let ghost done = views(checks@);
        checks.push(make_scope_check(claim, &observed.scope_warnings[i]));
        i = i + 1;
        assert(views(checks@) =~= done.push(wanted[i - 1]));
        assert(start + wanted.take(i as int) =~= done.push(wanted[i - 1]));
    }
    assert(wanted.take(i as int) =~= wanted);
    if claim.wait_for.len() > 0 {
        let ghost done = views(checks@);
        checks.push(make_consolidation_check(observed));
        assert(views(checks@) =~= done.push(consolidation_check(observed@)));
    }
    (checks, recommendations)
}

// ---------------------------------------------------------------------------------------------
// GitHub
// ---------------------------------------------------------------------------------------------
pub open spec fn release_advice(issue: IssueNumber, reason: Seq<char>) -> Seq<char> {
    "Release idempotently: gh envoy release "@ + decimal(issue as nat) + " --reason "@ + reason
}

fn release_recommendation(issue: IssueNumber, reason: &str) -> (text: String)
    ensures
        text@ == release_advice(issue, reason@),
{
    let mut text = "Release idempotently: gh envoy release ".to_owned();
    text.append(decimal_text(issue).as_str());
    text.append(" --reason ");
    text.append(reason);
    text
}

/// The check on the issue of a claim, and what a closed issue recommends.
pub open spec fn issue_advice(claim: ClaimView, issue: IssueObservationView) -> Advice {
    match issue {
        IssueObservationView::Available(found) => {
            let closed = found.state is Closed;
            Advice {
                checks: seq![
                    check(
                        "publish.issue_state"@,
                        CheckGate::Publish,
                        "GitHub issue"@,
                        if closed {
                            CheckStatus::Warn
                        } else {
                            CheckStatus::Pass
                        },
                        "GitHub issue #"@ + decimal(claim.issue as nat) + (if closed {
                            " is closed"@
                        } else {
                            " is open"@
                        }),
                    ).with(
                        JsonView::Object(
                            seq![
                                ("issue"@, JsonView::Unsigned(claim.issue)),
                                (
                                    "state"@,
                                    JsonView::Text(
                                        if closed {
                                            "closed"@
                                        } else {
                                            "open"@
                                        },
                                    ),
                                ),
                                ("title"@, JsonView::Text(found.title)),
                            ],
                        ),
                    ),
                ],
                recommendations: if closed {
                    seq![release_advice(claim.issue, "closed"@)]
                } else {
                    Seq::empty()
                },
            }
        },
        IssueObservationView::NotFound => Advice {
            checks: seq![
                required_check(
                    "publish.issue_state"@,
                    CheckGate::Publish,
                    "GitHub issue"@,
                    CheckStatus::Fail,
                    "GitHub issue #"@ + decimal(claim.issue as nat)
                        + " does not exist or is not reachable in this repository"@,
                ),
            ],
            recommendations: Seq::empty(),
        },
        IssueObservationView::Unavailable => Advice {
            checks: seq![
                check(
                    "publish.issue_state"@,
                    CheckGate::Publish,
                    "GitHub issue"@,
                    CheckStatus::Skip,
                    "GitHub issue state is unavailable; local checks remain valid"@,
                ),
            ],
            recommendations: Seq::empty(),
        },
    }
}

pub open spec fn pull_request_state_text(state: GithubPullRequestState) -> Seq<char> {
    match state {
        GithubPullRequestState::Open => "open"@,
        GithubPullRequestState::Closed => "closed"@,
        GithubPullRequestState::Merged => "merged"@,
    }
}

pub fn pull_request_state_name(state: GithubPullRequestState) -> (name: &'static str)
    ensures
        name@ == pull_request_state_text(state),
{
    match state {
        GithubPullRequestState::Open => "open",
        GithubPullRequestState::Closed => "closed",
        GithubPullRequestState::Merged => "merged",
    }
}

pub open spec fn pull_request_evidence(claim: ClaimView, found: PullRequestView) -> JsonView {
    JsonView::Object(
        seq![
            ("base"@, JsonView::Text(found.base)),
            ("draft"@, JsonView::Bool(found.draft)),
            ("expected_base"@, JsonView::Text(claim.base_ref)),
            ("head"@, JsonView::Text(found.head)),
            ("number"@, JsonView::Unsigned(found.number)),
            ("state"@, JsonView::Text(pull_request_state_text(found.state))),
            ("url"@, JsonView::Text(found.url)),
        ],
    )
}

/// The check on the pull request of a claim, and what a merged one recommends.
pub open spec fn pull_request_advice(
    claim: ClaimView,
    pull_request: PullRequestObservationView,
) -> Advice {
    match pull_request {
        PullRequestObservationView::Available(Some(found)) => Advice {
            checks: seq![
                required_check(
                    "publish.pr_base"@,
                    CheckGate::Publish,
                    "Pull request base"@,
                    if found.base == claim.base_ref {
                        CheckStatus::Pass
                    } else {
                        CheckStatus::Fail
                    },
                    if found.base == claim.base_ref {
                        "pull request #"@ + decimal(found.number as nat)
                            + " targets expected base "@ + quoted(claim.base_ref)
                    } else {
                        "pull request #"@ + decimal(found.number as nat) + " targets "@ + quoted(
                            found.base,
                        ) + ", expected "@ + quoted(claim.base_ref)
                    },
                ).with(pull_request_evidence(claim, found)),
            ],
            recommendations: if found.state is Merged {
                seq![release_advice(claim.issue, "merged"@)]
            } else {
                Seq::empty()
            },
        },
        PullRequestObservationView::Available(None) => Advice {
            checks: seq![
                check(
                    "publish.pr_base"@,
                    CheckGate::Publish,
                    "Pull request base"@,
                    CheckStatus::Skip,
                    "no pull request exists for the exact claimed branch"@,
                ),
            ],
            recommendations: Seq::empty(),
        },
        PullRequestObservationView::Unavailable => Advice {
            checks: seq![
                check(
                    "publish.pr_base"@,
                    CheckGate::Publish,
                    "Pull request base"@,
                    CheckStatus::Skip,
                    "pull request facts are unavailable; local checks remain valid"@,
                ),
            ],
            recommendations: Seq::empty(),
        },
    }
}

/// The checks on what GitHub says of a claim: on its issue and on its pull request.
pub open spec fn github_advice(
    claim: ClaimView,
    issue: IssueObservationView,
    pull_request: PullRequestObservationView,
) -> Advice {
    let both = issue_advice(claim, issue).and(pull_request_advice(claim, pull_request));
    Advice { recommendations: ascending_texts(both.recommendations), ..both }
}

fn issue_checks(claim: &Claim, issue: GithubIssueObservation) -> (result: (
    Vec<DoctorCheck>,
    Vec<String>,
))
    ensures
        advice(result.0@, result.1@) == issue_advice(claim@, issue@),
{
    let ghost wanted = issue_advice(claim@, issue@);
    let mut checks: Vec<DoctorCheck> = Vec::new();
    let mut recommendations: Vec<String> = Vec::new();
    match issue {
        GithubIssueObservation::Available(found) => {
            let closed = matches!(found.state, GithubIssueState::Closed);
            let mut message = "GitHub issue #".to_owned();
            message.append(decimal_text(claim.issue).as_str());
            message.append(
                if closed {
                    " is closed"
                } else {
                    " is open"
                },
            );
            let members: Vec<(&str, Json)> = vec![
                ("issue", Json::Unsigned(claim.issue)),
                (
                    "state",
                    text(
                        if closed {
                            "closed"
                        } else {
                            "open"
                        },
                    ),
                ),
                ("title", text(found.title.as_str())),
            ];
            assert(named(members@) =~= wanted.checks[0].evidence->0->Object_0);
            checks.push(
                DoctorCheck::new(
                    "publish.issue_state",
                    CheckGate::Publish,
                    "GitHub issue",
                    if closed {
                        CheckStatus::Warn
                    } else {
                        CheckStatus::Pass
                    },
                    message,
                ).with_evidence(object(members)),
            );
            if closed {
                recommendations.push(release_recommendation(claim.issue, "closed"));
            }
        },
        GithubIssueObservation::NotFound => {
            let mut message = "GitHub issue #".to_owned();
            message.append(decimal_text(claim.issue).as_str());
            message.append(" does not exist or is not reachable in this repository");
            checks.push(
                DoctorCheck::new(
                    "publish.issue_state",
                    CheckGate::Publish,
                    "GitHub issue",
                    CheckStatus::Fail,
                    message,
                ).required(),
            );
        },
        GithubIssueObservation::Unavailable => {
            checks.push(
                DoctorCheck::new(
                    "publish.issue_state",
                    CheckGate::Publish,
                    "GitHub issue",
                    CheckStatus::Skip,
                    "GitHub issue state is unavailable; local checks remain valid".to_owned(),
                ),
            );
        },
    }
    assert(views(checks@) =~= wanted.checks);
    assert(views(recommendations@) =~= wanted.recommendations);
    (checks, recommendations)
}

fn pull_request_checks(claim: &Claim, pull_request: GithubPullRequestObservation) -> (result: (
    Vec<DoctorCheck>,
    Vec<String>,
))
    ensures
        advice(result.0@, result.1@) == pull_request_advice(claim@, pull_request@),
{
    let ghost wanted = pull_request_advice(claim@, pull_request@);
    let mut checks: Vec<DoctorCheck> = Vec::new();
    let mut recommendations: Vec<String> = Vec::new();
    match pull_request {
        GithubPullRequestObservation::Available(Some(found)) => {
            let fits = same(found.base.as_str(), claim.base_ref.as_str());
            let mut message = "pull request #".to_owned();
            message.append(decimal_text(found.number).as_str());
            if fits {
                message.append(" targets expected base ");
            } else {
                message.append(" targets ");
                message.append(quote(found.base.as_str()).as_str());
                message.append(", expected ");
            }
            message.append(quote(claim.base_ref.as_str()).as_str());
            let members: Vec<(&str, Json)> = vec![
                ("base", text(found.base.as_str())),
                ("draft", Json::Bool(found.draft)),
                ("expected_base", text(claim.base_ref.as_str())),
                ("head", text(found.head.as_str())),
                ("number", Json::Unsigned(found.number)),
                ("state", text(pull_request_state_name(found.state))),
                ("url", text(found.url.as_str())),
            ];
            assert(named(members@) =~= pull_request_evidence(claim@, found@)->Object_0);
            checks.push(
                DoctorCheck::new(
                    "publish.pr_base",
                    CheckGate::Publish,
                    "Pull request base",
                    if fits {
                        CheckStatus::Pass
                    } else {
                        CheckStatus::Fail
                    },
                    message,
                ).required().with_evidence(object(members)),
            );
            if matches!(found.state, GithubPullRequestState::Merged) {
                recommendations.push(release_recommendation(claim.issue, "merged"));
            }
        },
        GithubPullRequestObservation::Available(None) => {
            checks.push(
                DoctorCheck::new(
                    "publish.pr_base",
                    CheckGate::Publish,
                    "Pull request base",
                    CheckStatus::Skip,
                    "no pull request exists for the exact claimed branch".to_owned(),
                ),
            );
        },
        GithubPullRequestObservation::Unavailable => {
            checks.push(
                DoctorCheck::new(
                    "publish.pr_base",
                    CheckGate::Publish,
                    "Pull request base",
                    CheckStatus::Skip,
                    "pull request facts are unavailable; local checks remain valid".to_owned(),
                ),
            );
        },
    }
    assert(views(checks@) =~= wanted.checks);
    assert(views(recommendations@) =~= wanted.recommendations);
    (checks, recommendations)
}

/// Checks what GitHub says of a claim.
pub fn github_checks(
    claim: &Claim,
    issue: GithubIssueObservation,
    pull_request: GithubPullRequestObservation,
) -> (result: (Vec<DoctorCheck>, Vec<String>))
    ensures
        advice(result.0@, result.1@) == github_advice(claim@, issue@, pull_request@),
{
    let (mut checks, mut recommendations) = issue_checks(claim, issue);
    let (more, further) = pull_request_checks(claim, pull_request);
    append_checks(&mut checks, &more);
    append_texts(&mut recommendations, &further);
    (checks, sorted_distinct(&recommendations))
}

/// Whether asking GitHub about a claim may lead to those checks.
pub open spec fn github_checked<R: CommandRunner>(
    runner: &R,
    cwd: Seq<char>,
    repository: Seq<char>,
    claim: ClaimView,
    found: Advice,
) -> bool {
    exists|issue: GithubIssueObservation, pull_request: GithubPullRequestObservation| #[trigger]
        issue_observed(runner, cwd, repository, claim.issue, Ok(issue))
            && #[trigger] pull_request_observed(
            runner,
            cwd,
            repository,
            claim.branch,
            Ok(pull_request),
        ) && found == github_advice(claim, issue@, pull_request@)
}

/// Whether asking GitHub about a claim may fail with that error.
pub open spec fn github_unchecked<R: CommandRunner>(
    runner: &R,
    cwd: Seq<char>,
    repository: Seq<char>,
    claim: ClaimView,
    error: GithubIssueError,
) -> bool {
    issue_observed(runner, cwd, repository, claim.issue, Err(error)) || pull_request_observed(
        runner,
        cwd,
        repository,
        claim.branch,
        Err(error),
    )
}

/// Asks GitHub about a claim, and checks what it says.
pub fn github_checks_for_claim<R: CommandRunner>(
    runner: &R,
    cwd: &str,
    repository: &str,
    claim: &Claim,
) -> (result: Result<(Vec<DoctorCheck>, Vec<String>), GithubIssueError>)
    requires
        runner.permits(command("gh"@, issue_args(repository@, claim@.issue), cwd@)),
        runner.permits(command("gh"@, pull_request_args(repository@, claim@.branch), cwd@)),
    ensures
        match result {
            Ok(found) => github_checked(
                runner,
                cwd@,
                repository@,
                claim@,
                advice(found.0@, found.1@),
            ),
            Err(error) => github_unchecked(runner, cwd@, repository@, claim@, error),
        },
{
    let issue = match observe_issue(runner, cwd, repository, claim.issue) {
        Ok(issue) => issue,
        Err(error) => return Err(error),
    };
    let pull_request = match observe_pull_request(runner, cwd, repository, claim.branch.as_str()) {
        Ok(pull_request) => pull_request,
        Err(error) => return Err(error),
    };
    let ghost issue_seen = issue;
    let ghost pull_request_seen = pull_request;
    let found = github_checks(claim, issue, pull_request);
    assert(issue_observed(runner, cwd@, repository@, claim@.issue, Ok(issue_seen)));
    assert(pull_request_observed(runner, cwd@, repository@, claim@.branch, Ok(pull_request_seen)));
    Ok(found)
}

// ---------------------------------------------------------------------------------------------
// Integrity of a claim
// ---------------------------------------------------------------------------------------------
/// The first of the problems of a claim that has one of the codes.
pub open spec fn first_problem(
    problems: Seq<ProblemView>,
    claim_id: Id,
    codes: Seq<LocalProblemCode>,
) -> Option<ProblemView>
    decreases problems.len(),
{
    if problems.len() == 0 {
        None
    } else if problems[0].claim_id == Some(claim_id) && codes.contains(problems[0].code) {
        Some(problems[0])
    } else {
        first_problem(problems.drop_first(), claim_id, codes)
    }
}

fn contains_code(codes: &Vec<LocalProblemCode>, code: LocalProblemCode) -> (found: bool)
    ensures
        found == codes@.contains(code),
{
    let mut i: usize = 0;
    while i < codes.len()
        invariant
            i <= codes.len(),
            forall|j: int| 0 <= j < i ==> #[trigger] codes@[j] != code,
        decreases codes.len() - i,
    {
        if codes[i] == code {
            return true;
        }
        i = i + 1;
    }
    false
}

pub fn find_problem<'a>(
    problems: &'a Vec<LocalProblem>,
    claim_id: Id,
    codes: &Vec<LocalProblemCode>,
) -> (found: Option<&'a LocalProblem>)
    ensures
        match found {
            Some(problem) => first_problem(views(problems@), claim_id, codes@) == Some(problem@),
            None => first_problem(views(problems@), claim_id, codes@) is None,
        },
{
    let ghost all = views(problems@);
    let mut i: usize = 0;
    assert(all.skip(0) =~= all);
    while i < problems.len()
        invariant
            i <= problems.len(),
            all == views(problems@),
            first_problem(all, claim_id, codes@) == first_problem(
                all.skip(i as int),
                claim_id,
                codes@,
            ),
        decreases problems.len() - i,
    {
        assert(all.skip(i as int)[0] == problems@[i as int]@);
        assert(all.skip(i as int).drop_first() =~= all.skip(i + 1));
        if let Some(id) = problems[i].claim_id {
            if id == claim_id && contains_code(codes, problems[i].code) {
                return Some(&problems[i]);
            }
        }
        i = i + 1;
    }
    None
}

/// The check whether a claim has a problem of one of the codes.
pub open spec fn problem_check_of(
    claim: ClaimView,
    problems: Seq<ProblemView>,
    id: Seq<char>,
    title: Seq<char>,
    codes: Seq<LocalProblemCode>,
    success: Seq<char>,
) -> CheckView {
    let (status, message) = match first_problem(problems, claim.claim_id, codes) {
        Some(problem) => (CheckStatus::Fail, problem.message),
        None => (CheckStatus::Pass, success),
    };
    required_check(id, CheckGate::Integrity, title, status, message).with(
        claim_evidence(claim.issue, claim.claim_id),
    )
}

fn problem_check(
    claim: &Claim,
    problems: &Vec<LocalProblem>,
    id: &str,
    title: &str,
    codes: Vec<LocalProblemCode>,
    success: &str,
) -> (result: DoctorCheck)
    ensures
        result@ == problem_check_of(claim@, views(problems@), id@, title@, codes@, success@),
{
    let (status, message) = match find_problem(problems, claim.claim_id, &codes) {
        Some(problem) => (CheckStatus::Fail, problem.message.clone()),
        None => (CheckStatus::Pass, success.to_owned()),
    };
    DoctorCheck::new(id, CheckGate::Integrity, title, status, message).required().with_evidence(
        claim_identity(claim.issue, claim.claim_id),
    )
}

/// The check whether the changes of a claim can be told.
pub open spec fn diff_check(observed: ObservationView) -> CheckView {
    (match observed.diff {
        Some(diff) => check(
            "integrity.diff"@,
            CheckGate::Integrity,
            "Diff derivation"@,
            CheckStatus::Pass,
            "derived "@ + decimal(diff.changed_paths.len()) + " changed and "@ + decimal(
                diff.untracked_paths.len(),
            ) + " untracked paths"@,
        ),
        None => check(
            "integrity.diff"@,
            CheckGate::Integrity,
            "Diff derivation"@,
            CheckStatus::Skip,
            "diff cannot be derived until branch and base checks pass"@,
        ),
    }).with(claim_evidence(observed.claim.issue, observed.claim.claim_id))
}

fn make_diff_check(observed: &ClaimObservation) -> (result: DoctorCheck)
    ensures
        result@ == diff_check(observed@),
{
    let identity = claim_identity(observed.claim.issue, observed.claim.claim_id);
    match &observed.diff {
        Some(diff) => {
            let mut message = "derived ".to_owned();
            message.append(decimal_text(diff.changed_paths.len() as u64).as_str());
            message.append(" changed and ");
            message.append(decimal_text(diff.untracked_paths.len() as u64).as_str());
            message.append(" untracked paths");
            DoctorCheck::new(
                "integrity.diff",
                CheckGate::Integrity,
                "Diff derivation",
                CheckStatus::Pass,
                message,
            ).with_evidence(identity)
        },
        None => DoctorCheck::new(
            "integrity.diff",
            CheckGate::Integrity,
            "Diff derivation",
            CheckStatus::Skip,
            "diff cannot be derived until branch and base checks pass".to_owned(),
        ).with_evidence(identity),
    }
}

/// The checks whether a claim is well recorded, and whether its worktree, its branch and its base
/// are there and its changes can be told.
pub open spec fn local_checks(observed: ObservationView, problems: Seq<ProblemView>) -> Seq<
    CheckView,
> {
    let claim = observed.claim;
    seq![
        required_check(
            "integrity.claim_schema"@,
            CheckGate::Integrity,
            "Claim schema"@,
            CheckStatus::Pass,
            "claim schema and persisted location are valid"@,
        ).with(claim_evidence(claim.issue, claim.claim_id)),
        problem_check_of(
            claim,
            problems,
            "integrity.worktree"@,
            "Worktree"@,
            seq![LocalProblemCode::MissingWorktree, LocalProblemCode::WorktreeMismatch],
            "claimed worktree exists, is registered, and is attached to the claimed branch"@,
        ),
        problem_check_of(
            claim,
            problems,
            "integrity.branch"@,
            "Branch"@,
            seq![LocalProblemCode::MissingBranch],
            "claimed branch resolves to a local commit"@,
        ),
        problem_check_of(
            claim,
            problems,
            "integrity.base"@,
            "Captured base"@,
            seq![LocalProblemCode::MissingBase],
            "captured base resolves to the exact commit"@,
        ),
        diff_check(observed),
    ]
}

pub fn make_local_checks(observed: &ClaimObservation, problems: &Vec<LocalProblem>) -> (checks: Vec<
    DoctorCheck,
>)
    ensures
        views(checks@) == local_checks(observed@, views(problems@)),
{
    let claim = &observed.claim;
    let worktree_codes: Vec<LocalProblemCode> = vec![
        LocalProblemCode::MissingWorktree,
        LocalProblemCode::WorktreeMismatch,
    ];
    let branch_codes: Vec<LocalProblemCode> = vec![LocalProblemCode::MissingBranch];
    let base_codes: Vec<LocalProblemCode> = vec![LocalProblemCode::MissingBase];
    assert(worktree_codes@ =~= seq![
        LocalProblemCode::MissingWorktree,
        LocalProblemCode::WorktreeMismatch,
    ]);
    assert(branch_codes@ =~= seq![LocalProblemCode::MissingBranch]);
    assert(base_codes@ =~= seq![LocalProblemCode::MissingBase]);
    let checks: Vec<DoctorCheck> = vec![
        DoctorCheck::new(
            "integrity.claim_schema",
            CheckGate::Integrity,
            "Claim schema",
            CheckStatus::Pass,
            "claim schema and persisted location are valid".to_owned(),
        ).required().with_evidence(claim_identity(claim.issue, claim.claim_id)),
        problem_check(
            claim,
            problems,
            "integrity.worktree",
            "Worktree",
            worktree_codes,
            "claimed worktree exists, is registered, and is attached to the claimed branch",
        ),
        problem_check(
            claim,
            problems,
            "integrity.branch",
            "Branch",
            branch_codes,
            "claimed branch resolves to a local commit",
        ),
        problem_check(
            claim,
            problems,
            "integrity.base",
            "Captured base",
            base_codes,
            "captured base resolves to the exact commit",
        ),
        make_diff_check(observed),
    ];
    assert(views(checks@) =~= local_checks(observed@, views(problems@)));
    checks
}

// ---------------------------------------------------------------------------------------------
// Ownership
// ---------------------------------------------------------------------------------------------
/// The claims whose worktree leads to a place, in their order.
pub open spec fn owners_of(
    claims: Seq<ObservationView>,
    places: Seq<(Seq<char>, Seq<char>)>,
    place: Seq<char>,
) -> Seq<ClaimView>
    decreases claims.len(),
{
    if claims.len() == 0 {
        Seq::empty()
    } else {
        let front = owners_of(claims.drop_last(), places, place);
        if same_path(place_of(places, claims.last().claim.worktree), place) {
            front.push(claims.last().claim)
        } else {
            front
        }
    }
}

/// The issue and the generation of each claim.
pub open spec fn owner_issues(owners: Seq<ClaimView>) -> Seq<IssueNumber> {
    Seq::new(owners.len(), |i: int| owners[i].issue)
}

pub open spec fn owner_ids(owners: Seq<ClaimView>) -> Seq<Id> {
    Seq::new(owners.len(), |i: int| owners[i].claim_id)
}

fn find_owners(
    claims: &Vec<ClaimObservation>,
    places: &Vec<(String, String)>,
    place: &str,
) -> (result: (Vec<IssueNumber>, Vec<Id>))
    ensures
        ({
            let owners = owners_of(views(claims@), pairs(places@), place@);
            result.0@ == owner_issues(owners) && result.1@ == owner_ids(owners)
        }),
{
    let ghost all = views(claims@);
    let ghost known = pairs(places@);
    let mut issues: Vec<IssueNumber> = Vec::new();
    let mut ids: Vec<Id> = Vec::new();
    let mut i: usize = 0;
    assert(all.take(0) =~= Seq::empty());
    assert(issues@ =~= owner_issues(Seq::empty()));
    assert(ids@ =~= owner_ids(Seq::empty()));
    while i < claims.len()
        invariant
            i <= claims.len(),
            all == views(claims@),
            known == pairs(places@),
            issues@ == owner_issues(owners_of(all.take(i as int), known, place@)),
            ids@ == owner_ids(owners_of(all.take(i as int), known, place@)),
        decreases claims.len() - i,
    {
        let ghost done = owners_of(all.take(i as int), known, place@);
        assert(all.take(i + 1).drop_last() =~= all.take(i as int));
        assert(all.take(i + 1).last() == claims@[i as int]@);
        let here = find_place(places, claims[i].claim.worktree.as_str());
        if is_same_path(here.as_str(), place) {
            issues.push(claims[i].claim.issue);
            ids.push(claims[i].claim.claim_id);
            assert(issues@ =~= owner_issues(done.push(all[i as int].claim)));
            assert(ids@ =~= owner_ids(done.push(all[i as int].claim)));
        }
        i = i + 1;
    }
    assert(all.take(i as int) =~= all);
    (issues, ids)
}

/// The check whether a claim is the only one on its worktree, before its evidence.
pub open spec fn ownership(owners: nat) -> CheckView {
    required_check(
        "integrity.ownership"@,
        CheckGate::Integrity,
        "Declared worktree ownership"@,
        if owners > 1 {
            CheckStatus::Fail
        } else {
            CheckStatus::Pass
        },
        if owners > 1 {
            "multiple active claims declare the same canonical worktree"@
        } else {
            "canonical worktree has one active owner"@
        },
    )
}

fn make_ownership(owners: usize) -> (result: DoctorCheck)
    ensures
        result@ == ownership(owners as nat),
{
    let (status, message) = if owners > 1 {
        (CheckStatus::Fail, "multiple active claims declare the same canonical worktree")
    } else {
        (CheckStatus::Pass, "canonical worktree has one active owner")
    };
    DoctorCheck::new(
        "integrity.ownership",
        CheckGate::Integrity,
        "Declared worktree ownership",
        status,
        message.to_owned(),
    ).required()
}

/// The check whether a claim is the only one on its worktree, with the issues and the generations
/// that are on it.
pub open spec fn ownership_check(
    claim: ClaimView,
    claims: Seq<ObservationView>,
    places: Seq<(Seq<char>, Seq<char>)>,
) -> CheckView {
    let owners = owners_of(claims, places, place_of(places, claim.worktree));
    ownership(owners.len()).with(
        JsonView::Object(
            seq![
                ("claim_ids"@, ids_evidence(owner_ids(owners))),
                ("issues"@, issues_evidence(owner_issues(owners))),
                ("worktree"@, JsonView::Text(claim.worktree)),
            ],
        ),
    )
}

pub fn make_ownership_check(
    claim: &Claim,
    claims: &Vec<ClaimObservation>,
    places: &Vec<(String, String)>,
) -> (result: DoctorCheck)
    ensures
        result@ == ownership_check(claim@, views(claims@), pairs(places@)),
{
    let place = find_place(places, claim.worktree.as_str());
    let (issues, ids) = find_owners(claims, places, place.as_str());
    let members: Vec<(&str, Json)> = vec![
        ("claim_ids", id_list(&ids)),
        ("issues", issue_list(&issues)),
        ("worktree", text(claim.worktree.as_str())),
    ];
    assert(named(members@) =~= ownership_check(
        claim@,
        views(claims@),
        pairs(places@),
    ).evidence->0->Object_0);
    make_ownership(ids.len()).with_evidence(object(members))
}

/// The issue and the generation of each claim, as a list of pairs.
pub open spec fn owners_evidence(owners: Seq<ClaimView>) -> JsonView {
    JsonView::List(Seq::new(owners.len(), |i: int| owner_evidence(owners[i])))
}

pub open spec fn owner_evidence(owner: ClaimView) -> JsonView {
    JsonView::List(seq![JsonView::Unsigned(owner.issue), id_json(owner.claim_id)])
}

fn owner_list(issues: &Vec<IssueNumber>, ids: &Vec<Id>, Ghost(owners): Ghost<Seq<ClaimView>>) -> (json:
    Json)
    requires
        issues@ == owner_issues(owners),
        ids@ == owner_ids(owners),
    ensures
        json@ == owners_evidence(owners),
{
    let mut items: Vec<Json> = Vec::new();
    let mut i: usize = 0;
    while i < issues.len()
        invariant
            i <= issues.len(),
            issues@ == owner_issues(owners),
            ids@ == owner_ids(owners),
            items.len() == i,
            forall|j: int| 0 <= j < i ==> (#[trigger] items@[j])@ == owner_evidence(owners[j]),
        decreases issues.len() - i,
    {
        let pair: Vec<Json> = vec![Json::Unsigned(issues[i]), write_id(ids[i])];
        proof {
            list_view(pair);
            assert(views(pair@) =~= owner_evidence(owners[i as int])->List_0);
        }
        items.push(Json::List(pair));
        i = i + 1;
    }
    proof {
        list_view(items);
        assert(views(items@) =~= owners_evidence(owners)->List_0);
    }
    Json::List(items)
}

/// The check whether a claim is the only one on its worktree, with the pairs of issue and
/// generation that are on it.
pub open spec fn owners_check(
    claim: ClaimView,
    claims: Seq<ObservationView>,
    places: Seq<(Seq<char>, Seq<char>)>,
) -> CheckView {
    let owners = owners_of(claims, places, place_of(places, claim.worktree));
    ownership(owners.len()).with(
        JsonView::Object(
            seq![
                ("owners"@, owners_evidence(owners)),
                ("worktree"@, JsonView::Text(claim.worktree)),
            ],
        ),
    )
}

pub fn make_owners_check(
    claim: &Claim,
    claims: &Vec<ClaimObservation>,
    places: &Vec<(String, String)>,
) -> (result: DoctorCheck)
    ensures
        result@ == owners_check(claim@, views(claims@), pairs(places@)),
{
    let place = find_place(places, claim.worktree.as_str());
    let (issues, ids) = find_owners(claims, places, place.as_str());
    let ghost owners = owners_of(views(claims@), pairs(places@), place@);
    let list = owner_list(&issues, &ids, Ghost(owners));
    let members: Vec<(&str, Json)> = vec![
        ("owners", list),
        ("worktree", text(claim.worktree.as_str())),
    ];
    assert(named(members@) =~= owners_check(
        claim@,
        views(claims@),
        pairs(places@),
    ).evidence->0->Object_0);
    make_ownership(ids.len()).with_evidence(object(members))
}

/// The integrity checks on one generation of a stack; among which claims its worktree must have
/// no other owner is told only of an active one.
pub open spec fn basic_checks(
    observed: ObservationView,
    problems: Seq<ProblemView>,
    active: Option<Seq<ObservationView>>,
    places: Seq<(Seq<char>, Seq<char>)>,
) -> Seq<CheckView> {
    match active {
        Some(claims) => local_checks(observed, problems).push(
            owners_check(observed.claim, claims, places),
        ),
        None => local_checks(observed, problems),
    }
}

pub fn basic_claim_checks(
    observed: &ClaimObservation,
    problems: &Vec<LocalProblem>,
    active: Option<&Vec<ClaimObservation>>,
    places: &Vec<(String, String)>,
) -> (checks: Vec<DoctorCheck>)
    ensures
        views(checks@) == basic_checks(
            observed@,
            views(problems@),
            match active {
                Some(claims) => Some(views(claims@)),
                None => None,
            },
            pairs(places@),
        ),
{
    let mut checks = make_local_checks(observed, problems);
    if let Some(claims) = active {
        let ghost done = views(checks@);
        let one = make_owners_check(&observed.claim, claims, places);
        let ghost last = one@;
        checks.push(one);
        assert(views(checks@) =~= done.push(last));
    }
    checks
}

} // verus!
