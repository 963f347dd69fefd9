use gh_envoy::conflict::{
    DiffOverlap, OverlapConfidence, OverlapRelationship, OverlapSeverity, ScopeWarning,
    ScopeWarningReason,
};
use gh_envoy::github::{
    GithubIssue, GithubIssueError, GithubIssueObservation, GithubIssueState, GithubPullRequest,
    GithubPullRequestObservation, GithubPullRequestState,
};
use gh_envoy::json::{find_member, Json};
use gh_envoy::model::{Claim, DeclaredScope, SCHEMA_VERSION};
use gh_envoy::observation::{ClaimObservation, DiffSummary, LocalProblem, LocalProblemCode};
use gh_envoy::status::{
    claim_status, render_status_human, render_status_human_colored, status_document, ClaimStatus,
    GithubState, PrState, StatusError, StatusReport,
};
use gh_envoy::time::Timestamp;

#[test]
fn human_and_json_status_are_stable() {
    let report = fixture_report();

    assert_eq!(
        render_status_human(&report),
        "Active claims: 2\n\
         \n! #12 321ba92e  Build fixture\n\
         \u{20}\u{20}Branch        envoy/issue-12\n\
         \u{20}\u{20}Worktree      …/fixture-issue-12\n\
         \u{20}\u{20}Base          origin/main@01234567\n\
         \u{20}\u{20}Changes       2 changed, 1 untracked\n\
         \u{20}\u{20}Overlaps      sibling:1, unrelated:1\n\
         \u{20}\u{20}Scope         none\n\
         \u{20}\u{20}Pull request  -\n\
         \u{20}\u{20}GitHub        unverified\n\
         \u{20}\u{20}Local         scope:1\n\
         \n! #13 7a4d91bf  (untitled)\n\
         \u{20}\u{20}Branch        envoy/issue-13\n\
         \u{20}\u{20}Worktree      …/fixture-issue-13\n\
         \u{20}\u{20}Base          origin/main@01234567\n\
         \u{20}\u{20}Changes       unavailable\n\
         \u{20}\u{20}Overlaps      none (diff-based)\n\
         \u{20}\u{20}Scope         none\n\
         \u{20}\u{20}Pull request  -\n\
         \u{20}\u{20}GitHub        unverified\n\
         \u{20}\u{20}Local         missing_branch\n\
         \nProblems:\n\
         ✗ missing_branch #13: local branch \"envoy/issue-13\" does not resolve to a commit\n"
    );

    let document = status_document(&report);
    assert_eq!(names(&document), ["schema_version", "command", "status", "claims", "problems"]);
    assert_eq!(text_of(member(&document, "status")), "warning");
    let Json::List(claims) = member(&document, "claims") else {
        panic!("claims are a list");
    };
    assert_eq!(
        names(&claims[0]),
        [
            "claim",
            "pr",
            "github_state",
            "diff",
            "overlaps",
            "scope_warnings",
            "stack_warnings"
        ]
    );
    assert_eq!(
        text_of(member(member(&claims[0], "claim"), "created_at")),
        "2026-07-10T18:00:00Z"
    );
    assert!(matches!(member(&claims[0], "pr"), Json::Null));
}

#[test]
fn warning_rollup_ignores_info_only_overlap() {
    let mut report = fixture_report();
    report.problems.clear();
    report.claims[0].scope_warnings.clear();
    for overlap in &mut report.claims[0].overlaps {
        overlap.severity = OverlapSeverity::Info;
    }
    report.claims[1].overlaps.clear();

    assert!(!report.has_warnings());
    assert_eq!(text_of(member(&status_document(&report), "status")), "success");
}

#[test]
fn twenty_claims_render_as_one_deterministic_row_each() {
    let claims = (1..=20)
        .map(|number| {
            let mut status = fixture_report().claims.remove(0);
            status.claim.issue = number;
            status.claim.title = Some(format!(
                "Claim {number} with a title that is intentionally long"
            ));
            status.claim.branch = format!("envoy/issue-{number}-with-a-long-branch-name");
            status
        })
        .collect();
    let report = StatusReport { claims, problems: Vec::new() };

    let human = render_status_human(&report);

    assert!(human.starts_with("Active claims: 20\n"));
    assert!(human.contains("intentionally long"));
    for number in 1..=20 {
        assert!(human.contains(&format!("#{} ", number)));
    }
}

#[test]
fn colored_status_uses_ansi_only_when_requested() {
    let report = fixture_report();

    let plain = render_status_human(&report);
    let colored = render_status_human_colored(&report);

    assert!(!plain.contains("\u{1b}["));
    assert!(colored.contains("\u{1b}[33m!\u{1b}[0m #12"));
    assert!(colored.contains("\u{1b}[2mBranch\u{1b}[0m"));
    assert!(colored.contains("\u{1b}[31m✗\u{1b}[0m missing_branch"));
}

#[test]
fn declared_scope_is_visible_before_the_diff_has_changes() {
    let mut report = fixture_report();
    report.claims[0].claim.declared_scope = Some(DeclaredScope {
        allowed_paths: vec!["README.md".to_owned()],
        disallowed_paths: vec![".github/**".to_owned()],
    });
    report.claims[0].diff = DiffSummary::default();
    report.claims[0].overlaps.clear();

    let human = render_status_human(&report);

    assert!(human.contains("Overlaps      none (diff-based)"));
    assert!(human.contains("Scope         allow: README.md; deny: .github/**"));

    report.claims[0].claim.declared_scope = Some(DeclaredScope::default());
    let human = render_status_human(&report);
    assert!(human.contains("Scope         none"));
}

#[test]
fn empty_human_status_is_concise() {
    assert_eq!(
        render_status_human(&StatusReport::default()),
        "No active claims.\n"
    );
}

#[test]
fn github_facts_complete_a_claim() {
    let status = claim_status(
        observation(),
        Some((
            GithubIssueObservation::Available(GithubIssue {
                title: "Observed title".to_owned(),
                state: GithubIssueState::Open,
            }),
            GithubPullRequestObservation::Available(Some(GithubPullRequest {
                number: 42,
                url: "https://github.com/o/r/pull/42".to_owned(),
                head: "topic".to_owned(),
                base: "other".to_owned(),
                state: GithubPullRequestState::Merged,
                draft: false,
            })),
        )),
        true,
    );
    assert_eq!(status.claim.title.as_deref(), Some("Observed title"));
    assert_eq!(status.claim.worktree, "…/fixture");
    assert_eq!(status.github_state, GithubState::Available);
    assert_eq!(status.pr.as_ref().unwrap().state, PrState::Merged);
    assert_eq!(status.stack_warnings.len(), 1);
    assert_eq!(status.stack_warnings[0].code, "github.pr_base_mismatch");
    assert_eq!(
        status.stack_warnings[0].message,
        "pull request #42 targets \"other\", expected \"main\""
    );
}

#[test]
fn missing_and_unavailable_issues_are_told_apart() {
    let missing = claim_status(
        observation(),
        Some((
            GithubIssueObservation::NotFound,
            GithubPullRequestObservation::Available(None),
        )),
        false,
    );
    assert_eq!(missing.github_state, GithubState::Available);
    assert_eq!(missing.stack_warnings[0].code, "github.issue_not_found");
    assert_eq!(missing.claim.worktree, "/work/fixture");

    let offline = claim_status(
        observation(),
        Some((
            GithubIssueObservation::Unavailable,
            GithubPullRequestObservation::Unavailable,
        )),
        false,
    );
    assert_eq!(offline.github_state, GithubState::Unavailable);
    assert!(offline.stack_warnings.is_empty());

    let local = claim_status(observation(), None, false);
    assert_eq!(local.github_state, GithubState::Unverified);
    assert!(local.pr.is_none());
}

#[test]
fn a_status_error_tells_its_cause() {
    let error = StatusError::Github(GithubIssueError::UnknownState("LOCKED".to_owned()));
    assert!(error.message().contains("unknown state \"LOCKED\""));
}

fn observation() -> ClaimObservation {
    ClaimObservation {
        claim: claim(12, 5, None, "topic", "/work/fixture"),
        diff: None,
        overlaps: Vec::new(),
        scope_warnings: Vec::new(),
    }
}

fn names(json: &Json) -> Vec<&str> {
    match json {
        Json::Object(members) => members.iter().map(|(name, _)| name.as_str()).collect(),
        other => panic!("no object: {other:?}"),
    }
}

fn member<'a>(json: &'a Json, name: &str) -> &'a Json {
    match json {
        Json::Object(members) => find_member(members, name).expect("member"),
        other => panic!("no object: {other:?}"),
    }
}

fn text_of(json: &Json) -> &str {
    match json {
        Json::Text(text) => text,
        other => panic!("no text: {other:?}"),
    }
}

fn fixture_report() -> StatusReport {
    let first_id = id("321ba92e-f076-4bc7-bd5b-6cc16cf76277");
    let second_id = id("7a4d91bf-8ef4-4f8d-a3f6-6611fe214a8f");
    let third_id = id("c121ab44-e6fb-4c62-a504-8fdd2c0a028d");
    let first = ClaimStatus {
        claim: claim(
            12,
            first_id,
            Some("Build fixture"),
            "envoy/issue-12",
            "…/fixture-issue-12",
        ),
        pr: None,
        github_state: GithubState::Unverified,
        diff: DiffSummary {
            changed_paths: vec!["src/lib.rs".to_owned(), "tests/status.rs".to_owned()],
            added_paths: vec!["tests/status.rs".to_owned()],
            modified_paths: vec!["src/lib.rs".to_owned()],
            deleted_paths: Vec::new(),
            untracked_paths: vec!["notes.txt".to_owned()],
        },
        overlaps: vec![
            overlap(13, second_id, OverlapRelationship::Sibling, OverlapSeverity::Warning),
            overlap(14, third_id, OverlapRelationship::Unrelated, OverlapSeverity::Warning),
        ],
        scope_warnings: vec![ScopeWarning {
            path: "notes.txt".to_owned(),
            reason: ScopeWarningReason::OutsideAllowedScope,
        }],
        stack_warnings: Vec::new(),
    };
    let second = ClaimStatus {
        claim: claim(13, second_id, None, "envoy/issue-13", "…/fixture-issue-13"),
        pr: None,
        github_state: GithubState::Unverified,
        diff: DiffSummary::default(),
        overlaps: Vec::new(),
        scope_warnings: Vec::new(),
        stack_warnings: Vec::new(),
    };
    StatusReport {
        claims: vec![first, second],
        problems: vec![LocalProblem {
            code: LocalProblemCode::MissingBranch,
            issue: Some(13),
            claim_id: Some(second_id),
            operation_id: None,
            message: "local branch \"envoy/issue-13\" does not resolve to a commit".to_owned(),
        }],
    }
}

fn claim(number: u64, claim_id: u128, title: Option<&str>, branch: &str, worktree: &str) -> Claim {
    Claim {
        schema_version: SCHEMA_VERSION.to_owned(),
        claim_id,
        repo: "local/fixture".to_owned(),
        issue: number,
        title: title.map(str::to_owned),
        branch: branch.to_owned(),
        worktree: worktree.to_owned(),
        base_remote: "origin".to_owned(),
        base_ref: "main".to_owned(),
        base_sha: "0123456789abcdef0123456789abcdef01234567".to_owned(),
        base_issue: None,
        base_claim_id: None,
        wait_for: Vec::new(),
        declared_scope: None,
        note: None,
        created_at: Timestamp { secs: 1783706400, nanos: 0 },
    }
}

fn overlap(
    number: u64,
    claim_id: u128,
    relationship: OverlapRelationship,
    severity: OverlapSeverity,
) -> DiffOverlap {
    DiffOverlap {
        with_issue: number,
        with_claim_id: claim_id,
        relationship,
        shared_paths: vec!["src/lib.rs".to_owned()],
        confidence: OverlapConfidence::Full,
        severity,
        labels: Vec::new(),
    }
}

fn id(value: &str) -> u128 {
    uuid::Uuid::parse_str(value).expect("valid UUID").as_u128()
}
