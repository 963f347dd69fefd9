use gh_envoy::json::{find_member, Json};
use gh_envoy::list::{
    get_claim_list, list_document, render_claim_list_human, render_claim_list_human_colored,
    ClaimList, ClaimListEntry, ClaimState, ListError,
};
use gh_envoy::git::RepositoryError;
use gh_envoy::model::{Claim, ReleaseMarker, ReleaseReason, SCHEMA_VERSION};
use gh_envoy::time::Timestamp;

#[test]
fn list_shows_active_and_released_claim_generations() {
    let released = claim(7, "released", "11111111-1111-4111-8111-111111111111", 18);
    let active = claim(7, "active", "22222222-2222-4222-8222-222222222222", 19);
    let marker = release(&released, ReleaseReason::Abandoned);

    let list = get_claim_list(&vec![released, active], &vec![marker], true);
    let json = list_document(&list);
    assert_eq!(text_of(member(&json, "command")), "list");
    assert_eq!(text_of(member(&json, "status")), "success");
    let Json::List(claims) = member(&json, "claims") else {
        panic!("claims are a list");
    };
    assert_eq!(claims.len(), 2);
    assert_eq!(text_of(member(&claims[0], "state")), "released");
    assert_eq!(
        text_of(member(member(&claims[0], "release"), "reason")),
        "abandoned"
    );
    assert_eq!(text_of(member(&claims[1], "state")), "active");
    assert!(matches!(member(&claims[1], "release"), Json::Null));
    assert_eq!(
        text_of(member(member(&claims[1], "claim"), "worktree")),
        "…/active"
    );

    let human = render_claim_list_human(&list);
    assert!(human.starts_with("Claim history: 2 generations (1 active, 1 released)\n"));
    assert!(human.contains("○ #7 11111111  released (abandoned)"));
    assert!(human.contains("● #7 22222222  active"));
    assert!(human.contains("Branch    active"));
    assert!(human.contains("Branch    released"));
    assert!(human.contains("Created   2026-07-10T18:00:00Z"));
}

#[test]
fn list_is_empty_when_no_claims_exist() {
    assert_eq!(
        render_claim_list_human(&get_claim_list(&vec![], &vec![], true)),
        "No claims have been recorded.\n"
    );
    assert_eq!(
        render_claim_list_human(&ClaimList::default()),
        "No claims have been recorded.\n"
    );
}

#[test]
fn list_honors_unredacted_json_configuration() {
    let claim = claim(9, "visible", "33333333-3333-4333-8333-333333333333", 18);
    let worktree = claim.worktree.clone();
    let json = list_document(&get_claim_list(&vec![claim], &vec![], false));
    let Json::List(claims) = member(&json, "claims") else {
        panic!("claims are a list");
    };
    assert_eq!(
        text_of(member(member(&claims[0], "claim"), "worktree")),
        worktree
    );
}

#[test]
fn colored_list_styles_active_and_released_entries() {
    let active = claim(10, "active", "44444444-4444-4444-8444-444444444444", 18);
    let mut claims = vec![ClaimListEntry {
        claim: active,
        state: ClaimState::Active,
        release: None,
    }];
    for (issue, branch, id, reason) in [
        (
            11,
            "closed",
            "55555555-5555-4555-8555-555555555555",
            ReleaseReason::Closed,
        ),
        (
            12,
            "merged",
            "66666666-6666-4666-8666-666666666666",
            ReleaseReason::Merged,
        ),
        (
            13,
            "manual",
            "77777777-7777-4777-8777-777777777777",
            ReleaseReason::Manual,
        ),
    ] {
        let claim = claim(issue, branch, id, 19);
        let release = release(&claim, reason);
        claims.push(ClaimListEntry {
            claim,
            state: ClaimState::Released,
            release: Some(release),
        });
    }
    let list = ClaimList { claims };

    let rendered = render_claim_list_human_colored(&list);

    assert!(rendered.contains("\u{1b}[32m●\u{1b}[0m #10"));
    assert!(rendered.contains("\u{1b}[2m○\u{1b}[0m #11"));
    assert!(rendered.contains("released (closed)"));
    assert!(rendered.contains("released (merged)"));
    assert!(rendered.contains("released (manual)"));
    assert!(rendered.contains("\u{1b}[2mBranch\u{1b}[0m"));
}

#[test]
fn a_release_of_another_generation_does_not_count() {
    let old = claim(7, "old", "11111111-1111-4111-8111-111111111111", 18);
    let new = claim(7, "new", "22222222-2222-4222-8222-222222222222", 19);
    let marker = release(&old, ReleaseReason::Merged);
    let list = get_claim_list(&vec![new], &vec![marker], false);
    assert_eq!(list.claims[0].state, ClaimState::Active);
}

#[test]
fn a_list_error_tells_its_cause() {
    let error = ListError::Repository(RepositoryError::InvalidOutput("x".to_owned()));
    assert_eq!(error.message(), "invalid Git output: x");
}

fn member<'a>(json: &'a Json, name: &str) -> &'a Json {
    match json {
        Json::Object(members) => find_member(members, name).expect("member"),
        other => panic!("no object: {other:?}"),
    }
}

fn text_of(json: &Json) -> &str {
    match json {
        Json::Text(text) => text,
        other => panic!("no text: {other:?}"),
    }
}

fn claim(number: u64, branch: &str, id: &str, hour: i64) -> Claim {
    Claim {
        schema_version: SCHEMA_VERSION.to_owned(),
        claim_id: uuid::Uuid::parse_str(id).unwrap().as_u128(),
        repo: "local/fixture".to_owned(),
        issue: number,
        title: None,
        branch: branch.to_owned(),
        worktree: format!("/tmp/fixture/{branch}"),
        base_remote: "origin".to_owned(),
        base_ref: "main".to_owned(),
        base_sha: "0123456789abcdef0123456789abcdef01234567".to_owned(),
        base_issue: None,
        base_claim_id: None,
        wait_for: Vec::new(),
        declared_scope: None,
        note: None,
        created_at: Timestamp { secs: 1783706400 + 3600 * (hour - 18), nanos: 0 },
    }
}

fn release(claim: &Claim, reason: ReleaseReason) -> ReleaseMarker {
    ReleaseMarker {
        schema_version: SCHEMA_VERSION.to_owned(),
        repo: claim.repo.clone(),
        issue: claim.issue,
        claim_id: claim.claim_id,
        reason,
        released_at: Timestamp { secs: 1783706400 + 7200, nanos: 0 },
    }
}
