use gh_envoy::config::Config;
use gh_envoy::conflict::{
    analyze_claims, judge_path, make_finding, validate_glob_pattern, validate_risk_globs,
    ConflictError, OverlapConfidence, OverlapRelationship, OverlapSeverity, ScopeWarningReason,
};
use gh_envoy::document::Documented;
use gh_envoy::json::{find_member, Json};
use gh_envoy::model::{Claim, DeclaredScope, WaitForRef, SCHEMA_VERSION};
use gh_envoy::observation::{ClaimObservation, DiffSummary};
use gh_envoy::time::Timestamp;

#[test]
fn every_relationship_confidence_and_risk_class_uses_the_normative_severity() {
    for relationship in [
        OverlapRelationship::Ancestor,
        OverlapRelationship::Descendant,
        OverlapRelationship::Sibling,
        OverlapRelationship::Consolidation,
        OverlapRelationship::Unrelated,
    ] {
        for confidence in [OverlapConfidence::Full, OverlapConfidence::Untracked] {
            for risk in [false, true] {
                let path = if risk { "risk/shared.rs" } else { "src/shared.rs" };
                let mut claims = related_pair(relationship, confidence, path);
                let risk_paths = if risk {
                    rules(&[("risk/**", "critical")])
                } else {
                    Vec::new()
                };

                analyze_claims(&mut claims, &risk_paths).expect("analyze claims");

                let second = claims[1].claim.claim_id;
                let overlap = claims[0]
                    .overlaps
                    .iter()
                    .find(|overlap| overlap.with_claim_id == second)
                    .expect("overlap with second claim");
                assert_eq!(overlap.relationship, relationship);
                assert_eq!(overlap.confidence, confidence);
                assert_eq!(overlap.shared_paths, [path]);
                assert_eq!(overlap.labels, if risk { vec!["critical"] } else { vec![] });
                assert_eq!(
                    overlap.severity,
                    expected_severity(relationship, risk),
                    "relationship={relationship:?} confidence={confidence:?} risk={risk}"
                );
            }
        }
    }
}

#[test]
fn mixed_evidence_is_grouped_without_flattening_confidence_or_risk_labels() {
    let mut left = observed(
        claim(1, 1),
        changed(&["ordinary.rs", "risk/a.rs", "risk/b.rs"]),
    );
    left.diff.as_mut().unwrap().untracked_paths = vec!["new.rs".to_owned()];
    let right = observed(
        claim(2, 2),
        changed(&["ordinary.rs", "risk/a.rs", "risk/b.rs", "new.rs"]),
    );
    let risk_paths = rules(&[("**/b.rs", "special"), ("risk/**", "risk")]);

    let mut claims = vec![left, right];
    analyze_claims(&mut claims, &risk_paths).expect("analyze claims");

    let rows = &claims[0].overlaps;
    assert_eq!(rows.len(), 4);
    assert!(rows.iter().any(|row| {
        row.confidence == OverlapConfidence::Full
            && row.severity == OverlapSeverity::Warning
            && row.shared_paths == ["ordinary.rs"]
            && row.labels.is_empty()
    }));
    assert!(rows.iter().any(|row| {
        row.confidence == OverlapConfidence::Untracked
            && row.shared_paths == ["new.rs"]
            && row.labels.is_empty()
    }));
    assert!(rows
        .iter()
        .any(|row| row.shared_paths == ["risk/a.rs"] && row.labels == ["risk"]));
    assert!(rows
        .iter()
        .any(|row| row.shared_paths == ["risk/b.rs"] && row.labels == ["risk", "special"]));
}

#[test]
fn transitive_ancestry_is_directional_and_cycle_safe() {
    let root = claim(1, 1);
    let mut middle = claim(2, 2);
    middle.base_issue = Some(root.issue);
    middle.base_claim_id = Some(root.claim_id);
    let mut leaf = claim(3, 3);
    leaf.base_issue = Some(middle.issue);
    leaf.base_claim_id = Some(middle.claim_id);
    let mut claims = vec![
        observed(leaf, changed(&["shared.rs"])),
        observed(middle, changed(&["shared.rs"])),
        observed(root, changed(&["shared.rs"])),
    ];

    analyze_claims(&mut claims, &Vec::new()).expect("analyze ancestry");

    let leaf_to_root = claims[0]
        .overlaps
        .iter()
        .find(|overlap| overlap.with_claim_id == claims[2].claim.claim_id)
        .expect("leaf to root overlap");
    let root_to_leaf = claims[2]
        .overlaps
        .iter()
        .find(|overlap| overlap.with_claim_id == claims[0].claim.claim_id)
        .expect("root to leaf overlap");
    assert_eq!(leaf_to_root.relationship, OverlapRelationship::Ancestor);
    assert_eq!(root_to_leaf.relationship, OverlapRelationship::Descendant);

    let first_id = claims[0].claim.claim_id;
    let second_id = claims[1].claim.claim_id;
    claims[0].claim.base_claim_id = Some(second_id);
    claims[1].claim.base_claim_id = Some(first_id);
    analyze_claims(&mut claims, &Vec::new()).expect("cycles do not hang analysis");
}

#[test]
fn built_in_risk_paths_label_common_repository_safety_files() {
    let mut claims = related_pair(
        OverlapRelationship::Unrelated,
        OverlapConfidence::Full,
        "Cargo.lock",
    );

    analyze_claims(&mut claims, &Config::default().risk_paths).expect("analyze defaults");

    assert_eq!(claims[0].overlaps[0].severity, OverlapSeverity::Blocking);
    assert_eq!(claims[0].overlaps[0].labels, ["lockfile"]);
}

#[test]
fn invalid_persisted_scope_globs_are_structured_errors() {
    let mut invalid = claim(1, 1);
    invalid.declared_scope = Some(DeclaredScope {
        allowed_paths: vec!["[".to_owned()],
        disallowed_paths: Vec::new(),
    });
    let mut claims = vec![observed(invalid, changed(&["src/lib.rs"]))];

    let error = analyze_claims(&mut claims, &Vec::new()).expect_err("invalid glob fails");

    assert!(error.message().contains("invalid path glob"));
    let ConflictError::InvalidGlob { pattern, .. } = error;
    assert_eq!(pattern, "[");
}

#[test]
fn empty_declared_scope_performs_no_scope_check() {
    let mut unscoped = claim(1, 1);
    unscoped.declared_scope = Some(DeclaredScope::default());
    let mut claims = vec![observed(unscoped, changed(&["any/path.rs"]))];

    analyze_claims(&mut claims, &Vec::new()).expect("analyze empty scope");

    assert!(claims[0].scope_warnings.is_empty());
}

#[test]
fn reclaimed_generations_and_null_wait_refs_remain_unrelated() {
    let old_generation: u128 = 77;
    let current = claim(8, 78);
    let mut child = claim(9, 79);
    child.base_issue = Some(8);
    child.base_claim_id = Some(old_generation);
    child.wait_for = vec![WaitForRef { issue: 8, claim_id: None }];
    let mut claims = vec![
        observed(child, changed(&["shared.rs"])),
        observed(current, changed(&["shared.rs"])),
    ];

    analyze_claims(&mut claims, &Vec::new()).expect("analyze claims");

    assert_eq!(
        claims[0].overlaps[0].relationship,
        OverlapRelationship::Unrelated
    );
    let value = claims[0].overlaps[0].document();
    let Json::Object(members) = value else {
        panic!("an overlap is an object");
    };
    match find_member(&members, "relationship") {
        Some(Json::Text(name)) => assert_eq!(name, "unrelated"),
        other => panic!("{other:?}"),
    }
}

#[test]
fn scope_checks_cover_tracked_and_untracked_paths_with_independent_reasons() {
    let mut scoped = claim(1, 1);
    scoped.declared_scope = Some(DeclaredScope {
        allowed_paths: vec!["src/**".to_owned()],
        disallowed_paths: vec!["**/generated/**".to_owned(), "outside/**".to_owned()],
    });
    let mut diff = changed(&["src/lib.rs", "src/generated/code.rs", "outside/file.rs"]);
    diff.untracked_paths = vec!["outside/new.rs".to_owned()];
    let mut claims = vec![observed(scoped, diff)];

    analyze_claims(&mut claims, &Vec::new()).expect("analyze scope");

    assert_eq!(claims[0].scope_warnings.len(), 5);
    assert!(claims[0].scope_warnings.iter().any(|warning| {
        warning.path == "src/generated/code.rs"
            && warning.reason == ScopeWarningReason::InsideDisallowedScope
    }));
    for path in ["outside/file.rs", "outside/new.rs"] {
        assert!(claims[0].scope_warnings.iter().any(|warning| {
            warning.path == path && warning.reason == ScopeWarningReason::OutsideAllowedScope
        }));
        assert!(claims[0].scope_warnings.iter().any(|warning| {
            warning.path == path && warning.reason == ScopeWarningReason::InsideDisallowedScope
        }));
    }
}

#[test]
fn dot_relative_scope_matches_repository_relative_git_paths() {
    let mut scoped = claim(1, 1);
    scoped.declared_scope = Some(DeclaredScope {
        allowed_paths: vec!["./README.md".to_owned()],
        disallowed_paths: Vec::new(),
    });
    let mut claims = vec![observed(scoped, changed(&["README.md"]))];

    analyze_claims(&mut claims, &Vec::new()).expect("analyze dot-relative scope");

    assert!(claims[0].scope_warnings.is_empty());
}

#[test]
fn shared_declared_scope_is_not_an_overlap_until_both_diffs_touch_a_path() {
    let mut first = claim(1, 1);
    let mut second = claim(2, 2);
    for claim in [&mut first, &mut second] {
        claim.declared_scope = Some(DeclaredScope {
            allowed_paths: vec!["README.md".to_owned()],
            disallowed_paths: Vec::new(),
        });
    }
    let mut claims = vec![
        observed(first, DiffSummary::default()),
        observed(second, DiffSummary::default()),
    ];

    analyze_claims(&mut claims, &Vec::new()).expect("analyze empty diffs");
    assert!(claims.iter().all(|claim| claim.overlaps.is_empty()));

    for claim in &mut claims {
        claim.diff = Some(changed(&["README.md"]));
    }
    analyze_claims(&mut claims, &Vec::new()).expect("analyze shared change");
    assert_eq!(claims[0].overlaps[0].shared_paths, ["README.md"]);
}

#[test]
fn a_claim_that_is_waited_for_and_built_on_is_seen_from_both_sides() {
    let mut claims = related_pair(
        OverlapRelationship::Ancestor,
        OverlapConfidence::Full,
        "src/shared.rs",
    );
    analyze_claims(&mut claims, &Vec::new()).expect("analyze");
    assert_eq!(claims[0].overlaps[0].relationship, OverlapRelationship::Ancestor);
    assert_eq!(claims[1].overlaps[0].relationship, OverlapRelationship::Descendant);
}

#[test]
fn overlaps_are_told_to_both_claims_alike() {
    let mut claims = vec![
        observed(claim(1, 1), changed(&["a", "b", "c"])),
        observed(claim(2, 2), changed(&["b", "c", "d"])),
        observed(claim(3, 3), untracked(&["c"])),
    ];
    analyze_claims(&mut claims, &rules(&[("c", "core")])).expect("analyze claims");
    for subject in &claims {
        for overlap in &subject.overlaps {
            let other = claims
                .iter()
                .find(|observed| observed.claim.claim_id == overlap.with_claim_id)
                .expect("other");
            assert!(other.overlaps.iter().any(|back| {
                back.with_claim_id == subject.claim.claim_id
                    && back.shared_paths == overlap.shared_paths
                    && back.confidence == overlap.confidence
                    && back.severity == overlap.severity
                    && back.labels == overlap.labels
            }));
        }
    }
    let told: Vec<&str> = claims[0]
        .overlaps
        .iter()
        .filter(|overlap| overlap.with_claim_id == 2)
        .flat_map(|overlap| overlap.shared_paths.iter().map(String::as_str))
        .collect();
    assert_eq!(told, ["b", "c"]);
}

#[test]
fn what_globs_say_decides() {
    let reasons = |outside, inside| {
        judge_path("p", outside, inside)
            .iter()
            .map(|warning| warning.reason)
            .collect::<Vec<_>>()
    };
    assert!(reasons(false, false).is_empty());
    assert_eq!(reasons(true, false), [ScopeWarningReason::OutsideAllowedScope]);
    assert_eq!(
        reasons(true, true),
        [
            ScopeWarningReason::OutsideAllowedScope,
            ScopeWarningReason::InsideDisallowedScope
        ]
    );
    let finding = make_finding(
        &claim(2, 9),
        OverlapRelationship::Sibling,
        vec!["core".to_owned()],
        OverlapConfidence::Full,
        "p",
    );
    assert_eq!(finding.severity, OverlapSeverity::Blocking);
    assert_eq!(finding.with_claim_id, 9);
    assert_eq!(finding.shared_paths, ["p"]);
}

#[test]
fn globs_are_checked_before_they_are_used() {
    assert!(validate_glob_pattern("src/**/*.rs").is_ok());
    let error = validate_glob_pattern("a[").expect_err("unclosed class");
    let ConflictError::InvalidGlob { pattern, message } = error;
    assert_eq!(pattern, "a[");
    assert!(!message.is_empty());
    assert!(validate_risk_globs(&rules(&[("src/**", "x")])).is_ok());
    assert!(validate_risk_globs(&rules(&[("src/**", "x"), ("{", "y")])).is_err());
}

#[test]
fn a_star_does_not_cross_directories() {
    let mut scoped = claim(1, 1);
    scoped.declared_scope = Some(DeclaredScope {
        allowed_paths: vec!["src/*".to_owned()],
        disallowed_paths: Vec::new(),
    });
    let mut claims = vec![observed(scoped, changed(&["src/a.rs", "src/deep/b.rs"]))];
    analyze_claims(&mut claims, &Vec::new()).expect("analyze");
    assert_eq!(claims[0].scope_warnings.len(), 1);
    assert_eq!(claims[0].scope_warnings[0].path, "src/deep/b.rs");
}

#[test]
fn rows_of_two_claims_about_each_other_match_one_to_one() {
    let root = claim(1, 1);
    let mut child = claim(2, 2);
    child.base_issue = Some(root.issue);
    child.base_claim_id = Some(root.claim_id);
    let mut below = changed(&["a", "b", "risk/c"]);
    below.untracked_paths = vec!["new".to_owned()];
    let mut claims = vec![
        observed(root, changed(&["a", "b", "new", "risk/c", "other"])),
        observed(child, below),
        observed(claim(3, 3), changed(&["a"])),
    ];
    analyze_claims(&mut claims, &rules(&[("risk/**", "risk")])).expect("analyze claims");
    let rows = |subject: usize, with: u128| -> Vec<_> {
        claims[subject]
            .overlaps
            .iter()
            .filter(|row| row.with_claim_id == with)
            .collect()
    };
    let down = rows(0, 2);
    let up = rows(1, 1);
    assert_eq!(down.len(), 3);
    assert_eq!(up.len(), 3);
    for row in down {
        assert_eq!(row.relationship, OverlapRelationship::Descendant);
        let matching = up
            .iter()
            .filter(|back| {
                back.relationship == OverlapRelationship::Ancestor
                    && back.shared_paths == row.shared_paths
                    && back.confidence == row.confidence
                    && back.severity == row.severity
                    && back.labels == row.labels
            })
            .count();
        assert_eq!(matching, 1);
    }
    assert_eq!(rows(2, 1)[0].relationship, OverlapRelationship::Unrelated);
}

fn related_pair(
    relationship: OverlapRelationship,
    confidence: OverlapConfidence,
    path: &str,
) -> Vec<ClaimObservation> {
    let mut subject = claim(1, 1);
    let mut other = claim(2, 2);
    match relationship {
        OverlapRelationship::Ancestor => {
            subject.base_issue = Some(other.issue);
            subject.base_claim_id = Some(other.claim_id);
        }
        OverlapRelationship::Descendant => {
            other.base_issue = Some(subject.issue);
            other.base_claim_id = Some(subject.claim_id);
        }
        OverlapRelationship::Sibling => {
            let parent: u128 = 1000;
            subject.base_issue = Some(99);
            subject.base_claim_id = Some(parent);
            other.base_issue = Some(99);
            other.base_claim_id = Some(parent);
        }
        OverlapRelationship::Consolidation => {
            subject.wait_for = vec![WaitForRef {
                issue: other.issue,
                claim_id: Some(other.claim_id),
            }]
        }
        OverlapRelationship::Unrelated => {}
    }
    let (left, right) = match confidence {
        OverlapConfidence::Full => (changed(&[path]), changed(&[path])),
        OverlapConfidence::Untracked => (untracked(&[path]), changed(&[path])),
    };
    vec![observed(subject, left), observed(other, right)]
}

fn expected_severity(relationship: OverlapRelationship, risk: bool) -> OverlapSeverity {
    match (relationship, risk) {
        (OverlapRelationship::Sibling | OverlapRelationship::Unrelated, false) => {
            OverlapSeverity::Warning
        }
        (OverlapRelationship::Sibling | OverlapRelationship::Unrelated, true) => {
            OverlapSeverity::Blocking
        }
        (_, false) => OverlapSeverity::Info,
        (_, true) => OverlapSeverity::Warning,
    }
}

fn rules(pairs: &[(&str, &str)]) -> Vec<(String, String)> {
    pairs
        .iter()
        .map(|(glob, label)| (glob.to_string(), label.to_string()))
        .collect()
}

fn observed(claim: Claim, diff: DiffSummary) -> ClaimObservation {
    ClaimObservation {
        claim,
        diff: Some(diff),
        overlaps: Vec::new(),
        scope_warnings: Vec::new(),
    }
}

fn changed(paths: &[&str]) -> DiffSummary {
    DiffSummary {
        changed_paths: paths.iter().map(|path| (*path).to_owned()).collect(),
        modified_paths: paths.iter().map(|path| (*path).to_owned()).collect(),
        ..DiffSummary::default()
    }
}

fn untracked(paths: &[&str]) -> DiffSummary {
    DiffSummary {
        untracked_paths: paths.iter().map(|path| (*path).to_owned()).collect(),
        ..DiffSummary::default()
    }
}

fn claim(number: u64, claim_id: u128) -> Claim {
    Claim {
        schema_version: SCHEMA_VERSION.to_owned(),
        claim_id,
        repo: "local/fixture".to_owned(),
        issue: number,
        title: None,
        branch: format!("issue-{number}"),
        worktree: format!("/tmp/issue-{number}"),
        base_remote: "origin".to_owned(),
        base_ref: "main".to_owned(),
        base_sha: "0123456789abcdef0123456789abcdef01234567".to_owned(),
        base_issue: None,
        base_claim_id: None,
        wait_for: Vec::new(),
        declared_scope: None,
        note: None,
        created_at: Timestamp { secs: 1783706400, nanos: 0 },
    }
}
