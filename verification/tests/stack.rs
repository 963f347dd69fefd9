use gh_envoy::model::{Claim, ReleaseMarker, ReleaseReason, WaitForRef, SCHEMA_VERSION};
use gh_envoy::stack::{resolve_stack, wait_for_cycles, StackProblem};
use gh_envoy::time::Timestamp;

#[test]
fn released_exact_parent_is_used_instead_of_active_replacement() {
    let old_parent = claim(10, 1);
    let replacement = claim(10, 2);
    let child = child_of(11, 3, &old_parent);
    let release = release_of(&old_parent, ReleaseReason::Merged);

    let resolution = resolve_stack(
        &vec![old_parent.clone(), replacement.clone(), child.clone()],
        &vec![release],
        &vec![replacement.clone(), child.clone()],
        child.issue,
    );

    assert!(resolution.problem.is_none());
    assert_eq!(
        resolution
            .nodes
            .iter()
            .map(|node| node.claim.claim_id)
            .collect::<Vec<_>>(),
        [old_parent.claim_id, child.claim_id]
    );
    assert!(!resolution.nodes[0].active);
    assert_eq!(
        resolution.nodes[0].release.as_ref().expect("release").reason,
        ReleaseReason::Merged
    );
    assert!(!resolution
        .nodes
        .iter()
        .any(|node| node.claim.claim_id == replacement.claim_id));
}

#[test]
fn exact_base_cycle_has_no_false_root_order() {
    let mut first = claim(20, 4);
    let mut second = claim(21, 5);
    first.base_issue = Some(second.issue);
    first.base_claim_id = Some(second.claim_id);
    second.base_issue = Some(first.issue);
    second.base_claim_id = Some(first.claim_id);

    let all = vec![first.clone(), second.clone()];
    let resolution = resolve_stack(&all, &vec![], &all, first.issue);

    assert!(resolution.nodes.is_empty());
    match resolution.problem {
        Some(StackProblem::BaseCycle { cycle }) => {
            assert_eq!(cycle, [first.claim_id, second.claim_id, first.claim_id]);
        }
        other => panic!("{other:?}"),
    }
}

#[test]
fn wait_for_cycles_are_detected_independently_by_issue() {
    let mut first = claim(30, 6);
    let mut second = claim(31, 7);
    first.wait_for.push(WaitForRef { issue: second.issue, claim_id: None });
    second.wait_for.push(WaitForRef {
        issue: first.issue,
        claim_id: Some(first.claim_id),
    });

    assert_eq!(
        wait_for_cycles(&vec![first.clone(), second.clone()], &vec![first.issue]),
        vec![vec![first.issue, second.issue, first.issue]]
    );
    assert!(
        resolve_stack(&vec![], &vec![], &vec![first.clone()], first.issue)
            .problem
            .is_none()
    );
}

#[test]
fn a_missing_parent_names_its_replacement() {
    let lost = claim(10, 1);
    let replacement = claim(10, 2);
    let child = child_of(11, 3, &lost);
    let all = vec![replacement.clone(), child.clone()];
    let resolution = resolve_stack(&all, &vec![], &all, 11);
    assert_eq!(resolution.nodes.len(), 1);
    match resolution.problem {
        Some(StackProblem::MissingParent {
            child_claim_id,
            parent_issue,
            parent_claim_id,
            replacement_claim_id,
        }) => {
            assert_eq!(child_claim_id, 3);
            assert_eq!(parent_issue, 10);
            assert_eq!(parent_claim_id, 1);
            assert_eq!(replacement_claim_id, Some(2));
        }
        other => panic!("{other:?}"),
    }
}

#[test]
fn a_target_must_be_claimed_exactly_once() {
    let none = resolve_stack(&vec![], &vec![], &vec![], 5);
    assert!(matches!(none.problem, Some(StackProblem::MissingTarget { issue: 5 })));
    let twice = vec![claim(5, 1), claim(5, 2)];
    let both = resolve_stack(&twice, &vec![], &twice, 5);
    assert!(matches!(both.problem, Some(StackProblem::DuplicateTarget { issue: 5 })));
}

#[test]
fn cycles_start_at_their_smallest_issue_and_every_claim_is_searched() {
    let mut a = claim(3, 1);
    let mut b = claim(1, 2);
    let mut c = claim(2, 3);
    a.wait_for.push(WaitForRef { issue: 1, claim_id: None });
    b.wait_for.push(WaitForRef { issue: 2, claim_id: None });
    c.wait_for.push(WaitForRef { issue: 3, claim_id: None });
    let mut d = claim(9, 4);
    d.wait_for.push(WaitForRef { issue: 9, claim_id: None });
    assert_eq!(
        wait_for_cycles(&vec![a, b, c, d], &vec![]),
        vec![vec![1, 2, 3, 1], vec![9, 9]]
    );
}

#[test]
fn cycles_are_reported_once_and_in_ascending_order() {
    let mut a = claim(8, 1);
    let mut b = claim(9, 2);
    let mut c = claim(2, 3);
    let mut d = claim(5, 4);
    a.wait_for.push(WaitForRef { issue: 9, claim_id: None });
    b.wait_for.push(WaitForRef { issue: 8, claim_id: None });
    c.wait_for.push(WaitForRef { issue: 5, claim_id: None });
    d.wait_for.push(WaitForRef { issue: 2, claim_id: None });
    d.wait_for.push(WaitForRef { issue: 5, claim_id: None });
    assert_eq!(
        wait_for_cycles(&vec![a, b, c, d], &vec![9, 8, 5, 2]),
        vec![vec![2, 5, 2], vec![5, 5], vec![8, 9, 8]]
    );
}

fn child_of(number: u64, claim_id: u128, parent: &Claim) -> Claim {
    let mut child = claim(number, claim_id);
    child.base_ref = parent.branch.clone();
    child.base_issue = Some(parent.issue);
    child.base_claim_id = Some(parent.claim_id);
    child
}

fn release_of(claim: &Claim, reason: ReleaseReason) -> ReleaseMarker {
    ReleaseMarker {
        schema_version: SCHEMA_VERSION.to_owned(),
        repo: claim.repo.clone(),
        issue: claim.issue,
        claim_id: claim.claim_id,
        reason,
        released_at: Timestamp { secs: 1783706400, nanos: 0 },
    }
}

fn claim(number: u64, claim_id: u128) -> Claim {
    Claim {
        schema_version: SCHEMA_VERSION.to_owned(),
        claim_id,
        repo: "local/fixture".to_owned(),
        issue: number,
        title: None,
        branch: format!("branch-{number}"),
        worktree: format!("/tmp/worktree-{number}"),
        base_remote: "origin".to_owned(),
        base_ref: "main".to_owned(),
        base_sha: format!("sha-{number}"),
        base_issue: None,
        base_claim_id: None,
        wait_for: Vec::new(),
        declared_scope: None,
        note: None,
        created_at: Timestamp { secs: 1783706400 + 60 * number as i64, nanos: 0 },
    }
}
