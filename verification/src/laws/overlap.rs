//! What the analysis of observed claims finds of shared paths.
use vstd::prelude::*;

use crate::conflict::{
    ancestor, analyzed, builds_on, claim_with_id, claims_of, finding_between, holds, labels_of,
    overlaps_tell_what_is_shared, pattern_hit, relation, told, OverlapRelationship, OverlapView,
};
use crate::model::ClaimView;
use crate::observation::ObservationView;
use crate::text::{ascending, with_text_is_sorted};

verus! {

proof fn labels_by_rules(rules: Seq<(Seq<char>, Seq<char>)>, path: Seq<char>)
    ensures
        ascending(labels_of(rules, path)),
        forall|label: Seq<char>|
            #![trigger labels_of(rules, path).contains(label)]
            labels_of(rules, path).contains(label) <==> exists|r: int|
                0 <= r < rules.len() && (#[trigger] rules[r]).1 == label && pattern_hit(
                    rules[r].0,
                    path,
                ),
    decreases rules.len(),
{
    if rules.len() > 0 {
        let front = rules.drop_last();
        let last = rules.last();
        labels_by_rules(front, path);
        with_text_is_sorted(labels_of(front, path), last.1);
        assert(rules[rules.len() - 1] == last);
        assert forall|label: Seq<char>|
            #![trigger labels_of(rules, path).contains(label)]
            labels_of(rules, path).contains(label) <==> exists|r: int|
                0 <= r < rules.len() && (#[trigger] rules[r]).1 == label && pattern_hit(
                    rules[r].0,
                    path,
                ) by {
            let early = labels_of(front, path);
            if early.contains(label) {
                let r = choose|r: int|
                    0 <= r < front.len() && (#[trigger] front[r]).1 == label && pattern_hit(
                        front[r].0,
                        path,
                    );
                assert(rules[r] == front[r]);
            }
            if exists|r: int|
                0 <= r < rules.len() && (#[trigger] rules[r]).1 == label && pattern_hit(
                    rules[r].0,
                    path,
                ) {
                let r = choose|r: int|
                    0 <= r < rules.len() && (#[trigger] rules[r]).1 == label && pattern_hit(
                        rules[r].0,
                        path,
                    );
                if r < front.len() {
                    assert(front[r] == rules[r]);
                    assert(early.contains(label));
                }
            }
        }
    }
}

/// Whether a path is one that a rule names as risky.
pub open spec fn is_risky(rules: Seq<(Seq<char>, Seq<char>)>, path: Seq<char>) -> bool {
    exists|r: int| 0 <= r < rules.len() && pattern_hit((#[trigger] rules[r]).0, path)
}

/// Whether two claims are related by neither of them building on or waiting for the other.
pub open spec fn is_loose(relationship: OverlapRelationship) -> bool {
    relationship is Sibling || relationship is Unrelated
}

/// Whether an overlap tells of a path that two observed claims share.
pub open spec fn tells_of(
    overlap: OverlapView,
    observed: Seq<ObservationView>,
    rules: Seq<(Seq<char>, Seq<char>)>,
    subject: int,
    other: int,
    path: Seq<char>,
) -> bool {
    let relationship = relation(
        claims_of(observed),
        observed[subject].claim,
        observed[other].claim,
    );
    &&& overlap.shared_paths.contains(path)
    &&& overlap.with_claim_id == observed[other].claim.claim_id
    &&& overlap.with_issue == observed[other].claim.issue
    &&& overlap.relationship == relationship
    &&& overlap.confidence is Full <==> observed[subject].diff->0.changed_paths.contains(path)
        && observed[other].diff->0.changed_paths.contains(path)
    &&& overlap.severity is Blocking <==> is_loose(relationship) && is_risky(rules, path)
    &&& overlap.severity is Info <==> !is_loose(relationship) && !is_risky(rules, path)
    &&& forall|label: Seq<char>| #[trigger]
        overlap.labels.contains(label) <==> exists|r: int|
            0 <= r < rules.len() && (#[trigger] rules[r]).1 == label && pattern_hit(
                rules[r].0,
                path,
            )
}

/// Whether a claim has changed a path, or has made it without adding it yet.
pub open spec fn has_touched(observed: ObservationView, path: Seq<char>) -> bool {
    observed.diff matches Some(diff) && (diff.changed_paths.contains(path)
        || diff.untracked_paths.contains(path))
}

proof fn findings_are_told(
    overlap: OverlapView,
    observed: Seq<ObservationView>,
    rules: Seq<(Seq<char>, Seq<char>)>,
    subject: int,
    other: int,
    path: Seq<char>,
    finding: OverlapView,
)
    requires
        finding_between(observed, rules, subject, other, path) == Some(finding),
        holds(overlap, finding),
    ensures
        tells_of(overlap, observed, rules, subject, other, path),
{
    labels_by_rules(rules, path);
    let labels = labels_of(rules, path);
    assert(overlap.labels == labels);
    if labels.len() > 0 {
        assert(labels.contains(labels[0]));
    }
    if is_risky(rules, path) {
        let r = choose|r: int|
            0 <= r < rules.len() && pattern_hit((#[trigger] rules[r]).0, path);
        assert(labels.contains(rules[r].1));
    }
}

/// After the analysis, a path that two claims have touched stands in an overlap of each with the
/// other, which tells how the claims are related, whether both have recorded the path as changed,
/// which risks it carries and how grave that is: blocking where a risky path is shared by claims
/// that neither build on nor wait for each other, for information where neither holds, and a
/// warning otherwise.
pub proof fn shared_paths_are_told(
    observed: Seq<ObservationView>,
    rules: Seq<(Seq<char>, Seq<char>)>,
    subject: int,
    other: int,
    path: Seq<char>,
)
    requires
        0 <= subject < observed.len(),
        0 <= other < observed.len(),
        subject != other,
        has_touched(observed[subject], path),
        has_touched(observed[other], path),
    ensures
        exists|k: int|
            0 <= k < analyzed(observed, rules)[subject].overlaps.len() && tells_of(
                #[trigger] analyzed(observed, rules)[subject].overlaps[k],
                observed,
                rules,
                subject,
                other,
                path,
            ),
{
    let finding = finding_between(observed, rules, subject, other, path)->0;
    overlaps_tell_what_is_shared(observed, rules, subject, finding);
    assert(finding.shared_paths[0] == path);
    let overlaps = analyzed(observed, rules)[subject].overlaps;
    assert(told(overlaps, finding));
    let k = choose|k: int| 0 <= k < overlaps.len() && holds(#[trigger] overlaps[k], finding);
    findings_are_told(overlaps[k], observed, rules, subject, other, path, finding);
}

/// An overlap that the analysis tells of is one: each of its paths was touched by the claim and by
/// the other claim, and it tells of it as it is.
pub proof fn overlaps_are_shared(
    observed: Seq<ObservationView>,
    rules: Seq<(Seq<char>, Seq<char>)>,
    subject: int,
    k: int,
    path: Seq<char>,
)
    requires
        0 <= subject < observed.len(),
        0 <= k < analyzed(observed, rules)[subject].overlaps.len(),
        analyzed(observed, rules)[subject].overlaps[k].shared_paths.contains(path),
    ensures
        exists|other: int|
            0 <= other < observed.len() && other != subject && has_touched(observed[subject], path)
                && has_touched(#[trigger] observed[other], path) && tells_of(
                analyzed(observed, rules)[subject].overlaps[k],
                observed,
                rules,
                subject,
                other,
                path,
            ),
{
    let overlaps = analyzed(observed, rules)[subject].overlaps;
    let overlap = overlaps[k];
    let finding = OverlapView { shared_paths: seq![path], ..overlap };
    assert(finding.shared_paths[0] == path);
    assert(holds(overlap, finding));
    overlaps_tell_what_is_shared(observed, rules, subject, finding);
    let other = choose|other: int|
        0 <= other < observed.len() && #[trigger] finding_between(
            observed,
            rules,
            subject,
            other,
            path,
        ) == Some(finding);
    assert(finding_between(observed, rules, subject, other, path) == Some(finding));
    findings_are_told(overlap, observed, rules, subject, other, path, finding);
    assert(has_touched(observed[other], path));
}

/// The analysis leaves what was observed as it is, but for the overlaps and the warnings on scope.
pub proof fn analysis_keeps_observations(
    observed: Seq<ObservationView>,
    rules: Seq<(Seq<char>, Seq<char>)>,
    i: int,
)
    requires
        0 <= i < observed.len(),
    ensures
        analyzed(observed, rules).len() == observed.len(),
        analyzed(observed, rules)[i].claim == observed[i].claim,
        analyzed(observed, rules)[i].diff == observed[i].diff,
{
}

/// Whether a claim waits for another.
pub open spec fn is_waiting(claim: ClaimView, other: ClaimView) -> bool {
    exists|i: int|
        0 <= i < claim.wait_for.len() && (#[trigger] claim.wait_for[i]).claim_id == Some(
            other.claim_id,
        )
}

/// A claim has another for its ancestor where it is based on it, or on a claim that has it for its
/// ancestor; and only there. The other has it for its descendant, unless each builds on the other.
pub proof fn ancestry_follows_bases(
    claims: Seq<ClaimView>,
    subject: ClaimView,
    base: int,
    other: ClaimView,
)
    requires
        0 <= base < claims.len(),
        subject.base_claim_id == Some(claims[base].claim_id),
        forall|i: int, j: int|
            0 <= i < j < claims.len() ==> (#[trigger] claims[i]).claim_id != (
            #[trigger] claims[j]).claim_id,
    ensures
        relation(claims, subject, other) is Ancestor <==> claims[base].claim_id == other.claim_id
            || relation(claims, claims[base], other) is Ancestor,
        relation(claims, other, subject) is Descendant <==> relation(claims, subject, other) is Ancestor
            && relation(claims, other, subject) !is Ancestor,
{
    let from = subject.base_claim_id;
    let id = claims[base].claim_id;
    found_by_id(claims, base);
    assert(ancestor(claims, from, 0) == Some(id));
    let up = claims[base].base_claim_id;
    assert forall|steps: nat| #[trigger] ancestor(claims, from, (steps + 1) as nat) == ancestor(
        claims,
        up,
        steps,
    ) by {
        steps_up(claims, from, up, steps);
    }
    if builds_on(claims, claims[base], other.claim_id) {
        let steps = choose|steps: nat| #[trigger] ancestor(claims, up, steps) == Some(
            other.claim_id,
        );
        assert(ancestor(claims, from, (steps + 1) as nat) == Some(other.claim_id));
    }
    if builds_on(claims, subject, other.claim_id) {
        let steps = choose|steps: nat| #[trigger] ancestor(claims, from, steps) == Some(
            other.claim_id,
        );
        if steps > 0 {
            assert(ancestor(claims, from, ((steps - 1) as nat + 1) as nat) == ancestor(
                claims,
                up,
                (steps - 1) as nat,
            ));
        }
    }
}

proof fn found_by_id(claims: Seq<ClaimView>, at: int)
    requires
        0 <= at < claims.len(),
        forall|i: int, j: int|
            0 <= i < j < claims.len() ==> (#[trigger] claims[i]).claim_id != (
            #[trigger] claims[j]).claim_id,
    ensures
        claim_with_id(claims, claims[at].claim_id) == Some(claims[at]),
    decreases claims.len(),
{
    if at < claims.len() - 1 {
        assert(claims[claims.len() - 1].claim_id != claims[at].claim_id);
        assert(claims.drop_last()[at] == claims[at]);
        assert forall|i: int, j: int|
            0 <= i < j < claims.drop_last().len() implies (#[trigger] claims.drop_last()[i]).claim_id
            != (#[trigger] claims.drop_last()[j]).claim_id by {
            assert(claims[i].claim_id != claims[j].claim_id);
        }
        found_by_id(claims.drop_last(), at);
    }
}

proof fn steps_up(claims: Seq<ClaimView>, from: Option<u128>, up: Option<u128>, steps: nat)
    requires
        ancestor(claims, from, 1) == up,
    ensures
        ancestor(claims, from, (steps + 1) as nat) == ancestor(claims, up, steps),
    decreases steps,
{
    if steps > 0 {
        steps_up(claims, from, up, (steps - 1) as nat);
    }
}

/// A claim that is based on no other has no ancestor.
pub proof fn unbased_claims_have_no_ancestors(
    claims: Seq<ClaimView>,
    subject: ClaimView,
    other: ClaimView,
)
    requires
        subject.base_claim_id is None,
    ensures
        relation(claims, subject, other) !is Ancestor,
        relation(claims, other, subject) !is Descendant,
        relation(claims, subject, other) !is Sibling,
{
    assert forall|steps: nat| #[trigger] ancestor(claims, None, steps) is None by {
        none_above(claims, steps);
    }
}

proof fn none_above(claims: Seq<ClaimView>, steps: nat)
    ensures
        ancestor(claims, None, steps) is None,
    decreases steps,
{
    if steps > 0 {
        none_above(claims, (steps - 1) as nat);
    }
}

/// Of claims of which neither builds on the other: they are consolidated where one waits for the
/// other; else they are siblings where both are based on the same claim; else they are unrelated.
pub proof fn relations_of_claims_side_by_side(
    claims: Seq<ClaimView>,
    subject: ClaimView,
    other: ClaimView,
)
    requires
        relation(claims, subject, other) !is Ancestor,
        relation(claims, subject, other) !is Descendant,
    ensures
        ({
            let waiting = is_waiting(subject, other) || is_waiting(other, subject);
            let same_base = subject.base_claim_id is Some && subject.base_claim_id
                == other.base_claim_id;
            &&& relation(claims, subject, other) is Consolidation <==> waiting
            &&& relation(claims, subject, other) is Sibling <==> !waiting && same_base
            &&& relation(claims, subject, other) is Unrelated <==> !waiting && !same_base
        }),
{
}

} // verus!
