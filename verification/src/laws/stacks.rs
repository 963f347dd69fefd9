//! What the stack of an issue is.
use vstd::prelude::*;

use crate::id::{Id, IssueNumber};
use crate::model::{ClaimView, ReleaseView};
use crate::stack::{
    claims_on, generation, latest_on, parent_link, recorded_parent, release_of, resolved, stack_of,
    stacks_link_exact_generations, NodeView, Records, ResolutionView, StackProblemView,
};

verus! {

/// Whether a claim is recorded with that issue and that identifier.
pub open spec fn is_recorded(claims: Seq<ClaimView>, issue: IssueNumber, id: Id) -> bool {
    exists|i: int|
        0 <= i < claims.len() && (#[trigger] claims[i]).issue == issue && claims[i].claim_id == id
}

proof fn generations_are_recorded(claims: Seq<ClaimView>, issue: IssueNumber, id: Id)
    ensures
        generation(claims, issue, id) is Some <==> is_recorded(claims, issue, id),
        generation(claims, issue, id) matches Some(claim) ==> claims.contains(claim) && claim.issue
            == issue && claim.claim_id == id,
    decreases claims.len(),
{
    if claims.len() > 0 {
        let rest = claims.drop_first();
        generations_are_recorded(rest, issue, id);
        if is_recorded(rest, issue, id) {
            let i = choose|i: int|
                0 <= i < rest.len() && (#[trigger] rest[i]).issue == issue && rest[i].claim_id == id;
            assert(claims[i + 1] == rest[i]);
        }
        if is_recorded(claims, issue, id) {
            let i = choose|i: int|
                0 <= i < claims.len() && (#[trigger] claims[i]).issue == issue
                    && claims[i].claim_id == id;
            if i > 0 {
                assert(rest[i - 1] == claims[i]);
            }
        }
        if let Some(claim) = generation(claims, issue, id) {
            if claims[0] != claim {
                let i = rest.index_of(claim);
                assert(claims[i + 1] == claim);
            } else {
                assert(claims[0] == claim);
            }
        }
    }
}

proof fn latest_is_the_last(claims: Seq<ClaimView>, issue: IssueNumber)
    ensures
        match latest_on(claims, issue) {
            Some(id) => exists|i: int|
                0 <= i < claims.len() && (#[trigger] claims[i]).issue == issue
                    && claims[i].claim_id == id && forall|j: int|
                    i < j < claims.len() ==> (#[trigger] claims[j]).issue != issue,
            None => forall|i: int| 0 <= i < claims.len() ==> (#[trigger] claims[i]).issue != issue,
        },
    decreases claims.len(),
{
    if claims.len() > 0 {
        let front = claims.drop_last();
        latest_is_the_last(front, issue);
        let end = claims.len() - 1;
        assert(claims[end] == claims.last());
        if claims[end].issue != issue {
            assert forall|i: int| 0 <= i < end implies #[trigger] claims[i] == front[i] by {}
            if let Some(id) = latest_on(front, issue) {
                let i = choose|i: int|
                    0 <= i < front.len() && (#[trigger] front[i]).issue == issue
                        && front[i].claim_id == id && forall|j: int|
                        i < j < front.len() ==> (#[trigger] front[j]).issue != issue;
                assert(claims[i].issue == issue);
                assert forall|j: int| i < j < claims.len() implies (#[trigger] claims[j]).issue
                    != issue by {
                    if j < end {
                        assert(front[j] == claims[j]);
                    }
                }
            }
        }
    }
}

/// Whether a node tells of its claim whether it is active, and whether and how it was released.
pub open spec fn node_is_true(node: NodeView, records: Records) -> bool {
    &&& node.active <==> exists|i: int|
        0 <= i < records.active.len() && (#[trigger] records.active[i]).claim_id
            == node.claim.claim_id
    &&& node.release is Some <==> exists|r: int|
        0 <= r < records.releases.len() && (#[trigger] records.releases[r]).issue
            == node.claim.issue && records.releases[r].claim_id == node.claim.claim_id
    &&& node.release matches Some(release) ==> release.issue == node.claim.issue && release.claim_id
        == node.claim.claim_id && records.releases.contains(release)
}

proof fn releases_are_recorded(releases: Seq<ReleaseView>, issue: IssueNumber, id: Id)
    ensures
        release_of(releases, issue, id) is Some <==> exists|r: int|
            0 <= r < releases.len() && (#[trigger] releases[r]).issue == issue
                && releases[r].claim_id == id,
        release_of(releases, issue, id) matches Some(release) ==> releases.contains(release)
            && release.issue == issue && release.claim_id == id,
    decreases releases.len(),
{
    if releases.len() > 0 {
        let rest = releases.drop_first();
        releases_are_recorded(rest, issue, id);
        assert forall|r: int| 0 < r < releases.len() implies #[trigger] releases[r]
            == rest[r - 1] by {}
        if exists|r: int|
            0 <= r < rest.len() && (#[trigger] rest[r]).issue == issue && rest[r].claim_id == id {
            let r = choose|r: int|
                0 <= r < rest.len() && (#[trigger] rest[r]).issue == issue && rest[r].claim_id == id;
            assert(releases[r + 1] == rest[r]);
        }
        if let Some(release) = release_of(releases, issue, id) {
            if releases[0] != release {
                let i = rest.index_of(release);
                assert(releases[i + 1] == release);
            } else {
                assert(releases[0] == release);
            }
        }
    }
}

/// The stack of an issue. Without an active claim on it, or with several, there is none, and that is
/// said. Otherwise its last generation is that claim, each generation is based on the one before,
/// exactly, and each tells whether it is active and whether it was released. Its first generation
/// is based on none, or else on one that is not recorded, and that is said, with the latest active
/// generation of that issue in its place. Where there are no generations, the bases go in a circle.
pub proof fn stacks_go_up_to_their_root(
    records: Records,
    target_issue: IssueNumber,
    resolution: ResolutionView,
)
    requires
        stack_of(records, target_issue, resolution),
    ensures
        ({
            let found = claims_on(records.active, target_issue);
            let nodes = resolution.nodes;
            &&& found.len() == 0 <==> (resolution.problem matches Some(
                StackProblemView::MissingTarget { issue },
            ) && issue == target_issue)
            &&& found.len() > 1 <==> (resolution.problem matches Some(
                StackProblemView::DuplicateTarget { issue },
            ) && issue == target_issue)
            &&& found.len() != 1 ==> nodes.len() == 0
            &&& nodes.len() > 0 ==> nodes.last().claim == found[0]
            &&& found.len() == 1 && nodes.len() == 0 ==> (resolution.problem matches Some(problem)
                && problem is BaseCycle)
            &&& forall|i: int|
                0 <= i < nodes.len() - 1 ==> nodes[i + 1].claim.base_claim_id == Some(
                    (#[trigger] nodes[i]).claim.claim_id,
                ) && nodes[i + 1].claim.base_issue == Some(nodes[i].claim.issue)
                    && records.claims.contains(nodes[i].claim)
            &&& forall|i: int| 0 <= i < nodes.len() ==> node_is_true(#[trigger] nodes[i], records)
            &&& nodes.len() > 0 && resolution.problem is None ==> nodes[0].claim.base_issue is None
                || nodes[0].claim.base_claim_id is None
            &&& nodes.len() > 0 && resolution.problem is Some ==> (resolution.problem matches Some(
                StackProblemView::MissingParent {
                    child_claim_id,
                    parent_issue,
                    parent_claim_id,
                    replacement_claim_id,
                },
            ) && child_claim_id == nodes[0].claim.claim_id && nodes[0].claim.base_issue == Some(
                parent_issue,
            ) && nodes[0].claim.base_claim_id == Some(parent_claim_id) && !is_recorded(
                records.claims,
                parent_issue,
                parent_claim_id,
            ) && (match replacement_claim_id {
                Some(id) => exists|i: int|
                    0 <= i < records.active.len() && (#[trigger] records.active[i]).issue
                        == parent_issue && records.active[i].claim_id == id && forall|j: int|
                        i < j < records.active.len() ==> (#[trigger] records.active[j]).issue
                            != parent_issue,
                None => forall|i: int|
                    0 <= i < records.active.len() ==> (#[trigger] records.active[i]).issue
                        != parent_issue,
            }))
        }),
{
    let found = claims_on(records.active, target_issue);
    let nodes = resolution.nodes;
    if found.len() == 1 {
        let target = found[0];
        let chain = choose|chain: Seq<ClaimView>| #[trigger]
            resolved(records, target, chain, resolution);
        if nodes.len() > 0 {
            stacks_link_exact_generations(records, target, chain, resolution);
            assert forall|i: int| 0 <= i < nodes.len() - 1 implies records.claims.contains(
                (#[trigger] nodes[i]).claim,
            ) by {
                let k = chain.len() - 2 - i;
                assert(recorded_parent(records, chain[k]) == Some(chain[k + 1]));
                let (issue, id) = parent_link(chain[k])->0;
                generations_are_recorded(records.claims, issue, id);
            }
            assert forall|i: int| 0 <= i < nodes.len() implies node_is_true(
                #[trigger] nodes[i],
                records,
            ) by {
                releases_are_recorded(
                    records.releases,
                    nodes[i].claim.issue,
                    nodes[i].claim.claim_id,
                );
            }
            assert(nodes[0].claim == chain.last());
            if let Some((issue, id)) = parent_link(chain.last()) {
                generations_are_recorded(records.claims, issue, id);
                latest_is_the_last(records.active, issue);
            }
        }
    }
}

} // verus!
