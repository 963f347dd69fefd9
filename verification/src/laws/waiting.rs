//! What it is for issues to wait for each other in a circle.
use vstd::prelude::*;

use crate::id::IssueNumber;
use crate::model::ClaimView;
use crate::stack::{
    ascending_issues_same, claim_on, cycles_found, dependencies, found_cycles_are_cycles, linked,
    no_cycle_goes_unreported, start_issues, waits, waits_next,
};

verus! {

/// Whether the last active claim on an issue waits for another issue.
pub open spec fn is_waiting_for(
    active: Seq<ClaimView>,
    issue: IssueNumber,
    other: IssueNumber,
) -> bool {
    exists|a: int, w: int|
        0 <= a < active.len() && (#[trigger] active[a]).issue == issue && (forall|b: int|
            a < b < active.len() ==> (#[trigger] active[b]).issue != issue) && 0 <= w
            < active[a].wait_for.len() && (#[trigger] active[a].wait_for[w]).issue == other
}

proof fn last_on_issue(active: Seq<ClaimView>, issue: IssueNumber)
    ensures
        match claim_on(active, issue) {
            Some(claim) => exists|a: int|
                0 <= a < active.len() && #[trigger] active[a] == claim && claim.issue == issue && (
                forall|b: int| a < b < active.len() ==> (#[trigger] active[b]).issue != issue),
            None => forall|a: int| 0 <= a < active.len() ==> (#[trigger] active[a]).issue != issue,
        },
    decreases active.len(),
{
    if active.len() > 0 {
        let front = active.drop_last();
        let end = active.len() - 1;
        assert(active[end] == active.last());
        last_on_issue(front, issue);
        if active[end].issue != issue {
            assert forall|a: int| 0 <= a < end implies #[trigger] active[a] == front[a] by {}
            if let Some(claim) = claim_on(front, issue) {
                let a = choose|a: int|
                    0 <= a < front.len() && #[trigger] front[a] == claim && claim.issue == issue && (
                    forall|b: int| a < b < front.len() ==> (#[trigger] front[b]).issue != issue);
                assert(active[a] == claim);
                assert forall|b: int| a < b < active.len() implies (#[trigger] active[b]).issue
                    != issue by {
                    if b < end {
                        assert(front[b] == active[b]);
                    }
                }
            }
        }
    }
}

/// An issue waits for another exactly where the last active claim on it says so.
pub proof fn issues_wait_as_their_claims_say(
    active: Seq<ClaimView>,
    issue: IssueNumber,
    other: IssueNumber,
)
    ensures
        waits(active, issue, other) <==> is_waiting_for(active, issue, other),
{
    last_on_issue(active, issue);
    if let Some(claim) = claim_on(active, issue) {
        let named = Seq::new(claim.wait_for.len(), |i: int| claim.wait_for[i].issue);
        ascending_issues_same(named);
        assert(dependencies(claim).contains(other) <==> named.contains(other));
        let a = choose|a: int|
            0 <= a < active.len() && #[trigger] active[a] == claim && claim.issue == issue && (
            forall|b: int| a < b < active.len() ==> (#[trigger] active[b]).issue != issue);
        if named.contains(other) {
            let w = named.index_of(other);
            assert(active[a].wait_for[w].issue == other);
        }
        if is_waiting_for(active, issue, other) {
            let (c, w) = choose|c: int, w: int|
                0 <= c < active.len() && (#[trigger] active[c]).issue == issue && (forall|b: int|
                    c < b < active.len() ==> (#[trigger] active[b]).issue != issue) && 0 <= w
                    < active[c].wait_for.len() && (#[trigger] active[c].wait_for[w]).issue == other;
            if c < a {
                assert(active[a].issue != issue);
            }
            if a < c {
                assert(active[c].issue != issue);
            }
            assert(named[w] == other);
        }
    }
}

/// A cycle that is found is one: it starts and ends in its smallest issue, and each of its issues
/// waits for the next.
pub proof fn found_cycles_go_round(active: Seq<ClaimView>, roots: Seq<IssueNumber>, c: int)
    requires
        0 <= c < cycles_found(active, roots).len(),
    ensures
        ({
            let cycle = cycles_found(active, roots)[c];
            &&& cycle.len() >= 2
            &&& cycle[0] == cycle[cycle.len() - 1]
            &&& forall|i: int|
                0 <= i < cycle.len() - 1 ==> is_waiting_for(
                    active,
                    #[trigger] cycle[i],
                    cycle[i + 1],
                )
            &&& forall|i: int| 0 <= i < cycle.len() ==> cycle[0] <= #[trigger] cycle[i]
        }),
{
    found_cycles_are_cycles(active, roots);
    let cycle = cycles_found(active, roots)[c];
    assert forall|i: int| 0 <= i < cycle.len() - 1 implies is_waiting_for(
        active,
        #[trigger] cycle[i],
        cycle[i + 1],
    ) by {
        assert(waits_next(active, cycle, i));
        issues_wait_as_their_claims_say(active, cycle[i], cycle[i + 1]);
    }
}

/// No cycle goes unfound: where none is found, no issue that is looked at leads, from one claimed
/// issue to the next that it waits for, to an issue that it came through before.
pub proof fn every_circle_is_found(
    active: Seq<ClaimView>,
    roots: Seq<IssueNumber>,
    trail: Seq<IssueNumber>,
)
    requires
        cycles_found(active, roots).len() == 0,
        trail.len() > 0,
        roots.len() == 0 || roots.contains(trail[0]),
        forall|i: int|
            0 <= i < trail.len() - 1 ==> is_waiting_for(active, #[trigger] trail[i], trail[i + 1]),
        forall|i: int|
            0 <= i < trail.len() ==> exists|a: int|
                0 <= a < active.len() && (#[trigger] active[a]).issue == #[trigger] trail[i],
    ensures
        forall|i: int, j: int| 0 <= i < j < trail.len() ==> #[trigger] trail[i] != #[trigger] trail[j],
{
    assert forall|i: int| 0 <= i < trail.len() implies claim_on(
        active,
        #[trigger] trail[i],
    ) is Some by {
        last_on_issue(active, trail[i]);
        let a = choose|a: int| 0 <= a < active.len() && (#[trigger] active[a]).issue == trail[i];
        assert(active[a].issue == trail[i]);
    }
    assert(linked(active, trail)) by {
        assert forall|i: int| 0 <= i < trail.len() - 1 implies #[trigger] waits_next(
            active,
            trail,
            i,
        ) by {
            assert(is_waiting_for(active, trail[i], trail[i + 1]));
            issues_wait_as_their_claims_say(active, trail[i], trail[i + 1]);
        }
    }
    let named = Seq::new(active.len(), |i: int| active[i].issue);
    ascending_issues_same(named);
    ascending_issues_same(roots);
    assert(start_issues(active, roots).contains(trail[0])) by {
        if roots.len() == 0 {
            let a = choose|a: int|
                0 <= a < active.len() && (#[trigger] active[a]).issue == trail[0];
            assert(named[a] == trail[0]);
            assert(named.contains(trail[0]));
        }
    }
    no_cycle_goes_unreported(active, roots, trail);
}

} // verus!
