//! What is recorded of claims: their order, their release, and what a list tells of them.
use vstd::prelude::*;

use crate::id::IssueNumber;
use crate::lifecycle::{
    generations, release_outcome, resume_outcome, unique_outcome, LifecycleError,
};
use crate::list::{active_count, entries_of, last_release, lists_generation, EntryView};
use crate::model::{Claim, ClaimView, ReleaseReason, ReleaseReport, ReleaseView};
use crate::path::same_path;
use crate::stack::claims_on;
use crate::store::{
    active, active_means_unreleased, in_order, order_keeps_records, unreleased,
};
use crate::time::Timestamp;

verus! {

/// Whether a claim was made no later than another, and of two at the same time has no greater
/// identifier.
pub open spec fn is_no_later(a: ClaimView, b: ClaimView) -> bool {
    ||| a.created_at.secs < b.created_at.secs
    ||| a.created_at.secs == b.created_at.secs && a.created_at.nanos < b.created_at.nanos
    ||| a.created_at.secs == b.created_at.secs && a.created_at.nanos == b.created_at.nanos
        && a.claim_id <= b.claim_id
}

/// Active claims stand in the order in which they were made, and there are as many as were not
/// released.
pub proof fn active_claims_are_in_order(
    claims: Seq<ClaimView>,
    releases: Seq<ReleaseView>,
    i: int,
    j: int,
)
    requires
        0 <= i < j < active(claims, releases).len(),
    ensures
        is_no_later(active(claims, releases)[i], active(claims, releases)[j]),
        active(claims, releases).to_multiset() == unreleased(claims, releases).to_multiset(),
{
    order_keeps_records::<Claim>(unreleased(claims, releases));
}

/// The claims on an issue, of which there may be several.
pub open spec fn are_on(claims: Seq<ClaimView>, issue: IssueNumber, found: Seq<ClaimView>) -> bool {
    forall|claim: ClaimView| #[trigger]
        found.contains(claim) <==> claims.contains(claim) && claim.issue == issue
}

proof fn found_on(claims: Seq<ClaimView>, issue: IssueNumber)
    ensures
        are_on(claims, issue, claims_on(claims, issue)),
{
    let test = |claim: ClaimView| claim.issue == issue;
    let found = claims_on(claims, issue);
    assert(found == claims.filter(test));
    assert forall|claim: ClaimView| #[trigger] found.contains(claim) <==> claims.contains(claim)
        && claim.issue == issue by {
        if found.contains(claim) {
            let k = found.index_of(claim);
            claims.lemma_filter_pred(test, k);
            claims.lemma_filter_contains_rev(test, claim);
        }
        if claims.contains(claim) && claim.issue == issue {
            claims.lemma_filter_contains(test, claims.index_of(claim));
        }
    }
}

/// Whether a claim has been released, by a marker for its very generation.
pub open spec fn has_marker(claim: ClaimView, releases: Seq<ReleaseView>) -> bool {
    exists|r: int|
        0 <= r < releases.len() && (#[trigger] releases[r]).issue == claim.issue
            && releases[r].claim_id == claim.claim_id
}

/// What releasing the claim on an issue comes to. Where one claim on it is active, a marker for that
/// very generation is put down, with the reason and the time of the release, and the report names
/// it. Where none is, but some were, nothing is put down, and the report says of the latest that it
/// was released already. Where there never was one, or several are active, it fails. No worktree
/// and no branch is said to be deleted.
pub proof fn releases_mark_the_active_generation(
    claims: Seq<ClaimView>,
    releases: Seq<ReleaseView>,
    issue: IssueNumber,
    reason: ReleaseReason,
    released_at: Timestamp,
    result: Result<(Option<ReleaseView>, ReleaseReport), LifecycleError>,
)
    requires
        release_outcome(claims, releases, issue, reason, released_at, result),
    ensures
        result matches Ok((marker, report)) ==> {
            &&& report.issue == issue
            &&& !report.worktree_deleted && !report.branch_deleted && !report.cleanup_pending
            &&& report.already_released <==> marker is None
            &&& report.already_released <==> forall|claim: ClaimView|
                #![trigger claims.contains(claim)]
                claims.contains(claim) && claim.issue == issue ==> has_marker(claim, releases)
            &&& exists|claim: ClaimView|
                #![trigger claims.contains(claim)]
                claims.contains(claim) && claim.issue == issue && claim.claim_id == report.claim_id
        },
        result matches Ok((Some(marker), report)) ==> exists|claim: ClaimView|
            #![trigger claims.contains(claim)]
            claims.contains(claim) && !has_marker(claim, releases) && claim.issue == issue
                && marker.issue == issue && marker.claim_id == claim.claim_id && marker.repo
                == claim.repo && marker.reason == reason && marker.released_at == released_at
                && report.claim_id == claim.claim_id,
        result matches Ok((None, report)) ==> exists|claim: ClaimView|
            #![trigger claims.contains(claim)]
            claims.contains(claim) && claim.issue == issue && claim.claim_id == report.claim_id
                && forall|other: ClaimView| #[trigger]
                claims.contains(other) && other.issue == issue ==> is_no_later(other, claim),
        (result matches Err(LifecycleError::NoClaim(named)) && named == issue) <==> forall|
            claim: ClaimView,
        | #[trigger]
            claims.contains(claim) ==> claim.issue != issue,
{
    let held = active(claims, releases);
    let found = claims_on(held, issue);
    let all = claims_on(claims, issue);
    let ordered = generations(claims, issue);
    found_on(held, issue);
    found_on(claims, issue);
    order_keeps_records::<Claim>(all);
    broadcast use vstd::seq_lib::group_to_multiset_ensures;

    assert forall|claim: ClaimView| #[trigger] ordered.contains(claim) <==> all.contains(claim) by {
        assert(ordered.to_multiset().count(claim) == all.to_multiset().count(claim));
    }
    assert forall|claim: ClaimView| #[trigger]
        held.contains(claim) <==> claims.contains(claim) && !has_marker(claim, releases) by {
        active_means_unreleased(claims, releases, claim);
    }
    if found.len() > 0 {
        assert(found.contains(found[0]));
        assert(held.contains(found[0]));
        assert(claims.contains(found[0]));
        assert(!has_marker(found[0], releases));
    } else {
        assert forall|claim: ClaimView|
            #![trigger claims.contains(claim)]
            claims.contains(claim) && claim.issue == issue implies has_marker(claim, releases) by {
            if !has_marker(claim, releases) {
                assert(held.contains(claim));
                assert(found.contains(claim));
            }
        }
    }
    if ordered.len() > 0 {
        let latest = ordered.last();
        assert(ordered.contains(latest));
        assert(claims.contains(latest));
        assert forall|other: ClaimView| #[trigger]
            claims.contains(other) && other.issue == issue implies is_no_later(other, latest) by {
            assert(all.contains(other));
            assert(ordered.contains(other));
            let k = ordered.index_of(other);
            let end = ordered.len() - 1;
            if k < end {
                assert(in_order::<Claim>(all)[end] == latest);
                assert(in_order::<Claim>(all)[k] == other);
            }
        }
    } else {
        assert forall|claim: ClaimView| #[trigger] claims.contains(claim) implies claim.issue
            != issue by {
            if claim.issue == issue {
                assert(all.contains(claim));
                assert(ordered.contains(claim));
            }
        }
    }
}

/// A claim is resumed exactly where it is the one active claim on the issue, its worktree is there,
/// and its branch is registered at that place.
pub proof fn claims_are_resumed_where_they_are(
    active: Seq<ClaimView>,
    issue: IssueNumber,
    claimed: Option<Seq<char>>,
    registered: Option<Seq<char>>,
    result: Result<Claim, LifecycleError>,
)
    requires
        resume_outcome(active, issue, claimed, registered, result),
    ensures
        result matches Ok(claim) ==> active.contains(claim@) && claim@.issue == issue,
        result is Ok <==> claims_on(active, issue).len() == 1 && claimed is Some && registered
            is Some && same_path(registered->0, claimed->0),
        (forall|a: int| 0 <= a < active.len() ==> (#[trigger] active[a]).issue != issue) ==> (
        result matches Err(LifecycleError::Refused(_))),
{
    let found = claims_on(active, issue);
    found_on(active, issue);
    if found.len() > 0 {
        assert(found.contains(found[0]));
        assert(active.contains(found[0]));
        let a = active.index_of(found[0]);
        assert(active[a].issue == issue);
    }
}

/// The one active claim on an issue is found where there is one; none is found where there is none.
pub proof fn unique_claims_are_found(
    active: Seq<ClaimView>,
    issue: IssueNumber,
    result: Result<Option<ClaimView>, LifecycleError>,
)
    requires
        unique_outcome(active, issue, result),
    ensures
        result matches Ok(Some(claim)) ==> active.contains(claim) && claim.issue == issue
            && forall|other: ClaimView| #[trigger]
            active.contains(other) && other.issue == issue ==> other == claim,
        result matches Ok(None) <==> forall|claim: ClaimView| #[trigger]
            active.contains(claim) ==> claim.issue != issue,
{
    let found = claims_on(active, issue);
    found_on(active, issue);
    if found.len() > 0 {
        assert(found.contains(found[0]));
        assert(active.contains(found[0]));
    }
    if found.len() == 1 {
        assert forall|other: ClaimView| #[trigger]
            active.contains(other) && other.issue == issue implies other == found[0] by {
            assert(found.contains(other));
        }
    }
    if found.len() == 0 {
        assert forall|claim: ClaimView| #[trigger] active.contains(claim) implies claim.issue
            != issue by {
            if claim.issue == issue {
                assert(found.contains(claim));
            }
        }
    }
}

proof fn last_release_is_one(releases: Seq<ReleaseView>, claim: ClaimView)
    ensures
        match last_release(releases, claim.issue, claim.claim_id) {
            Some(release) => exists|r: int|
                0 <= r < releases.len() && #[trigger] releases[r] == release && release.issue
                    == claim.issue && release.claim_id == claim.claim_id && forall|s: int|
                    r < s < releases.len() ==> !((#[trigger] releases[s]).issue == claim.issue
                        && releases[s].claim_id == claim.claim_id),
            None => !has_marker(claim, releases),
        },
    decreases releases.len(),
{
    if releases.len() > 0 {
        let front = releases.drop_last();
        last_release_is_one(front, claim);
        let end = releases.len() - 1;
        assert(releases[end] == releases.last());
        if !(releases[end].issue == claim.issue && releases[end].claim_id == claim.claim_id) {
            match last_release(front, claim.issue, claim.claim_id) {
                Some(release) => {
                    let r = choose|r: int|
                        0 <= r < front.len() && #[trigger] front[r] == release && release.issue
                            == claim.issue && release.claim_id == claim.claim_id && forall|s: int|
                            r < s < front.len() ==> !((#[trigger] front[s]).issue == claim.issue
                                && front[s].claim_id == claim.claim_id);
                    assert(releases[r] == release);
                    assert forall|s: int| r < s < releases.len() implies !((
                    #[trigger] releases[s]).issue == claim.issue && releases[s].claim_id
                        == claim.claim_id) by {
                        if s < end {
                            assert(front[s] == releases[s]);
                        }
                    }
                },
                None => {
                    if has_marker(claim, releases) {
                        let r = choose|r: int|
                            0 <= r < releases.len() && (#[trigger] releases[r]).issue
                                == claim.issue && releases[r].claim_id == claim.claim_id;
                        assert(front[r] == releases[r]);
                    }
                },
            }
        }
    }
}

/// A list has an entry for every recorded claim, in the order of the records, and shows the claim as
/// it is recorded; only a worktree that is to be kept out of sight is shortened. Where generations
/// occur once, an entry is released exactly where its generation was, and then shows the release;
/// otherwise it is active and shows none.
pub proof fn lists_show_every_claim(
    claims: Seq<ClaimView>,
    releases: Seq<ReleaseView>,
    redact: bool,
    at: int,
)
    requires
        0 <= at < claims.len(),
        forall|i: int|
            0 <= i < at ==> !((#[trigger] claims[i]).issue == claims[at].issue && claims[i].claim_id
                == claims[at].claim_id),
    ensures
        ({
            let entries = entries_of(claims, releases, redact);
            let entry = entries[at];
            &&& entries.len() == claims.len()
            &&& entry.claim == (ClaimView { worktree: entry.claim.worktree, ..claims[at] })
            &&& !redact ==> entry.claim == claims[at]
            &&& entry.state is Released <==> has_marker(claims[at], releases)
            &&& entry.state is Active <==> !has_marker(claims[at], releases)
            &&& entry.release is Some <==> has_marker(claims[at], releases)
            &&& entry.release matches Some(release) ==> releases.contains(release) && release.issue
                == claims[at].issue && release.claim_id == claims[at].claim_id
        }),
{
    last_release_is_one(releases, claims[at]);
    assert(!lists_generation(claims.take(at), claims[at].issue, claims[at].claim_id));
}

/// The active entries are counted one by one.
pub proof fn active_entries_are_counted(entries: Seq<EntryView>, entry: EntryView)
    ensures
        active_count(Seq::<EntryView>::empty()) == 0,
        active_count(entries.push(entry)) == active_count(entries) + (if entry.state is Active {
            1nat
        } else {
            0nat
        }),
        active_count(entries) <= entries.len(),
    decreases entries.len(),
{
    assert(entries.push(entry).drop_last() =~= entries);
    if entries.len() > 0 {
        active_entries_are_counted(entries.drop_last(), entries.last());
    }
}

} // verus!
