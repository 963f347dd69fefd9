//! Overlaps seen from both sides: what two claims are told of each other.
use vstd::prelude::*;

use crate::conflict::{
    analyzed, builds_on, claims_of, finding_at, ordered_overlaps, overlap_before, overlaps_among,
    overlaps_at, overlaps_of, overlaps_with, relation, relation_is_directional, reversed,
    shared_as, touched_paths, touches, with_finding, with_overlap, OverlapRelationship,
    OverlapView,
};
use crate::id::Id;
use crate::model::ClaimView;
use crate::observation::{DiffView, ObservationView};
use crate::text::{ascending, ascending_texts_are_sorted, before, sorted_set_unique};

verus! {

/// The overlaps that are with one generation, in their order.
pub open spec fn about(overlaps: Seq<OverlapView>, id: Id) -> Seq<OverlapView>
    decreases overlaps.len(),
{
    if overlaps.len() == 0 {
        Seq::empty()
    } else if overlaps.last().with_claim_id == id {
        about(overlaps.drop_last(), id).push(overlaps.last())
    } else {
        about(overlaps.drop_last(), id)
    }
}

/// An overlap with another claim as the other sees it: with the first claim, in the relationship
/// seen from the other side, and otherwise the same.
pub open spec fn mirrored_row(row: OverlapView, subject: ClaimView) -> OverlapView {
    OverlapView {
        with_issue: subject.issue,
        with_claim_id: subject.claim_id,
        relationship: reversed(row.relationship),
        ..row
    }
}

pub open spec fn mirrored(rows: Seq<OverlapView>, subject: ClaimView) -> Seq<OverlapView> {
    Seq::new(rows.len(), |k: int| mirrored_row(rows[k], subject))
}

/// Whether all of the rows are about one claim, in one relationship.
pub open spec fn rows_with(
    rows: Seq<OverlapView>,
    other: ClaimView,
    relationship: OverlapRelationship,
) -> bool {
    forall|k: int|
        0 <= k < rows.len() ==> (#[trigger] rows[k]).with_issue == other.issue
            && rows[k].with_claim_id == other.claim_id && rows[k].relationship == relationship
}

// ---------------------------------------------------------------------------------------------
// Paths of both
// ---------------------------------------------------------------------------------------------
/// The paths that the other claim touches too.
spec fn common(subject: DiffView, other: DiffView, paths: Seq<Seq<char>>) -> Seq<Seq<char>>
    decreases paths.len(),
{
    if paths.len() == 0 {
        Seq::empty()
    } else if shared_as(subject, other, paths.last()) is Some {
        common(subject, other, paths.drop_last()).push(paths.last())
    } else {
        common(subject, other, paths.drop_last())
    }
}

proof fn common_is_all(
    subject: DiffView,
    other: ObservationView,
    relationship: OverlapRelationship,
    rules: Seq<(Seq<char>, Seq<char>)>,
    paths: Seq<Seq<char>>,
)
    ensures
        overlaps_at(subject, other, relationship, rules, paths) == overlaps_at(
            subject,
            other,
            relationship,
            rules,
            common(subject, other.diff->0, paths),
        ),
    decreases paths.len(),
{
    if paths.len() > 0 {
        let front = paths.drop_last();
        common_is_all(subject, other, relationship, rules, front);
        let few = common(subject, other.diff->0, front);
        assert(few.push(paths.last()).drop_last() =~= few);
    }
}

proof fn common_holds(subject: DiffView, other: DiffView, paths: Seq<Seq<char>>)
    ensures
        forall|path: Seq<char>| #[trigger]
            common(subject, other, paths).contains(path) <==> paths.contains(path) && shared_as(
                subject,
                other,
                path,
            ) is Some,
        ascending(paths) ==> ascending(common(subject, other, paths)),
    decreases paths.len(),
{
    let result = common(subject, other, paths);
    if paths.len() > 0 {
        let front = paths.drop_last();
        let last = paths.last();
        let few = common(subject, other, front);
        common_holds(subject, other, front);
        assert forall|path: Seq<char>| #[trigger]
            result.contains(path) <==> paths.contains(path) && shared_as(subject, other, path)
                is Some by {
            assert(few.contains(path) <==> front.contains(path) && shared_as(subject, other, path)
                is Some);
            if front.contains(path) {
                let k = choose|k: int| 0 <= k < front.len() && front[k] == path;
                assert(paths[k] == path);
            }
            if paths.contains(path) && path != last {
                let k = choose|k: int| 0 <= k < paths.len() && paths[k] == path;
                assert(front[k] == path);
            }
            assert(paths[paths.len() - 1] == last);
            if few.contains(path) {
                let k = choose|k: int| 0 <= k < few.len() && few[k] == path;
                assert(result[k] == path);
            }
            if result.contains(path) && !few.contains(path) {
                let k = choose|k: int| 0 <= k < result.len() && result[k] == path;
                if k < few.len() {
                    assert(few[k] == path);
                }
                assert(path == last);
            }
            if path == last && shared_as(subject, other, path) is Some {
                assert(result[result.len() - 1] == path);
            }
        }
        if ascending(paths) {
            assert(ascending(front)) by {
                assert forall|i: int, j: int| 0 <= i < j < front.len() implies
                    before(#[trigger] front[i], #[trigger] front[j]) by {
                    assert(before(paths[i], paths[j]));
                }
            }
            assert forall|i: int, j: int| 0 <= i < j < result.len() implies before(
                #[trigger] result[i],
                #[trigger] result[j],
            ) by {
                assert(result[i] == few[i]);
                if j < few.len() {
                    assert(before(few[i], few[j]));
                } else {
                    assert(few.contains(few[i]));
                    let k = choose|k: int| 0 <= k < front.len() && front[k] == few[i];
                    assert(before(paths[k], paths[paths.len() - 1]));
                }
            }
        }
    }
}

proof fn touched_means_touches(diff: DiffView)
    ensures
        ascending(touched_paths(diff)),
        forall|path: Seq<char>| #[trigger]
            touched_paths(diff).contains(path) <==> touches(diff, path),
{
    let all = diff.changed_paths + diff.untracked_paths;
    ascending_texts_are_sorted(all);
    assert forall|path: Seq<char>| #[trigger]
        touched_paths(diff).contains(path) <==> touches(diff, path) by {
        if diff.changed_paths.contains(path) {
            assert(all[diff.changed_paths.index_of(path)] == path);
        }
        if diff.untracked_paths.contains(path) {
            assert(all[diff.changed_paths.len() + diff.untracked_paths.index_of(path)] == path);
        }
        assert(touched_paths(diff).contains(path) <==> all.contains(path));
    }
}

/// Both claims share the same paths, in the same order.
proof fn common_is_mutual(a: DiffView, b: DiffView)
    ensures
        common(a, b, touched_paths(a)) == common(b, a, touched_paths(b)),
        forall|k: int|
            0 <= k < common(a, b, touched_paths(a)).len() ==> touches(
                a,
                #[trigger] common(a, b, touched_paths(a))[k],
            ) && touches(b, common(a, b, touched_paths(a))[k]),
{
    touched_means_touches(a);
    touched_means_touches(b);
    common_holds(a, b, touched_paths(a));
    common_holds(b, a, touched_paths(b));
    let mine = common(a, b, touched_paths(a));
    let theirs = common(b, a, touched_paths(b));
    assert forall|path: Seq<char>| theirs.contains(path) <==> mine.contains(path) by {
        assert(mine.contains(path) <==> touched_paths(a).contains(path) && shared_as(a, b, path)
            is Some);
        assert(theirs.contains(path) <==> touched_paths(b).contains(path) && shared_as(b, a, path)
            is Some);
        assert(touched_paths(a).contains(path) <==> touches(a, path));
        assert(touched_paths(b).contains(path) <==> touches(b, path));
    }
    sorted_set_unique(mine, theirs, mine);
    assert forall|k: int| 0 <= k < mine.len() implies touches(a, #[trigger] mine[k]) && touches(
        b,
        mine[k],
    ) by {
        assert(mine.contains(mine[k]));
        assert(theirs.contains(mine[k]));
        assert(touched_paths(a).contains(mine[k]) && touched_paths(b).contains(mine[k]));
    }
}

// ---------------------------------------------------------------------------------------------
// Groups of both
// ---------------------------------------------------------------------------------------------
proof fn findings_are_mirrored(
    groups: Seq<OverlapView>,
    finding: OverlapView,
    subject: ClaimView,
)
    ensures
        with_finding(mirrored(groups, subject), mirrored_row(finding, subject)) == mirrored(
            with_finding(groups, finding),
            subject,
        ),
    decreases groups.len(),
{
    let there = mirrored(groups, subject);
    let result = with_finding(there, mirrored_row(finding, subject));
    let wanted = mirrored(with_finding(groups, finding), subject);
    if groups.len() > 0 {
        let front = groups.drop_last();
        assert(there.drop_last() =~= mirrored(front, subject));
        assert(there.last() == mirrored_row(groups.last(), subject));
        findings_are_mirrored(front, finding, subject);
    }
    assert(result =~= wanted);
}

proof fn overlaps_are_mirrored(
    a: ObservationView,
    b: ObservationView,
    relationship: OverlapRelationship,
    rules: Seq<(Seq<char>, Seq<char>)>,
    paths: Seq<Seq<char>>,
)
    requires
        forall|k: int|
            0 <= k < paths.len() ==> touches(a.diff->0, #[trigger] paths[k]) && touches(
                b.diff->0,
                paths[k],
            ),
    ensures
        overlaps_at(b.diff->0, a, reversed(relationship), rules, paths) == mirrored(
            overlaps_at(a.diff->0, b, relationship, rules, paths),
            a.claim,
        ),
    decreases paths.len(),
{
    let here = overlaps_at(a.diff->0, b, relationship, rules, paths);
    let there = overlaps_at(b.diff->0, a, reversed(relationship), rules, paths);
    if paths.len() > 0 {
        let front = paths.drop_last();
        let last = paths.last();
        assert(touches(a.diff->0, paths[paths.len() - 1]));
        assert forall|k: int| 0 <= k < front.len() implies touches(a.diff->0, #[trigger] front[k])
            && touches(b.diff->0, front[k]) by {
            assert(front[k] == paths[k]);
        }
        overlaps_are_mirrored(a, b, relationship, rules, front);
        let confidence = shared_as(a.diff->0, b.diff->0, last)->0;
        assert(shared_as(a.diff->0, b.diff->0, last) == Some(confidence));
        assert(shared_as(b.diff->0, a.diff->0, last) == Some(confidence));
        let finding = finding_at(b.claim, relationship, rules, confidence, last);
        assert(finding_at(a.claim, reversed(relationship), rules, confidence, last)
            == mirrored_row(finding, a.claim));
        findings_are_mirrored(
            overlaps_at(a.diff->0, b, relationship, rules, front),
            finding,
            a.claim,
        );
    } else {
        assert(there =~= mirrored(here, a.claim));
    }
}

proof fn finding_keeps_rows(
    groups: Seq<OverlapView>,
    finding: OverlapView,
    other: ClaimView,
    relationship: OverlapRelationship,
)
    requires
        rows_with(groups, other, relationship),
        rows_with(seq![finding], other, relationship),
    ensures
        rows_with(with_finding(groups, finding), other, relationship),
    decreases groups.len(),
{
    assert(seq![finding][0] == finding);
    if groups.len() > 0 {
        let front = groups.drop_last();
        assert(groups[groups.len() - 1] == groups.last());
        assert(rows_with(front, other, relationship)) by {
            assert forall|k: int| 0 <= k < front.len() implies (#[trigger] front[k]).with_issue
                == other.issue && front[k].with_claim_id == other.claim_id
                && front[k].relationship == relationship by {
                assert(front[k] == groups[k]);
            }
        }
        finding_keeps_rows(front, finding, other, relationship);
    }
}

proof fn overlaps_at_are_with(
    subject: DiffView,
    other: ObservationView,
    relationship: OverlapRelationship,
    rules: Seq<(Seq<char>, Seq<char>)>,
    paths: Seq<Seq<char>>,
)
    ensures
        rows_with(
            overlaps_at(subject, other, relationship, rules, paths),
            other.claim,
            relationship,
        ),
    decreases paths.len(),
{
    if paths.len() > 0 {
        let front = paths.drop_last();
        overlaps_at_are_with(subject, other, relationship, rules, front);
        if let Some(confidence) = shared_as(subject, other.diff->0, paths.last()) {
            finding_keeps_rows(
                overlaps_at(subject, other, relationship, rules, front),
                finding_at(other.claim, relationship, rules, confidence, paths.last()),
                other.claim,
                relationship,
            );
        }
    }
}

/// What two claims are told of each other before it is put in order.
proof fn overlaps_with_are_mirrored(
    observed: Seq<ObservationView>,
    rules: Seq<(Seq<char>, Seq<char>)>,
    i: int,
    j: int,
)
    requires
        0 <= i < observed.len(),
        0 <= j < observed.len(),
        !(builds_on(claims_of(observed), observed[i].claim, observed[j].claim.claim_id)
            && builds_on(claims_of(observed), observed[j].claim, observed[i].claim.claim_id)),
    ensures
        overlaps_with(observed, rules, j, i) == mirrored(
            overlaps_with(observed, rules, i, j),
            observed[i].claim,
        ),
        rows_with(
            overlaps_with(observed, rules, i, j),
            observed[j].claim,
            relation(claims_of(observed), observed[i].claim, observed[j].claim),
        ),
{
    let here = overlaps_with(observed, rules, i, j);
    let there = overlaps_with(observed, rules, j, i);
    if i == j || observed[i].diff is None || observed[j].diff is None {
        assert(there =~= mirrored(here, observed[i].claim));
    } else {
        let a = observed[i];
        let b = observed[j];
        let claims = claims_of(observed);
        let relationship = relation(claims, a.claim, b.claim);
        relation_is_directional(claims, a.claim, b.claim);
        common_is_all(a.diff->0, b, relationship, rules, touched_paths(a.diff->0));
        common_is_all(b.diff->0, a, reversed(relationship), rules, touched_paths(b.diff->0));
        common_is_mutual(a.diff->0, b.diff->0);
        let paths = common(a.diff->0, b.diff->0, touched_paths(a.diff->0));
        overlaps_are_mirrored(a, b, relationship, rules, paths);
        overlaps_at_are_with(a.diff->0, b, relationship, rules, touched_paths(a.diff->0));
    }
}

// ---------------------------------------------------------------------------------------------
// Rows of both
// ---------------------------------------------------------------------------------------------
proof fn overlap_is_added(overlaps: Seq<OverlapView>, overlap: OverlapView)
    ensures
        with_overlap(overlaps, overlap).to_multiset() == overlaps.to_multiset().insert(overlap),
    decreases overlaps.len(),
{
    broadcast use vstd::seq_lib::group_to_multiset_ensures;

    if overlaps.len() > 0 && overlap_before(overlap, overlaps.last()) {
        let front = overlaps.drop_last();
        overlap_is_added(front, overlap);
        assert(overlaps =~= front.push(overlaps.last()));
        assert(with_overlap(overlaps, overlap).to_multiset() =~= overlaps.to_multiset().insert(
            overlap,
        ));
    }
}

proof fn order_keeps_rows(overlaps: Seq<OverlapView>)
    ensures
        ordered_overlaps(overlaps).to_multiset() == overlaps.to_multiset(),
    decreases overlaps.len(),
{
    broadcast use vstd::seq_lib::group_to_multiset_ensures;

    if overlaps.len() > 0 {
        let front = overlaps.drop_last();
        order_keeps_rows(front);
        overlap_is_added(ordered_overlaps(front), overlaps.last());
        assert(overlaps =~= front.push(overlaps.last()));
    } else {
        assert(ordered_overlaps(overlaps) =~= overlaps);
    }
}

proof fn about_counts(overlaps: Seq<OverlapView>, id: Id, row: OverlapView)
    ensures
        about(overlaps, id).to_multiset().count(row) == if row.with_claim_id == id {
            overlaps.to_multiset().count(row)
        } else {
            0
        },
    decreases overlaps.len(),
{
    broadcast use vstd::seq_lib::group_to_multiset_ensures;

    if overlaps.len() > 0 {
        let front = overlaps.drop_last();
        about_counts(front, id, row);
        assert(overlaps =~= front.push(overlaps.last()));
    } else {
        assert(about(overlaps, id) =~= overlaps);
        assert(overlaps.to_multiset().count(row) == 0);
    }
}

proof fn about_parts(a: Seq<OverlapView>, b: Seq<OverlapView>, id: Id)
    ensures
        about(a + b, id) == about(a, id) + about(b, id),
    decreases b.len(),
{
    if b.len() == 0 {
        assert(a + b =~= a);
        assert(about(a, id) + about(b, id) =~= about(a, id));
    } else {
        about_parts(a, b.drop_last(), id);
        assert((a + b).drop_last() =~= a + b.drop_last());
        assert(about(a + b, id) =~= about(a, id) + about(b, id));
    }
}

proof fn about_one(
    rows: Seq<OverlapView>,
    other: ClaimView,
    relationship: OverlapRelationship,
    id: Id,
)
    requires
        rows_with(rows, other, relationship),
    ensures
        about(rows, id) == if other.claim_id == id {
            rows
        } else {
            Seq::empty()
        },
    decreases rows.len(),
{
    if rows.len() > 0 {
        let front = rows.drop_last();
        assert(rows_with(front, other, relationship)) by {
            assert forall|k: int| 0 <= k < front.len() implies (#[trigger] front[k]).with_issue
                == other.issue && front[k].with_claim_id == other.claim_id
                && front[k].relationship == relationship by {
                assert(front[k] == rows[k]);
            }
        }
        about_one(front, other, relationship, id);
        assert(rows[rows.len() - 1] == rows.last());
        assert(front.push(rows.last()) =~= rows);
    } else {
        assert(about(rows, id) =~= rows);
        assert(rows =~= Seq::empty());
    }
}

proof fn among_about(
    observed: Seq<ObservationView>,
    rules: Seq<(Seq<char>, Seq<char>)>,
    i: int,
    j: int,
    others: nat,
)
    requires
        0 <= i < observed.len(),
        0 <= j < observed.len(),
        others <= observed.len(),
        forall|x: int, y: int|
            0 <= x < y < observed.len() ==> (#[trigger] observed[x]).claim.claim_id != (
            #[trigger] observed[y]).claim.claim_id,
    ensures
        about(overlaps_among(observed, rules, i, others), observed[j].claim.claim_id) == if j
            < others {
            overlaps_with(observed, rules, i, j)
        } else {
            Seq::empty()
        },
    decreases others,
{
    let id = observed[j].claim.claim_id;
    if others > 0 {
        let k = others - 1;
        let earlier = overlaps_among(observed, rules, i, k as nat);
        let more = overlaps_with(observed, rules, i, k);
        among_about(observed, rules, i, j, k as nat);
        about_parts(earlier, more, id);
        let relationship = relation(claims_of(observed), observed[i].claim, observed[k].claim);
        assert(rows_with(more, observed[k].claim, relationship)) by {
            if !(i == k || observed[i].diff is None || observed[k].diff is None) {
                overlaps_at_are_with(
                    observed[i].diff->0,
                    observed[k],
                    relationship,
                    rules,
                    touched_paths(observed[i].diff->0),
                );
            }
        }
        about_one(more, observed[k].claim, relationship, id);
        if k != j {
            assert(observed[k].claim.claim_id != id) by {
                if k < j {
                    assert(observed[k].claim.claim_id != observed[j].claim.claim_id);
                } else {
                    assert(observed[j].claim.claim_id != observed[k].claim.claim_id);
                }
            }
        }
        let whole = about(overlaps_among(observed, rules, i, others), id);
        if j < others {
            assert(whole =~= overlaps_with(observed, rules, i, j));
        } else {
            assert(whole =~= Seq::empty());
        }
    }
}

/// What a claim is told of another, but for the order, is what the two of them give rise to.
proof fn rows_about(
    observed: Seq<ObservationView>,
    rules: Seq<(Seq<char>, Seq<char>)>,
    i: int,
    j: int,
)
    requires
        0 <= i < observed.len(),
        0 <= j < observed.len(),
        forall|x: int, y: int|
            0 <= x < y < observed.len() ==> (#[trigger] observed[x]).claim.claim_id != (
            #[trigger] observed[y]).claim.claim_id,
    ensures
        about(analyzed(observed, rules)[i].overlaps, observed[j].claim.claim_id).to_multiset()
            == overlaps_with(observed, rules, i, j).to_multiset(),
{
    let id = observed[j].claim.claim_id;
    let all = overlaps_among(observed, rules, i, observed.len());
    order_keeps_rows(all);
    among_about(observed, rules, i, j, observed.len());
    let told = about(overlaps_of(observed, rules, i), id).to_multiset();
    let found = about(all, id).to_multiset();
    assert forall|row: OverlapView| told.count(row) == found.count(row) by {
        about_counts(overlaps_of(observed, rules, i), id, row);
        about_counts(all, id, row);
    }
    assert(told =~= found);
}

proof fn mirrored_counts(
    rows: Seq<OverlapView>,
    other: ClaimView,
    relationship: OverlapRelationship,
    subject: ClaimView,
    row: OverlapView,
)
    requires
        rows_with(rows, other, relationship),
    ensures
        mirrored(rows, subject).to_multiset().count(row) == if row.with_issue == subject.issue
            && row.with_claim_id == subject.claim_id && row.relationship == reversed(
            relationship,
        ) {
            rows.to_multiset().count(
                OverlapView {
                    with_issue: other.issue,
                    with_claim_id: other.claim_id,
                    relationship,
                    ..row
                },
            )
        } else {
            0
        },
    decreases rows.len(),
{
    broadcast use vstd::seq_lib::group_to_multiset_ensures;

    let there = mirrored(rows, subject);
    if rows.len() > 0 {
        let front = rows.drop_last();
        assert(rows_with(front, other, relationship)) by {
            assert forall|k: int| 0 <= k < front.len() implies (#[trigger] front[k]).with_issue
                == other.issue && front[k].with_claim_id == other.claim_id
                && front[k].relationship == relationship by {
                assert(front[k] == rows[k]);
            }
        }
        mirrored_counts(front, other, relationship, subject, row);
        let last = rows.last();
        assert(rows[rows.len() - 1] == last);
        assert(rows =~= front.push(last));
        assert(there =~= mirrored(front, subject).push(mirrored_row(last, subject)));
    } else {
        assert(there =~= Seq::empty());
        assert(rows =~= Seq::empty());
    }
}

/// What two claims are told of each other matches row by row: for every row of one about the
/// other there is one, and no more, of the other about the one, with the same paths, confidence,
/// severity and labels, and with the relationship seen from the other side. A row says that the
/// other is an ancestor exactly where the claim builds on it.
pub proof fn rows_match_one_to_one(
    observed: Seq<ObservationView>,
    rules: Seq<(Seq<char>, Seq<char>)>,
    i: int,
    j: int,
)
    requires
        0 <= i < observed.len(),
        0 <= j < observed.len(),
        forall|x: int, y: int|
            0 <= x < y < observed.len() ==> (#[trigger] observed[x]).claim.claim_id != (
            #[trigger] observed[y]).claim.claim_id,
        !(builds_on(claims_of(observed), observed[i].claim, observed[j].claim.claim_id)
            && builds_on(claims_of(observed), observed[j].claim, observed[i].claim.claim_id)),
    ensures
        ({
            let here = about(
                analyzed(observed, rules)[i].overlaps,
                observed[j].claim.claim_id,
            );
            let there = about(
                analyzed(observed, rules)[j].overlaps,
                observed[i].claim.claim_id,
            );
            let relationship = relation(claims_of(observed), observed[i].claim, observed[j].claim);
            &&& there.len() == here.len()
            &&& there.to_multiset() == mirrored(here, observed[i].claim).to_multiset()
            &&& rows_with(here, observed[j].claim, relationship)
            &&& rows_with(there, observed[i].claim, reversed(relationship))
            &&& relationship is Ancestor <==> builds_on(
                claims_of(observed),
                observed[i].claim,
                observed[j].claim.claim_id,
            )
        }),
{
    broadcast use vstd::seq_lib::group_to_multiset_ensures;

    let a = observed[i].claim;
    let b = observed[j].claim;
    let claims = claims_of(observed);
    let relationship = relation(claims, a, b);
    let here = about(analyzed(observed, rules)[i].overlaps, b.claim_id);
    let there = about(analyzed(observed, rules)[j].overlaps, a.claim_id);
    let found = overlaps_with(observed, rules, i, j);
    let found_there = overlaps_with(observed, rules, j, i);
    rows_about(observed, rules, i, j);
    rows_about(observed, rules, j, i);
    overlaps_with_are_mirrored(observed, rules, i, j);
    overlaps_with_are_mirrored(observed, rules, j, i);
    relation_is_directional(claims, a, b);
    same_rows(here, found, b, relationship);
    same_rows(there, found_there, a, reversed(relationship));
    let back = mirrored(here, a).to_multiset();
    assert forall|row: OverlapView| there.to_multiset().count(row) == back.count(row) by {
        mirrored_counts(here, b, relationship, a, row);
        mirrored_counts(found, b, relationship, a, row);
    }
    assert(there.to_multiset() =~= back);
    assert(here.to_multiset().len() == here.len());
    assert(back.len() == mirrored(here, a).len());
    assert(there.to_multiset().len() == there.len());
}

proof fn same_rows(
    rows: Seq<OverlapView>,
    found: Seq<OverlapView>,
    other: ClaimView,
    relationship: OverlapRelationship,
)
    requires
        rows.to_multiset() == found.to_multiset(),
        rows_with(found, other, relationship),
    ensures
        rows_with(rows, other, relationship),
{
    broadcast use vstd::seq_lib::group_to_multiset_ensures;

    assert forall|k: int| 0 <= k < rows.len() implies (#[trigger] rows[k]).with_issue
        == other.issue && rows[k].with_claim_id == other.claim_id && rows[k].relationship
        == relationship by {
        assert(rows.contains(rows[k]));
        assert(rows.to_multiset().count(rows[k]) > 0);
        assert(found.contains(rows[k]));
        let m = choose|m: int| 0 <= m < found.len() && found[m] == rows[k];
        assert(found[m].with_issue == other.issue);
    }
}

} // verus!
