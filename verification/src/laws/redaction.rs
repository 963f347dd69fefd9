//! What is kept out of sight.
use vstd::prelude::*;

use crate::doctor::{CheckView, NodeReportView, ReportView};
use crate::json::JsonView;
use crate::path::{absolute, name_of};
use crate::redaction::{
    byte_length, longest_first, paths_in, paths_in_checks, paths_in_items, paths_in_members,
    paths_in_nodes, redacted_report, redacted_value, replacements_of, short_worktree, shortened,
    with_replacement, with_replacements, without_repeats,
};

verus! {

/// Whether a text occurs somewhere in a value.
pub open spec fn mentions(value: JsonView, text: Seq<char>) -> bool
    decreases value,
{
    match value {
        JsonView::Text(own) => own == text,
        JsonView::List(items) => exists|i: int|
            0 <= i < items.len() && mentions(#[trigger] items[i], text),
        JsonView::Object(members) => exists|i: int|
            0 <= i < members.len() && mentions((#[trigger] members[i]).1, text),
        _ => false,
    }
}

/// Whether a path is put away as its last part alone.
pub open spec fn is_short_for(short: Seq<char>, path: Seq<char>) -> bool {
    match name_of(path) {
        Some(name) => short == "…/"@ + name,
        None => short == "…"@,
    }
}

proof fn paths_found(value: JsonView, pair: (Seq<char>, Seq<char>))
    ensures
        paths_in(value).contains(pair) <==> mentions(value, pair.0) && absolute(pair.0)
            && is_short_for(pair.1, pair.0),
    decreases value,
{
    match value {
        JsonView::Text(own) => {
            if absolute(own) {
                assert(paths_in(value)[0] == (own, shortened(own)));
            }
        },
        JsonView::List(items) => {
            paths_found_in_items(items, pair);
        },
        JsonView::Object(members) => {
            paths_found_in_members(members, pair);
        },
        _ => {},
    }
}

proof fn paths_found_in_items(items: Seq<JsonView>, pair: (Seq<char>, Seq<char>))
    ensures
        paths_in_items(items).contains(pair) <==> (exists|i: int|
            0 <= i < items.len() && mentions(#[trigger] items[i], pair.0)) && absolute(pair.0)
            && is_short_for(pair.1, pair.0),
    decreases items,
{
    if items.len() > 0 {
        let end = items.len() - 1;
        let front = items.subrange(0, end);
        let early = paths_in_items(front);
        let late = paths_in(items[end]);
        let all = paths_in_items(items);
        paths_found_in_items(front, pair);
        paths_found(items[end], pair);
        in_two_parts(early, late, pair);
        assert(all == early + late);
        assert forall|i: int| 0 <= i < end implies #[trigger] items[i] == front[i] by {}
        if exists|i: int| 0 <= i < front.len() && mentions(#[trigger] front[i], pair.0) {
            let i = choose|i: int| 0 <= i < front.len() && mentions(#[trigger] front[i], pair.0);
            assert(mentions(items[i], pair.0));
        }
        if exists|i: int| 0 <= i < items.len() && mentions(#[trigger] items[i], pair.0) {
            let i = choose|i: int| 0 <= i < items.len() && mentions(#[trigger] items[i], pair.0);
            if i < end {
                assert(mentions(front[i], pair.0));
            }
        }
    }
}

proof fn paths_found_in_members(
    members: Seq<(Seq<char>, JsonView)>,
    pair: (Seq<char>, Seq<char>),
)
    ensures
        paths_in_members(members).contains(pair) <==> (exists|i: int|
            0 <= i < members.len() && mentions((#[trigger] members[i]).1, pair.0)) && absolute(
            pair.0,
        ) && is_short_for(pair.1, pair.0),
    decreases members,
{
    if members.len() > 0 {
        let end = members.len() - 1;
        let front = members.subrange(0, end);
        let early = paths_in_members(front);
        let late = paths_in(members[end].1);
        let all = paths_in_members(members);
        paths_found_in_members(front, pair);
        paths_found(members[end].1, pair);
        in_two_parts(early, late, pair);
        assert(all == early + late);
        assert forall|i: int| 0 <= i < end implies #[trigger] members[i] == front[i] by {}
        if exists|i: int| 0 <= i < front.len() && mentions((#[trigger] front[i]).1, pair.0) {
            let i = choose|i: int|
                0 <= i < front.len() && mentions((#[trigger] front[i]).1, pair.0);
            assert(mentions(members[i].1, pair.0));
        }
        if exists|i: int| 0 <= i < members.len() && mentions((#[trigger] members[i]).1, pair.0) {
            let i = choose|i: int|
                0 <= i < members.len() && mentions((#[trigger] members[i]).1, pair.0);
            if i < end {
                assert(mentions(front[i].1, pair.0));
            }
        }
    }
}

proof fn in_two_parts<T>(a: Seq<T>, b: Seq<T>, one: T)
    ensures
        (a + b).contains(one) <==> a.contains(one) || b.contains(one),
{
    let all = a + b;
    if a.contains(one) {
        assert(all[a.index_of(one)] == one);
    }
    if b.contains(one) {
        assert(all[a.len() + b.index_of(one)] == one);
    }
    if all.contains(one) {
        let k = all.index_of(one);
        if k < a.len() {
            assert(a[k] == one);
        } else {
            assert(b[k - a.len()] == one);
        }
    }
}

/// Whether the evidence of one of the checks has a text in it.
pub open spec fn evidence_mentions(checks: Seq<CheckView>, text: Seq<char>) -> bool {
    exists|c: int|
        0 <= c < checks.len() && ((#[trigger] checks[c]).evidence matches Some(evidence)
            && mentions(evidence, text))
}

proof fn paths_found_in_checks(checks: Seq<CheckView>, pair: (Seq<char>, Seq<char>))
    ensures
        paths_in_checks(checks).contains(pair) <==> evidence_mentions(checks, pair.0) && absolute(
            pair.0,
        ) && is_short_for(pair.1, pair.0),
    decreases checks.len(),
{
    if checks.len() > 0 {
        let end = checks.len() - 1;
        let front = checks.drop_last();
        paths_found_in_checks(front, pair);
        assert(checks[end] == checks.last());
        assert forall|c: int| 0 <= c < end implies #[trigger] checks[c] == front[c] by {}
        if let Some(evidence) = checks[end].evidence {
            paths_found(evidence, pair);
            in_two_parts(paths_in_checks(front), paths_in(evidence), pair);
        }
        if evidence_mentions(front, pair.0) {
            let c = choose|c: int|
                0 <= c < front.len() && ((#[trigger] front[c]).evidence matches Some(evidence)
                    && mentions(evidence, pair.0));
            assert(checks[c] == front[c]);
        }
        if evidence_mentions(checks, pair.0) {
            let c = choose|c: int|
                0 <= c < checks.len() && ((#[trigger] checks[c]).evidence matches Some(evidence)
                    && mentions(evidence, pair.0));
            if c < end {
                assert(front[c] == checks[c]);
            }
        }
    }
}

proof fn paths_found_in_nodes(nodes: Seq<NodeReportView>, pair: (Seq<char>, Seq<char>))
    ensures
        paths_in_nodes(nodes).contains(pair) <==> (exists|n: int|
            0 <= n < nodes.len() && evidence_mentions((#[trigger] nodes[n]).checks, pair.0))
            && absolute(pair.0) && is_short_for(pair.1, pair.0),
    decreases nodes.len(),
{
    if nodes.len() > 0 {
        let end = nodes.len() - 1;
        let front = nodes.drop_last();
        paths_found_in_nodes(front, pair);
        paths_found_in_checks(nodes[end].checks, pair);
        in_two_parts(paths_in_nodes(front), paths_in_checks(nodes[end].checks), pair);
        assert(nodes[end] == nodes.last());
        assert forall|n: int| 0 <= n < end implies #[trigger] nodes[n] == front[n] by {}
        if exists|n: int|
            0 <= n < front.len() && evidence_mentions((#[trigger] front[n]).checks, pair.0) {
            let n = choose|n: int|
                0 <= n < front.len() && evidence_mentions((#[trigger] front[n]).checks, pair.0);
            assert(nodes[n] == front[n]);
        }
        if exists|n: int|
            0 <= n < nodes.len() && evidence_mentions((#[trigger] nodes[n]).checks, pair.0) {
            let n = choose|n: int|
                0 <= n < nodes.len() && evidence_mentions((#[trigger] nodes[n]).checks, pair.0);
            if n < end {
                assert(front[n] == nodes[n]);
            }
        }
    }
}

spec fn descends(pairs: Seq<(Seq<char>, Seq<char>)>) -> bool {
    forall|i: int, j: int|
        0 <= i < j < pairs.len() ==> byte_length((#[trigger] pairs[i]).0) >= byte_length(
            (#[trigger] pairs[j]).0,
        )
}

proof fn one_is_put(
    pairs: Seq<(Seq<char>, Seq<char>)>,
    one: (Seq<char>, Seq<char>),
    pair: (Seq<char>, Seq<char>),
)
    requires
        descends(pairs),
    ensures
        descends(with_replacement(pairs, one)),
        with_replacement(pairs, one).contains(pair) <==> pairs.contains(pair) || pair == one,
        with_replacement(pairs, one).len() == pairs.len() + 1,
        with_replacement(pairs, one).last() == one || (pairs.len() > 0 && with_replacement(
            pairs,
            one,
        ).last() == pairs.last()),
    decreases pairs.len(),
{
    let all = with_replacement(pairs, one);
    if pairs.len() > 0 && byte_length(one.0) > byte_length(pairs.last().0) {
        let front = pairs.drop_last();
        let last = pairs.last();
        let end = pairs.len() - 1;
        assert(pairs[end] == last);
        assert(descends(front)) by {
            assert forall|i: int, j: int| 0 <= i < j < front.len() implies byte_length(
                (#[trigger] front[i]).0,
            ) >= byte_length((#[trigger] front[j]).0) by {
                assert(pairs[i] == front[i] && pairs[j] == front[j]);
            }
        }
        one_is_put(front, one, pair);
        let inner = with_replacement(front, one);
        assert(all == inner.push(last));
        assert(byte_length(inner.last().0) >= byte_length(last.0)) by {
            if inner.last() != one {
                assert(front.last() == pairs[end - 1]);
            }
        }
        assert forall|i: int, j: int| 0 <= i < j < all.len() implies byte_length(
            (#[trigger] all[i]).0,
        ) >= byte_length((#[trigger] all[j]).0) by {
            if j < inner.len() {
                assert(all[i] == inner[i] && all[j] == inner[j]);
            } else if i < inner.len() - 1 {
                assert(byte_length(inner[i].0) >= byte_length(inner[inner.len() - 1].0));
            }
        }
        if pairs.contains(pair) {
            let k = pairs.index_of(pair);
            if k < end {
                assert(front[k] == pair);
            } else {
                assert(all[inner.len() as int] == pair);
            }
        }
        if inner.contains(pair) {
            assert(all[inner.index_of(pair)] == pair);
        }
        if front.contains(pair) {
            assert(pairs[front.index_of(pair)] == pair);
        }
        if all.contains(pair) {
            let k = all.index_of(pair);
            if k < inner.len() {
                assert(inner[k] == pair);
            }
        }
    } else {
        assert(all == pairs.push(one));
        assert(all[pairs.len() as int] == one);
        assert forall|i: int, j: int| 0 <= i < j < all.len() implies byte_length(
            (#[trigger] all[i]).0,
        ) >= byte_length((#[trigger] all[j]).0) by {
            if j < pairs.len() {
                assert(all[i] == pairs[i] && all[j] == pairs[j]);
            } else if i < pairs.len() - 1 {
                assert(byte_length(pairs[i].0) >= byte_length(pairs[pairs.len() - 1].0));
            }
        }
        if pairs.contains(pair) {
            assert(all[pairs.index_of(pair)] == pair);
        }
        if all.contains(pair) {
            let k = all.index_of(pair);
            if k < pairs.len() {
                assert(pairs[k] == pair);
            }
        }
    }
}

proof fn longest_come_first(found: Seq<(Seq<char>, Seq<char>)>, pair: (Seq<char>, Seq<char>))
    ensures
        descends(longest_first(found)),
        longest_first(found).contains(pair) <==> found.contains(pair),
    decreases found.len(),
{
    if found.len() > 0 {
        let front = found.drop_last();
        longest_come_first(front, pair);
        one_is_put(longest_first(front), found.last(), pair);
        assert(found[found.len() - 1] == found.last());
        if front.contains(pair) {
            assert(found[front.index_of(pair)] == pair);
        }
        if found.contains(pair) {
            let k = found.index_of(pair);
            if k < front.len() {
                assert(front[k] == pair);
            }
        }
    }
}

proof fn repeats_go(found: Seq<(Seq<char>, Seq<char>)>, pair: (Seq<char>, Seq<char>))
    requires
        forall|i: int|
            0 <= i < found.len() ==> is_short_for((#[trigger] found[i]).1, found[i].0),
    ensures
        without_repeats(found).contains(pair) <==> found.contains(pair),
        descends(found) ==> descends(without_repeats(found)),
        found.len() > 0 ==> without_repeats(found).len() > 0 && without_repeats(found).last()
            == found.last(),
    decreases found.len(),
{
    if found.len() > 0 {
        let front = found.drop_last();
        let early = without_repeats(front);
        let all = without_repeats(found);
        let end = found.len() - 1;
        assert forall|i: int| 0 <= i < front.len() implies is_short_for(
            (#[trigger] front[i]).1,
            front[i].0,
        ) by {
            assert(front[i] == found[i]);
        }
        repeats_go(front, pair);
        assert(found[end] == found.last());
        if front.contains(pair) {
            assert(found[front.index_of(pair)] == pair);
        }
        if found.contains(pair) {
            let k = found.index_of(pair);
            if k < front.len() {
                assert(front[k] == pair);
            }
        }
        if early.len() > 0 {
            assert(early.contains(early.last())) by {
                assert(early[early.len() - 1] == early.last());
            }
            if front.len() > 0 {
                assert(early.last() == front.last());
                assert(front.last() == found[end - 1]);
            }
        }
        if early.len() > 0 && early.last().0 == found.last().0 {
            assert(front.len() > 0);
            assert(found[end - 1].0 == found[end].0);
            assert(found[end - 1] == found[end]);
            assert(all == early);
        } else {
            assert(all == early.push(found.last()));
            assert(all[early.len() as int] == found.last());
            if early.contains(pair) {
                assert(all[early.index_of(pair)] == pair);
            }
            if all.contains(pair) {
                let k = all.index_of(pair);
                if k < early.len() {
                    assert(early[k] == pair);
                }
            }
        }
        if descends(found) {
            assert(descends(front)) by {
                assert forall|i: int, j: int| 0 <= i < j < front.len() implies byte_length(
                    (#[trigger] front[i]).0,
                ) >= byte_length((#[trigger] front[j]).0) by {
                    assert(found[i] == front[i] && found[j] == front[j]);
                }
            }
            assert forall|i: int, j: int| 0 <= i < j < all.len() implies byte_length(
                (#[trigger] all[i]).0,
            ) >= byte_length((#[trigger] all[j]).0) by {
                if j < early.len() {
                    assert(all[i] == early[i] && all[j] == early[j]);
                } else {
                    assert(byte_length(early[i].0) >= byte_length(early.last().0)) by {
                        if i < early.len() - 1 {
                            assert(byte_length(early[i].0) >= byte_length(
                                early[early.len() - 1].0,
                            ));
                        }
                    }
                    assert(byte_length(found[end - 1].0) >= byte_length(found[end].0));
                }
            }
        }
    }
}

/// What is put away in a report: every absolute path that stands by itself in the evidence of a
/// check, of the report or of one of its nodes, and nothing else; each for its last part; and the
/// longer ones before the shorter ones, so that no path is cut short by another that it begins with.
pub proof fn every_path_in_evidence_is_put_away(report: ReportView, pair: (Seq<char>, Seq<char>))
    ensures
        replacements_of(report).contains(pair) <==> absolute(pair.0) && is_short_for(
            pair.1,
            pair.0,
        ) && (evidence_mentions(report.checks, pair.0) || exists|n: int|
            0 <= n < report.nodes.len() && evidence_mentions(
                (#[trigger] report.nodes[n]).checks,
                pair.0,
            )),
        forall|i: int, j: int|
            0 <= i < j < replacements_of(report).len() ==> byte_length(
                (#[trigger] replacements_of(report)[i]).0,
            ) >= byte_length((#[trigger] replacements_of(report)[j]).0),
{
    let own = paths_in_checks(report.checks);
    let more = paths_in_nodes(report.nodes);
    let found = own + more;
    let ordered = longest_first(found);
    paths_found_in_checks(report.checks, pair);
    paths_found_in_nodes(report.nodes, pair);
    in_two_parts(own, more, pair);
    longest_come_first(found, pair);
    assert forall|i: int| 0 <= i < ordered.len() implies is_short_for(
        (#[trigger] ordered[i]).1,
        ordered[i].0,
    ) by {
        let one = ordered[i];
        assert(ordered.contains(one));
        longest_come_first(found, one);
        in_two_parts(own, more, one);
        paths_found_in_checks(report.checks, one);
        paths_found_in_nodes(report.nodes, one);
    }
    repeats_go(ordered, pair);
}

/// The texts of a report all have the same paths put away in them: its messages, its evidence and
/// its recommendations, and those of its nodes. All else of it stays as it is.
pub proof fn redaction_reaches_every_text(report: ReportView, n: int, c: int, r: int)
    requires
        0 <= n < report.nodes.len(),
        0 <= c < report.nodes[n].checks.len(),
        0 <= r < report.nodes[n].recommendations.len(),
    ensures
        ({
            let put = replacements_of(report);
            let made = redacted_report(report);
            let before = report.nodes[n].checks[c];
            let after = made.nodes[n].checks[c];
            &&& made.nodes.len() == report.nodes.len()
            &&& made.nodes[n].issue == report.nodes[n].issue && made.nodes[n].claim_id
                == report.nodes[n].claim_id && made.nodes[n].status == report.nodes[n].status
                && made.nodes[n].gates == report.nodes[n].gates
            &&& after.message == with_replacements(before.message, put)
            &&& after.id == before.id && after.status == before.status && after.gate == before.gate
            &&& before.evidence matches Some(evidence) ==> after.evidence == Some(
                redacted_value(evidence, put),
            )
            &&& made.nodes[n].recommendations[r] == with_replacements(
                report.nodes[n].recommendations[r],
                put,
            )
            &&& forall|i: int|
                0 <= i < report.checks.len() ==> (#[trigger] made.checks[i]).message
                    == with_replacements(report.checks[i].message, put)
            &&& forall|i: int|
                0 <= i < report.recommendations.len() ==> #[trigger] made.recommendations[i]
                    == with_replacements(report.recommendations[i], put)
        }),
{
}

/// A worktree at an absolute path is shown by the last part of that path.
pub proof fn worktrees_are_shown_by_their_name(path: Seq<char>)
    requires
        absolute(path),
    ensures
        is_short_for(short_worktree(path), path),
{
    reveal_strlit("…/");
    if path.len() >= 2 {
        assert(path.take(2)[0] == '/');
    }
}

} // verus!
