//! What gates say: the worst that a check of theirs has found, and no more.
use vstd::prelude::*;

use crate::doctor::{
    gate_rollup, node_checks, node_report, report, rollup, rollups_of, with_node_reports, worst,
    worst_gate_is_the_rollup, CheckGate, CheckView, GateRollup, GateRollups,
    NodeReportView, ReportView, SubjectView,
};
use crate::id::{Id, IssueNumber};
use crate::time::Timestamp;

verus! {

/// Whether a check leaves a question open that had to be answered.
pub open spec fn is_undecided(check: CheckView) -> bool {
    check.status is Error || (check.status is Skip && check.required)
}

/// Whether one of the checks of a gate, or of all gates, is of some kind.
pub open spec fn some_undecided(checks: Seq<CheckView>, gate: Option<CheckGate>) -> bool {
    exists|i: int|
        0 <= i < checks.len() && is_undecided(#[trigger] checks[i]) && (gate is None || gate == Some(
            checks[i].gate,
        ))
}

pub open spec fn some_failed(checks: Seq<CheckView>, gate: Option<CheckGate>) -> bool {
    exists|i: int|
        0 <= i < checks.len() && (#[trigger] checks[i]).status is Fail && (gate is None || gate
            == Some(checks[i].gate))
}

pub open spec fn some_warned(checks: Seq<CheckView>, gate: Option<CheckGate>) -> bool {
    exists|i: int|
        0 <= i < checks.len() && (#[trigger] checks[i]).status is Warn && (gate is None || gate
            == Some(checks[i].gate))
}

/// Whether that is what the checks of a gate, or of all gates, come to: an error where one could
/// not be decided, else blocked where one failed, else a warning where one warned, else all is
/// well.
pub open spec fn comes_to(
    checks: Seq<CheckView>,
    gate: Option<CheckGate>,
    found: GateRollup,
) -> bool {
    &&& found is Error <==> some_undecided(checks, gate)
    &&& found is Blocked <==> !some_undecided(checks, gate) && some_failed(checks, gate)
    &&& found is Warning <==> !some_undecided(checks, gate) && !some_failed(checks, gate)
        && some_warned(checks, gate)
    &&& found is Okay <==> !some_undecided(checks, gate) && !some_failed(checks, gate)
        && !some_warned(checks, gate)
}

/// Whether a gate keeps from going on.
pub open spec fn holds_up(found: GateRollup) -> bool {
    found is Blocked || found is Error
}

proof fn kinds_by_last(checks: Seq<CheckView>, gate: Option<CheckGate>)
    requires
        checks.len() > 0,
    ensures
        ({
            let front = checks.drop_last();
            let last = checks.last();
            let counts = gate is None || gate == Some(last.gate);
            &&& some_undecided(checks, gate) == (some_undecided(front, gate) || (counts
                && is_undecided(last)))
            &&& some_failed(checks, gate) == (some_failed(front, gate) || (counts && last.status
                is Fail))
            &&& some_warned(checks, gate) == (some_warned(front, gate) || (counts && last.status
                is Warn))
        }),
{
    let front = checks.drop_last();
    let last = checks.last();
    assert(checks[checks.len() - 1] == last);
    if some_undecided(front, gate) {
        let i = choose|i: int|
            0 <= i < front.len() && is_undecided(#[trigger] front[i]) && (gate is None || gate
                == Some(front[i].gate));
        assert(checks[i] == front[i]);
    }
    if some_failed(front, gate) {
        let i = choose|i: int|
            0 <= i < front.len() && (#[trigger] front[i]).status is Fail && (gate is None || gate
                == Some(front[i].gate));
        assert(checks[i] == front[i]);
    }
    if some_warned(front, gate) {
        let i = choose|i: int|
            0 <= i < front.len() && (#[trigger] front[i]).status is Warn && (gate is None || gate
                == Some(front[i].gate));
        assert(checks[i] == front[i]);
    }
    if some_undecided(checks, gate) {
        let i = choose|i: int|
            0 <= i < checks.len() && is_undecided(#[trigger] checks[i]) && (gate is None || gate
                == Some(checks[i].gate));
        if i < front.len() {
            assert(front[i] == checks[i]);
        }
    }
    if some_failed(checks, gate) {
        let i = choose|i: int|
            0 <= i < checks.len() && (#[trigger] checks[i]).status is Fail && (gate is None || gate
                == Some(checks[i].gate));
        if i < front.len() {
            assert(front[i] == checks[i]);
        }
    }
    if some_warned(checks, gate) {
        let i = choose|i: int|
            0 <= i < checks.len() && (#[trigger] checks[i]).status is Warn && (gate is None || gate
                == Some(checks[i].gate));
        if i < front.len() {
            assert(front[i] == checks[i]);
        }
    }
}

/// The roll-up of a gate is what the checks of that gate come to; those of other gates have no say.
pub proof fn gates_tell_the_worst_of_their_checks(checks: Seq<CheckView>, gate: CheckGate)
    ensures
        comes_to(checks, Some(gate), gate_rollup(checks, gate)),
    decreases checks.len(),
{
    if checks.len() > 0 {
        gates_tell_the_worst_of_their_checks(checks.drop_last(), gate);
        kinds_by_last(checks, Some(gate));
    }
}

/// The roll-up of all checks is what all of them come to.
pub proof fn rollups_tell_the_worst_of_all_checks(checks: Seq<CheckView>)
    ensures
        comes_to(checks, None, rollup(checks)),
    decreases checks.len(),
{
    if checks.len() > 0 {
        rollups_tell_the_worst_of_all_checks(checks.drop_last());
        kinds_by_last(checks, None);
    }
}

/// Whether the gates and the state that are reported are what the checks come to.
pub open spec fn reported_so(
    checks: Seq<CheckView>,
    gates: GateRollups,
    status: GateRollup,
) -> bool {
    &&& comes_to(checks, Some(CheckGate::Integrity), gates.integrity)
    &&& comes_to(checks, Some(CheckGate::Publish), gates.publish)
    &&& comes_to(checks, Some(CheckGate::Merge), gates.merge)
    &&& comes_to(checks, None, status)
}

proof fn gates_of(checks: Seq<CheckView>)
    ensures
        reported_so(checks, rollups_of(checks), worst(rollups_of(checks))),
{
    gates_tell_the_worst_of_their_checks(checks, CheckGate::Integrity);
    gates_tell_the_worst_of_their_checks(checks, CheckGate::Publish);
    gates_tell_the_worst_of_their_checks(checks, CheckGate::Merge);
    rollups_tell_the_worst_of_all_checks(checks);
    worst_gate_is_the_rollup(checks);
}

/// A report holds the checks and the recommendations that it was made of, and tells what they come
/// to.
pub proof fn reports_tell_what_their_checks_come_to(
    subject: SubjectView,
    checks: Seq<CheckView>,
    recommendations: Seq<Seq<char>>,
    at: Timestamp,
)
    ensures
        ({
            let made = report(subject, checks, recommendations, at);
            &&& made.subject == subject && made.checks == checks && made.recommendations
                == recommendations && made.generated_at == at && made.nodes.len() == 0
            &&& reported_so(checks, made.gates, made.status)
        }),
{
    gates_of(checks);
}

/// So does the report on a node.
pub proof fn node_reports_tell_what_their_checks_come_to(
    issue: IssueNumber,
    claim_id: Id,
    checks: Seq<CheckView>,
    recommendations: Seq<Seq<char>>,
)
    ensures
        ({
            let made = node_report(issue, claim_id, checks, recommendations);
            &&& made.issue == issue && made.claim_id == claim_id && made.checks == checks
                && made.recommendations == recommendations
            &&& reported_so(checks, made.gates, made.status)
        }),
{
    gates_of(checks);
}

/// Whether a check stands in a report itself or in that on one of its nodes.
pub open spec fn stands_in(report: ReportView, check: CheckView) -> bool {
    report.checks.contains(check) || exists|n: int|
        0 <= n < report.nodes.len() && (#[trigger] report.nodes[n]).checks.contains(check)
}

proof fn node_checks_hold(nodes: Seq<NodeReportView>, check: CheckView)
    ensures
        node_checks(nodes).contains(check) <==> exists|n: int|
            0 <= n < nodes.len() && (#[trigger] nodes[n]).checks.contains(check),
    decreases nodes.len(),
{
    if nodes.len() > 0 {
        let front = nodes.drop_last();
        let last = nodes.last();
        node_checks_hold(front, check);
        let early = node_checks(front);
        let all = node_checks(nodes);
        assert(all =~= early + last.checks);
        assert(nodes[nodes.len() - 1] == last);
        if early.contains(check) {
            let k = early.index_of(check);
            assert(all[k] == check);
            let n = choose|n: int|
                0 <= n < front.len() && (#[trigger] front[n]).checks.contains(check);
            assert(nodes[n] == front[n]);
        }
        if last.checks.contains(check) {
            let k = last.checks.index_of(check);
            assert(all[early.len() + k] == check);
        }
        if all.contains(check) {
            let k = all.index_of(check);
            if k < early.len() {
                assert(early[k] == check);
            } else {
                assert(last.checks[k - early.len()] == check);
            }
        }
        if exists|n: int| 0 <= n < nodes.len() && (#[trigger] nodes[n]).checks.contains(check) {
            let n = choose|n: int|
                0 <= n < nodes.len() && (#[trigger] nodes[n]).checks.contains(check);
            if n < front.len() {
                assert(front[n] == nodes[n]);
            }
        }
    }
}

/// A report with nodes keeps its own checks, and its gates tell of the checks of the nodes too: a
/// gate that a node is held up by holds the report up, and a report where all is well has no node
/// where it is not.
pub proof fn nodes_count_in_reports(own: ReportView, nodes: Seq<NodeReportView>, n: int)
    requires
        0 <= n < nodes.len(),
        reported_so(nodes[n].checks, nodes[n].gates, nodes[n].status),
    ensures
        ({
            let whole = with_node_reports(own, nodes);
            &&& whole.nodes == nodes && whole.checks == own.checks && whole.subject == own.subject
                && whole.generated_at == own.generated_at
            &&& holds_up(nodes[n].gates.integrity) ==> holds_up(whole.gates.integrity)
            &&& holds_up(nodes[n].gates.publish) ==> holds_up(whole.gates.publish)
            &&& holds_up(nodes[n].gates.merge) ==> holds_up(whole.gates.merge)
            &&& holds_up(nodes[n].status) ==> holds_up(whole.status)
            &&& whole.status is Okay ==> nodes[n].status is Okay
            &&& forall|check: CheckView| #[trigger]
                stands_in(whole, check) && check.status is Fail ==> holds_up(whole.status) && match
                check.gate {
                    CheckGate::Integrity => holds_up(whole.gates.integrity),
                    CheckGate::Publish => holds_up(whole.gates.publish),
                    CheckGate::Merge => holds_up(whole.gates.merge),
                }
        }),
{
    let whole = with_node_reports(own, nodes);
    let all = own.checks + node_checks(nodes);
    gates_of(all);
    assert forall|check: CheckView| #[trigger] stands_in(whole, check) implies all.contains(check) by {
        node_checks_hold(nodes, check);
        if own.checks.contains(check) {
            assert(all[own.checks.index_of(check)] == check);
        } else {
            let k = node_checks(nodes).index_of(check);
            assert(all[own.checks.len() + k] == check);
        }
    }
    assert forall|i: int| 0 <= i < nodes[n].checks.len() implies all.contains(
        #[trigger] nodes[n].checks[i],
    ) by {
        let check = nodes[n].checks[i];
        assert(nodes[n].checks.contains(check));
        assert(whole.nodes[n].checks.contains(check));
        assert(stands_in(whole, check));
    }
    kinds_spread(nodes[n].checks, all, Some(CheckGate::Integrity));
    kinds_spread(nodes[n].checks, all, Some(CheckGate::Publish));
    kinds_spread(nodes[n].checks, all, Some(CheckGate::Merge));
    kinds_spread(nodes[n].checks, all, None);
    assert forall|check: CheckView| #[trigger]
        stands_in(whole, check) && check.status is Fail implies some_failed(all, None)
        && some_failed(all, Some(check.gate)) by {
        let k = all.index_of(check);
        assert(all[k] == check);
    }
}

proof fn kinds_spread(some: Seq<CheckView>, all: Seq<CheckView>, gate: Option<CheckGate>)
    requires
        forall|i: int| 0 <= i < some.len() ==> all.contains(#[trigger] some[i]),
    ensures
        some_undecided(some, gate) ==> some_undecided(all, gate),
        some_failed(some, gate) ==> some_failed(all, gate),
        some_warned(some, gate) ==> some_warned(all, gate),
{
    if some_undecided(some, gate) {
        let i = choose|i: int|
            0 <= i < some.len() && is_undecided(#[trigger] some[i]) && (gate is None || gate
                == Some(some[i].gate));
        assert(all[all.index_of(some[i])] == some[i]);
    }
    if some_failed(some, gate) {
        let i = choose|i: int|
            0 <= i < some.len() && (#[trigger] some[i]).status is Fail && (gate is None || gate
                == Some(some[i].gate));
        assert(all[all.index_of(some[i])] == some[i]);
    }
    if some_warned(some, gate) {
        let i = choose|i: int|
            0 <= i < some.len() && (#[trigger] some[i]).status is Warn && (gate is None || gate
                == Some(some[i].gate));
        assert(all[all.index_of(some[i])] == some[i]);
    }
}

/// Whether all of some checks are among others.
pub open spec fn are_among(some: Seq<CheckView>, all: Seq<CheckView>) -> bool {
    forall|c: int| 0 <= c < some.len() ==> all.contains(#[trigger] some[c])
}

/// Checks are among those that they are put together to.
pub proof fn among_sum(a: Seq<CheckView>, b: Seq<CheckView>)
    ensures
        are_among(a, a + b),
        are_among(b, a + b),
{
    assert forall|c: int| 0 <= c < a.len() implies (a + b).contains(#[trigger] a[c]) by {
        assert((a + b)[c] == a[c]);
    }
    assert forall|c: int| 0 <= c < b.len() implies (a + b).contains(#[trigger] b[c]) by {
        assert((a + b)[a.len() + c] == b[c]);
    }
}

/// What is among checks is among all that those are among.
pub proof fn among_goes_on(a: Seq<CheckView>, b: Seq<CheckView>, c: Seq<CheckView>)
    requires
        are_among(a, b),
        are_among(b, c),
    ensures
        are_among(a, c),
{
    assert forall|k: int| 0 <= k < a.len() implies c.contains(#[trigger] a[k]) by {
        let j = b.index_of(a[k]);
        assert(b[j] == a[k]);
        assert(c.contains(b[j]));
    }
}

/// The number that a report exits with: zero where all is well, one where there are warnings, two
/// where something is blocked and three where something could not be decided.
pub proof fn exit_numbers_tell_states_apart(status: GateRollup)
    ensures
        status is Okay <==> status.exit().number() == 0,
        status is Warning <==> status.exit().number() == 1,
        status is Blocked <==> status.exit().number() == 2,
        status is Error <==> status.exit().number() == 3,
{
}

} // verus!
