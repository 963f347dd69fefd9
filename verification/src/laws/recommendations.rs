//! What reports recommend.
use vstd::prelude::*;

use crate::diagnosis::{coordination, first_problem};
use crate::doctor::{node_recommendations, with_node_reports, NodeReportView, ReportView};
use crate::examination::local_advice;
use crate::id::Id;
use crate::laws::findings::has_problem;
use crate::observation::{LocalProblemCode, LocalView, ObservationView, ProblemView};
use crate::text::{ascending, ascending_texts_are_sorted, decimal};

verus! {

proof fn nodes_recommend(nodes: Seq<NodeReportView>, text: Seq<char>)
    ensures
        node_recommendations(nodes).contains(text) <==> exists|n: int|
            0 <= n < nodes.len() && (#[trigger] nodes[n]).recommendations.contains(text),
    decreases nodes.len(),
{
    if nodes.len() > 0 {
        let front = nodes.drop_last();
        let last = nodes.last();
        let early = node_recommendations(front);
        let all = node_recommendations(nodes);
        nodes_recommend(front, text);
        assert(all =~= early + last.recommendations);
        assert(nodes[nodes.len() - 1] == last);
        if early.contains(text) {
            assert(all[early.index_of(text)] == text);
            let n = choose|n: int|
                0 <= n < front.len() && (#[trigger] front[n]).recommendations.contains(text);
            assert(nodes[n] == front[n]);
        }
        if last.recommendations.contains(text) {
            assert(all[early.len() + last.recommendations.index_of(text)] == text);
        }
        if all.contains(text) {
            let k = all.index_of(text);
            if k < early.len() {
                assert(early[k] == text);
            } else {
                assert(last.recommendations[k - early.len()] == text);
            }
        }
        if exists|n: int|
            0 <= n < nodes.len() && (#[trigger] nodes[n]).recommendations.contains(text) {
            let n = choose|n: int|
                0 <= n < nodes.len() && (#[trigger] nodes[n]).recommendations.contains(text);
            if n < front.len() {
                assert(front[n] == nodes[n]);
            }
        }
    }
}

/// A report with nodes recommends what it recommends itself and what the reports on its nodes do,
/// each once and in ascending order, and nothing else.
pub proof fn recommendations_stand_together(
    own: ReportView,
    nodes: Seq<NodeReportView>,
    text: Seq<char>,
)
    ensures
        ({
            let whole = with_node_reports(own, nodes);
            &&& whole.recommendations.contains(text) <==> own.recommendations.contains(text)
                || exists|n: int|
                0 <= n < nodes.len() && (#[trigger] nodes[n]).recommendations.contains(text)
            &&& ascending(whole.recommendations)
        }),
{
    let more = node_recommendations(nodes);
    let all = own.recommendations + more;
    nodes_recommend(nodes, text);
    ascending_texts_are_sorted(all);
    if own.recommendations.contains(text) {
        assert(all[own.recommendations.index_of(text)] == text);
    }
    if more.contains(text) {
        assert(all[own.recommendations.len() + more.index_of(text)] == text);
    }
    if all.contains(text) {
        let k = all.index_of(text);
        if k < own.recommendations.len() {
            assert(own.recommendations[k] == text);
        } else {
            assert(more[k - own.recommendations.len()] == text);
        }
    }
}

proof fn problem_found(problems: Seq<ProblemView>, claim_id: Id, code: LocalProblemCode)
    ensures
        first_problem(problems, claim_id, seq![code]) is Some <==> has_problem(
            problems,
            claim_id,
            code,
        ),
    decreases problems.len(),
{
    let codes = seq![code];
    assert(codes[0] == code);
    if problems.len() > 0 {
        let rest = problems.drop_first();
        problem_found(rest, claim_id, code);
        if has_problem(rest, claim_id, code) {
            let i = choose|i: int|
                0 <= i < rest.len() && (#[trigger] rest[i]).claim_id == Some(claim_id)
                    && rest[i].code == code;
            assert(problems[i + 1] == rest[i]);
        }
        if has_problem(problems, claim_id, code) {
            let i = choose|i: int|
                0 <= i < problems.len() && (#[trigger] problems[i]).claim_id == Some(claim_id)
                    && problems[i].code == code;
            if i > 0 {
                assert(rest[i - 1] == problems[i]);
            }
        }
    }
}

/// A claim whose branch and worktree are both missing may be stale, and its release is recommended;
/// that is not done where one of the two is there.
pub proof fn stale_claims_are_to_be_released(
    observed: ObservationView,
    sight: LocalView,
    places: Seq<(Seq<char>, Seq<char>)>,
)
    ensures
        ({
            let id = observed.claim.claim_id;
            let stale = has_problem(sight.problems, id, LocalProblemCode::MissingBranch)
                && has_problem(sight.problems, id, LocalProblemCode::MissingWorktree);
            let number = decimal(observed.claim.issue as nat);
            let text = "If issue #"@ + number + " is stale, run: gh envoy release "@ + number
                + " --reason abandoned"@;
            let said = local_advice(observed, sight, places).recommendations;
            let others = coordination(observed).recommendations;
            &&& stale ==> said == seq![text] + others
            &&& !stale ==> said == others
        }),
{
    let id = observed.claim.claim_id;
    problem_found(sight.problems, id, LocalProblemCode::MissingBranch);
    problem_found(sight.problems, id, LocalProblemCode::MissingWorktree);
    let said = local_advice(observed, sight, places).recommendations;
    assert(Seq::<Seq<char>>::empty() + coordination(observed).recommendations =~= coordination(
        observed,
    ).recommendations);
}

} // verus!
