//! What is printed of what was found.
use vstd::prelude::*;

use crate::cli::{claim_text, release_text, resume_text};
use crate::doctor::{
    check_line, check_lines, human_report, node_line, node_lines, recommendation_lines,
    report_heading, CheckGate, CheckStatus, CheckView, NodeReportView, ReportView,
};
use crate::id::short_text;
use crate::list::{entry_block, entry_blocks, entry_heading, instant_text, list_text, state_text, EntryView};
use crate::model::{ClaimView, ReleaseReport};
use crate::observation::ProblemView;
use crate::redaction::short_worktree;
use crate::status::{
    base_summary, change_summary, claim_block, claim_blocks, claim_heading, github_state_text,
    local_summary, overlap_summary, pr_text, problem_line, problem_lines, reported_claims,
    scope_summary, shown_with_warning, status_text, worktree_replacements, ClaimStatusView, StatusView,
};
use crate::terminal::{field_line, filler, painted};
use crate::text::{begins, decimal, ends, holds};

verus! {

proof fn stands_between(a: Seq<char>, piece: Seq<char>, b: Seq<char>)
    ensures
        holds(a + piece + b, piece),
{
    let text = a + piece + b;
    assert(text.skip(a.len() as int).take(piece.len() as int) =~= piece);
    assert(begins(text.skip(a.len() as int), piece));
}

/// Whether all that stands in a text stands in another.
#[verifier::opaque]
spec fn kept_in(text: Seq<char>, longer: Seq<char>) -> bool {
    forall|piece: Seq<char>| #[trigger] holds(text, piece) ==> holds(longer, piece)
}

proof fn kept(text: Seq<char>, longer: Seq<char>, piece: Seq<char>)
    requires
        kept_in(text, longer),
        holds(text, piece),
    ensures
        holds(longer, piece),
{
    reveal(kept_in);
}

proof fn kept_on(a: Seq<char>, b: Seq<char>, c: Seq<char>)
    requires
        kept_in(a, b),
        kept_in(b, c),
    ensures
        kept_in(a, c),
{
    reveal(kept_in);
}

proof fn kept_alone(text: Seq<char>)
    ensures
        kept_in(text, text),
{
    reveal(kept_in);
}

proof fn nothing_is_lost(a: Seq<char>, b: Seq<char>)
    ensures
        kept_in(a, a + b),
        kept_in(b, a + b),
{
    reveal(kept_in);
    assert forall|piece: Seq<char>| #[trigger] holds(a, piece) implies holds(a + b, piece) by {
        let at = choose|at: int| 0 <= at <= a.len() && begins(#[trigger] a.skip(at), piece);
        assert((a + b).skip(at).take(piece.len() as int) =~= a.skip(at).take(piece.len() as int));
        assert(begins((a + b).skip(at), piece));
    }
    assert forall|piece: Seq<char>| #[trigger] holds(b, piece) implies holds(a + b, piece) by {
        let at = choose|at: int| 0 <= at <= b.len() && begins(#[trigger] b.skip(at), piece);
        assert((a + b).skip(a.len() + at) =~= b.skip(at));
        assert(begins((a + b).skip(a.len() + at), piece));
    }
}

proof fn regrouped(a: Seq<char>, b: Seq<char>, c: Seq<char>)
    ensures
        a + (b + c) == a + b + c,
{
    assert(a + (b + c) =~= a + b + c);
}

proof fn all_of_it(text: Seq<char>)
    ensures
        holds(text, text),
{
    stands_between(Seq::empty(), text, Seq::empty());
    assert(Seq::<char>::empty() + text + Seq::<char>::empty() =~= text);
}

/// A claim is announced with its issue, its branch, its worktree and what it is based on.
pub proof fn claims_are_announced(claim: ClaimView)
    ensures
        begins(claim_text(claim), "Claimed issue #"@ + decimal(claim.issue as nat) + " as "@),
        holds(claim_text(claim), "\nBranch: "@ + claim.branch + "\n"@),
        holds(claim_text(claim), "\nWorktree: "@ + claim.worktree + "\n"@),
        ends(
            claim_text(claim),
            "\nBase: "@ + claim.base_remote + "/"@ + claim.base_ref + " at "@ + claim.base_sha
                + "\n"@,
        ),
        begins(resume_text(claim), "Resuming issue #"@ + decimal(claim.issue as nat) + " as "@),
{
    reveal_strlit("\n");
    reveal_strlit("\nWorktree: ");
    reveal_strlit("\nBase: ");
    let text = claim_text(claim);
    let start = "Claimed issue #"@ + decimal(claim.issue as nat) + " as "@;
    assert(text.take(start.len() as int) =~= start);
    let named = start + short_text(claim.claim_id);
    let base = "\nBase: "@ + claim.base_remote + "/"@ + claim.base_ref + " at "@ + claim.base_sha
        + "\n"@;
    let branch = "\nBranch: "@ + claim.branch + "\n"@;
    let worktree = "\nWorktree: "@ + claim.worktree + "\n"@;
    let behind = ("\nWorktree: "@ + claim.worktree).drop_first() + base;
    stands_between(named, branch, behind);
    assert(text =~= named + branch + behind);
    let before = named + "\nBranch: "@ + claim.branch;
    stands_between(before, worktree, base.drop_first());
    assert(text =~= before + worktree + base.drop_first());
    assert(text.skip(text.len() - base.len()) =~= base);
    let again = "Resuming issue #"@ + decimal(claim.issue as nat) + " as "@;
    assert(resume_text(claim).take(again.len() as int) =~= again);
}

/// A release that was done and one that had been done before are told apart, with the issue in
/// either case.
pub proof fn releases_are_announced(report: ReleaseReport)
    ensures
        report.already_released ==> begins(
            release_text(report),
            "Issue #"@ + decimal(report.issue as nat) + " generation "@,
        ) && ends(release_text(report), " is already released\n"@),
        !report.already_released ==> begins(
            release_text(report),
            "Released issue #"@ + decimal(report.issue as nat) + " generation "@,
        ),
{
    let text = release_text(report);
    if report.already_released {
        let start = "Issue #"@ + decimal(report.issue as nat) + " generation "@;
        let end = " is already released\n"@;
        assert(text.take(start.len() as int) =~= start);
        assert(text.skip(text.len() - end.len()) =~= end);
    } else {
        let start = "Released issue #"@ + decimal(report.issue as nat) + " generation "@;
        assert(text.take(start.len() as int) =~= start);
    }
}

/// The line of a check: how it came out, what it holds up, and what it says.
pub open spec fn check_words(check: CheckView) -> Seq<char> {
    (match check.status {
        CheckStatus::Pass => "✓"@,
        CheckStatus::Warn => "!"@,
        CheckStatus::Fail => "✗"@,
        CheckStatus::Skip => "-"@,
        CheckStatus::Error => "×"@,
    }) + " ["@ + (match check.gate {
        CheckGate::Integrity => "integrity"@,
        CheckGate::Publish => "publish"@,
        CheckGate::Merge => "merge"@,
    }) + "] "@ + check.title + ": "@ + check.message + "\n"@
}

proof fn lines_have_the_words(indent: Seq<char>, check: CheckView)
    ensures
        check_line(indent, check) == indent + check_words(check),
{
    let a = check.status.sign();
    let b = check.gate.name();
    regrouped(indent, a + " ["@ + b + "] "@ + check.title + ": "@ + check.message, "\n"@);
    regrouped(indent, a + " ["@ + b + "] "@ + check.title + ": "@, check.message);
    regrouped(indent, a + " ["@ + b + "] "@ + check.title, ": "@);
    regrouped(indent, a + " ["@ + b + "] "@, check.title);
    regrouped(indent, a + " ["@ + b, "] "@);
    regrouped(indent, a + " ["@, b);
    regrouped(indent, a, " ["@);
}

/// Whether a text has the line of a check.
pub open spec fn check_told(text: Seq<char>, check: CheckView) -> bool {
    holds(text, check_words(check))
}

proof fn lines_tell_checks(written: Seq<char>, indent: Seq<char>, checks: Seq<CheckView>)
    ensures
        kept_in(written, check_lines(written, indent, checks)),
        forall|i: int|
            0 <= i < checks.len() ==> check_told(
                check_lines(written, indent, checks),
                #[trigger] checks[i],
            ),
    decreases checks.len(),
{
    if checks.len() == 0 {
        kept_alone(written);
    } else {
        let front = checks.drop_last();
        let last = checks.last();
        let early = check_lines(written, indent, front);
        let line = check_line(indent, last);
        let whole = early + line;
        lines_tell_checks(written, indent, front);
        nothing_is_lost(early, line);
        kept_on(written, early, whole);
        lines_have_the_words(indent, last);
        nothing_is_lost(indent, check_words(last));
        all_of_it(check_words(last));
        kept(check_words(last), line, check_words(last));
        kept(line, whole, check_words(last));
        assert forall|i: int| 0 <= i < checks.len() implies check_told(
            whole,
            #[trigger] checks[i],
        ) by {
            if i < front.len() {
                assert(checks[i] == front[i]);
                assert(check_told(early, front[i]));
                kept(early, whole, check_words(front[i]));
            }
        }
    }
}

/// Which node of a stack is told of.
pub open spec fn node_words(node: NodeReportView) -> Seq<char> {
    "\n#"@ + decimal(node.issue as nat) + " "@ + short_text(node.claim_id)
}

/// What the checks of a node come to.
pub open spec fn node_verdict(node: NodeReportView) -> Seq<char> {
    ": "@ + node.status.name() + " (integrity="@ + node.gates.integrity.name() + " publish="@
        + node.gates.publish.name() + " merge="@ + node.gates.merge.name() + ")\n"@
}

proof fn node_lines_have_the_words(node: NodeReportView)
    ensures
        node_line(node) == node_words(node) + node_verdict(node),
{
    let head = node_words(node);
    let a = node.status.name();
    let b = node.gates.integrity.name();
    let c = node.gates.publish.name();
    let d = node.gates.merge.name();
    regrouped(head, ": "@ + a + " (integrity="@ + b + " publish="@ + c + " merge="@ + d, ")\n"@);
    regrouped(head, ": "@ + a + " (integrity="@ + b + " publish="@ + c + " merge="@, d);
    regrouped(head, ": "@ + a + " (integrity="@ + b + " publish="@ + c, " merge="@);
    regrouped(head, ": "@ + a + " (integrity="@ + b + " publish="@, c);
    regrouped(head, ": "@ + a + " (integrity="@ + b, " publish="@);
    regrouped(head, ": "@ + a + " (integrity="@, b);
    regrouped(head, ": "@ + a, " (integrity="@);
    regrouped(head, ": "@, a);
}

/// What is printed of a node of a stack: its issue, what its checks come to, and each of them.
pub open spec fn node_told(text: Seq<char>, node: NodeReportView) -> bool {
    &&& holds(text, node_words(node))
    &&& holds(text, node_verdict(node))
    &&& forall|i: int| 0 <= i < node.checks.len() ==> check_told(text, #[trigger] node.checks[i])
}

proof fn told_goes_on(text: Seq<char>, longer: Seq<char>, node: NodeReportView)
    requires
        node_told(text, node),
        kept_in(text, longer),
    ensures
        node_told(longer, node),
{
    kept(text, longer, node_words(node));
    kept(text, longer, node_verdict(node));
    assert forall|i: int| 0 <= i < node.checks.len() implies check_told(
        longer,
        #[trigger] node.checks[i],
    ) by {
        assert(check_told(text, node.checks[i]));
        kept(text, longer, check_words(node.checks[i]));
    }
}

proof fn lines_tell_nodes(written: Seq<char>, nodes: Seq<NodeReportView>)
    ensures
        kept_in(written, node_lines(written, nodes)),
        forall|n: int|
            0 <= n < nodes.len() ==> node_told(node_lines(written, nodes), #[trigger] nodes[n]),
    decreases nodes.len(),
{
    if nodes.len() == 0 {
        kept_alone(written);
    } else {
        let front = nodes.drop_last();
        let last = nodes.last();
        let early = node_lines(written, front);
        let line = node_line(last);
        let begun = early + line;
        let whole = node_lines(written, nodes);
        lines_tell_nodes(written, front);
        nothing_is_lost(early, line);
        lines_tell_checks(begun, "  "@, last.checks);
        kept_on(early, begun, whole);
        kept_on(line, begun, whole);
        kept_on(written, early, whole);
        node_lines_have_the_words(last);
        nothing_is_lost(node_words(last), node_verdict(last));
        all_of_it(node_words(last));
        all_of_it(node_verdict(last));
        kept(node_words(last), line, node_words(last));
        kept(node_verdict(last), line, node_verdict(last));
        kept(line, whole, node_words(last));
        kept(line, whole, node_verdict(last));
        assert forall|n: int| 0 <= n < nodes.len() implies node_told(
            whole,
            #[trigger] nodes[n],
        ) by {
            if n < front.len() {
                assert(nodes[n] == front[n]);
                told_goes_on(early, whole, front[n]);
            } else {
                assert(nodes[n] == last);
            }
        }
    }
}

proof fn lines_tell_recommendations(written: Seq<char>, texts: Seq<Seq<char>>)
    ensures
        kept_in(written, recommendation_lines(written, texts)),
        forall|r: int|
            0 <= r < texts.len() ==> holds(
                recommendation_lines(written, texts),
                "- "@ + #[trigger] texts[r] + "\n"@,
            ),
    decreases texts.len(),
{
    if texts.len() == 0 {
        kept_alone(written);
    } else {
        let front = texts.drop_last();
        let early = recommendation_lines(written, front);
        let line = "- "@ + texts.last() + "\n"@;
        let whole = early + line;
        lines_tell_recommendations(written, front);
        nothing_is_lost(early, line);
        kept_on(written, early, whole);
        all_of_it(line);
        kept(line, whole, line);
        assert forall|r: int| 0 <= r < texts.len() implies holds(
            whole,
            "- "@ + #[trigger] texts[r] + "\n"@,
        ) by {
            if r < front.len() {
                assert(texts[r] == front[r]);
                kept(early, whole, "- "@ + front[r] + "\n"@);
            }
        }
    }
}

/// A report is printed whole: what it comes to, each of its checks, each node with the checks of
/// that node, and each recommendation.
pub proof fn reports_are_printed_whole(report: ReportView)
    ensures
        begins(human_report(report), "Doctor report for "@ + report.subject.repo),
        holds(human_report(report), "\n\nOverall: "@ + report.status.name() + "\n"@),
        holds(
            human_report(report),
            "Gates: integrity="@ + report.gates.integrity.name() + " publish="@
                + report.gates.publish.name() + " merge="@ + report.gates.merge.name() + "\n"@,
        ),
        forall|i: int|
            0 <= i < report.checks.len() ==> check_told(
                human_report(report),
                #[trigger] report.checks[i],
            ),
        forall|n: int|
            0 <= n < report.nodes.len() ==> node_told(
                human_report(report),
                #[trigger] report.nodes[n],
            ),
        forall|r: int|
            0 <= r < report.recommendations.len() ==> holds(
                human_report(report),
                "- "@ + #[trigger] report.recommendations[r] + "\n"@,
            ),
        report.recommendations.len() == 0 ==> ends(
            human_report(report),
            "\nRecommendations:\n"@ + "- None\n"@,
        ),
{
    reveal_strlit("\n");
    reveal_strlit("\nGates: integrity=");
    reveal_strlit("Gates: integrity=");
    reveal_strlit("\n\nChecks:\n");
    reveal_strlit("\nChecks:\n");
    let heading = report_heading(report.subject);
    let overall = "\n\nOverall: "@ + report.status.name() + "\n"@;
    let gates = "Gates: integrity="@ + report.gates.integrity.name() + " publish="@
        + report.gates.publish.name() + " merge="@ + report.gates.merge.name() + "\n"@;
    let head = heading + "\n\nOverall: "@ + report.status.name() + "\nGates: integrity="@
        + report.gates.integrity.name() + " publish="@ + report.gates.publish.name() + " merge="@
        + report.gates.merge.name() + "\n\nChecks:\n"@;
    let last = "\nChecks:\n"@;
    assert("\nGates: integrity="@ =~= "\n"@ + "Gates: integrity="@);
    assert("\n\nChecks:\n"@ =~= "\n"@ + last);
    assert(head =~= heading + overall + gates + last);
    all_of_it(overall);
    all_of_it(gates);
    nothing_is_lost(heading, overall);
    nothing_is_lost(heading + overall, gates);
    nothing_is_lost(heading + overall + gates, last);
    kept_on(heading + overall, heading + overall + gates, head);
    kept_on(overall, heading + overall, head);
    kept_on(gates, heading + overall + gates, head);
    let checked = check_lines(head, Seq::empty(), report.checks);
    lines_tell_checks(head, Seq::empty(), report.checks);
    let titled = checked + "\nStack nodes (root -> target):\n"@;
    nothing_is_lost(checked, "\nStack nodes (root -> target):\n"@);
    lines_tell_nodes(titled, report.nodes);
    kept_alone(checked);
    kept_on(checked, titled, node_lines(titled, report.nodes));
    let nodes = if report.nodes.len() > 0 {
        node_lines(titled, report.nodes)
    } else {
        checked
    };
    let advised = nodes + "\nRecommendations:\n"@;
    nothing_is_lost(nodes, "\nRecommendations:\n"@);
    let none = "- None\n"@;
    nothing_is_lost(advised, none);
    lines_tell_recommendations(advised, report.recommendations);
    let whole = human_report(report);
    kept_on(nodes, advised, whole);
    kept_on(checked, nodes, whole);
    kept_on(head, checked, whole);
    kept_on(overall, head, whole);
    kept_on(gates, head, whole);
    kept(overall, whole, overall);
    kept(gates, whole, gates);
    assert forall|i: int| 0 <= i < report.checks.len() implies check_told(
        whole,
        #[trigger] report.checks[i],
    ) by {
        assert(check_told(checked, report.checks[i]));
        kept(checked, whole, check_words(report.checks[i]));
    }
    assert forall|n: int| 0 <= n < report.nodes.len() implies node_told(
        whole,
        #[trigger] report.nodes[n],
    ) by {
        assert(node_told(nodes, report.nodes[n]));
        told_goes_on(nodes, whole, report.nodes[n]);
    }
    if report.recommendations.len() == 0 {
        let end = "\nRecommendations:\n"@ + none;
        assert(whole =~= nodes + end);
        assert(whole.skip(whole.len() - end.len()) =~= end);
    }
    let start = "Doctor report for "@ + report.subject.repo;
    heading_comes_first(report, start);
}

proof fn starts_alike(a: Seq<char>, b: Seq<char>, start: Seq<char>)
    requires
        begins(a, start),
    ensures
        begins(a + b, start),
{
    assert((a + b).take(start.len() as int) =~= a.take(start.len() as int));
}

proof fn checks_keep_the_start(
    written: Seq<char>,
    indent: Seq<char>,
    checks: Seq<CheckView>,
    start: Seq<char>,
)
    requires
        begins(written, start),
    ensures
        begins(check_lines(written, indent, checks), start),
    decreases checks.len(),
{
    if checks.len() > 0 {
        checks_keep_the_start(written, indent, checks.drop_last(), start);
        starts_alike(
            check_lines(written, indent, checks.drop_last()),
            check_line(indent, checks.last()),
            start,
        );
    }
}

proof fn nodes_keep_the_start(written: Seq<char>, nodes: Seq<NodeReportView>, start: Seq<char>)
    requires
        begins(written, start),
    ensures
        begins(node_lines(written, nodes), start),
    decreases nodes.len(),
{
    if nodes.len() > 0 {
        let early = node_lines(written, nodes.drop_last());
        nodes_keep_the_start(written, nodes.drop_last(), start);
        starts_alike(early, node_line(nodes.last()), start);
        checks_keep_the_start(early + node_line(nodes.last()), "  "@, nodes.last().checks, start);
    }
}

proof fn recommendations_keep_the_start(
    written: Seq<char>,
    texts: Seq<Seq<char>>,
    start: Seq<char>,
)
    requires
        begins(written, start),
    ensures
        begins(recommendation_lines(written, texts), start),
    decreases texts.len(),
{
    if texts.len() > 0 {
        recommendations_keep_the_start(written, texts.drop_last(), start);
        starts_alike(
            recommendation_lines(written, texts.drop_last()),
            "- "@ + texts.last() + "\n"@,
            start,
        );
    }
}

proof fn heading_comes_first(report: ReportView, start: Seq<char>)
    requires
        start == "Doctor report for "@ + report.subject.repo,
    ensures
        begins(human_report(report), start),
{
    let heading = report_heading(report.subject);
    assert(heading.take(start.len() as int) =~= start);
    let head = heading + "\n\nOverall: "@ + report.status.name() + "\nGates: integrity="@
        + report.gates.integrity.name() + " publish="@ + report.gates.publish.name() + " merge="@
        + report.gates.merge.name() + "\n\nChecks:\n"@;
    assert(head.take(start.len() as int) =~= start);
    let checked = check_lines(head, Seq::empty(), report.checks);
    checks_keep_the_start(head, Seq::empty(), report.checks, start);
    let titled = checked + "\nStack nodes (root -> target):\n"@;
    starts_alike(checked, "\nStack nodes (root -> target):\n"@, start);
    nodes_keep_the_start(titled, report.nodes, start);
    let nodes = if report.nodes.len() > 0 {
        node_lines(titled, report.nodes)
    } else {
        checked
    };
    let advised = nodes + "\nRecommendations:\n"@;
    starts_alike(nodes, "\nRecommendations:\n"@, start);
    starts_alike(advised, "- None\n"@, start);
    recommendations_keep_the_start(advised, report.recommendations, start);
}

/// A label and, in its column, a value.
pub open spec fn line_words(color: bool, width: nat, label: Seq<char>, value: Seq<char>) -> Seq<
    char,
> {
    let gap = Seq::new((width - label.len()) as nat, |i: int| ' ');
    if color {
        label + "\u{1b}[0m"@ + gap + value + "\n"@
    } else {
        label + gap + value + "\n"@
    }
}

/// Whether a text has a line with a label and, in its column, a value.
pub open spec fn line_told(
    text: Seq<char>,
    color: bool,
    width: nat,
    label: Seq<char>,
    value: Seq<char>,
) -> bool {
    holds(text, line_words(color, width, label, value))
}

proof fn fields_tell_values(color: bool, width: nat, label: Seq<char>, value: Seq<char>)
    requires
        label.len() <= width,
    ensures
        line_told(field_line(color, width, label, value), color, width, label, value),
{
    let gap = Seq::new((width - label.len()) as nat, |i: int| ' ');
    let line = field_line(color, width, label, value);
    let words = line_words(color, width, label, value);
    assert(filler(width, label) =~= gap);
    all_of_it(words);
    if color {
        let start = "\u{1b}["@ + "2"@ + "m"@;
        let end = "\u{1b}[0m"@;
        let before = "  "@ + start;
        regrouped("  "@, start + label, end);
        regrouped("  "@, start, label);
        regrouped(before, label + end + gap + value, "\n"@);
        regrouped(before, label + end + gap, value);
        regrouped(before, label + end, gap);
        regrouped(before, label, end);
        assert(line == before + words);
        nothing_is_lost(before, words);
        kept(words, line, words);
    } else {
        regrouped("  "@, label + gap + value, "\n"@);
        regrouped("  "@, label + gap, value);
        regrouped("  "@, label, gap);
        assert(line == "  "@ + words);
        nothing_is_lost("  "@, words);
        kept(words, line, words);
    }
}

/// Which claim is told of.
pub open spec fn claim_words(claim: ClaimView) -> Seq<char> {
    " #"@ + decimal(claim.issue as nat) + " "@ + short_text(claim.claim_id) + "  "@ + (
    match claim.title {
        Some(title) => title,
        None => "(untitled)"@,
    }) + "\n"@
}

/// What is printed of a claim: its issue, and each of what is known of it behind its own label.
pub open spec fn claim_told(
    text: Seq<char>,
    color: bool,
    status: ClaimStatusView,
    problems: Seq<ProblemView>,
) -> bool {
    &&& holds(text, claim_words(status.claim))
    &&& line_told(text, color, 14, "Branch"@, status.claim.branch)
    &&& line_told(text, color, 14, "Worktree"@, short_worktree(status.claim.worktree))
    &&& line_told(text, color, 14, "Base"@, base_summary(status.claim))
    &&& line_told(text, color, 14, "Changes"@, change_summary(status, problems))
    &&& line_told(text, color, 14, "Overlaps"@, overlap_summary(status.overlaps))
    &&& line_told(text, color, 14, "Scope"@, scope_summary(status.claim.declared_scope))
    &&& line_told(text, color, 14, "Pull request"@, pr_text(status.pr))
    &&& line_told(text, color, 14, "GitHub"@, github_state_text(status.github_state))
    &&& line_told(text, color, 14, "Local"@, local_summary(status, problems))
}

proof fn line_goes_on(
    text: Seq<char>,
    longer: Seq<char>,
    color: bool,
    width: nat,
    label: Seq<char>,
    value: Seq<char>,
)
    requires
        line_told(text, color, width, label, value),
        kept_in(text, longer),
    ensures
        line_told(longer, color, width, label, value),
{
    kept(text, longer, line_words(color, width, label, value));
}

proof fn claim_goes_on(
    text: Seq<char>,
    longer: Seq<char>,
    color: bool,
    status: ClaimStatusView,
    problems: Seq<ProblemView>,
)
    requires
        claim_told(text, color, status, problems),
        kept_in(text, longer),
    ensures
        claim_told(longer, color, status, problems),
{
    kept(text, longer, claim_words(status.claim));
    line_goes_on(text, longer, color, 14, "Branch"@, status.claim.branch);
    line_goes_on(text, longer, color, 14, "Worktree"@, short_worktree(status.claim.worktree));
    line_goes_on(text, longer, color, 14, "Base"@, base_summary(status.claim));
    line_goes_on(text, longer, color, 14, "Changes"@, change_summary(status, problems));
    line_goes_on(text, longer, color, 14, "Overlaps"@, overlap_summary(status.overlaps));
    line_goes_on(text, longer, color, 14, "Scope"@, scope_summary(status.claim.declared_scope));
    line_goes_on(text, longer, color, 14, "Pull request"@, pr_text(status.pr));
    line_goes_on(text, longer, color, 14, "GitHub"@, github_state_text(status.github_state));
    line_goes_on(text, longer, color, 14, "Local"@, local_summary(status, problems));
}

proof fn headings_tell_claims(status: ClaimStatusView, problems: Seq<ProblemView>, color: bool)
    ensures
        holds(claim_heading(status, problems, color), claim_words(status.claim)),
{
    let heading = claim_heading(status, problems, color);
    let claim = status.claim;
    let title = match claim.title {
        Some(title) => title,
        None => "(untitled)"@,
    };
    let number = decimal(claim.issue as nat);
    let short = short_text(claim.claim_id);
    let mark = if shown_with_warning(status, problems) {
        painted(color, "33"@, "!"@)
    } else {
        painted(color, "32"@, "●"@)
    };
    let before = "\n"@ + mark;
    let words = claim_words(claim);
    regrouped(before, " #"@ + number + " "@ + short + "  "@ + title, "\n"@);
    regrouped(before, " #"@ + number + " "@ + short + "  "@, title);
    regrouped(before, " #"@ + number + " "@ + short, "  "@);
    regrouped(before, " #"@ + number + " "@, short);
    regrouped(before, " #"@ + number, " "@);
    regrouped(before, " #"@, number);
    assert(heading == before + words);
    all_of_it(words);
    nothing_is_lost(before, words);
    kept(words, heading, words);
}

/// What a field puts behind a text stands in whatever goes on from there.
proof fn field_stands(
    before: Seq<char>,
    whole: Seq<char>,
    color: bool,
    width: nat,
    label: Seq<char>,
    value: Seq<char>,
)
    requires
        label.len() <= width,
        kept_in(before + field_line(color, width, label, value), whole),
    ensures
        kept_in(before, whole),
        line_told(whole, color, width, label, value),
{
    let line = field_line(color, width, label, value);
    fields_tell_values(color, width, label, value);
    nothing_is_lost(before, line);
    kept_on(before, before + line, whole);
    kept_on(line, before + line, whole);
    line_goes_on(line, whole, color, width, label, value);
}

proof fn blocks_tell_claims(status: ClaimStatusView, problems: Seq<ProblemView>, color: bool)
    ensures
        claim_told(claim_block(status, problems, color), color, status, problems),
{
    reveal(claim_block);
    reveal_strlit("Branch");
    reveal_strlit("Worktree");
    reveal_strlit("Base");
    reveal_strlit("Changes");
    reveal_strlit("Overlaps");
    reveal_strlit("Scope");
    reveal_strlit("Pull request");
    reveal_strlit("GitHub");
    reveal_strlit("Local");
    let v1 = status.claim.branch;
    let v2 = short_worktree(status.claim.worktree);
    let v3 = base_summary(status.claim);
    let v4 = change_summary(status, problems);
    let v5 = overlap_summary(status.overlaps);
    let v6 = scope_summary(status.claim.declared_scope);
    let v7 = pr_text(status.pr);
    let v8 = github_state_text(status.github_state);
    let v9 = local_summary(status, problems);
    let p0 = claim_heading(status, problems, color);
    let p1 = p0 + field_line(color, 14, "Branch"@, v1);
    let p2 = p1 + field_line(color, 14, "Worktree"@, v2);
    let p3 = p2 + field_line(color, 14, "Base"@, v3);
    let p4 = p3 + field_line(color, 14, "Changes"@, v4);
    let p5 = p4 + field_line(color, 14, "Overlaps"@, v5);
    let p6 = p5 + field_line(color, 14, "Scope"@, v6);
    let p7 = p6 + field_line(color, 14, "Pull request"@, v7);
    let p8 = p7 + field_line(color, 14, "GitHub"@, v8);
    let p9 = p8 + field_line(color, 14, "Local"@, v9);
    kept_alone(p9);
    field_stands(p8, p9, color, 14, "Local"@, v9);
    field_stands(p7, p9, color, 14, "GitHub"@, v8);
    field_stands(p6, p9, color, 14, "Pull request"@, v7);
    field_stands(p5, p9, color, 14, "Scope"@, v6);
    field_stands(p4, p9, color, 14, "Overlaps"@, v5);
    field_stands(p3, p9, color, 14, "Changes"@, v4);
    field_stands(p2, p9, color, 14, "Base"@, v3);
    field_stands(p1, p9, color, 14, "Worktree"@, v2);
    field_stands(p0, p9, color, 14, "Branch"@, v1);
    headings_tell_claims(status, problems, color);
    kept(p0, p9, claim_words(status.claim));
}

proof fn every_block_stands(
    claims: Seq<ClaimStatusView>,
    problems: Seq<ProblemView>,
    color: bool,
    i: int,
)
    requires
        0 <= i < claims.len(),
    ensures
        claim_told(claim_blocks(claims, problems, color), color, claims[i], problems),
    decreases claims.len(),
{
    let front = claims.drop_last();
    let early = claim_blocks(front, problems, color);
    let block = claim_block(claims.last(), problems, color);
    nothing_is_lost(early, block);
    if i < front.len() {
        assert(front[i] == claims[i]);
        every_block_stands(front, problems, color, i);
        claim_goes_on(early, early + block, color, claims[i], problems);
    } else {
        assert(claims[i] == claims.last());
        blocks_tell_claims(claims.last(), problems, color);
        claim_goes_on(block, early + block, color, claims[i], problems);
    }
}

proof fn every_problem_stands(
    problems: Seq<ProblemView>,
    replacements: Seq<(Seq<char>, Seq<char>)>,
    color: bool,
    i: int,
)
    requires
        0 <= i < problems.len(),
    ensures
        holds(
            problem_lines(problems, replacements, color),
            problem_line(problems[i], replacements, color),
        ),
    decreases problems.len(),
{
    let front = problems.drop_last();
    let early = problem_lines(front, replacements, color);
    let line = problem_line(problems.last(), replacements, color);
    nothing_is_lost(early, line);
    if i < front.len() {
        assert(front[i] == problems[i]);
        every_problem_stands(front, replacements, color, i);
        kept(early, early + line, problem_line(problems[i], replacements, color));
    } else {
        assert(problems[i] == problems.last());
        all_of_it(line);
        kept(line, early + line, line);
    }
}

/// A status is printed whole: how many claims are active, all that is known of each of them, and
/// each problem.
pub proof fn statuses_are_printed_whole(report: StatusView, color: bool)
    ensures
        report.claims.len() > 0 ==> holds(
            status_text(report, color),
            "Active claims: "@ + decimal(report.claims.len()) + "\n"@,
        ),
        report.claims.len() == 0 ==> holds(status_text(report, color), "No active claims.\n"@),
        forall|i: int|
            0 <= i < report.claims.len() ==> claim_told(
                status_text(report, color),
                color,
                #[trigger] report.claims[i],
                report.problems,
            ),
        forall|i: int|
            0 <= i < report.problems.len() ==> holds(
                status_text(report, color),
                problem_line(
                    #[trigger] report.problems[i],
                    worktree_replacements(reported_claims(report.claims)),
                    color,
                ),
            ),
{
    let text = status_text(report, color);
    let blocks = claim_blocks(report.claims, report.problems, color);
    let counted = "Active claims: "@ + decimal(report.claims.len()) + "\n"@;
    let replacements = worktree_replacements(reported_claims(report.claims));
    let lines = problem_lines(report.problems, replacements, color);
    let claims = if report.claims.len() == 0 {
        "No active claims.\n"@
    } else {
        counted + blocks
    };
    let titled = claims + "\nProblems:\n"@;
    nothing_is_lost(counted, blocks);
    nothing_is_lost(claims, "\nProblems:\n"@);
    nothing_is_lost(titled, lines);
    kept_on(claims, titled, titled + lines);
    kept_alone(claims);
    assert(kept_in(claims, text));
    if report.claims.len() == 0 {
        all_of_it(claims);
        kept(claims, text, claims);
    } else {
        all_of_it(counted);
        kept(counted, claims, counted);
        kept(claims, text, counted);
    }
    assert forall|i: int| 0 <= i < report.claims.len() implies claim_told(
        text,
        color,
        #[trigger] report.claims[i],
        report.problems,
    ) by {
        every_block_stands(report.claims, report.problems, color, i);
        claim_goes_on(blocks, claims, color, report.claims[i], report.problems);
        claim_goes_on(claims, text, color, report.claims[i], report.problems);
    }
    assert forall|i: int| 0 <= i < report.problems.len() implies holds(
        text,
        problem_line(#[trigger] report.problems[i], replacements, color),
    ) by {
        every_problem_stands(report.problems, replacements, color, i);
        kept(lines, text, problem_line(report.problems[i], replacements, color));
    }
}

/// Which generation of the history is told of.
pub open spec fn entry_words(entry: EntryView) -> Seq<char> {
    " #"@ + decimal(entry.claim.issue as nat) + " "@ + short_text(entry.claim.claim_id) + "  "@
}

/// What is printed of a claim of the history: its issue, its branch, its worktree and its time.
pub open spec fn entry_told(text: Seq<char>, color: bool, entry: EntryView) -> bool {
    &&& holds(text, entry_words(entry))
    &&& line_told(text, color, 10, "Branch"@, entry.claim.branch)
    &&& line_told(text, color, 10, "Worktree"@, short_worktree(entry.claim.worktree))
    &&& line_told(text, color, 10, "Created"@, instant_text(entry.claim.created_at))
}

proof fn entry_goes_on(text: Seq<char>, longer: Seq<char>, color: bool, entry: EntryView)
    requires
        entry_told(text, color, entry),
        kept_in(text, longer),
    ensures
        entry_told(longer, color, entry),
{
    kept(text, longer, entry_words(entry));
    line_goes_on(text, longer, color, 10, "Branch"@, entry.claim.branch);
    line_goes_on(text, longer, color, 10, "Worktree"@, short_worktree(entry.claim.worktree));
    line_goes_on(text, longer, color, 10, "Created"@, instant_text(entry.claim.created_at));
}

proof fn headings_tell_entries(entry: EntryView, color: bool)
    ensures
        holds(entry_heading(entry, color), entry_words(entry)),
{
    let heading = entry_heading(entry, color);
    let words = entry_words(entry);
    let number = decimal(entry.claim.issue as nat);
    let short = short_text(entry.claim.claim_id);
    let code = if entry.release is Some {
        "2"@
    } else {
        "32"@
    };
    let mark = if entry.release is Some {
        "○"@
    } else {
        "●"@
    };
    let before = "\n"@ + painted(color, code, mark);
    let behind = painted(color, code, state_text(entry.release)) + "\n"@;
    regrouped(before, " #"@ + number + " "@ + short, "  "@);
    regrouped(before, " #"@ + number + " "@, short);
    regrouped(before, " #"@ + number, " "@);
    regrouped(before, " #"@, number);
    regrouped(before + words, painted(color, code, state_text(entry.release)), "\n"@);
    assert(heading == before + words + behind);
    stands_between(before, words, behind);
}

proof fn blocks_tell_entries(entry: EntryView, color: bool)
    ensures
        entry_told(entry_block(entry, color), color, entry),
{
    reveal(entry_block);
    reveal_strlit("Branch");
    reveal_strlit("Worktree");
    reveal_strlit("Created");
    let v1 = entry.claim.branch;
    let v2 = short_worktree(entry.claim.worktree);
    let v3 = instant_text(entry.claim.created_at);
    let p0 = entry_heading(entry, color);
    let p1 = p0 + field_line(color, 10, "Branch"@, v1);
    let p2 = p1 + field_line(color, 10, "Worktree"@, v2);
    let p3 = p2 + field_line(color, 10, "Created"@, v3);
    kept_alone(p3);
    field_stands(p2, p3, color, 10, "Created"@, v3);
    field_stands(p1, p3, color, 10, "Worktree"@, v2);
    field_stands(p0, p3, color, 10, "Branch"@, v1);
    headings_tell_entries(entry, color);
    kept(p0, p3, entry_words(entry));
}

proof fn every_entry_stands(entries: Seq<EntryView>, color: bool, i: int)
    requires
        0 <= i < entries.len(),
    ensures
        entry_told(entry_blocks(entries, color), color, entries[i]),
    decreases entries.len(),
{
    let front = entries.drop_last();
    let early = entry_blocks(front, color);
    let block = entry_block(entries.last(), color);
    nothing_is_lost(early, block);
    if i < front.len() {
        assert(front[i] == entries[i]);
        every_entry_stands(front, color, i);
        entry_goes_on(early, early + block, color, entries[i]);
    } else {
        assert(entries[i] == entries.last());
        blocks_tell_entries(entries.last(), color);
        entry_goes_on(block, early + block, color, entries[i]);
    }
}

/// The history is printed whole: each generation of it, and how many there are.
pub proof fn histories_are_printed_whole(entries: Seq<EntryView>, color: bool)
    ensures
        entries.len() == 0 ==> list_text(entries, color) == "No claims have been recorded.\n"@,
        entries.len() > 0 ==> begins(
            list_text(entries, color),
            "Claim history: "@ + decimal(entries.len()) + " generations ("@,
        ),
        forall|i: int|
            0 <= i < entries.len() ==> entry_told(
                list_text(entries, color),
                color,
                #[trigger] entries[i],
            ),
{
    if entries.len() > 0 {
        let text = list_text(entries, color);
        let blocks = entry_blocks(entries, color);
        let head = text.take(text.len() - blocks.len());
        let start = "Claim history: "@ + decimal(entries.len()) + " generations ("@;
        assert(text =~= head + blocks);
        assert(text.take(start.len() as int) =~= start);
        nothing_is_lost(head, blocks);
        assert forall|i: int| 0 <= i < entries.len() implies entry_told(
            text,
            color,
            #[trigger] entries[i],
        ) by {
            every_entry_stands(entries, color, i);
            entry_goes_on(blocks, text, color, entries[i]);
        }
    }
}

} // verus!
