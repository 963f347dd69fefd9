//! Printing: that what commands print as JSON can be printed, and so reads back as it is.
use vstd::prelude::*;
use vstd::string::*;

use crate::conflict::{DiffOverlap, OverlapView, ScopeWarning, ScopeWarningView};
use crate::document::{
    document_of, document_with, error_json, gates_json, list_json, or_null, release_report_json,
    Documented,
};
use crate::doctor::{
    CheckView, DoctorCheck, DoctorNodeReport, DoctorReport, DoctorSubject, GateRollups,
    NodeReportView, ReportView, SubjectView,
};
use crate::json::{deeper_is_printable, names_of, printable, JsonView, DEPTH};
use crate::list::{ClaimListEntry, EntryView};
use crate::model::{Claim, ClaimView, ReleaseMarker, ReleaseReport, ReleaseView};
use crate::observation::{DiffSummary, DiffView, LocalProblem, ProblemView};
use crate::record::{
    claim_json, claims_are_shallow, release_json, releases_are_shallow, texts_json,
};
use crate::status::{
    ClaimStatus, ClaimStatusView, PrSummary, PrView, StackWarning, StackWarningView, StatusView,
};

verus! {

/// Whether the length or one of the first two characters tells two names apart.
spec fn told_apart(a: Seq<char>, b: Seq<char>) -> bool {
    a.len() != b.len() || a[0] != b[0] || a[1] != b[1]
}

/// Members whose names are told apart, and whose values can be printed, make an object that can be
/// printed.
proof fn objects_are_printable(members: Seq<(Seq<char>, JsonView)>, depth: nat)
    requires
        forall|i: int, j: int|
            0 <= i < j < members.len() ==> told_apart(
                (#[trigger] members[i]).0,
                (#[trigger] members[j]).0,
            ),
        forall|i: int| 0 <= i < members.len() ==> printable((#[trigger] members[i]).1, depth),
    ensures
        printable(JsonView::Object(members), depth + 1),
{
    let names = names_of(members);
    assert forall|i: int, j: int| 0 <= i < names.len() && 0 <= j < names.len() && i != j implies
        names[i] != names[j] by {
        if i < j {
            assert(told_apart(members[i].0, members[j].0));
        } else {
            assert(told_apart(members[j].0, members[i].0));
        }
    }
}

proof fn lists_are_printable<T: Documented>(items: Seq<T::V>, depth: nat)
    requires
        forall|i: int|
            0 <= i < items.len() ==> printable(T::json_of(#[trigger] items[i]), depth),
    ensures
        printable(list_json::<T>(items), depth + 1),
{
    let values = list_json::<T>(items)->List_0;
    assert forall|i: int| 0 <= i < values.len() implies printable(#[trigger] values[i], depth) by {
        assert(values[i] == T::json_of(items[i]));
    }
}

proof fn texts_are_printable(texts: Seq<Seq<char>>)
    ensures
        printable(texts_json(texts), 1),
{
    reveal_with_fuel(printable, 2);
}

proof fn overlaps_are_printable(view: OverlapView)
    ensures
        printable(DiffOverlap::json_of(view), 2),
{
    reveal_with_fuel(printable, 2);
    reveal_strlit("with_issue");
    reveal_strlit("with_claim_id");
    reveal_strlit("relationship");
    reveal_strlit("shared_paths");
    reveal_strlit("confidence");
    reveal_strlit("severity");
    reveal_strlit("labels");
    objects_are_printable(DiffOverlap::json_of(view)->Object_0, 1);
}

proof fn scope_warnings_are_printable(view: ScopeWarningView)
    ensures
        printable(ScopeWarning::json_of(view), 1),
{
    reveal_with_fuel(printable, 1);
    reveal_strlit("path");
    reveal_strlit("reason");
    objects_are_printable(ScopeWarning::json_of(view)->Object_0, 0);
}

proof fn stack_warnings_are_printable(view: StackWarningView)
    ensures
        printable(StackWarning::json_of(view), 1),
{
    reveal_with_fuel(printable, 1);
    reveal_strlit("code");
    reveal_strlit("issue");
    reveal_strlit("related_issue");
    reveal_strlit("related_claim_id");
    reveal_strlit("message");
    objects_are_printable(StackWarning::json_of(view)->Object_0, 0);
}

proof fn problems_are_printable(view: ProblemView)
    ensures
        printable(LocalProblem::json_of(view), 1),
{
    reveal_with_fuel(printable, 1);
    reveal_strlit("code");
    reveal_strlit("issue");
    reveal_strlit("claim_id");
    reveal_strlit("operation_id");
    reveal_strlit("message");
    objects_are_printable(LocalProblem::json_of(view)->Object_0, 0);
}

proof fn diffs_are_printable(view: DiffView)
    ensures
        printable(DiffSummary::json_of(view), 2),
{
    reveal_with_fuel(printable, 2);
    reveal_strlit("changed_paths");
    reveal_strlit("added_paths");
    reveal_strlit("modified_paths");
    reveal_strlit("deleted_paths");
    reveal_strlit("untracked_paths");
    objects_are_printable(DiffSummary::json_of(view)->Object_0, 1);
}

proof fn pull_requests_are_printable(view: PrView)
    ensures
        printable(PrSummary::json_of(view), 1),
{
    reveal_with_fuel(printable, 1);
    reveal_strlit("number");
    reveal_strlit("url");
    reveal_strlit("head");
    reveal_strlit("base");
    reveal_strlit("state");
    reveal_strlit("draft");
    objects_are_printable(PrSummary::json_of(view)->Object_0, 0);
}

proof fn claim_values_are_printable(claim: ClaimView)
    ensures
        printable(Claim::json_of(claim), 3),
{
    if claim_json(claim) is Some {
        claims_are_shallow(claim);
    }
}

proof fn release_values_are_printable(release: ReleaseView)
    ensures
        printable(ReleaseMarker::json_of(release), 3),
{
    if release_json(release) is Some {
        releases_are_shallow(release);
        deeper_is_printable(release_json(release)->0, 1, 3);
    }
}

proof fn statuses_are_printable(view: ClaimStatusView)
    ensures
        printable(ClaimStatus::json_of(view), 4),
{
    reveal_strlit("claim");
    reveal_strlit("pr");
    reveal_strlit("github_state");
    reveal_strlit("diff");
    reveal_strlit("overlaps");
    reveal_strlit("scope_warnings");
    reveal_strlit("stack_warnings");
    let members = ClaimStatus::json_of(view)->Object_0;
    claim_values_are_printable(view.claim);
    if view.pr is Some {
        pull_requests_are_printable(view.pr->0);
        deeper_is_printable(PrSummary::json_of(view.pr->0), 1, 3);
    }
    diffs_are_printable(view.diff);
    deeper_is_printable(DiffSummary::json_of(view.diff), 2, 3);
    assert forall|i: int| 0 <= i < view.overlaps.len() implies printable(
        DiffOverlap::json_of(#[trigger] view.overlaps[i]),
        2,
    ) by {
        overlaps_are_printable(view.overlaps[i]);
    }
    lists_are_printable::<DiffOverlap>(view.overlaps, 2);
    assert forall|i: int| 0 <= i < view.scope_warnings.len() implies printable(
        ScopeWarning::json_of(#[trigger] view.scope_warnings[i]),
        2,
    ) by {
        scope_warnings_are_printable(view.scope_warnings[i]);
        deeper_is_printable(ScopeWarning::json_of(view.scope_warnings[i]), 1, 2);
    }
    lists_are_printable::<ScopeWarning>(view.scope_warnings, 2);
    assert forall|i: int| 0 <= i < view.stack_warnings.len() implies printable(
        StackWarning::json_of(#[trigger] view.stack_warnings[i]),
        2,
    ) by {
        stack_warnings_are_printable(view.stack_warnings[i]);
        deeper_is_printable(StackWarning::json_of(view.stack_warnings[i]), 1, 2);
    }
    lists_are_printable::<StackWarning>(view.stack_warnings, 2);
    assert(printable(members[0].1, 3));
    assert(printable(members[1].1, 3));
    assert(printable(members[2].1, 3));
    assert forall|i: int| 0 <= i < members.len() implies printable((#[trigger] members[i]).1, 3) by {
        assert(i == 0 || i == 1 || i == 2 || i == 3 || i == 4 || i == 5 || i == 6);
    }
    objects_are_printable(members, 3);
}

proof fn entries_are_printable(view: EntryView)
    ensures
        printable(ClaimListEntry::json_of(view), 4),
{
    reveal_strlit("claim");
    reveal_strlit("state");
    reveal_strlit("release");
    claim_values_are_printable(view.claim);
    if view.release is Some {
        release_values_are_printable(view.release->0);
    }
    objects_are_printable(ClaimListEntry::json_of(view)->Object_0, 3);
}

proof fn documents_of_one_are_printable(
    command: Seq<char>,
    status: Seq<char>,
    name: Seq<char>,
    part: JsonView,
    depth: nat,
)
    requires
        name == "claims"@ || name == "error"@ || name == "doctor"@,
        printable(part, depth),
        depth < DEPTH,
    ensures
        printable(document_of(command, status, name, part), DEPTH as nat),
{
    reveal_strlit("schema_version");
    reveal_strlit("command");
    reveal_strlit("status");
    reveal_strlit("claims");
    reveal_strlit("error");
    reveal_strlit("doctor");
    let document = document_of(command, status, name, part);
    assert(document->Object_0.len() == 4);
    objects_are_printable(document->Object_0, depth);
    deeper_is_printable(document, depth + 1, DEPTH as nat);
}

proof fn documents_of_two_are_printable(
    command: Seq<char>,
    status: Seq<char>,
    first: (Seq<char>, JsonView),
    second: (Seq<char>, JsonView),
    depth: nat,
)
    requires
        first.0 == "claim"@ || first.0 == "release"@ || first.0 == "claims"@,
        second.0 == "warnings"@ || second.0 == "problems"@,
        printable(first.1, depth),
        printable(second.1, depth),
        depth < DEPTH,
    ensures
        printable(document_with(command, status, first, second), DEPTH as nat),
{
    reveal_strlit("schema_version");
    reveal_strlit("command");
    reveal_strlit("status");
    reveal_strlit("claim");
    reveal_strlit("release");
    reveal_strlit("claims");
    reveal_strlit("warnings");
    reveal_strlit("problems");
    let document = document_with(command, status, first, second);
    assert(document->Object_0.len() == 5);
    objects_are_printable(document->Object_0, depth);
    deeper_is_printable(document, depth + 1, DEPTH as nat);
}

/// Whatever claim was made, its document can be printed.
pub proof fn claim_documents_are_printable(
    status: Seq<char>,
    claim: ClaimView,
    warnings: Seq<Seq<char>>,
)
    ensures
        printable(
            document_with(
                "claim"@,
                status,
                ("claim"@, or_null(claim_json(claim))),
                ("warnings"@, texts_json(warnings)),
            ),
            DEPTH as nat,
        ),
{
    claim_values_are_printable(claim);
    texts_are_printable(warnings);
    deeper_is_printable(texts_json(warnings), 1, 3);
    documents_of_two_are_printable(
        "claim"@,
        status,
        ("claim"@, or_null(claim_json(claim))),
        ("warnings"@, texts_json(warnings)),
        3,
    );
}

/// Whatever was released, its document can be printed.
pub proof fn release_documents_are_printable(report: ReleaseReport)
    ensures
        printable(
            document_with(
                "release"@,
                "success"@,
                ("release"@, release_report_json(report)),
                ("warnings"@, texts_json(Seq::empty())),
            ),
            DEPTH as nat,
        ),
{
    reveal_strlit("issue");
    reveal_strlit("claim_id");
    reveal_strlit("already_released");
    reveal_strlit("worktree_deleted");
    reveal_strlit("branch_deleted");
    reveal_strlit("cleanup_pending");
    objects_are_printable(release_report_json(report)->Object_0, 0);
    texts_are_printable(Seq::empty());
    documents_of_two_are_printable(
        "release"@,
        "success"@,
        ("release"@, release_report_json(report)),
        ("warnings"@, texts_json(Seq::empty())),
        1,
    );
}

/// Whatever went wrong, its document can be printed.
pub proof fn error_documents_are_printable(
    command: Seq<char>,
    status: Seq<char>,
    code: Seq<char>,
    message: Seq<char>,
)
    ensures
        printable(
            document_of(command, status, "error"@, error_json(code, message)),
            DEPTH as nat,
        ),
{
    reveal_strlit("code");
    reveal_strlit("message");
    objects_are_printable(error_json(code, message)->Object_0, 0);
    documents_of_one_are_printable(command, status, "error"@, error_json(code, message), 1);
}

/// Whatever is listed, its document can be printed.
pub proof fn list_documents_are_printable(entries: Seq<EntryView>)
    ensures
        printable(
            document_of(
                "list"@,
                "success"@,
                "claims"@,
                list_json::<ClaimListEntry>(entries),
            ),
            DEPTH as nat,
        ),
{
    assert forall|i: int| 0 <= i < entries.len() implies printable(
        ClaimListEntry::json_of(#[trigger] entries[i]),
        4,
    ) by {
        entries_are_printable(entries[i]);
    }
    lists_are_printable::<ClaimListEntry>(entries, 4);
    documents_of_one_are_printable(
        "list"@,
        "success"@,
        "claims"@,
        list_json::<ClaimListEntry>(entries),
        5,
    );
}

/// Whatever the status is, its document can be printed.
pub proof fn status_documents_are_printable(status: Seq<char>, report: StatusView)
    ensures
        printable(
            document_with(
                "status"@,
                status,
                ("claims"@, list_json::<ClaimStatus>(report.claims)),
                ("problems"@, list_json::<LocalProblem>(report.problems)),
            ),
            DEPTH as nat,
        ),
{
    assert forall|i: int| 0 <= i < report.claims.len() implies printable(
        ClaimStatus::json_of(#[trigger] report.claims[i]),
        4,
    ) by {
        statuses_are_printable(report.claims[i]);
    }
    lists_are_printable::<ClaimStatus>(report.claims, 4);
    assert forall|i: int| 0 <= i < report.problems.len() implies printable(
        LocalProblem::json_of(#[trigger] report.problems[i]),
        4,
    ) by {
        problems_are_printable(report.problems[i]);
        deeper_is_printable(LocalProblem::json_of(report.problems[i]), 1, 4);
    }
    lists_are_printable::<LocalProblem>(report.problems, 4);
    documents_of_two_are_printable(
        "status"@,
        status,
        ("claims"@, list_json::<ClaimStatus>(report.claims)),
        ("problems"@, list_json::<LocalProblem>(report.problems)),
        5,
    );
}

/// Whether the evidence of some checks can be printed within some depth.
pub open spec fn evidence_is_printable(checks: Seq<CheckView>, depth: nat) -> bool {
    forall|i: int|
        0 <= i < checks.len() ==> printable(or_null((#[trigger] checks[i]).evidence), depth)
}

proof fn checks_are_printable(checks: Seq<CheckView>, depth: nat)
    requires
        evidence_is_printable(checks, depth),
    ensures
        printable(list_json::<DoctorCheck>(checks), depth + 2),
{
    reveal_strlit("id");
    reveal_strlit("gate");
    reveal_strlit("title");
    reveal_strlit("status");
    reveal_strlit("required");
    reveal_strlit("message");
    reveal_strlit("evidence");
    assert forall|i: int| 0 <= i < checks.len() implies printable(
        DoctorCheck::json_of(#[trigger] checks[i]),
        depth + 1,
    ) by {
        objects_are_printable(DoctorCheck::json_of(checks[i])->Object_0, depth);
    }
    lists_are_printable::<DoctorCheck>(checks, depth + 1);
}

proof fn subjects_are_printable(view: SubjectView)
    ensures
        printable(DoctorSubject::json_of(view), 1),
{
    reveal_strlit("repo");
    reveal_strlit("issue");
    reveal_strlit("stack");
    objects_are_printable(DoctorSubject::json_of(view)->Object_0, 0);
}

proof fn gates_are_printable(gates: GateRollups)
    ensures
        printable(gates_json(gates), 1),
{
    reveal_strlit("integrity");
    reveal_strlit("publish");
    reveal_strlit("merge");
    objects_are_printable(gates_json(gates)->Object_0, 0);
}

proof fn nodes_are_printable(view: NodeReportView, depth: nat)
    requires
        evidence_is_printable(view.checks, depth),
    ensures
        printable(DoctorNodeReport::json_of(view), depth + 3),
{
    reveal_strlit("issue");
    reveal_strlit("claim_id");
    reveal_strlit("status");
    reveal_strlit("gates");
    reveal_strlit("checks");
    reveal_strlit("recommendations");
    gates_are_printable(view.gates);
    deeper_is_printable(gates_json(view.gates), 1, depth + 2);
    checks_are_printable(view.checks, depth);
    texts_are_printable(view.recommendations);
    deeper_is_printable(texts_json(view.recommendations), 1, depth + 2);
    objects_are_printable(DoctorNodeReport::json_of(view)->Object_0, depth + 2);
}

proof fn reports_are_printable(view: ReportView, depth: nat)
    requires
        evidence_is_printable(view.checks, depth),
        forall|i: int|
            0 <= i < view.nodes.len() ==> evidence_is_printable(
                (#[trigger] view.nodes[i]).checks,
                depth,
            ),
    ensures
        printable(DoctorReport::json_of(view), depth + 5),
{
    reveal_strlit("subject");
    reveal_strlit("status");
    reveal_strlit("gates");
    reveal_strlit("checks");
    reveal_strlit("recommendations");
    reveal_strlit("generated_at");
    reveal_strlit("nodes");
    subjects_are_printable(view.subject);
    deeper_is_printable(DoctorSubject::json_of(view.subject), 1, depth + 4);
    gates_are_printable(view.gates);
    deeper_is_printable(gates_json(view.gates), 1, depth + 4);
    checks_are_printable(view.checks, depth);
    deeper_is_printable(list_json::<DoctorCheck>(view.checks), depth + 2, depth + 4);
    texts_are_printable(view.recommendations);
    deeper_is_printable(texts_json(view.recommendations), 1, depth + 4);
    assert forall|i: int| 0 <= i < view.nodes.len() implies printable(
        DoctorNodeReport::json_of(#[trigger] view.nodes[i]),
        depth + 3,
    ) by {
        nodes_are_printable(view.nodes[i], depth);
    }
    lists_are_printable::<DoctorNodeReport>(view.nodes, depth + 3);
    objects_are_printable(DoctorReport::json_of(view)->Object_0, depth + 4);
}

/// Whatever was diagnosed, its document can be printed, where the evidence can be printed in the
/// depth that is left to it.
pub proof fn doctor_documents_are_printable(report: ReportView, depth: nat)
    requires
        depth + 6 <= DEPTH,
        evidence_is_printable(report.checks, depth),
        forall|i: int|
            0 <= i < report.nodes.len() ==> evidence_is_printable(
                (#[trigger] report.nodes[i]).checks,
                depth,
            ),
    ensures
        printable(
            document_of(
                "doctor"@,
                report.status.name(),
                "doctor"@,
                DoctorReport::json_of(report),
            ),
            DEPTH as nat,
        ),
{
    reports_are_printable(report, depth);
    documents_of_one_are_printable(
        "doctor"@,
        report.status.name(),
        "doctor"@,
        DoctorReport::json_of(report),
        depth + 5,
    );
}

} // verus!
