//! What the documents say.
use vstd::prelude::*;

use crate::conflict::{
    DiffOverlap, OverlapConfidence, OverlapRelationship, OverlapSeverity, OverlapView,
    ScopeWarning, ScopeWarningReason, ScopeWarningView,
};
use crate::document::{document_with, gates_json, release_report_json, Documented};
use crate::doctor::{
    CheckView, DoctorCheck, DoctorNodeReport, DoctorReport, GateRollups, NodeReportView, ReportView,
};
use crate::id::{id_text, Id};
use crate::json::JsonView;
use crate::list::{ClaimListEntry, ClaimState, EntryView};
use crate::model::{Claim, ReleaseReport};
use crate::observation::{DiffSummary, DiffView, LocalProblem, ProblemView};
use crate::status::{
    ClaimStatus, ClaimStatusView, GithubState, PrState, PrSummary, PrView, StackWarning,
    StackWarningView,
};

verus! {

/// Whether an object says something under a name.
pub open spec fn has(json: JsonView, name: Seq<char>, value: JsonView) -> bool {
    json matches JsonView::Object(members) && members.contains((name, value))
}

/// Whether an object says a text under a name.
pub open spec fn has_text(json: JsonView, name: Seq<char>, value: Seq<char>) -> bool {
    has(json, name, JsonView::Text(value))
}

/// Whether an object lists texts under a name.
pub open spec fn has_texts(json: JsonView, name: Seq<char>, texts: Seq<Seq<char>>) -> bool {
    exists|items: Seq<JsonView>| #[trigger]
        has(json, name, JsonView::List(items)) && items.len() == texts.len() && forall|i: int|
            0 <= i < texts.len() ==> #[trigger] items[i] == JsonView::Text(texts[i])
}

/// Whether an object has something under a name where there is something, and nothing where not.
pub open spec fn has_id(json: JsonView, name: Seq<char>, id: Option<Id>) -> bool {
    match id {
        Some(id) => has_text(json, name, id_text(id)),
        None => has(json, name, JsonView::Null),
    }
}

/// Whether an object lists as many documents under a name as there are things.
pub open spec fn has_each<T: Documented>(json: JsonView, name: Seq<char>, things: Seq<T::V>) -> bool {
    exists|items: Seq<JsonView>| #[trigger]
        has(json, name, JsonView::List(items)) && items.len() == things.len() && forall|i: int|
            0 <= i < things.len() ==> #[trigger] items[i] == T::json_of(things[i])
}

proof fn said(members: Seq<(Seq<char>, JsonView)>, k: int)
    requires
        0 <= k < members.len(),
    ensures
        has(JsonView::Object(members), members[k].0, members[k].1),
{
    assert(members.contains(members[k]));
}

/// Pull requests are written with their number, their place, their branches, and whether they are
/// open, closed or merged, and drafts.
pub proof fn pull_requests_are_written(view: PrView)
    ensures
        ({
            let json = PrSummary::json_of(view);
            &&& has(json, "number"@, JsonView::Unsigned(view.number))
            &&& has_text(json, "url"@, view.url)
            &&& has_text(json, "head"@, view.head)
            &&& has_text(json, "base"@, view.base)
            &&& has_text(
                json,
                "state"@,
                match view.state {
                    PrState::Open => "open"@,
                    PrState::Closed => "closed"@,
                    PrState::Merged => "merged"@,
                },
            )
            &&& has(json, "draft"@, JsonView::Bool(view.draft))
        }),
{
    let members = PrSummary::json_of(view)->Object_0;
    said(members, 0);
    said(members, 1);
    said(members, 2);
    said(members, 3);
    said(members, 4);
    said(members, 5);
}

/// Overlaps are written with whom they are, what is shared, and how grave that is.
pub proof fn overlaps_are_written(view: OverlapView)
    ensures
        ({
            let json = DiffOverlap::json_of(view);
            &&& has(json, "with_issue"@, JsonView::Unsigned(view.with_issue))
            &&& has_text(json, "with_claim_id"@, id_text(view.with_claim_id))
            &&& has_text(
                json,
                "relationship"@,
                match view.relationship {
                    OverlapRelationship::Sibling => "sibling"@,
                    OverlapRelationship::Unrelated => "unrelated"@,
                    OverlapRelationship::Ancestor => "ancestor"@,
                    OverlapRelationship::Descendant => "descendant"@,
                    OverlapRelationship::Consolidation => "consolidation"@,
                },
            )
            &&& has_texts(json, "shared_paths"@, view.shared_paths)
            &&& has_text(
                json,
                "confidence"@,
                match view.confidence {
                    OverlapConfidence::Full => "full"@,
                    OverlapConfidence::Untracked => "untracked"@,
                },
            )
            &&& has_text(
                json,
                "severity"@,
                match view.severity {
                    OverlapSeverity::Info => "info"@,
                    OverlapSeverity::Warning => "warning"@,
                    OverlapSeverity::Blocking => "blocking"@,
                },
            )
            &&& has_texts(json, "labels"@, view.labels)
        }),
{
    let members = DiffOverlap::json_of(view)->Object_0;
    said(members, 0);
    said(members, 1);
    said(members, 2);
    said(members, 3);
    said(members, 4);
    said(members, 5);
    said(members, 6);
}

/// Warnings and problems are written with what they are of and what they say.
pub proof fn warnings_are_written(
    scope: ScopeWarningView,
    stack: StackWarningView,
    problem: ProblemView,
)
    ensures
        has_text(ScopeWarning::json_of(scope), "path"@, scope.path),
        has_text(
            ScopeWarning::json_of(scope),
            "reason"@,
            match scope.reason {
                ScopeWarningReason::OutsideAllowedScope => "outside_allowed_scope"@,
                ScopeWarningReason::InsideDisallowedScope => "inside_disallowed_scope"@,
            },
        ),
        has_text(StackWarning::json_of(stack), "code"@, stack.code),
        has(StackWarning::json_of(stack), "issue"@, JsonView::Unsigned(stack.issue)),
        has_id(StackWarning::json_of(stack), "related_claim_id"@, stack.related_claim_id),
        has_text(StackWarning::json_of(stack), "message"@, stack.message),
        has_id(LocalProblem::json_of(problem), "claim_id"@, problem.claim_id),
        has_id(LocalProblem::json_of(problem), "operation_id"@, problem.operation_id),
        has_text(LocalProblem::json_of(problem), "message"@, problem.message),
{
    let a = ScopeWarning::json_of(scope)->Object_0;
    said(a, 0);
    said(a, 1);
    let b = StackWarning::json_of(stack)->Object_0;
    said(b, 0);
    said(b, 1);
    said(b, 3);
    said(b, 4);
    let c = LocalProblem::json_of(problem)->Object_0;
    said(c, 2);
    said(c, 3);
    said(c, 4);
}

/// Changes are written by what became of the paths.
pub proof fn changes_are_written(view: DiffView)
    ensures
        ({
            let json = DiffSummary::json_of(view);
            &&& has_texts(json, "changed_paths"@, view.changed_paths)
            &&& has_texts(json, "added_paths"@, view.added_paths)
            &&& has_texts(json, "modified_paths"@, view.modified_paths)
            &&& has_texts(json, "deleted_paths"@, view.deleted_paths)
            &&& has_texts(json, "untracked_paths"@, view.untracked_paths)
        }),
{
    let members = DiffSummary::json_of(view)->Object_0;
    said(members, 0);
    said(members, 1);
    said(members, 2);
    said(members, 3);
    said(members, 4);
}

/// The status of a claim is written with the claim, its pull request, its changes and each of its
/// findings.
pub proof fn statuses_are_written(view: ClaimStatusView)
    ensures
        ({
            let json = ClaimStatus::json_of(view);
            &&& has(json, "claim"@, Claim::json_of(view.claim))
            &&& match view.pr {
                Some(pr) => has(json, "pr"@, PrSummary::json_of(pr)),
                None => has(json, "pr"@, JsonView::Null),
            }
            &&& has_text(
                json,
                "github_state"@,
                match view.github_state {
                    GithubState::Available => "available"@,
                    GithubState::Unavailable => "unavailable"@,
                    GithubState::Unverified => "unverified"@,
                },
            )
            &&& has(json, "diff"@, DiffSummary::json_of(view.diff))
            &&& has_each::<DiffOverlap>(json, "overlaps"@, view.overlaps)
            &&& has_each::<ScopeWarning>(json, "scope_warnings"@, view.scope_warnings)
            &&& has_each::<StackWarning>(json, "stack_warnings"@, view.stack_warnings)
        }),
{
    let members = ClaimStatus::json_of(view)->Object_0;
    said(members, 0);
    said(members, 1);
    said(members, 2);
    said(members, 3);
    said(members, 4);
    said(members, 5);
    said(members, 6);
}

/// A generation of the history is written with its claim and whether it was released.
pub proof fn entries_are_written(view: EntryView)
    ensures
        has(ClaimListEntry::json_of(view), "claim"@, Claim::json_of(view.claim)),
        has_text(
            ClaimListEntry::json_of(view),
            "state"@,
            match view.state {
                ClaimState::Active => "active"@,
                ClaimState::Released => "released"@,
            },
        ),
        view.release is None ==> has(ClaimListEntry::json_of(view), "release"@, JsonView::Null),
{
    let members = ClaimListEntry::json_of(view)->Object_0;
    said(members, 0);
    said(members, 1);
    said(members, 2);
}

/// A release is written with what was done and what is left to do.
pub proof fn releases_are_written(report: ReleaseReport)
    ensures
        ({
            let json = release_report_json(report);
            &&& has(json, "issue"@, JsonView::Unsigned(report.issue))
            &&& has_text(json, "claim_id"@, id_text(report.claim_id))
            &&& has(json, "already_released"@, JsonView::Bool(report.already_released))
            &&& has(json, "worktree_deleted"@, JsonView::Bool(report.worktree_deleted))
            &&& has(json, "branch_deleted"@, JsonView::Bool(report.branch_deleted))
            &&& has(json, "cleanup_pending"@, JsonView::Bool(report.cleanup_pending))
        }),
{
    let members = release_report_json(report)->Object_0;
    said(members, 0);
    said(members, 1);
    said(members, 2);
    said(members, 3);
    said(members, 4);
    said(members, 5);
}

/// A document names its version, the command that it answers and how that ended.
pub proof fn documents_name_their_command(
    command: Seq<char>,
    status: Seq<char>,
    first: (Seq<char>, JsonView),
    second: (Seq<char>, JsonView),
)
    ensures
        has_text(document_with(command, status, first, second), "schema_version"@, "0.1"@),
        has_text(document_with(command, status, first, second), "command"@, command),
        has_text(document_with(command, status, first, second), "status"@, status),
        has(document_with(command, status, first, second), first.0, first.1),
        has(document_with(command, status, first, second), second.0, second.1),
{
    let members = document_with(command, status, first, second)->Object_0;
    said(members, 0);
    said(members, 1);
    said(members, 2);
    said(members, 3);
    said(members, 4);
}

/// Each gate is written under its own name.
pub proof fn gates_are_written(gates: GateRollups)
    ensures
        has_text(gates_json(gates), "integrity"@, gates.integrity.name()),
        has_text(gates_json(gates), "publish"@, gates.publish.name()),
        has_text(gates_json(gates), "merge"@, gates.merge.name()),
{
    let members = gates_json(gates)->Object_0;
    said(members, 0);
    said(members, 1);
    said(members, 2);
}

/// A check is written with what it holds up, how it came out and what it says; it is marked as
/// required where it is.
pub proof fn checks_are_written(view: CheckView)
    ensures
        ({
            let json = DoctorCheck::json_of(view);
            &&& has_text(json, "id"@, view.id)
            &&& has_text(json, "gate"@, view.gate.name())
            &&& has_text(json, "title"@, view.title)
            &&& has_text(json, "status"@, view.status.name())
            &&& has_text(json, "message"@, view.message)
            &&& view.required ==> has(json, "required"@, JsonView::Bool(true))
            &&& view.evidence matches Some(evidence) ==> has(json, "evidence"@, evidence)
        }),
{
    let members = DoctorCheck::json_of(view)->Object_0;
    said(members, 0);
    said(members, 1);
    said(members, 2);
    said(members, 3);
    said(members, 4);
    if view.required {
        said(members, 5);
    }
    if view.evidence is Some {
        said(members, members.len() - 1);
    }
}

/// A report is written whole, and so is each of its nodes.
pub proof fn reports_are_written(view: ReportView, node: NodeReportView)
    ensures
        ({
            let json = DoctorReport::json_of(view);
            &&& has_text(json, "status"@, view.status.name())
            &&& has(json, "gates"@, gates_json(view.gates))
            &&& has_each::<DoctorCheck>(json, "checks"@, view.checks)
            &&& has_texts(json, "recommendations"@, view.recommendations)
            &&& view.nodes.len() > 0 ==> has_each::<DoctorNodeReport>(json, "nodes"@, view.nodes)
        }),
        ({
            let json = DoctorNodeReport::json_of(node);
            &&& has(json, "issue"@, JsonView::Unsigned(node.issue))
            &&& has_text(json, "claim_id"@, id_text(node.claim_id))
            &&& has_text(json, "status"@, node.status.name())
            &&& has(json, "gates"@, gates_json(node.gates))
            &&& has_each::<DoctorCheck>(json, "checks"@, node.checks)
            &&& has_texts(json, "recommendations"@, node.recommendations)
        }),
{
    let members = DoctorReport::json_of(view)->Object_0;
    said(members, 1);
    said(members, 2);
    said(members, 3);
    said(members, 4);
    if view.nodes.len() > 0 {
        said(members, 6);
    }
    let own = DoctorNodeReport::json_of(node)->Object_0;
    said(own, 0);
    said(own, 1);
    said(own, 2);
    said(own, 3);
    said(own, 4);
    said(own, 5);
}

} // verus!
