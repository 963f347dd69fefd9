//! Evidence: what checks carry along as JSON. The members of objects stand in the order of their
//! names.
use vstd::prelude::*;
use vstd::string::*;

use crate::conflict::{
    DiffOverlap, OverlapConfidence, OverlapRelationship, OverlapSeverity, OverlapView, ScopeWarning,
    ScopeWarningReason, ScopeWarningView,
};
use crate::id::{Id, IssueNumber};
use crate::json::{list_view, members_view, object_view, Json, JsonView};
use crate::model::{OperationRecord, OperationView, ReleaseMarker, ReleaseView, WaitForRef};
use crate::record::{
    id_json, instant_json, kind_name, kind_str, optional_id_json, reason_name, reason_str,
    texts_json, write_id, write_instant, write_optional_id, write_texts,
};
use crate::text::views;
use crate::time::Timestamp;

verus! {

/// What named values stand for.
pub open spec fn named(members: Seq<(&str, Json)>) -> Seq<(Seq<char>, JsonView)> {
    Seq::new(members.len(), |i: int| (members[i].0@, members[i].1@))
}

/// An object of named values.
pub fn object(members: Vec<(&str, Json)>) -> (json: Json)
    ensures
        json@ == JsonView::Object(named(members@)),
{
    let ghost all = named(members@);
    let mut result: Vec<(String, Json)> = Vec::new();
    let mut i: usize = 0;
    while i < members.len()
        invariant
            i <= members.len(),
            all == named(members@),
            members_view(result@) == all.take(i as int),
        decreases members.len() - i,
    {
        let ghost done = members_view(result@);
        result.push((members[i].0.to_owned(), members[i].1.clone()));
        i = i + 1;
        assert(members_view(result@) =~= done.push(all[i - 1]));
        assert(all.take(i as int) =~= done.push(all[i - 1]));
    }
    assert(all.take(i as int) =~= all);
    proof {
        object_view(result);
    }
    Json::Object(result)
}

pub fn text(value: &str) -> (json: Json)
    ensures
        json@ == JsonView::Text(value@),
{
    Json::Text(value.to_owned())
}

/// The identity of a claim.
pub open spec fn claim_evidence(issue: IssueNumber, claim_id: Id) -> JsonView {
    JsonView::Object(
        seq![("claim_id"@, id_json(claim_id)), ("issue"@, JsonView::Unsigned(issue))],
    )
}

pub fn claim_identity(issue: IssueNumber, claim_id: Id) -> (json: Json)
    ensures
        json@ == claim_evidence(issue, claim_id),
{
    let members: Vec<(&str, Json)> = vec![
        ("claim_id", write_id(claim_id)),
        ("issue", Json::Unsigned(issue)),
    ];
    assert(named(members@) =~= claim_evidence(issue, claim_id)->Object_0);
    object(members)
}

pub open spec fn relationship_text(relationship: OverlapRelationship) -> Seq<char> {
    match relationship {
        OverlapRelationship::Sibling => "sibling"@,
        OverlapRelationship::Unrelated => "unrelated"@,
        OverlapRelationship::Ancestor => "ancestor"@,
        OverlapRelationship::Descendant => "descendant"@,
        OverlapRelationship::Consolidation => "consolidation"@,
    }
}

pub fn relationship_name(relationship: OverlapRelationship) -> (name: &'static str)
    ensures
        name@ == relationship_text(relationship),
{
    match relationship {
        OverlapRelationship::Sibling => "sibling",
        OverlapRelationship::Unrelated => "unrelated",
        OverlapRelationship::Ancestor => "ancestor",
        OverlapRelationship::Descendant => "descendant",
        OverlapRelationship::Consolidation => "consolidation",
    }
}

pub open spec fn confidence_text(confidence: OverlapConfidence) -> Seq<char> {
    match confidence {
        OverlapConfidence::Full => "full"@,
        OverlapConfidence::Untracked => "untracked"@,
    }
}

pub fn confidence_name(confidence: OverlapConfidence) -> (name: &'static str)
    ensures
        name@ == confidence_text(confidence),
{
    match confidence {
        OverlapConfidence::Full => "full",
        OverlapConfidence::Untracked => "untracked",
    }
}

pub open spec fn severity_text(severity: OverlapSeverity) -> Seq<char> {
    match severity {
        OverlapSeverity::Info => "info"@,
        OverlapSeverity::Warning => "warning"@,
        OverlapSeverity::Blocking => "blocking"@,
    }
}

pub fn severity_name(severity: OverlapSeverity) -> (name: &'static str)
    ensures
        name@ == severity_text(severity),
{
    match severity {
        OverlapSeverity::Info => "info",
        OverlapSeverity::Warning => "warning",
        OverlapSeverity::Blocking => "blocking",
    }
}

pub open spec fn overlap_evidence(overlap: OverlapView) -> JsonView {
    JsonView::Object(
        seq![
            ("confidence"@, JsonView::Text(confidence_text(overlap.confidence))),
            ("labels"@, texts_json(overlap.labels)),
            ("relationship"@, JsonView::Text(relationship_text(overlap.relationship))),
            ("severity"@, JsonView::Text(severity_text(overlap.severity))),
            ("shared_paths"@, texts_json(overlap.shared_paths)),
            ("with_claim_id"@, id_json(overlap.with_claim_id)),
            ("with_issue"@, JsonView::Unsigned(overlap.with_issue)),
        ],
    )
}

pub fn overlap_object(overlap: &DiffOverlap) -> (json: Json)
    ensures
        json@ == overlap_evidence(overlap@),
{
    let members: Vec<(&str, Json)> = vec![
        ("confidence", text(confidence_name(overlap.confidence))),
        ("labels", write_texts(&overlap.labels)),
        ("relationship", text(relationship_name(overlap.relationship))),
        ("severity", text(severity_name(overlap.severity))),
        ("shared_paths", write_texts(&overlap.shared_paths)),
        ("with_claim_id", write_id(overlap.with_claim_id)),
        ("with_issue", Json::Unsigned(overlap.with_issue)),
    ];
    assert(named(members@) =~= overlap_evidence(overlap@)->Object_0);
    object(members)
}

pub open spec fn scope_reason_text(reason: ScopeWarningReason) -> Seq<char> {
    match reason {
        ScopeWarningReason::OutsideAllowedScope => "outside_allowed_scope"@,
        ScopeWarningReason::InsideDisallowedScope => "inside_disallowed_scope"@,
    }
}

pub fn scope_reason_name(reason: ScopeWarningReason) -> (name: &'static str)
    ensures
        name@ == scope_reason_text(reason),
{
    match reason {
        ScopeWarningReason::OutsideAllowedScope => "outside_allowed_scope",
        ScopeWarningReason::InsideDisallowedScope => "inside_disallowed_scope",
    }
}

pub open spec fn scope_warning_evidence(warning: ScopeWarningView) -> JsonView {
    JsonView::Object(
        seq![
            ("path"@, JsonView::Text(warning.path)),
            ("reason"@, JsonView::Text(scope_reason_text(warning.reason))),
        ],
    )
}

pub fn scope_warning_object(warning: &ScopeWarning) -> (json: Json)
    ensures
        json@ == scope_warning_evidence(warning@),
{
    let members: Vec<(&str, Json)> = vec![
        ("path", text(warning.path.as_str())),
        ("reason", text(scope_reason_name(warning.reason))),
    ];
    assert(named(members@) =~= scope_warning_evidence(warning@)->Object_0);
    object(members)
}

pub open spec fn wait_for_ref_evidence(reference: WaitForRef) -> JsonView {
    JsonView::Object(
        seq![
            ("claim_id"@, optional_id_json(reference.claim_id)),
            ("issue"@, JsonView::Unsigned(reference.issue)),
        ],
    )
}

pub open spec fn wait_for_evidence(refs: Seq<WaitForRef>) -> JsonView {
    JsonView::List(Seq::new(refs.len(), |i: int| wait_for_ref_evidence(refs[i])))
}

pub fn wait_for_list(refs: &Vec<WaitForRef>) -> (json: Json)
    ensures
        json@ == wait_for_evidence(refs@),
{
    let mut items: Vec<Json> = Vec::new();
    let mut i: usize = 0;
    while i < refs.len()
        invariant
            i <= refs.len(),
            items.len() == i,
            forall|j: int| 0 <= j < i ==> (#[trigger] items@[j])@ == wait_for_ref_evidence(refs@[j]),
        decreases refs.len() - i,
    {
        let members: Vec<(&str, Json)> = vec![
            ("claim_id", write_optional_id(refs[i].claim_id)),
            ("issue", Json::Unsigned(refs[i].issue)),
        ];
        assert(named(members@) =~= wait_for_ref_evidence(refs@[i as int])->Object_0);
        items.push(object(members));
        i = i + 1;
    }
    proof {
        list_view(items);
        assert(views(items@) =~= wait_for_evidence(refs@)->List_0);
    }
    Json::List(items)
}

/// An instant, or null where it has no notation.
pub open spec fn instant_evidence(at: Timestamp) -> JsonView {
    match instant_json(at) {
        Some(json) => json,
        None => JsonView::Null,
    }
}

pub fn instant_value(at: Timestamp) -> (json: Json)
    ensures
        json@ == instant_evidence(at),
{
    match write_instant(at) {
        Some(json) => json,
        None => Json::Null,
    }
}

pub open spec fn release_evidence(release: ReleaseView) -> JsonView {
    JsonView::Object(
        seq![
            ("claim_id"@, id_json(release.claim_id)),
            ("issue"@, JsonView::Unsigned(release.issue)),
            ("reason"@, JsonView::Text(reason_name(release.reason))),
            ("released_at"@, instant_evidence(release.released_at)),
            ("repo"@, JsonView::Text(release.repo)),
            ("schema_version"@, JsonView::Text(release.schema_version)),
        ],
    )
}

pub fn release_object(release: &ReleaseMarker) -> (json: Json)
    ensures
        json@ == release_evidence(release@),
{
    let members: Vec<(&str, Json)> = vec![
        ("claim_id", write_id(release.claim_id)),
        ("issue", Json::Unsigned(release.issue)),
        ("reason", text(reason_str(release.reason))),
        ("released_at", instant_value(release.released_at)),
        ("repo", text(release.repo.as_str())),
        ("schema_version", text(release.schema_version.as_str())),
    ];
    assert(named(members@) =~= release_evidence(release@)->Object_0);
    object(members)
}

pub open spec fn operation_evidence(operation: OperationView) -> JsonView {
    JsonView::Object(
        seq![
            ("branch"@, JsonView::Text(operation.branch)),
            ("claim_id"@, id_json(operation.claim_id)),
            ("issue"@, JsonView::Unsigned(operation.issue)),
            ("kind"@, JsonView::Text(kind_name(operation.kind))),
            ("operation_id"@, id_json(operation.operation_id)),
            ("phase"@, JsonView::Text(operation.phase.name())),
            ("schema_version"@, JsonView::Text(operation.schema_version)),
            ("started_at"@, instant_evidence(operation.started_at)),
            ("worktree"@, JsonView::Text(operation.worktree)),
        ],
    )
}

pub fn operation_object(operation: &OperationRecord) -> (json: Json)
    ensures
        json@ == operation_evidence(operation@),
{
    let members: Vec<(&str, Json)> = vec![
        ("branch", text(operation.branch.as_str())),
        ("claim_id", write_id(operation.claim_id)),
        ("issue", Json::Unsigned(operation.issue)),
        ("kind", text(kind_str(operation.kind))),
        ("operation_id", write_id(operation.operation_id)),
        ("phase", text(operation.phase.as_str())),
        ("schema_version", text(operation.schema_version.as_str())),
        ("started_at", instant_value(operation.started_at)),
        ("worktree", text(operation.worktree.as_str())),
    ];
    assert(named(members@) =~= operation_evidence(operation@)->Object_0);
    object(members)
}

pub open spec fn ids_evidence(ids: Seq<Id>) -> JsonView {
    JsonView::List(Seq::new(ids.len(), |i: int| id_json(ids[i])))
}

pub fn id_list(ids: &Vec<Id>) -> (json: Json)
    ensures
        json@ == ids_evidence(ids@),
{
    let mut items: Vec<Json> = Vec::new();
    let mut i: usize = 0;
    while i < ids.len()
        invariant
            i <= ids.len(),
            items.len() == i,
            forall|j: int| 0 <= j < i ==> (#[trigger] items@[j])@ == id_json(ids@[j]),
        decreases ids.len() - i,
    {
        items.push(write_id(ids[i]));
        i = i + 1;
    }
    proof {
        list_view(items);
        assert(views(items@) =~= ids_evidence(ids@)->List_0);
    }
    Json::List(items)
}

pub open spec fn issues_evidence(issues: Seq<IssueNumber>) -> JsonView {
    JsonView::List(Seq::new(issues.len(), |i: int| JsonView::Unsigned(issues[i])))
}

pub fn issue_list(issues: &Vec<IssueNumber>) -> (json: Json)
    ensures
        json@ == issues_evidence(issues@),
{
    let mut items: Vec<Json> = Vec::new();
    let mut i: usize = 0;
    while i < issues.len()
        invariant
            i <= issues.len(),
            items.len() == i,
            forall|j: int| 0 <= j < i ==> (#[trigger] items@[j])@ == JsonView::Unsigned(issues@[j]),
        decreases issues.len() - i,
    {
        items.push(Json::Unsigned(issues[i]));
        i = i + 1;
    }
    proof {
        list_view(items);
        assert(views(items@) =~= issues_evidence(issues@)->List_0);
    }
    Json::List(items)
}

} // verus!
