//! Documents: what commands print as JSON. The members of objects stand in the order in which they
//! are documented.
use vstd::prelude::*;
use vstd::string::*;

use crate::conflict::{DiffOverlap, OverlapView, ScopeWarning, ScopeWarningView};
use crate::doctor::{
    CheckView, DoctorCheck, DoctorNodeReport, DoctorReport, DoctorSubject, GateRollups,
    NodeReportView, ReportView, SubjectView,
};
use crate::evidence::{
    confidence_name, confidence_text, instant_evidence, instant_value, named, object,
    relationship_name, relationship_text, scope_reason_name, scope_reason_text, severity_name,
    severity_text, text,
};
use crate::json::{list_view, Json, JsonView};
use crate::lifecycle::ClaimOutcome;
use crate::list::{ClaimList, ClaimListEntry, ClaimState, EntryView};
use crate::model::{Claim, ClaimView, ReleaseMarker, ReleaseReport, ReleaseView, SCHEMA_VERSION};
use crate::observation::{DiffSummary, DiffView, LocalProblem, ProblemView};
use crate::record::{
    claim_json, id_json, optional_id_json, optional_issue_json, release_json, texts_json,
    write_claim, write_id, write_optional_id, write_optional_issue, write_release, write_texts,
};
use crate::status::{
    github_state_name, github_state_text, problem_code, problem_text, ClaimStatus, ClaimStatusView,
    PrState, PrSummary, PrView, StackWarning, StackWarningView, StatusReport, StatusView,
};
use crate::text::{optional, views};

verus! {

/// What has a value in documents.
pub trait Documented: View + Sized {
    spec fn json_of(view: Self::V) -> JsonView;

    fn document(&self) -> (json: Json)
        ensures
            json@ == Self::json_of(self@),
    ;
}

/// The values of a list.
pub open spec fn list_json<T: Documented>(items: Seq<T::V>) -> JsonView {
    JsonView::List(Seq::new(items.len(), |i: int| T::json_of(items[i])))
}

pub fn write_list<T: Documented>(items: &Vec<T>) -> (json: Json)
    ensures
        json@ == list_json::<T>(views(items@)),
{
    let mut values: Vec<Json> = Vec::new();
    let mut i: usize = 0;
    while i < items.len()
        invariant
            i <= items.len(),
            values.len() == i,
            forall|j: int| 0 <= j < i ==> (#[trigger] values@[j])@ == T::json_of(items@[j]@),
        decreases items.len() - i,
    {
        values.push(items[i].document());
        i = i + 1;
    }
    proof {
        list_view(values);
        assert(views(values@) =~= list_json::<T>(views(items@))->List_0);
    }
    Json::List(values)
}

/// A value that may be none.
pub open spec fn or_null(json: Option<JsonView>) -> JsonView {
    match json {
        Some(json) => json,
        None => JsonView::Null,
    }
}

pub open spec fn optional_json<T: Documented>(item: Option<T::V>) -> JsonView {
    match item {
        Some(item) => T::json_of(item),
        None => JsonView::Null,
    }
}

pub fn write_optional<T: Documented>(item: &Option<T>) -> (json: Json)
    ensures
        json@ == optional_json::<T>(optional(*item)),
{
    match item {
        Some(item) => item.document(),
        None => Json::Null,
    }
}

// ---------------------------------------------------------------------------------------------
// Claims and releases
// ---------------------------------------------------------------------------------------------
impl Documented for Claim {
    open spec fn json_of(view: ClaimView) -> JsonView {
        or_null(claim_json(view))
    }

    fn document(&self) -> (json: Json) {
        match write_claim(self) {
            Some(json) => json,
            None => Json::Null,
        }
    }
}

impl Documented for ReleaseMarker {
    open spec fn json_of(view: ReleaseView) -> JsonView {
        or_null(release_json(view))
    }

    fn document(&self) -> (json: Json) {
        match write_release(self) {
            Some(json) => json,
            None => Json::Null,
        }
    }
}

/// What every document begins with.
pub open spec fn document_head(command: Seq<char>, status: Seq<char>) -> Seq<
    (Seq<char>, JsonView),
> {
    seq![
        ("schema_version"@, JsonView::Text(SCHEMA_VERSION@)),
        ("command"@, JsonView::Text(command)),
        ("status"@, JsonView::Text(status)),
    ]
}

/// A document of one part behind its head.
pub open spec fn document_of(
    command: Seq<char>,
    status: Seq<char>,
    name: Seq<char>,
    part: JsonView,
) -> JsonView {
    JsonView::Object(document_head(command, status).push((name, part)))
}

fn make_document(command: &str, status: &str, name: &str, part: Json) -> (json: Json)
    ensures
        json@ == document_of(command@, status@, name@, part@),
{
    let ghost wanted = document_of(command@, status@, name@, part@)->Object_0;
    let members: Vec<(&str, Json)> = vec![
        ("schema_version", text(SCHEMA_VERSION)),
        ("command", text(command)),
        ("status", text(status)),
        (name, part),
    ];
    assert(named(members@) =~= wanted);
    object(members)
}

/// A document of two parts behind its head.
pub open spec fn document_with(
    command: Seq<char>,
    status: Seq<char>,
    first: (Seq<char>, JsonView),
    second: (Seq<char>, JsonView),
) -> JsonView {
    JsonView::Object(document_head(command, status).push(first).push(second))
}

fn make_document_with(
    command: &str,
    status: &str,
    first_name: &str,
    first: Json,
    second_name: &str,
    second: Json,
) -> (json: Json)
    ensures
        json@ == document_with(
            command@,
            status@,
            (first_name@, first@),
            (second_name@, second@),
        ),
{
    let ghost wanted = document_with(
        command@,
        status@,
        (first_name@, first@),
        (second_name@, second@),
    )->Object_0;
    let members: Vec<(&str, Json)> = vec![
        ("schema_version", text(SCHEMA_VERSION)),
        ("command", text(command)),
        ("status", text(status)),
        (first_name, first),
        (second_name, second),
    ];
    assert(named(members@) =~= wanted);
    object(members)
}

/// Whether a claim was made without or with warnings.
pub open spec fn claim_status_text(warnings: nat) -> Seq<char> {
    if warnings == 0 {
        "success"@
    } else {
        "warning"@
    }
}

/// The document of a claim that was made.
pub fn claim_document(outcome: &ClaimOutcome) -> (json: Json)
    ensures
        json@ == document_with(
            "claim"@,
            claim_status_text(outcome.warnings@.len()),
            ("claim"@, or_null(claim_json(outcome.claim@))),
            ("warnings"@, texts_json(views(outcome.warnings@))),
        ),
{
    let status = if outcome.warnings.len() == 0 {
        "success"
    } else {
        "warning"
    };
    make_document_with(
        "claim",
        status,
        "claim",
        outcome.claim.document(),
        "warnings",
        write_texts(&outcome.warnings),
    )
}

/// The value of the report on a release.
pub open spec fn release_report_json(report: ReleaseReport) -> JsonView {
    JsonView::Object(
        seq![
            ("issue"@, JsonView::Unsigned(report.issue)),
            ("claim_id"@, id_json(report.claim_id)),
            ("already_released"@, JsonView::Bool(report.already_released)),
            ("worktree_deleted"@, JsonView::Bool(report.worktree_deleted)),
            ("branch_deleted"@, JsonView::Bool(report.branch_deleted)),
            ("cleanup_pending"@, JsonView::Bool(report.cleanup_pending)),
        ],
    )
}

/// The document of a release.
pub fn release_document(report: &ReleaseReport) -> (json: Json)
    ensures
        json@ == document_with(
            "release"@,
            "success"@,
            ("release"@, release_report_json(*report)),
            ("warnings"@, texts_json(Seq::empty())),
        ),
{
    let members: Vec<(&str, Json)> = vec![
        ("issue", Json::Unsigned(report.issue)),
        ("claim_id", write_id(report.claim_id)),
        ("already_released", Json::Bool(report.already_released)),
        ("worktree_deleted", Json::Bool(report.worktree_deleted)),
        ("branch_deleted", Json::Bool(report.branch_deleted)),
        ("cleanup_pending", Json::Bool(report.cleanup_pending)),
    ];
    assert(named(members@) =~= release_report_json(*report)->Object_0);
    let warnings: Vec<String> = Vec::new();
    assert(views(warnings@) =~= Seq::empty());
    make_document_with(
        "release",
        "success",
        "release",
        object(members),
        "warnings",
        write_texts(&warnings),
    )
}

/// The value of what went wrong.
pub open spec fn error_json(code: Seq<char>, message: Seq<char>) -> JsonView {
    JsonView::Object(
        seq![("code"@, JsonView::Text(code)), ("message"@, JsonView::Text(message))],
    )
}

/// The document of a command that was refused or went wrong.
pub fn error_document(command: &str, code: &str, message: &str, refused: bool) -> (json: Json)
    ensures
        json@ == document_of(
            command@,
            if refused {
                "blocked"@
            } else {
                "error"@
            },
            "error"@,
            error_json(code@, message@),
        ),
{
    let status = if refused {
        "blocked"
    } else {
        "error"
    };
    let members: Vec<(&str, Json)> = vec![("code", text(code)), ("message", text(message))];
    assert(named(members@) =~= error_json(code@, message@)->Object_0);
    make_document(command, status, "error", object(members))
}

// ---------------------------------------------------------------------------------------------
// Lists
// ---------------------------------------------------------------------------------------------
pub open spec fn claim_state_text(state: ClaimState) -> Seq<char> {
    match state {
        ClaimState::Active => "active"@,
        ClaimState::Released => "released"@,
    }
}

impl Documented for ClaimListEntry {
    open spec fn json_of(view: EntryView) -> JsonView {
        JsonView::Object(
            seq![
                ("claim"@, Claim::json_of(view.claim)),
                ("state"@, JsonView::Text(claim_state_text(view.state))),
                ("release"@, optional_json::<ReleaseMarker>(view.release)),
            ],
        )
    }

    fn document(&self) -> (json: Json) {
        let state = match self.state {
            ClaimState::Active => "active",
            ClaimState::Released => "released",
        };
        let members: Vec<(&str, Json)> = vec![
            ("claim", self.claim.document()),
            ("state", text(state)),
            ("release", write_optional(&self.release)),
        ];
        assert(named(members@) =~= Self::json_of(self@)->Object_0);
        object(members)
    }
}

/// The document of a list.
pub fn list_document(list: &ClaimList) -> (json: Json)
    ensures
        json@ == document_of(
            "list"@,
            "success"@,
            "claims"@,
            list_json::<ClaimListEntry>(list@),
        ),
{
    make_document("list", "success", "claims", write_list(&list.claims))
}

// ---------------------------------------------------------------------------------------------
// Status
// ---------------------------------------------------------------------------------------------
impl Documented for DiffOverlap {
    open spec fn json_of(view: OverlapView) -> JsonView {
        JsonView::Object(
            seq![
                ("with_issue"@, JsonView::Unsigned(view.with_issue)),
                ("with_claim_id"@, id_json(view.with_claim_id)),
                ("relationship"@, JsonView::Text(relationship_text(view.relationship))),
                ("shared_paths"@, texts_json(view.shared_paths)),
                ("confidence"@, JsonView::Text(confidence_text(view.confidence))),
                ("severity"@, JsonView::Text(severity_text(view.severity))),
                ("labels"@, texts_json(view.labels)),
            ],
        )
    }

    fn document(&self) -> (json: Json) {
        let members: Vec<(&str, Json)> = vec![
            ("with_issue", Json::Unsigned(self.with_issue)),
            ("with_claim_id", write_id(self.with_claim_id)),
            ("relationship", text(relationship_name(self.relationship))),
            ("shared_paths", write_texts(&self.shared_paths)),
            ("confidence", text(confidence_name(self.confidence))),
            ("severity", text(severity_name(self.severity))),
            ("labels", write_texts(&self.labels)),
        ];
        assert(named(members@) =~= Self::json_of(self@)->Object_0);
        object(members)
    }
}

impl Documented for ScopeWarning {
    open spec fn json_of(view: ScopeWarningView) -> JsonView {
        JsonView::Object(
            seq![
                ("path"@, JsonView::Text(view.path)),
                ("reason"@, JsonView::Text(scope_reason_text(view.reason))),
            ],
        )
    }

    fn document(&self) -> (json: Json) {
        let members: Vec<(&str, Json)> = vec![
            ("path", text(self.path.as_str())),
            ("reason", text(scope_reason_name(self.reason))),
        ];
        assert(named(members@) =~= Self::json_of(self@)->Object_0);
        object(members)
    }
}

impl Documented for StackWarning {
    open spec fn json_of(view: StackWarningView) -> JsonView {
        JsonView::Object(
            seq![
                ("code"@, JsonView::Text(view.code)),
                ("issue"@, JsonView::Unsigned(view.issue)),
                ("related_issue"@, optional_issue_json(view.related_issue)),
                ("related_claim_id"@, optional_id_json(view.related_claim_id)),
                ("message"@, JsonView::Text(view.message)),
            ],
        )
    }

    fn document(&self) -> (json: Json) {
        let members: Vec<(&str, Json)> = vec![
            ("code", text(self.code.as_str())),
            ("issue", Json::Unsigned(self.issue)),
            ("related_issue", write_optional_issue(self.related_issue)),
            ("related_claim_id", write_optional_id(self.related_claim_id)),
            ("message", text(self.message.as_str())),
        ];
        assert(named(members@) =~= Self::json_of(self@)->Object_0);
        object(members)
    }
}

impl Documented for LocalProblem {
    open spec fn json_of(view: ProblemView) -> JsonView {
        JsonView::Object(
            seq![
                ("code"@, JsonView::Text(problem_text(view.code))),
                ("issue"@, optional_issue_json(view.issue)),
                ("claim_id"@, optional_id_json(view.claim_id)),
                ("operation_id"@, optional_id_json(view.operation_id)),
                ("message"@, JsonView::Text(view.message)),
            ],
        )
    }

    fn document(&self) -> (json: Json) {
        let members: Vec<(&str, Json)> = vec![
            ("code", text(problem_code(self.code))),
            ("issue", write_optional_issue(self.issue)),
            ("claim_id", write_optional_id(self.claim_id)),
            ("operation_id", write_optional_id(self.operation_id)),
            ("message", text(self.message.as_str())),
        ];
        assert(named(members@) =~= Self::json_of(self@)->Object_0);
        object(members)
    }
}

impl Documented for DiffSummary {
    open spec fn json_of(view: DiffView) -> JsonView {
        JsonView::Object(
            seq![
                ("changed_paths"@, texts_json(view.changed_paths)),
                ("added_paths"@, texts_json(view.added_paths)),
                ("modified_paths"@, texts_json(view.modified_paths)),
                ("deleted_paths"@, texts_json(view.deleted_paths)),
                ("untracked_paths"@, texts_json(view.untracked_paths)),
            ],
        )
    }

    fn document(&self) -> (json: Json) {
        let members: Vec<(&str, Json)> = vec![
            ("changed_paths", write_texts(&self.changed_paths)),
            ("added_paths", write_texts(&self.added_paths)),
            ("modified_paths", write_texts(&self.modified_paths)),
            ("deleted_paths", write_texts(&self.deleted_paths)),
            ("untracked_paths", write_texts(&self.untracked_paths)),
        ];
        assert(named(members@) =~= Self::json_of(self@)->Object_0);
        object(members)
    }
}

pub open spec fn pr_state_text(state: PrState) -> Seq<char> {
    match state {
        PrState::Open => "open"@,
        PrState::Closed => "closed"@,
        PrState::Merged => "merged"@,
    }
}

impl Documented for PrSummary {
    open spec fn json_of(view: PrView) -> JsonView {
        JsonView::Object(
            seq![
                ("number"@, JsonView::Unsigned(view.number)),
                ("url"@, JsonView::Text(view.url)),
                ("head"@, JsonView::Text(view.head)),
                ("base"@, JsonView::Text(view.base)),
                ("state"@, JsonView::Text(pr_state_text(view.state))),
                ("draft"@, JsonView::Bool(view.draft)),
            ],
        )
    }

    fn document(&self) -> (json: Json) {
        let state = match self.state {
            PrState::Open => "open",
            PrState::Closed => "closed",
            PrState::Merged => "merged",
        };
        let members: Vec<(&str, Json)> = vec![
            ("number", Json::Unsigned(self.number)),
            ("url", text(self.url.as_str())),
            ("head", text(self.head.as_str())),
            ("base", text(self.base.as_str())),
            ("state", text(state)),
            ("draft", Json::Bool(self.draft)),
        ];
        assert(named(members@) =~= Self::json_of(self@)->Object_0);
        object(members)
    }
}

impl Documented for ClaimStatus {
    open spec fn json_of(view: ClaimStatusView) -> JsonView {
        JsonView::Object(
            seq![
                ("claim"@, Claim::json_of(view.claim)),
                ("pr"@, optional_json::<PrSummary>(view.pr)),
                ("github_state"@, JsonView::Text(github_state_text(view.github_state))),
                ("diff"@, DiffSummary::json_of(view.diff)),
                ("overlaps"@, list_json::<DiffOverlap>(view.overlaps)),
                ("scope_warnings"@, list_json::<ScopeWarning>(view.scope_warnings)),
                ("stack_warnings"@, list_json::<StackWarning>(view.stack_warnings)),
            ],
        )
    }

    fn document(&self) -> (json: Json) {
        let members: Vec<(&str, Json)> = vec![
            ("claim", self.claim.document()),
            ("pr", write_optional(&self.pr)),
            ("github_state", text(github_state_name(self.github_state))),
            ("diff", self.diff.document()),
            ("overlaps", write_list(&self.overlaps)),
            ("scope_warnings", write_list(&self.scope_warnings)),
            ("stack_warnings", write_list(&self.stack_warnings)),
        ];
        assert(named(members@) =~= Self::json_of(self@)->Object_0);
        object(members)
    }
}

/// What a status comes to in one word.
pub open spec fn status_word(report: StatusView) -> Seq<char> {
    if report.warns() {
        "warning"@
    } else {
        "success"@
    }
}

/// The document of a status.
pub fn status_document(report: &StatusReport) -> (json: Json)
    ensures
        json@ == document_with(
            "status"@,
            status_word(report@),
            ("claims"@, list_json::<ClaimStatus>(report@.claims)),
            ("problems"@, list_json::<LocalProblem>(report@.problems)),
        ),
{
    let status = if report.has_warnings() {
        "warning"
    } else {
        "success"
    };
    make_document_with(
        "status",
        status,
        "claims",
        write_list(&report.claims),
        "problems",
        write_list(&report.problems),
    )
}

// ---------------------------------------------------------------------------------------------
// Doctor reports
// ---------------------------------------------------------------------------------------------
/// A member that is there only sometimes.
pub open spec fn member_if(there: bool, name: Seq<char>, value: JsonView) -> Seq<
    (Seq<char>, JsonView),
> {
    if there {
        seq![(name, value)]
    } else {
        Seq::empty()
    }
}

impl Documented for DoctorSubject {
    open spec fn json_of(view: SubjectView) -> JsonView {
        JsonView::Object(
            seq![("repo"@, JsonView::Text(view.repo))] + member_if(
                view.issue is Some,
                "issue"@,
                optional_issue_json(view.issue),
            ) + member_if(view.stack, "stack"@, JsonView::Bool(true)),
        )
    }

    fn document(&self) -> (json: Json) {
        let mut members: Vec<(&str, Json)> = vec![("repo", text(self.repo.as_str()))];
        if self.issue.is_some() {
            members.push(("issue", write_optional_issue(self.issue)));
        }
        if self.stack {
            members.push(("stack", Json::Bool(true)));
        }
        assert(named(members@) =~= Self::json_of(self@)->Object_0);
        object(members)
    }
}

impl Documented for DoctorCheck {
    open spec fn json_of(view: CheckView) -> JsonView {
        JsonView::Object(
            seq![
                ("id"@, JsonView::Text(view.id)),
                ("gate"@, JsonView::Text(view.gate.name())),
                ("title"@, JsonView::Text(view.title)),
                ("status"@, JsonView::Text(view.status.name())),
            ] + member_if(view.required, "required"@, JsonView::Bool(true)) + seq![
                ("message"@, JsonView::Text(view.message)),
            ] + member_if(view.evidence is Some, "evidence"@, or_null(view.evidence)),
        )
    }

    fn document(&self) -> (json: Json) {
        let mut members: Vec<(&str, Json)> = vec![
            ("id", text(self.id.as_str())),
            ("gate", text(self.gate.as_str())),
            ("title", text(self.title.as_str())),
            ("status", text(self.status.as_str())),
        ];
        if self.required {
            members.push(("required", Json::Bool(true)));
        }
        members.push(("message", text(self.message.as_str())));
        if let Some(evidence) = &self.evidence {
            members.push(("evidence", evidence.clone()));
        }
        assert(named(members@) =~= Self::json_of(self@)->Object_0);
        object(members)
    }
}

/// The value of the roll-ups of the gates.
pub open spec fn gates_json(gates: GateRollups) -> JsonView {
    JsonView::Object(
        seq![
            ("integrity"@, JsonView::Text(gates.integrity.name())),
            ("publish"@, JsonView::Text(gates.publish.name())),
            ("merge"@, JsonView::Text(gates.merge.name())),
        ],
    )
}

fn write_gates(gates: GateRollups) -> (json: Json)
    ensures
        json@ == gates_json(gates),
{
    let members: Vec<(&str, Json)> = vec![
        ("integrity", text(gates.integrity.as_str())),
        ("publish", text(gates.publish.as_str())),
        ("merge", text(gates.merge.as_str())),
    ];
    assert(named(members@) =~= gates_json(gates)->Object_0);
    object(members)
}

impl Documented for DoctorNodeReport {
    open spec fn json_of(view: NodeReportView) -> JsonView {
        JsonView::Object(
            seq![
                ("issue"@, JsonView::Unsigned(view.issue)),
                ("claim_id"@, id_json(view.claim_id)),
                ("status"@, JsonView::Text(view.status.name())),
                ("gates"@, gates_json(view.gates)),
                ("checks"@, list_json::<DoctorCheck>(view.checks)),
                ("recommendations"@, texts_json(view.recommendations)),
            ],
        )
    }

    fn document(&self) -> (json: Json) {
        let members: Vec<(&str, Json)> = vec![
            ("issue", Json::Unsigned(self.issue)),
            ("claim_id", write_id(self.claim_id)),
            ("status", text(self.status.as_str())),
            ("gates", write_gates(self.gates)),
            ("checks", write_list(&self.checks)),
            ("recommendations", write_texts(&self.recommendations)),
        ];
        assert(named(members@) =~= Self::json_of(self@)->Object_0);
        object(members)
    }
}

impl Documented for DoctorReport {
    open spec fn json_of(view: ReportView) -> JsonView {
        JsonView::Object(
            seq![
                ("subject"@, DoctorSubject::json_of(view.subject)),
                ("status"@, JsonView::Text(view.status.name())),
                ("gates"@, gates_json(view.gates)),
                ("checks"@, list_json::<DoctorCheck>(view.checks)),
                ("recommendations"@, texts_json(view.recommendations)),
                ("generated_at"@, instant_evidence(view.generated_at)),
            ] + member_if(
                view.nodes.len() > 0,
                "nodes"@,
                list_json::<DoctorNodeReport>(view.nodes),
            ),
        )
    }

    fn document(&self) -> (json: Json) {
        let mut members: Vec<(&str, Json)> = vec![
            ("subject", self.subject.document()),
            ("status", text(self.status.as_str())),
            ("gates", write_gates(self.gates)),
            ("checks", write_list(&self.checks)),
            ("recommendations", write_texts(&self.recommendations)),
            ("generated_at", instant_value(self.generated_at)),
        ];
        if self.nodes.len() > 0 {
            members.push(("nodes", write_list(&self.nodes)));
        }
        assert(named(members@) =~= Self::json_of(self@)->Object_0);
        object(members)
    }
}

/// The document of a doctor report.
pub fn doctor_document(report: &DoctorReport) -> (json: Json)
    ensures
        json@ == document_of(
            "doctor"@,
            report@.status.name(),
            "doctor"@,
            DoctorReport::json_of(report@),
        ),
{
    make_document("doctor", report.status.as_str(), "doctor", report.document())
}

} // verus!
