//! How records are written as JSON values and read back.
use vstd::prelude::*;
use vstd::string::*;

use crate::id::{id_string, id_text, parse_id, parsed_id, Id, IssueNumber};
use crate::json::{
    deeper_is_printable, field_of, is_record, list_view, member_at, members_view, names_of,
    object_view, printable, record_field, record_shape, Json, JsonView, DEPTH,
};
use crate::model::{
    Claim, ClaimView, DeclaredScope, ModelError, OperationKind, OperationPhase, OperationRecord,
    OperationView, ReleaseMarker, ReleaseReason, ReleaseView, RunMode, RunRecord, RunState, RunView,
    ScopeView, Validate, WaitForRef, SCHEMA_VERSION,
};
use crate::path::absolute;
use crate::text::{optional, same, views};
use crate::time::{full_notation, full_text, parse_instant, parsed_instant, Timestamp};

verus! {

// ---------------------------------------------------------------------------------------------
// Single values
// ---------------------------------------------------------------------------------------------
/// What a field holds, where the record has the field.
pub open spec fn seen(value: Option<&Json>) -> Option<JsonView> {
    match value {
        Some(value) => Some(value@),
        None => None,
    }
}

pub open spec fn text_in(value: Option<JsonView>) -> Option<Seq<char>> {
    match value {
        Some(JsonView::Text(text)) => Some(text),
        _ => None,
    }
}

pub fn read_text(value: Option<&Json>) -> (text: Option<String>)
    ensures
        optional(text) == text_in(seen(value)),
{
    match value {
        Some(Json::Text(text)) => Some(text.clone()),
        _ => None,
    }
}

/// A field that may be missing or null, and else holds a text.
pub open spec fn optional_text_in(value: Option<JsonView>) -> Option<Option<Seq<char>>> {
    match value {
        None | Some(JsonView::Null) => Some(None),
        Some(JsonView::Text(text)) => Some(Some(text)),
        _ => None,
    }
}

pub fn read_optional_text(value: Option<&Json>) -> (text: Option<Option<String>>)
    ensures
        match text {
            Some(text) => optional_text_in(seen(value)) == Some(optional(text)),
            None => optional_text_in(seen(value)) is None,
        },
{
    match value {
        None | Some(Json::Null) => Some(None),
        Some(Json::Text(text)) => Some(Some(text.clone())),
        _ => None,
    }
}

pub open spec fn issue_in(value: Option<JsonView>) -> Option<IssueNumber> {
    match value {
        Some(JsonView::Unsigned(n)) if n != 0 => Some(n),
        _ => None,
    }
}

pub fn read_issue(value: Option<&Json>) -> (issue: Option<IssueNumber>)
    ensures
        issue == issue_in(seen(value)),
{
    match value {
        Some(Json::Unsigned(n)) => if *n != 0 {
            Some(*n)
        } else {
            None
        },
        _ => None,
    }
}

pub open spec fn optional_issue_in(value: Option<JsonView>) -> Option<Option<IssueNumber>> {
    match value {
        None | Some(JsonView::Null) => Some(None),
        Some(JsonView::Unsigned(n)) if n != 0 => Some(Some(n)),
        _ => None,
    }
}

fn read_optional_issue(value: Option<&Json>) -> (issue: Option<Option<IssueNumber>>)
    ensures
        issue == optional_issue_in(seen(value)),
{
    match value {
        None | Some(Json::Null) => Some(None),
        Some(Json::Unsigned(n)) => if *n != 0 {
            Some(Some(*n))
        } else {
            None
        },
        _ => None,
    }
}

pub open spec fn id_in(value: Option<JsonView>) -> Option<Id> {
    match value {
        Some(JsonView::Text(text)) => parsed_id(text),
        _ => None,
    }
}

pub fn read_id(value: Option<&Json>) -> (id: Option<Id>)
    ensures
        id == id_in(seen(value)),
{
    match value {
        Some(Json::Text(text)) => parse_id(text.as_str()),
        _ => None,
    }
}

pub open spec fn optional_id_in(value: Option<JsonView>) -> Option<Option<Id>> {
    match value {
        None | Some(JsonView::Null) => Some(None),
        Some(JsonView::Text(text)) => match parsed_id(text) {
            Some(id) => Some(Some(id)),
            None => None,
        },
        _ => None,
    }
}

fn read_optional_id(value: Option<&Json>) -> (id: Option<Option<Id>>)
    ensures
        id == optional_id_in(seen(value)),
{
    match value {
        None | Some(Json::Null) => Some(None),
        Some(Json::Text(text)) => match parse_id(text.as_str()) {
            Some(id) => Some(Some(id)),
            None => None,
        },
        _ => None,
    }
}

pub open spec fn instant_in(value: Option<JsonView>) -> Option<Timestamp> {
    match value {
        Some(JsonView::Text(text)) => parsed_instant(text),
        _ => None,
    }
}

fn read_instant(value: Option<&Json>) -> (at: Option<Timestamp>)
    ensures
        at == instant_in(seen(value)),
{
    match value {
        Some(Json::Text(text)) => parse_instant(text.as_str()),
        _ => None,
    }
}

pub open spec fn optional_instant_in(value: Option<JsonView>) -> Option<Option<Timestamp>> {
    match value {
        None | Some(JsonView::Null) => Some(None),
        Some(JsonView::Text(text)) => match parsed_instant(text) {
            Some(at) => Some(Some(at)),
            None => None,
        },
        _ => None,
    }
}

fn read_optional_instant(value: Option<&Json>) -> (at: Option<Option<Timestamp>>)
    ensures
        at == optional_instant_in(seen(value)),
{
    match value {
        None | Some(Json::Null) => Some(None),
        Some(Json::Text(text)) => match parse_instant(text.as_str()) {
            Some(at) => Some(Some(at)),
            None => None,
        },
        _ => None,
    }
}

pub open spec fn optional_u32_in(value: Option<JsonView>) -> Option<Option<u32>> {
    match value {
        None | Some(JsonView::Null) => Some(None),
        Some(JsonView::Unsigned(n)) if n <= u32::MAX => Some(Some(n as u32)),
        _ => None,
    }
}

fn read_optional_u32(value: Option<&Json>) -> (n: Option<Option<u32>>)
    ensures
        n == optional_u32_in(seen(value)),
{
    match value {
        None | Some(Json::Null) => Some(None),
        Some(Json::Unsigned(n)) => if *n <= u32::MAX as u64 {
            Some(Some(*n as u32))
        } else {
            None
        },
        _ => None,
    }
}

pub open spec fn optional_i32_in(value: Option<JsonView>) -> Option<Option<i32>> {
    match value {
        None | Some(JsonView::Null) => Some(None),
        Some(JsonView::Unsigned(n)) if n <= i32::MAX => Some(Some(n as i32)),
        Some(JsonView::Negative(n)) if i32::MIN <= n <= i32::MAX => Some(Some(n as i32)),
        _ => None,
    }
}

fn read_optional_i32(value: Option<&Json>) -> (n: Option<Option<i32>>)
    ensures
        n == optional_i32_in(seen(value)),
{
    match value {
        None | Some(Json::Null) => Some(None),
        Some(Json::Unsigned(n)) => if *n <= i32::MAX as u64 {
            Some(Some(*n as i32))
        } else {
            None
        },
        Some(Json::Negative(n)) => if i32::MIN as i64 <= *n && *n <= i32::MAX as i64 {
            Some(Some(*n as i32))
        } else {
            None
        },
        _ => None,
    }
}

/// The name of a variant: a text, or an object with that one member, which is null.
pub open spec fn variant_in(value: Option<JsonView>) -> Option<Seq<char>> {
    match value {
        Some(JsonView::Text(name)) => Some(name),
        Some(JsonView::Object(members)) if members.len() == 1 && members[0].1 is Null => Some(
            members[0].0,
        ),
        _ => None,
    }
}

fn read_variant(value: Option<&Json>) -> (name: Option<String>)
    ensures
        optional(name) == variant_in(seen(value)),
{
    match value {
        Some(Json::Text(name)) => Some(name.clone()),
        Some(Json::Object(members)) => {
            proof {
                object_view(*members);
            }
            if members.len() == 1 {
                match &members[0].1 {
                    Json::Null => Some(members[0].0.clone()),
                    _ => None,
                }
            } else {
                None
            }
        },
        _ => None,
    }
}

/// A list of texts.
pub open spec fn texts_in(value: JsonView) -> Option<Seq<Seq<char>>> {
    match value {
        JsonView::List(items) => if forall|i: int| 0 <= i < items.len() ==> items[i] is Text {
            Some(Seq::new(items.len(), |i: int| items[i]->Text_0))
        } else {
            None
        },
        _ => None,
    }
}

/// A list of texts that is empty where the field is missing.
pub open spec fn default_texts_in(value: Option<JsonView>) -> Option<Seq<Seq<char>>> {
    match value {
        None => Some(Seq::empty()),
        Some(value) => texts_in(value),
    }
}

fn read_default_texts(value: Option<&Json>) -> (texts: Option<Vec<String>>)
    ensures
        match texts {
            Some(texts) => default_texts_in(seen(value)) == Some(views(texts@)),
            None => default_texts_in(seen(value)) is None,
        },
{
    match value {
        None => {
            let texts: Vec<String> = Vec::new();
            assert(views(texts@) =~= Seq::empty());
            Some(texts)
        },
        Some(Json::List(items)) => {
            proof {
                list_view(*items);
            }
            let ghost all = views(items@);
            let mut texts: Vec<String> = Vec::new();
            let mut i: usize = 0;
            while i < items.len()
                invariant
                    i <= items.len(),
                    texts.len() == i,
                    all == views(items@),
                    seen(value) == Some(JsonView::List(all)),
                    forall|j: int|
                        0 <= j < i ==> (#[trigger] all[j]) is Text && all[j]->Text_0 == texts@[j]@,
                decreases items.len() - i,
            {
                assert(all[i as int] == items@[i as int]@);
                match &items[i] {
                    Json::Text(text) => texts.push(text.clone()),
                    _ => {
                        assert(!(all[i as int] is Text));
                        return None;
                    },
                }
                i = i + 1;
            }
            assert(views(texts@) =~= Seq::new(all.len(), |i: int| all[i]->Text_0));
            Some(texts)
        },
        Some(_) => None,
    }
}

pub open spec fn text_json(text: Seq<char>) -> JsonView {
    JsonView::Text(text)
}

pub open spec fn optional_text_json(text: Option<Seq<char>>) -> JsonView {
    match text {
        Some(text) => JsonView::Text(text),
        None => JsonView::Null,
    }
}

pub fn write_optional_text(text: &Option<String>) -> (json: Json)
    ensures
        json@ == optional_text_json(optional(*text)),
{
    match text {
        Some(text) => Json::Text(text.clone()),
        None => Json::Null,
    }
}

pub open spec fn optional_issue_json(issue: Option<IssueNumber>) -> JsonView {
    match issue {
        Some(issue) => JsonView::Unsigned(issue),
        None => JsonView::Null,
    }
}

pub fn write_optional_issue(issue: Option<IssueNumber>) -> (json: Json)
    ensures
        json@ == optional_issue_json(issue),
{
    match issue {
        Some(issue) => Json::Unsigned(issue),
        None => Json::Null,
    }
}

pub open spec fn id_json(id: Id) -> JsonView {
    JsonView::Text(id_text(id))
}

pub fn write_id(id: Id) -> (json: Json)
    ensures
        json@ == id_json(id),
        id_in(Some(json@)) == Some(id),
{
    Json::Text(id_string(id))
}

pub open spec fn optional_id_json(id: Option<Id>) -> JsonView {
    match id {
        Some(id) => id_json(id),
        None => JsonView::Null,
    }
}

pub fn write_optional_id(id: Option<Id>) -> (json: Json)
    ensures
        json@ == optional_id_json(id),
        optional_id_in(Some(json@)) == Some(id),
{
    match id {
        Some(id) => Json::Text(id_string(id)),
        None => Json::Null,
    }
}

/// The value of an instant, where it has a notation.
pub open spec fn instant_json(at: Timestamp) -> Option<JsonView> {
    match full_notation(at.secs, at.nanos) {
        Some(text) => Some(JsonView::Text(text)),
        None => None,
    }
}

pub fn write_instant(at: Timestamp) -> (json: Option<Json>)
    ensures
        optional(json) == instant_json(at),
        at.covered() ==> (json matches Some(json) && instant_in(Some(json@)) == Some(at)),
{
    match full_text(at) {
        Some(text) => Some(Json::Text(text)),
        None => None,
    }
}

/// The value of an instant that there may be none of.
pub open spec fn optional_instant_json(at: Option<Timestamp>) -> Option<JsonView> {
    match at {
        Some(at) => instant_json(at),
        None => Some(JsonView::Null),
    }
}

pub fn write_optional_instant(at: Option<Timestamp>) -> (json: Option<Json>)
    ensures
        optional(json) == optional_instant_json(at),
        (at matches Some(at) ==> at.covered()) ==> (json matches Some(json)
            && optional_instant_in(Some(json@)) == Some(at)),
{
    match at {
        Some(at) => match full_text(at) {
            Some(text) => Some(Json::Text(text)),
            None => None,
        },
        None => Some(Json::Null),
    }
}

pub open spec fn texts_json(texts: Seq<Seq<char>>) -> JsonView {
    JsonView::List(Seq::new(texts.len(), |i: int| JsonView::Text(texts[i])))
}

pub fn write_texts(texts: &Vec<String>) -> (json: Json)
    ensures
        json@ == texts_json(views(texts@)),
{
    let mut items: Vec<Json> = Vec::new();
    let mut i: usize = 0;
    while i < texts.len()
        invariant
            i <= texts.len(),
            items.len() == i,
            forall|j: int| 0 <= j < i ==> (#[trigger] items@[j])@ == JsonView::Text(texts@[j]@),
        decreases texts.len() - i,
    {
        items.push(Json::Text(texts[i].clone()));
        i = i + 1;
    }
    proof {
        list_view(items);
        assert(views(items@) =~= Seq::new(
            texts@.len(),
            |i: int| JsonView::Text(views(texts@)[i]),
        ));
    }
    Json::List(items)
}

/// An object whose members are named as the fields of a record, in their order, reads as that
/// record.
pub proof fn named_fields(members: Seq<(Seq<char>, JsonView)>, names: Seq<Seq<char>>)
    requires
        members.len() == names.len(),
        forall|i: int| 0 <= i < names.len() ==> (#[trigger] members[i]).0 == names[i],
        names.no_duplicates(),
    ensures
        record_shape(JsonView::Object(members), names),
        forall|i: int|
            0 <= i < names.len() ==> #[trigger] record_field(JsonView::Object(members), names, i)
                == Some(members[i].1),
{
    assert forall|i: int| 0 <= i < names.len() implies #[trigger] record_field(
        JsonView::Object(members),
        names,
        i,
    ) == Some(members[i].1) by {
        assert forall|j: int| 0 <= j < i implies (#[trigger] members[j]).0 != members[i].0 by {
            assert(names[j] != names[i]);
        }
        member_at(members, i);
    }
    assert forall|i: int| 0 <= i < members.len() implies names.contains(
        #[trigger] members[i].0,
    ) by {
        assert(names[i] == members[i].0);
    }
}

// ---------------------------------------------------------------------------------------------
// Claims
// ---------------------------------------------------------------------------------------------
pub open spec fn wait_for_fields() -> Seq<Seq<char>> {
    seq!["issue"@, "claim_id"@]
}

pub open spec fn wait_for_ref_in(value: JsonView) -> Option<WaitForRef> {
    let names = wait_for_fields();
    let issue = issue_in(record_field(value, names, 0));
    let claim_id = optional_id_in(record_field(value, names, 1));
    if record_shape(value, names) && issue is Some && claim_id is Some {
        Some(WaitForRef { issue: issue->0, claim_id: claim_id->0 })
    } else {
        None
    }
}

fn read_wait_for_ref(value: &Json) -> (result: Option<WaitForRef>)
    ensures
        result == wait_for_ref_in(value@),
{
    let names: Vec<&str> = vec!["issue", "claim_id"];
    assert(views(names@) =~= wait_for_fields());
    if !is_record(value, &names) {
        return None;
    }
    let issue: IssueNumber = match read_issue(field_of(value, &names, 0)) {
        Some(issue) => issue,
        None => return None,
    };
    let claim_id: Option<Id> = match read_optional_id(field_of(value, &names, 1)) {
        Some(claim_id) => claim_id,
        None => return None,
    };
    Some(WaitForRef { issue, claim_id })
}

/// The references of a list, which is empty where the field is missing.
pub open spec fn wait_for_in(value: Option<JsonView>) -> Option<Seq<WaitForRef>> {
    match value {
        None => Some(Seq::empty()),
        Some(JsonView::List(items)) => if forall|i: int|
            0 <= i < items.len() ==> wait_for_ref_in(#[trigger] items[i]) is Some {
            Some(Seq::new(items.len(), |i: int| wait_for_ref_in(items[i])->0))
        } else {
            None
        },
        Some(_) => None,
    }
}

fn read_wait_for(value: Option<&Json>) -> (result: Option<Vec<WaitForRef>>)
    ensures
        match result {
            Some(refs) => wait_for_in(seen(value)) == Some(refs@),
            None => wait_for_in(seen(value)) is None,
        },
{
    match value {
        None => {
            let refs: Vec<WaitForRef> = Vec::new();
            assert(refs@ =~= Seq::empty());
            Some(refs)
        },
        Some(Json::List(items)) => {
            proof {
                list_view(*items);
            }
            let ghost all = views(items@);
            let mut refs: Vec<WaitForRef> = Vec::new();
            let mut i: usize = 0;
            while i < items.len()
                invariant
                    i <= items.len(),
                    refs.len() == i,
                    all == views(items@),
                    seen(value) == Some(JsonView::List(all)),
                    forall|j: int|
                        0 <= j < i ==> wait_for_ref_in(#[trigger] all[j]) == Some(refs@[j]),
                decreases items.len() - i,
            {
                assert(all[i as int] == items@[i as int]@);
                match read_wait_for_ref(&items[i]) {
                    Some(reference) => refs.push(reference),
                    None => {
                        assert(wait_for_ref_in(all[i as int]) is None);
                        return None;
                    },
                }
                i = i + 1;
            }
            assert(refs@ =~= Seq::new(all.len(), |i: int| wait_for_ref_in(all[i])->0));
            Some(refs)
        },
        Some(_) => None,
    }
}

pub open spec fn wait_for_ref_json(reference: WaitForRef) -> JsonView {
    JsonView::Object(
        seq![
            ("issue"@, JsonView::Unsigned(reference.issue)),
            ("claim_id"@, optional_id_json(reference.claim_id)),
        ],
    )
}

fn write_wait_for_ref(reference: WaitForRef) -> (json: Json)
    ensures
        json@ == wait_for_ref_json(reference),
        reference.issue != 0 ==> wait_for_ref_in(json@) == Some(reference),
{
    let claim_id = write_optional_id(reference.claim_id);
    let ghost claim_id_json = claim_id@;
    let members: Vec<(String, Json)> = vec![
        ("issue".to_owned(), Json::Unsigned(reference.issue)),
        ("claim_id".to_owned(), claim_id),
    ];
    let json = Json::Object(members);
    proof {
        object_view(members);
        let written = members_view(members@);
        assert(written =~= wait_for_ref_json(reference)->Object_0);
        let names = wait_for_fields();
        reveal_strlit("issue");
        reveal_strlit("claim_id");
        assert(names[0].len() != names[1].len());
        assert(names.no_duplicates());
        named_fields(written, names);
        assert(record_field(json@, names, 0) == Some(JsonView::Unsigned(reference.issue)));
        assert(record_field(json@, names, 1) == Some(claim_id_json));
    }
    json
}

pub open spec fn wait_for_json(refs: Seq<WaitForRef>) -> JsonView {
    JsonView::List(Seq::new(refs.len(), |i: int| wait_for_ref_json(refs[i])))
}

/// Whether every issue that a list refers to has a number.
pub open spec fn numbered(refs: Seq<WaitForRef>) -> bool {
    forall|i: int| 0 <= i < refs.len() ==> (#[trigger] refs[i]).issue != 0
}

pub fn write_wait_for(refs: &Vec<WaitForRef>) -> (json: Json)
    ensures
        json@ == wait_for_json(refs@),
        numbered(refs@) ==> wait_for_in(Some(json@)) == Some(refs@),
{
    let mut items: Vec<Json> = Vec::new();
    let mut i: usize = 0;
    while i < refs.len()
        invariant
            i <= refs.len(),
            items.len() == i,
            forall|j: int|
                0 <= j < i ==> (#[trigger] items@[j])@ == wait_for_ref_json(refs@[j]) && (refs@[j].issue
                    != 0 ==> wait_for_ref_in(items@[j]@) == Some(refs@[j])),
        decreases refs.len() - i,
    {
        items.push(write_wait_for_ref(refs[i]));
        i = i + 1;
    }
    let json = Json::List(items);
    proof {
        list_view(items);
        let all = views(items@);
        assert(all =~= wait_for_json(refs@)->List_0);
        if numbered(refs@) {
            assert forall|j: int| 0 <= j < all.len() implies wait_for_ref_in(#[trigger] all[j])
                == Some(refs@[j]) by {
                assert(all[j] == items@[j]@);
                assert(refs@[j].issue != 0);
            }
            assert(Seq::new(all.len(), |i: int| wait_for_ref_in(all[i])->0) =~= refs@);
        }
    }
    json
}

pub open spec fn scope_fields() -> Seq<Seq<char>> {
    seq!["allowed_paths"@, "disallowed_paths"@]
}

/// A scope may leave out either list; written as a list, it may also be shorter.
pub open spec fn scope_in(value: JsonView) -> Option<ScopeView> {
    let names = scope_fields();
    let allowed = default_texts_in(record_field(value, names, 0));
    let disallowed = default_texts_in(record_field(value, names, 1));
    let shape = match value {
        JsonView::List(items) => items.len() <= 2,
        _ => record_shape(value, names),
    };
    if shape && allowed is Some && disallowed is Some {
        Some(ScopeView { allowed_paths: allowed->0, disallowed_paths: disallowed->0 })
    } else {
        None
    }
}

fn read_scope(value: &Json) -> (result: Option<DeclaredScope>)
    ensures
        optional(result) == scope_in(value@),
{
    let names: Vec<&str> = vec!["allowed_paths", "disallowed_paths"];
    assert(views(names@) =~= scope_fields());
    let shape = match value {
        Json::List(items) => items.len() <= 2,
        _ => is_record(value, &names),
    };
    if !shape {
        return None;
    }
    let allowed_paths = match read_default_texts(field_of(value, &names, 0)) {
        Some(paths) => paths,
        None => return None,
    };
    let disallowed_paths = match read_default_texts(field_of(value, &names, 1)) {
        Some(paths) => paths,
        None => return None,
    };
    Some(DeclaredScope { allowed_paths, disallowed_paths })
}

pub open spec fn optional_scope_in(value: Option<JsonView>) -> Option<Option<ScopeView>> {
    match value {
        None | Some(JsonView::Null) => Some(None),
        Some(value) => match scope_in(value) {
            Some(scope) => Some(Some(scope)),
            None => None,
        },
    }
}

fn read_optional_scope(value: Option<&Json>) -> (result: Option<Option<DeclaredScope>>)
    ensures
        match result {
            Some(scope) => optional_scope_in(seen(value)) == Some(optional(scope)),
            None => optional_scope_in(seen(value)) is None,
        },
{
    match value {
        None | Some(Json::Null) => Some(None),
        Some(value) => match read_scope(value) {
            Some(scope) => Some(Some(scope)),
            None => None,
        },
    }
}

pub open spec fn scope_json(scope: ScopeView) -> JsonView {
    JsonView::Object(
        seq![
            ("allowed_paths"@, texts_json(scope.allowed_paths)),
            ("disallowed_paths"@, texts_json(scope.disallowed_paths)),
        ],
    )
}

fn write_scope(scope: &DeclaredScope) -> (json: Json)
    ensures
        json@ == scope_json(scope@),
        scope_in(json@) == Some(scope@),
{
    let members: Vec<(String, Json)> = vec![
        ("allowed_paths".to_owned(), write_texts(&scope.allowed_paths)),
        ("disallowed_paths".to_owned(), write_texts(&scope.disallowed_paths)),
    ];
    let json = Json::Object(members);
    proof {
        object_view(members);
        let written = members_view(members@);
        assert(written =~= scope_json(scope@)->Object_0);
        let names = scope_fields();
        reveal_strlit("allowed_paths");
        reveal_strlit("disallowed_paths");
        assert(names[0].len() != names[1].len());
        assert(names.no_duplicates());
        named_fields(written, names);
        let allowed = texts_json(scope@.allowed_paths);
        let disallowed = texts_json(scope@.disallowed_paths);
        assert(record_field(json@, names, 0) == Some(allowed));
        assert(record_field(json@, names, 1) == Some(disallowed));
        assert(texts_in(allowed)->0 =~= scope@.allowed_paths);
        assert(texts_in(disallowed)->0 =~= scope@.disallowed_paths);
    }
    json
}

pub open spec fn optional_scope_json(scope: Option<ScopeView>) -> JsonView {
    match scope {
        Some(scope) => scope_json(scope),
        None => JsonView::Null,
    }
}

fn write_optional_scope(scope: &Option<DeclaredScope>) -> (json: Json)
    ensures
        json@ == optional_scope_json(optional(*scope)),
        optional_scope_in(Some(json@)) == Some(optional(*scope)),
{
    match scope {
        Some(scope) => write_scope(scope),
        None => Json::Null,
    }
}

pub open spec fn claim_fields() -> Seq<Seq<char>> {
    seq![
        "schema_version"@,
        "claim_id"@,
        "repo"@,
        "issue"@,
        "title"@,
        "branch"@,
        "worktree"@,
        "base_remote"@,
        "base_ref"@,
        "base_sha"@,
        "base_issue"@,
        "base_claim_id"@,
        "wait_for"@,
        "declared_scope"@,
        "note"@,
        "created_at"@,
    ]
}

proof fn claim_fields_distinct()
    ensures
        claim_fields().no_duplicates(),
{
    reveal_strlit("schema_version");
    reveal_strlit("claim_id");
    reveal_strlit("repo");
    reveal_strlit("issue");
    reveal_strlit("title");
    reveal_strlit("branch");
    reveal_strlit("worktree");
    reveal_strlit("base_remote");
    reveal_strlit("base_ref");
    reveal_strlit("base_sha");
    reveal_strlit("base_issue");
    reveal_strlit("base_claim_id");
    reveal_strlit("wait_for");
    reveal_strlit("declared_scope");
    reveal_strlit("note");
    reveal_strlit("created_at");
    let names = claim_fields();
    assert forall|i: int, j: int| 0 <= i < j < 16 implies names[i] != names[j] by {
        assert(names[i].len() != names[j].len() || names[i][0] != names[j][0] || names[i][1]
            != names[j][1] || names[i][5] != names[j][5] || names[i][6] != names[j][6]);
    }
}

/// The claim that a value is the record of, rules apart.
pub open spec fn claim_in(value: JsonView) -> Option<ClaimView> {
    let names = claim_fields();
    let schema_version = text_in(record_field(value, names, 0));
    let claim_id = id_in(record_field(value, names, 1));
    let repo = text_in(record_field(value, names, 2));
    let issue = issue_in(record_field(value, names, 3));
    let title = optional_text_in(record_field(value, names, 4));
    let branch = text_in(record_field(value, names, 5));
    let worktree = text_in(record_field(value, names, 6));
    let base_remote = text_in(record_field(value, names, 7));
    let base_ref = text_in(record_field(value, names, 8));
    let base_sha = text_in(record_field(value, names, 9));
    let base_issue = optional_issue_in(record_field(value, names, 10));
    let base_claim_id = optional_id_in(record_field(value, names, 11));
    let wait_for = wait_for_in(record_field(value, names, 12));
    let declared_scope = optional_scope_in(record_field(value, names, 13));
    let note = optional_text_in(record_field(value, names, 14));
    let created_at = instant_in(record_field(value, names, 15));
    if record_shape(value, names) && schema_version is Some && claim_id is Some && repo is Some
        && issue is Some && title is Some && branch is Some && worktree is Some && base_remote is Some
        && base_ref is Some && base_sha is Some && base_issue is Some && base_claim_id is Some
        && wait_for is Some && declared_scope is Some && note is Some && created_at is Some {
        Some(
            ClaimView {
                schema_version: schema_version->0,
                claim_id: claim_id->0,
                repo: repo->0,
                issue: issue->0,
                title: title->0,
                branch: branch->0,
                worktree: worktree->0,
                base_remote: base_remote->0,
                base_ref: base_ref->0,
                base_sha: base_sha->0,
                base_issue: base_issue->0,
                base_claim_id: base_claim_id->0,
                wait_for: wait_for->0,
                declared_scope: declared_scope->0,
                note: note->0,
                created_at: created_at->0,
            },
        )
    } else {
        None
    }
}

/// The value that a claim is recorded as, where its instant has a notation.
pub open spec fn claim_json(claim: ClaimView) -> Option<JsonView> {
    match instant_json(claim.created_at) {
        Some(created_at) => Some(
            JsonView::Object(
                seq![
                    ("schema_version"@, text_json(claim.schema_version)),
                    ("claim_id"@, id_json(claim.claim_id)),
                    ("repo"@, text_json(claim.repo)),
                    ("issue"@, JsonView::Unsigned(claim.issue)),
                    ("title"@, optional_text_json(claim.title)),
                    ("branch"@, text_json(claim.branch)),
                    ("worktree"@, text_json(claim.worktree)),
                    ("base_remote"@, text_json(claim.base_remote)),
                    ("base_ref"@, text_json(claim.base_ref)),
                    ("base_sha"@, text_json(claim.base_sha)),
                    ("base_issue"@, optional_issue_json(claim.base_issue)),
                    ("base_claim_id"@, optional_id_json(claim.base_claim_id)),
                    ("wait_for"@, wait_for_json(claim.wait_for)),
                    ("declared_scope"@, optional_scope_json(claim.declared_scope)),
                    ("note"@, optional_text_json(claim.note)),
                    ("created_at"@, created_at),
                ],
            ),
        ),
        None => None,
    }
}

impl ClaimView {
    /// Whether the claim holds what a record can hold: positive issue numbers, and an instant that
    /// has a notation.
    pub open spec fn recordable(self) -> bool {
        &&& self.issue != 0
        &&& self.base_issue != Some(0u64)
        &&& numbered(self.wait_for)
        &&& self.created_at.covered()
    }
}

fn read_claim(value: &Json) -> (result: Option<Claim>)
    ensures
        optional(result) == claim_in(value@),
{
    let names: Vec<&str> = vec![
        "schema_version",
        "claim_id",
        "repo",
        "issue",
        "title",
        "branch",
        "worktree",
        "base_remote",
        "base_ref",
        "base_sha",
        "base_issue",
        "base_claim_id",
        "wait_for",
        "declared_scope",
        "note",
        "created_at",
    ];
    assert(views(names@) =~= claim_fields());
    if !is_record(value, &names) {
        return None;
    }
    let schema_version = read_text(field_of(value, &names, 0))?;
    let claim_id: Id = read_id(field_of(value, &names, 1))?;
    let repo = read_text(field_of(value, &names, 2))?;
    let issue: IssueNumber = read_issue(field_of(value, &names, 3))?;
    let title = read_optional_text(field_of(value, &names, 4))?;
    let branch = read_text(field_of(value, &names, 5))?;
    let worktree = read_text(field_of(value, &names, 6))?;
    let base_remote = read_text(field_of(value, &names, 7))?;
    let base_ref = read_text(field_of(value, &names, 8))?;
    let base_sha = read_text(field_of(value, &names, 9))?;
    let base_issue: Option<IssueNumber> = read_optional_issue(field_of(value, &names, 10))?;
    let base_claim_id: Option<Id> = read_optional_id(field_of(value, &names, 11))?;
    let wait_for = read_wait_for(field_of(value, &names, 12))?;
    let declared_scope = read_optional_scope(field_of(value, &names, 13))?;
    let note = read_optional_text(field_of(value, &names, 14))?;
    let created_at = read_instant(field_of(value, &names, 15))?;
    Some(
        Claim {
            schema_version,
            claim_id,
            repo,
            issue,
            title,
            branch,
            worktree,
            base_remote,
            base_ref,
            base_sha,
            base_issue,
            base_claim_id,
            wait_for,
            declared_scope,
            note,
            created_at,
        },
    )
}

/// The value of a claim, of which a recordable claim can be read back unchanged.
pub fn write_claim(claim: &Claim) -> (result: Option<Json>)
    ensures
        optional(result) == claim_json(claim@),
        claim@.recordable() ==> (result matches Some(json) && claim_in(json@) == Some(claim@)),
{
    let created_at = match write_instant(claim.created_at) {
        Some(created_at) => created_at,
        None => return None,
    };
    let claim_id = write_id(claim.claim_id);
    let base_claim_id = write_optional_id(claim.base_claim_id);
    let wait_for = write_wait_for(&claim.wait_for);
    let declared_scope = write_optional_scope(&claim.declared_scope);
    let ghost created_at_json = created_at@;
    let ghost claim_id_json = claim_id@;
    let ghost base_claim_id_json = base_claim_id@;
    let ghost wait_for_written = wait_for@;
    let ghost scope_written = declared_scope@;
    let members: Vec<(String, Json)> = vec![
        ("schema_version".to_owned(), Json::Text(claim.schema_version.clone())),
        ("claim_id".to_owned(), claim_id),
        ("repo".to_owned(), Json::Text(claim.repo.clone())),
        ("issue".to_owned(), Json::Unsigned(claim.issue)),
        ("title".to_owned(), write_optional_text(&claim.title)),
        ("branch".to_owned(), Json::Text(claim.branch.clone())),
        ("worktree".to_owned(), Json::Text(claim.worktree.clone())),
        ("base_remote".to_owned(), Json::Text(claim.base_remote.clone())),
        ("base_ref".to_owned(), Json::Text(claim.base_ref.clone())),
        ("base_sha".to_owned(), Json::Text(claim.base_sha.clone())),
        ("base_issue".to_owned(), write_optional_issue(claim.base_issue)),
        ("base_claim_id".to_owned(), base_claim_id),
        ("wait_for".to_owned(), wait_for),
        ("declared_scope".to_owned(), declared_scope),
        ("note".to_owned(), write_optional_text(&claim.note)),
        ("created_at".to_owned(), created_at),
    ];
    let json = Json::Object(members);
    proof {
        object_view(members);
        let written = members_view(members@);
        assert(written =~= claim_json(claim@)->0->Object_0);
        let names = claim_fields();
        claim_fields_distinct();
        named_fields(written, names);
        assert(json@ == JsonView::Object(written));
        assert(record_field(json@, names, 0) == Some(text_json(claim@.schema_version)));
        assert(record_field(json@, names, 1) == Some(claim_id_json));
        assert(record_field(json@, names, 2) == Some(text_json(claim@.repo)));
        assert(record_field(json@, names, 3) == Some(JsonView::Unsigned(claim@.issue)));
        assert(record_field(json@, names, 4) == Some(optional_text_json(claim@.title)));
        assert(record_field(json@, names, 5) == Some(text_json(claim@.branch)));
        assert(record_field(json@, names, 6) == Some(text_json(claim@.worktree)));
        assert(record_field(json@, names, 7) == Some(text_json(claim@.base_remote)));
        assert(record_field(json@, names, 8) == Some(text_json(claim@.base_ref)));
        assert(record_field(json@, names, 9) == Some(text_json(claim@.base_sha)));
        assert(record_field(json@, names, 10) == Some(optional_issue_json(claim@.base_issue)));
        assert(record_field(json@, names, 11) == Some(base_claim_id_json));
        assert(record_field(json@, names, 12) == Some(wait_for_written));
        assert(record_field(json@, names, 13) == Some(scope_written));
        assert(record_field(json@, names, 14) == Some(optional_text_json(claim@.note)));
        assert(record_field(json@, names, 15) == Some(created_at_json));
    }
    Some(json)
}

impl Claim {
    /// Reads a claim, and holds it to its rules.
    pub fn from_value(value: &Json) -> (result: Result<Claim, ModelError>)
        ensures
            match result {
                Ok(claim) => claim_in(value@) == Some(claim@) && claim@.problem() is None,
                Err(ModelError::Invalid(message)) => claim_in(value@) matches Some(claim)
                    && claim.problem() == Some(message@),
                Err(ModelError::Json) => claim_in(value@) is None,
            },
    {
        match read_claim(value) {
            Some(claim) => match claim.validate() {
                Ok(()) => Ok(claim),
                Err(error) => Err(error),
            },
            None => Err(ModelError::Json),
        }
    }

    /// Writes a claim that obeys its rules. What is written reads back as the same claim.
    pub fn to_value(&self) -> (result: Result<Json, ModelError>)
        ensures
            match result {
                Ok(json) => self@.problem() is None && claim_json(self@) == Some(json@),
                Err(ModelError::Invalid(message)) => self@.problem() == Some(message@),
                Err(ModelError::Json) => self@.problem() is None && claim_json(self@) is None,
            },
            self@.recordable() && self@.problem() is None ==> (result matches Ok(json) && claim_in(
                json@,
            ) == Some(self@)),
    {
        match self.validate() {
            Ok(()) => match write_claim(self) {
                Some(json) => Ok(json),
                None => Err(ModelError::Json),
            },
            Err(error) => Err(error),
        }
    }
}

/// A claim that was read obeys the rules that all claims obey: it is of the one version, its
/// worktree is at an absolute path, it names the issue and the generation that it builds on
/// together, and its record has no member but those of a claim.
pub proof fn read_claims_obey_their_rules(value: JsonView, claim: ClaimView)
    requires
        claim_in(value) == Some(claim),
        claim.problem() is None,
    ensures
        claim.schema_version == SCHEMA_VERSION@,
        absolute(claim.worktree),
        claim.base_issue is Some <==> claim.base_claim_id is Some,
        value matches JsonView::Object(members) ==> forall|k: int|
            0 <= k < members.len() ==> claim_fields().contains((#[trigger] members[k]).0),
{
}

pub open spec fn unsigned_in(value: Option<JsonView>) -> Option<u64> {
    match value {
        Some(JsonView::Unsigned(n)) => Some(n),
        _ => None,
    }
}

pub fn read_unsigned(value: Option<&Json>) -> (n: Option<u64>)
    ensures
        n == unsigned_in(seen(value)),
{
    match value {
        Some(Json::Unsigned(n)) => Some(*n),
        _ => None,
    }
}

pub open spec fn bool_in(value: Option<JsonView>) -> Option<bool> {
    match value {
        Some(JsonView::Bool(b)) => Some(b),
        _ => None,
    }
}

pub fn read_bool(value: Option<&Json>) -> (b: Option<bool>)
    ensures
        b == bool_in(seen(value)),
{
    match value {
        Some(Json::Bool(b)) => Some(*b),
        _ => None,
    }
}

pub open spec fn optional_u32_json(n: Option<u32>) -> JsonView {
    match n {
        Some(n) => JsonView::Unsigned(n as u64),
        None => JsonView::Null,
    }
}

fn write_optional_u32(n: Option<u32>) -> (json: Json)
    ensures
        json@ == optional_u32_json(n),
{
    match n {
        Some(n) => Json::Unsigned(n as u64),
        None => Json::Null,
    }
}

pub open spec fn integer_json(n: i32) -> JsonView {
    if n < 0 {
        JsonView::Negative(n as i64)
    } else {
        JsonView::Unsigned(n as u64)
    }
}

pub open spec fn optional_i32_json(n: Option<i32>) -> JsonView {
    match n {
        Some(n) => integer_json(n),
        None => JsonView::Null,
    }
}

pub fn write_optional_i32(n: Option<i32>) -> (json: Json)
    ensures
        json@ == optional_i32_json(n),
{
    match n {
        Some(n) => if n < 0 {
            Json::Negative(n as i64)
        } else {
            Json::Unsigned(n as u64)
        },
        None => Json::Null,
    }
}

/// The name of a reason to release a claim.
pub open spec fn reason_name(reason: ReleaseReason) -> Seq<char> {
    match reason {
        ReleaseReason::Merged => "merged"@,
        ReleaseReason::Closed => "closed"@,
        ReleaseReason::Abandoned => "abandoned"@,
        ReleaseReason::Manual => "manual"@,
    }
}

pub fn reason_str(reason: ReleaseReason) -> (name: &'static str)
    ensures
        name@ == reason_name(reason),
{
    match reason {
        ReleaseReason::Merged => "merged",
        ReleaseReason::Closed => "closed",
        ReleaseReason::Abandoned => "abandoned",
        ReleaseReason::Manual => "manual",
    }
}

pub open spec fn reason_in(value: Option<JsonView>) -> Option<ReleaseReason> {
    match variant_in(value) {
        Some(name) => if name == "merged"@ {
            Some(ReleaseReason::Merged)
        } else if name == "closed"@ {
            Some(ReleaseReason::Closed)
        } else if name == "abandoned"@ {
            Some(ReleaseReason::Abandoned)
        } else if name == "manual"@ {
            Some(ReleaseReason::Manual)
        } else {
            None
        },
        None => None,
    }
}

fn read_reason(value: Option<&Json>) -> (reason: Option<ReleaseReason>)
    ensures
        reason == reason_in(seen(value)),
{
    match read_variant(value) {
        Some(name) => if same(name.as_str(), "merged") {
            Some(ReleaseReason::Merged)
        } else if same(name.as_str(), "closed") {
            Some(ReleaseReason::Closed)
        } else if same(name.as_str(), "abandoned") {
            Some(ReleaseReason::Abandoned)
        } else if same(name.as_str(), "manual") {
            Some(ReleaseReason::Manual)
        } else {
            None
        },
        None => None,
    }
}

/// The name of each variant reads back as the variant.
proof fn reason_name_reads_back(reason: ReleaseReason)
    ensures
        reason_in(Some(JsonView::Text(reason_name(reason)))) == Some(reason),
{
    reveal_strlit("merged");
    reveal_strlit("closed");
    reveal_strlit("abandoned");
    reveal_strlit("manual");
    assert("closed"@[0] != "merged"@[0]);
    assert("abandoned"@.len() != "merged"@.len());
    assert("abandoned"@.len() != "closed"@.len());
    assert("manual"@[1] != "merged"@[1]);
    assert("manual"@[0] != "closed"@[0]);
    assert("manual"@.len() != "abandoned"@.len());
}

// ---------------------------------------------------------------------------------------------
// Releases
// ---------------------------------------------------------------------------------------------
pub open spec fn release_fields() -> Seq<Seq<char>> {
    seq![
        "schema_version"@,
        "repo"@,
        "issue"@,
        "claim_id"@,
        "reason"@,
        "released_at"@,
    ]
}

proof fn release_fields_distinct()
    ensures
        release_fields().no_duplicates(),
{
    reveal_strlit("schema_version");
    reveal_strlit("repo");
    reveal_strlit("issue");
    reveal_strlit("claim_id");
    reveal_strlit("reason");
    reveal_strlit("released_at");
    let names = release_fields();
    assert forall|i: int, j: int| 0 <= i < j < 6 implies names[i] != names[j] by {
        assert(names[i].len() != names[j].len());
    }
}

/// The release that a value is the record of, rules apart.
pub open spec fn release_in(value: JsonView) -> Option<ReleaseView> {
    let names = release_fields();
    let schema_version = text_in(record_field(value, names, 0));
    let repo = text_in(record_field(value, names, 1));
    let issue = issue_in(record_field(value, names, 2));
    let claim_id = id_in(record_field(value, names, 3));
    let reason = reason_in(record_field(value, names, 4));
    let released_at = instant_in(record_field(value, names, 5));
    if record_shape(value, names) && schema_version is Some && repo is Some && issue is Some
        && claim_id is Some && reason is Some && released_at is Some
    {
        Some(
            ReleaseView {
                schema_version: schema_version->0,
                repo: repo->0,
                issue: issue->0,
                claim_id: claim_id->0,
                reason: reason->0,
                released_at: released_at->0,
            },
        )
    } else {
        None
    }
}

/// The value that a release is recorded as, where its instant has a notation.
pub open spec fn release_json(release: ReleaseView) -> Option<JsonView> {
    let released_at = instant_json(release.released_at);
    if released_at is Some {
        Some(
            JsonView::Object(
                seq![
                    ("schema_version"@, text_json(release.schema_version)),
                    ("repo"@, text_json(release.repo)),
                    ("issue"@, JsonView::Unsigned(release.issue)),
                    ("claim_id"@, id_json(release.claim_id)),
                    ("reason"@, JsonView::Text(reason_name(release.reason))),
                    ("released_at"@, released_at->0),
                ],
            ),
        )
    } else {
        None
    }
}

impl ReleaseView {
    /// Whether the release holds what a record can hold.
    pub open spec fn recordable(self) -> bool {
        self.issue != 0 && self.released_at.covered()
    }
}

fn read_release(value: &Json) -> (result: Option<ReleaseMarker>)
    ensures
        optional(result) == release_in(value@),
{
    let names: Vec<&str> = vec![
        "schema_version",
        "repo",
        "issue",
        "claim_id",
        "reason",
        "released_at",
    ];
    assert(views(names@) =~= release_fields());
    if !is_record(value, &names) {
        return None;
    }
    let schema_version = read_text(field_of(value, &names, 0))?;
    let repo = read_text(field_of(value, &names, 1))?;
    let issue: IssueNumber = read_issue(field_of(value, &names, 2))?;
    let claim_id: Id = read_id(field_of(value, &names, 3))?;
    let reason = read_reason(field_of(value, &names, 4))?;
    let released_at = read_instant(field_of(value, &names, 5))?;
    Some(
        ReleaseMarker {
            schema_version,
            repo,
            issue,
            claim_id,
            reason,
            released_at,
        },
    )
}

/// The value of a release, of which a recordable release can be read back unchanged.
pub fn write_release(release: &ReleaseMarker) -> (result: Option<Json>)
    ensures
        optional(result) == release_json(release@),
        release@.recordable() ==> (result matches Some(json) && release_in(json@) == Some(release@)),
{
    let claim_id = write_id(release.claim_id);
    let released_at = write_instant(release.released_at)?;
    let ghost claim_id_json = claim_id@;
    let ghost released_at_json = released_at@;
    let members: Vec<(String, Json)> = vec![
        ("schema_version".to_owned(), Json::Text(release.schema_version.clone())),
        ("repo".to_owned(), Json::Text(release.repo.clone())),
        ("issue".to_owned(), Json::Unsigned(release.issue)),
        ("claim_id".to_owned(), claim_id),
        ("reason".to_owned(), Json::Text(reason_str(release.reason).to_owned())),
        ("released_at".to_owned(), released_at),
    ];
    let json = Json::Object(members);
    proof {
        object_view(members);
        let written = members_view(members@);
        assert(written =~= release_json(release@)->0->Object_0);
        let names = release_fields();
        release_fields_distinct();
        named_fields(written, names);
        assert(json@ == JsonView::Object(written));
        assert(record_field(json@, names, 0) == Some(text_json(release@.schema_version)));
        assert(record_field(json@, names, 1) == Some(text_json(release@.repo)));
        assert(record_field(json@, names, 2) == Some(JsonView::Unsigned(release@.issue)));
        assert(record_field(json@, names, 3) == Some(claim_id_json));
        reason_name_reads_back(release@.reason);
        assert(record_field(json@, names, 4) == Some(JsonView::Text(reason_name(release@.reason))));
        assert(record_field(json@, names, 5) == Some(released_at_json));
    }
    Some(json)
}

impl ReleaseMarker {
    /// Reads a release, and holds it to its rules.
    pub fn from_value(value: &Json) -> (result: Result<ReleaseMarker, ModelError>)
        ensures
            match result {
                Ok(release) => release_in(value@) == Some(release@) && release@.problem() is None,
                Err(ModelError::Invalid(message)) => release_in(value@) matches Some(release)
                    && release.problem() == Some(message@),
                Err(ModelError::Json) => release_in(value@) is None,
            },
    {
        match read_release(value) {
            Some(release) => match release.validate() {
                Ok(()) => Ok(release),
                Err(error) => Err(error),
            },
            None => Err(ModelError::Json),
        }
    }

    /// Writes a release that obeys its rules. What is written reads back as the same release.
    pub fn to_value(&self) -> (result: Result<Json, ModelError>)
        ensures
            match result {
                Ok(json) => self@.problem() is None && release_json(self@) == Some(json@),
                Err(ModelError::Invalid(message)) => self@.problem() == Some(message@),
                Err(ModelError::Json) => self@.problem() is None && release_json(self@) is None,
            },
            self@.recordable() && self@.problem() is None ==> (result matches Ok(json)
                && release_in(json@) == Some(self@)),
    {
        match self.validate() {
            Ok(()) => match write_release(self) {
                Some(json) => Ok(json),
                None => Err(ModelError::Json),
            },
            Err(error) => Err(error),
        }
    }
}

/// The name of a kind of operation.
pub open spec fn kind_name(kind: OperationKind) -> Seq<char> {
    match kind {
        OperationKind::Claim => "claim"@,
        OperationKind::Cleanup => "cleanup"@,
        OperationKind::Run => "run"@,
    }
}

pub fn kind_str(kind: OperationKind) -> (name: &'static str)
    ensures
        name@ == kind_name(kind),
{
    match kind {
        OperationKind::Claim => "claim",
        OperationKind::Cleanup => "cleanup",
        OperationKind::Run => "run",
    }
}

pub open spec fn kind_in(value: Option<JsonView>) -> Option<OperationKind> {
    match variant_in(value) {
        Some(name) => if name == "claim"@ {
            Some(OperationKind::Claim)
        } else if name == "cleanup"@ {
            Some(OperationKind::Cleanup)
        } else if name == "run"@ {
            Some(OperationKind::Run)
        } else {
            None
        },
        None => None,
    }
}

fn read_kind(value: Option<&Json>) -> (kind: Option<OperationKind>)
    ensures
        kind == kind_in(seen(value)),
{
    match read_variant(value) {
        Some(name) => if same(name.as_str(), "claim") {
            Some(OperationKind::Claim)
        } else if same(name.as_str(), "cleanup") {
            Some(OperationKind::Cleanup)
        } else if same(name.as_str(), "run") {
            Some(OperationKind::Run)
        } else {
            None
        },
        None => None,
    }
}

/// The name of each variant reads back as the variant.
proof fn kind_name_reads_back(kind: OperationKind)
    ensures
        kind_in(Some(JsonView::Text(kind_name(kind)))) == Some(kind),
{
    reveal_strlit("claim");
    reveal_strlit("cleanup");
    reveal_strlit("run");
    assert("cleanup"@.len() != "claim"@.len());
    assert("run"@.len() != "claim"@.len());
    assert("run"@.len() != "cleanup"@.len());
}

pub open spec fn phase_in(value: Option<JsonView>) -> Option<OperationPhase> {
    match variant_in(value) {
        Some(name) => if name == "reserved"@ {
            Some(OperationPhase::Reserved)
        } else if name == "branch_created"@ {
            Some(OperationPhase::BranchCreated)
        } else if name == "worktree_created"@ {
            Some(OperationPhase::WorktreeCreated)
        } else if name == "claim_committed"@ {
            Some(OperationPhase::ClaimCommitted)
        } else if name == "cleanup_pending"@ {
            Some(OperationPhase::CleanupPending)
        } else if name == "run_artifacts_created"@ {
            Some(OperationPhase::RunArtifactsCreated)
        } else if name == "run_committed"@ {
            Some(OperationPhase::RunCommitted)
        } else {
            None
        },
        None => None,
    }
}

fn read_phase(value: Option<&Json>) -> (phase: Option<OperationPhase>)
    ensures
        phase == phase_in(seen(value)),
{
    match read_variant(value) {
        Some(name) => if same(name.as_str(), "reserved") {
            Some(OperationPhase::Reserved)
        } else if same(name.as_str(), "branch_created") {
            Some(OperationPhase::BranchCreated)
        } else if same(name.as_str(), "worktree_created") {
            Some(OperationPhase::WorktreeCreated)
        } else if same(name.as_str(), "claim_committed") {
            Some(OperationPhase::ClaimCommitted)
        } else if same(name.as_str(), "cleanup_pending") {
            Some(OperationPhase::CleanupPending)
        } else if same(name.as_str(), "run_artifacts_created") {
            Some(OperationPhase::RunArtifactsCreated)
        } else if same(name.as_str(), "run_committed") {
            Some(OperationPhase::RunCommitted)
        } else {
            None
        },
        None => None,
    }
}

/// The name of each variant reads back as the variant.
proof fn phase_name_reads_back(phase: OperationPhase)
    ensures
        phase_in(Some(JsonView::Text(phase.name()))) == Some(phase),
{
    reveal_strlit("reserved");
    reveal_strlit("branch_created");
    reveal_strlit("worktree_created");
    reveal_strlit("claim_committed");
    reveal_strlit("cleanup_pending");
    reveal_strlit("run_artifacts_created");
    reveal_strlit("run_committed");
    assert("branch_created"@.len() != "reserved"@.len());
    assert("worktree_created"@.len() != "reserved"@.len());
    assert("worktree_created"@.len() != "branch_created"@.len());
    assert("claim_committed"@.len() != "reserved"@.len());
    assert("claim_committed"@.len() != "branch_created"@.len());
    assert("claim_committed"@.len() != "worktree_created"@.len());
    assert("cleanup_pending"@.len() != "reserved"@.len());
    assert("cleanup_pending"@.len() != "branch_created"@.len());
    assert("cleanup_pending"@.len() != "worktree_created"@.len());
    assert("cleanup_pending"@[2] != "claim_committed"@[2]);
    assert("run_artifacts_created"@.len() != "reserved"@.len());
    assert("run_artifacts_created"@.len() != "branch_created"@.len());
    assert("run_artifacts_created"@.len() != "worktree_created"@.len());
    assert("run_artifacts_created"@.len() != "claim_committed"@.len());
    assert("run_artifacts_created"@.len() != "cleanup_pending"@.len());
    assert("run_committed"@.len() != "reserved"@.len());
    assert("run_committed"@.len() != "branch_created"@.len());
    assert("run_committed"@.len() != "worktree_created"@.len());
    assert("run_committed"@.len() != "claim_committed"@.len());
    assert("run_committed"@.len() != "cleanup_pending"@.len());
    assert("run_committed"@.len() != "run_artifacts_created"@.len());
}

// ---------------------------------------------------------------------------------------------
// Operations
// ---------------------------------------------------------------------------------------------
pub open spec fn operation_fields() -> Seq<Seq<char>> {
    seq![
        "schema_version"@,
        "operation_id"@,
        "kind"@,
        "claim_id"@,
        "issue"@,
        "branch"@,
        "worktree"@,
        "phase"@,
        "started_at"@,
    ]
}

proof fn operation_fields_distinct()
    ensures
        operation_fields().no_duplicates(),
{
    reveal_strlit("schema_version");
    reveal_strlit("operation_id");
    reveal_strlit("kind");
    reveal_strlit("claim_id");
    reveal_strlit("issue");
    reveal_strlit("branch");
    reveal_strlit("worktree");
    reveal_strlit("phase");
    reveal_strlit("started_at");
    let names = operation_fields();
    assert forall|i: int, j: int| 0 <= i < j < 9 implies names[i] != names[j] by {
        assert(names[i].len() != names[j].len() || names[i][0] != names[j][0]);
    }
}

/// The operation that a value is the record of, rules apart.
pub open spec fn operation_in(value: JsonView) -> Option<OperationView> {
    let names = operation_fields();
    let schema_version = text_in(record_field(value, names, 0));
    let operation_id = id_in(record_field(value, names, 1));
    let kind = kind_in(record_field(value, names, 2));
    let claim_id = id_in(record_field(value, names, 3));
    let issue = issue_in(record_field(value, names, 4));
    let branch = text_in(record_field(value, names, 5));
    let worktree = text_in(record_field(value, names, 6));
    let phase = phase_in(record_field(value, names, 7));
    let started_at = instant_in(record_field(value, names, 8));
    if record_shape(value, names) && schema_version is Some && operation_id is Some && kind
        is Some && claim_id is Some && issue is Some && branch is Some && worktree is Some && phase
        is Some && started_at is Some
    {
        Some(
            OperationView {
                schema_version: schema_version->0,
                operation_id: operation_id->0,
                kind: kind->0,
                claim_id: claim_id->0,
                issue: issue->0,
                branch: branch->0,
                worktree: worktree->0,
                phase: phase->0,
                started_at: started_at->0,
            },
        )
    } else {
        None
    }
}

/// The value that an operation is recorded as, where its instant has a notation.
pub open spec fn operation_json(operation: OperationView) -> Option<JsonView> {
    let started_at = instant_json(operation.started_at);
    if started_at is Some {
        Some(
            JsonView::Object(
                seq![
                    ("schema_version"@, text_json(operation.schema_version)),
                    ("operation_id"@, id_json(operation.operation_id)),
                    ("kind"@, JsonView::Text(kind_name(operation.kind))),
                    ("claim_id"@, id_json(operation.claim_id)),
                    ("issue"@, JsonView::Unsigned(operation.issue)),
                    ("branch"@, text_json(operation.branch)),
                    ("worktree"@, text_json(operation.worktree)),
                    ("phase"@, JsonView::Text(operation.phase.name())),
                    ("started_at"@, started_at->0),
                ],
            ),
        )
    } else {
        None
    }
}

impl OperationView {
    /// Whether the operation holds what a record can hold.
    pub open spec fn recordable(self) -> bool {
        self.issue != 0 && self.started_at.covered()
    }
}

fn read_operation(value: &Json) -> (result: Option<OperationRecord>)
    ensures
        optional(result) == operation_in(value@),
{
    let names: Vec<&str> = vec![
        "schema_version",
        "operation_id",
        "kind",
        "claim_id",
        "issue",
        "branch",
        "worktree",
        "phase",
        "started_at",
    ];
    assert(views(names@) =~= operation_fields());
    if !is_record(value, &names) {
        return None;
    }
    let schema_version = read_text(field_of(value, &names, 0))?;
    let operation_id: Id = read_id(field_of(value, &names, 1))?;
    let kind = read_kind(field_of(value, &names, 2))?;
    let claim_id: Id = read_id(field_of(value, &names, 3))?;
    let issue: IssueNumber = read_issue(field_of(value, &names, 4))?;
    let branch = read_text(field_of(value, &names, 5))?;
    let worktree = read_text(field_of(value, &names, 6))?;
    let phase = read_phase(field_of(value, &names, 7))?;
    let started_at = read_instant(field_of(value, &names, 8))?;
    Some(
        OperationRecord {
            schema_version,
            operation_id,
            kind,
            claim_id,
            issue,
            branch,
            worktree,
            phase,
            started_at,
        },
    )
}

/// The value of an operation, of which a recordable operation can be read back unchanged.
pub fn write_operation(operation: &OperationRecord) -> (result: Option<Json>)
    ensures
        optional(result) == operation_json(operation@),
        operation@.recordable() ==> (result matches Some(json) && operation_in(json@) == Some(operation@)),
{
    let operation_id = write_id(operation.operation_id);
    let claim_id = write_id(operation.claim_id);
    let started_at = write_instant(operation.started_at)?;
    let ghost operation_id_json = operation_id@;
    let ghost claim_id_json = claim_id@;
    let ghost started_at_json = started_at@;
    let members: Vec<(String, Json)> = vec![
        ("schema_version".to_owned(), Json::Text(operation.schema_version.clone())),
        ("operation_id".to_owned(), operation_id),
        ("kind".to_owned(), Json::Text(kind_str(operation.kind).to_owned())),
        ("claim_id".to_owned(), claim_id),
        ("issue".to_owned(), Json::Unsigned(operation.issue)),
        ("branch".to_owned(), Json::Text(operation.branch.clone())),
        ("worktree".to_owned(), Json::Text(operation.worktree.clone())),
        ("phase".to_owned(), Json::Text(operation.phase.as_str().to_owned())),
        ("started_at".to_owned(), started_at),
    ];
    let json = Json::Object(members);
    proof {
        object_view(members);
        let written = members_view(members@);
        assert(written =~= operation_json(operation@)->0->Object_0);
        let names = operation_fields();
        operation_fields_distinct();
        named_fields(written, names);
        assert(json@ == JsonView::Object(written));
        assert(record_field(json@, names, 0) == Some(text_json(operation@.schema_version)));
        assert(record_field(json@, names, 1) == Some(operation_id_json));
        kind_name_reads_back(operation@.kind);
        assert(record_field(json@, names, 2) == Some(JsonView::Text(kind_name(operation@.kind))));
        assert(record_field(json@, names, 3) == Some(claim_id_json));
        assert(record_field(json@, names, 4) == Some(JsonView::Unsigned(operation@.issue)));
        assert(record_field(json@, names, 5) == Some(text_json(operation@.branch)));
        assert(record_field(json@, names, 6) == Some(text_json(operation@.worktree)));
        phase_name_reads_back(operation@.phase);
        assert(record_field(json@, names, 7) == Some(JsonView::Text(operation@.phase.name())));
        assert(record_field(json@, names, 8) == Some(started_at_json));
    }
    Some(json)
}

impl OperationRecord {
    /// Reads an operation, and holds it to its rules.
    pub fn from_value(value: &Json) -> (result: Result<OperationRecord, ModelError>)
        ensures
            match result {
                Ok(operation) => operation_in(value@) == Some(operation@) && operation@.problem() is None,
                Err(ModelError::Invalid(message)) => operation_in(value@) matches Some(operation)
                    && operation.problem() == Some(message@),
                Err(ModelError::Json) => operation_in(value@) is None,
            },
    {
        match read_operation(value) {
            Some(operation) => match operation.validate() {
                Ok(()) => Ok(operation),
                Err(error) => Err(error),
            },
            None => Err(ModelError::Json),
        }
    }

    /// Writes an operation that obeys its rules. What is written reads back as the same operation.
    pub fn to_value(&self) -> (result: Result<Json, ModelError>)
        ensures
            match result {
                Ok(json) => self@.problem() is None && operation_json(self@) == Some(json@),
                Err(ModelError::Invalid(message)) => self@.problem() == Some(message@),
                Err(ModelError::Json) => self@.problem() is None && operation_json(self@) is None,
            },
            self@.recordable() && self@.problem() is None ==> (result matches Ok(json)
                && operation_in(json@) == Some(self@)),
    {
        match self.validate() {
            Ok(()) => match write_operation(self) {
                Some(json) => Ok(json),
                None => Err(ModelError::Json),
            },
            Err(error) => Err(error),
        }
    }
}

/// The name of a mode of a run.
pub open spec fn mode_name(mode: RunMode) -> Seq<char> {
    match mode {
        RunMode::Interactive => "interactive"@,
        RunMode::Background => "background"@,
    }
}

pub fn mode_str(mode: RunMode) -> (name: &'static str)
    ensures
        name@ == mode_name(mode),
{
    match mode {
        RunMode::Interactive => "interactive",
        RunMode::Background => "background",
    }
}

pub open spec fn mode_in(value: Option<JsonView>) -> Option<RunMode> {
    match variant_in(value) {
        Some(name) => if name == "interactive"@ {
            Some(RunMode::Interactive)
        } else if name == "background"@ {
            Some(RunMode::Background)
        } else {
            None
        },
        None => None,
    }
}

fn read_mode(value: Option<&Json>) -> (mode: Option<RunMode>)
    ensures
        mode == mode_in(seen(value)),
{
    match read_variant(value) {
        Some(name) => if same(name.as_str(), "interactive") {
            Some(RunMode::Interactive)
        } else if same(name.as_str(), "background") {
            Some(RunMode::Background)
        } else {
            None
        },
        None => None,
    }
}

/// The name of each variant reads back as the variant.
proof fn mode_name_reads_back(mode: RunMode)
    ensures
        mode_in(Some(JsonView::Text(mode_name(mode)))) == Some(mode),
{
    reveal_strlit("interactive");
    reveal_strlit("background");
    assert("background"@.len() != "interactive"@.len());
}

pub open spec fn state_in(value: Option<JsonView>) -> Option<RunState> {
    match variant_in(value) {
        Some(name) => if name == "queued"@ {
            Some(RunState::Queued)
        } else if name == "running"@ {
            Some(RunState::Running)
        } else if name == "succeeded"@ {
            Some(RunState::Succeeded)
        } else if name == "failed"@ {
            Some(RunState::Failed)
        } else if name == "stop_requested"@ {
            Some(RunState::StopRequested)
        } else if name == "stopped"@ {
            Some(RunState::Stopped)
        } else {
            None
        },
        None => None,
    }
}

fn read_state(value: Option<&Json>) -> (state: Option<RunState>)
    ensures
        state == state_in(seen(value)),
{
    match read_variant(value) {
        Some(name) => if same(name.as_str(), "queued") {
            Some(RunState::Queued)
        } else if same(name.as_str(), "running") {
            Some(RunState::Running)
        } else if same(name.as_str(), "succeeded") {
            Some(RunState::Succeeded)
        } else if same(name.as_str(), "failed") {
            Some(RunState::Failed)
        } else if same(name.as_str(), "stop_requested") {
            Some(RunState::StopRequested)
        } else if same(name.as_str(), "stopped") {
            Some(RunState::Stopped)
        } else {
            None
        },
        None => None,
    }
}

/// The name of each variant reads back as the variant.
proof fn state_name_reads_back(state: RunState)
    ensures
        state_in(Some(JsonView::Text(state.name()))) == Some(state),
{
    reveal_strlit("queued");
    reveal_strlit("running");
    reveal_strlit("succeeded");
    reveal_strlit("failed");
    reveal_strlit("stop_requested");
    reveal_strlit("stopped");
    assert("running"@.len() != "queued"@.len());
    assert("succeeded"@.len() != "queued"@.len());
    assert("succeeded"@.len() != "running"@.len());
    assert("failed"@[0] != "queued"@[0]);
    assert("failed"@.len() != "running"@.len());
    assert("failed"@.len() != "succeeded"@.len());
    assert("stop_requested"@.len() != "queued"@.len());
    assert("stop_requested"@.len() != "running"@.len());
    assert("stop_requested"@.len() != "succeeded"@.len());
    assert("stop_requested"@.len() != "failed"@.len());
    assert("stopped"@.len() != "queued"@.len());
    assert("stopped"@[0] != "running"@[0]);
    assert("stopped"@.len() != "succeeded"@.len());
    assert("stopped"@.len() != "failed"@.len());
    assert("stopped"@.len() != "stop_requested"@.len());
}

// ---------------------------------------------------------------------------------------------
// Runs
// ---------------------------------------------------------------------------------------------
pub open spec fn run_fields() -> Seq<Seq<char>> {
    seq![
        "schema_version"@,
        "run_id"@,
        "repo"@,
        "claim_id"@,
        "issue"@,
        "agent"@,
        "mode"@,
        "state"@,
        "worktree"@,
        "worker_pid"@,
        "child_pid"@,
        "created_at"@,
        "started_at"@,
        "finished_at"@,
        "exit_code"@,
        "prompt_path"@,
        "stdout_path"@,
        "stderr_path"@,
        "error"@,
    ]
}

proof fn run_fields_distinct()
    ensures
        run_fields().no_duplicates(),
{
    reveal_strlit("schema_version");
    reveal_strlit("run_id");
    reveal_strlit("repo");
    reveal_strlit("claim_id");
    reveal_strlit("issue");
    reveal_strlit("agent");
    reveal_strlit("mode");
    reveal_strlit("state");
    reveal_strlit("worktree");
    reveal_strlit("worker_pid");
    reveal_strlit("child_pid");
    reveal_strlit("created_at");
    reveal_strlit("started_at");
    reveal_strlit("finished_at");
    reveal_strlit("exit_code");
    reveal_strlit("prompt_path");
    reveal_strlit("stdout_path");
    reveal_strlit("stderr_path");
    reveal_strlit("error");
    let names = run_fields();
    assert forall|i: int, j: int| 0 <= i < j < 19 implies names[i] != names[j] by {
        assert(names[i].len() != names[j].len() || names[i][3] != names[j][3]);
    }
}

/// The run that a value is the record of, rules apart.
pub open spec fn run_in(value: JsonView) -> Option<RunView> {
    let names = run_fields();
    let schema_version = text_in(record_field(value, names, 0));
    let run_id = id_in(record_field(value, names, 1));
    let repo = text_in(record_field(value, names, 2));
    let claim_id = id_in(record_field(value, names, 3));
    let issue = issue_in(record_field(value, names, 4));
    let agent = text_in(record_field(value, names, 5));
    let mode = mode_in(record_field(value, names, 6));
    let state = state_in(record_field(value, names, 7));
    let worktree = text_in(record_field(value, names, 8));
    let worker_pid = optional_u32_in(record_field(value, names, 9));
    let child_pid = optional_u32_in(record_field(value, names, 10));
    let created_at = instant_in(record_field(value, names, 11));
    let started_at = optional_instant_in(record_field(value, names, 12));
    let finished_at = optional_instant_in(record_field(value, names, 13));
    let exit_code = optional_i32_in(record_field(value, names, 14));
    let prompt_path = text_in(record_field(value, names, 15));
    let stdout_path = text_in(record_field(value, names, 16));
    let stderr_path = text_in(record_field(value, names, 17));
    let error = optional_text_in(record_field(value, names, 18));
    if record_shape(value, names) && schema_version is Some && run_id is Some && repo is Some
        && claim_id is Some && issue is Some && agent is Some && mode is Some && state is Some
        && worktree is Some && worker_pid is Some && child_pid is Some && created_at is Some
        && started_at is Some && finished_at is Some && exit_code is Some && prompt_path is Some
        && stdout_path is Some && stderr_path is Some && error is Some
    {
        Some(
            RunView {
                schema_version: schema_version->0,
                run_id: run_id->0,
                repo: repo->0,
                claim_id: claim_id->0,
                issue: issue->0,
                agent: agent->0,
                mode: mode->0,
                state: state->0,
                worktree: worktree->0,
                worker_pid: worker_pid->0,
                child_pid: child_pid->0,
                created_at: created_at->0,
                started_at: started_at->0,
                finished_at: finished_at->0,
                exit_code: exit_code->0,
                prompt_path: prompt_path->0,
                stdout_path: stdout_path->0,
                stderr_path: stderr_path->0,
                error: error->0,
            },
        )
    } else {
        None
    }
}

/// The value that a run is recorded as, where its instants have a notation.
pub open spec fn run_json(run: RunView) -> Option<JsonView> {
    let created_at = instant_json(run.created_at);
    let started_at = optional_instant_json(run.started_at);
    let finished_at = optional_instant_json(run.finished_at);
    if created_at is Some && started_at is Some && finished_at is Some {
        Some(
            JsonView::Object(
                seq![
                    ("schema_version"@, text_json(run.schema_version)),
                    ("run_id"@, id_json(run.run_id)),
                    ("repo"@, text_json(run.repo)),
                    ("claim_id"@, id_json(run.claim_id)),
                    ("issue"@, JsonView::Unsigned(run.issue)),
                    ("agent"@, text_json(run.agent)),
                    ("mode"@, JsonView::Text(mode_name(run.mode))),
                    ("state"@, JsonView::Text(run.state.name())),
                    ("worktree"@, text_json(run.worktree)),
                    ("worker_pid"@, optional_u32_json(run.worker_pid)),
                    ("child_pid"@, optional_u32_json(run.child_pid)),
                    ("created_at"@, created_at->0),
                    ("started_at"@, started_at->0),
                    ("finished_at"@, finished_at->0),
                    ("exit_code"@, optional_i32_json(run.exit_code)),
                    ("prompt_path"@, text_json(run.prompt_path)),
                    ("stdout_path"@, text_json(run.stdout_path)),
                    ("stderr_path"@, text_json(run.stderr_path)),
                    ("error"@, optional_text_json(run.error)),
                ],
            ),
        )
    } else {
        None
    }
}

impl RunView {
    /// Whether the run holds what a record can hold.
    pub open spec fn recordable(self) -> bool {
        &&& self.issue != 0
        &&& self.created_at.covered()
        &&& self.started_at matches Some(at) ==> at.covered()
        &&& self.finished_at matches Some(at) ==> at.covered()
    }
}

fn read_run(value: &Json) -> (result: Option<RunRecord>)
    ensures
        optional(result) == run_in(value@),
{
    let names: Vec<&str> = vec![
        "schema_version",
        "run_id",
        "repo",
        "claim_id",
        "issue",
        "agent",
        "mode",
        "state",
        "worktree",
        "worker_pid",
        "child_pid",
        "created_at",
        "started_at",
        "finished_at",
        "exit_code",
        "prompt_path",
        "stdout_path",
        "stderr_path",
        "error",
    ];
    assert(views(names@) =~= run_fields());
    if !is_record(value, &names) {
        return None;
    }
    let schema_version = read_text(field_of(value, &names, 0))?;
    let run_id: Id = read_id(field_of(value, &names, 1))?;
    let repo = read_text(field_of(value, &names, 2))?;
    let claim_id: Id = read_id(field_of(value, &names, 3))?;
    let issue: IssueNumber = read_issue(field_of(value, &names, 4))?;
    let agent = read_text(field_of(value, &names, 5))?;
    let mode = read_mode(field_of(value, &names, 6))?;
    let state = read_state(field_of(value, &names, 7))?;
    let worktree = read_text(field_of(value, &names, 8))?;
    let worker_pid: Option<u32> = read_optional_u32(field_of(value, &names, 9))?;
    let child_pid: Option<u32> = read_optional_u32(field_of(value, &names, 10))?;
    let created_at = read_instant(field_of(value, &names, 11))?;
    let started_at = read_optional_instant(field_of(value, &names, 12))?;
    let finished_at = read_optional_instant(field_of(value, &names, 13))?;
    let exit_code: Option<i32> = read_optional_i32(field_of(value, &names, 14))?;
    let prompt_path = read_text(field_of(value, &names, 15))?;
    let stdout_path = read_text(field_of(value, &names, 16))?;
    let stderr_path = read_text(field_of(value, &names, 17))?;
    let error = read_optional_text(field_of(value, &names, 18))?;
    Some(
        RunRecord {
            schema_version,
            run_id,
            repo,
            claim_id,
            issue,
            agent,
            mode,
            state,
            worktree,
            worker_pid,
            child_pid,
            created_at,
            started_at,
            finished_at,
            exit_code,
            prompt_path,
            stdout_path,
            stderr_path,
            error,
        },
    )
}

/// The value of a run, of which a recordable run can be read back unchanged.
pub fn write_run(run: &RunRecord) -> (result: Option<Json>)
    ensures
        optional(result) == run_json(run@),
        run@.recordable() ==> (result matches Some(json) && run_in(json@) == Some(run@)),
{
    let run_id = write_id(run.run_id);
    let claim_id = write_id(run.claim_id);
    let created_at = write_instant(run.created_at)?;
    let started_at = write_optional_instant(run.started_at)?;
    let finished_at = write_optional_instant(run.finished_at)?;
    let ghost run_id_json = run_id@;
    let ghost claim_id_json = claim_id@;
    let ghost created_at_json = created_at@;
    let ghost started_at_json = started_at@;
    let ghost finished_at_json = finished_at@;
    let members: Vec<(String, Json)> = vec![
        ("schema_version".to_owned(), Json::Text(run.schema_version.clone())),
        ("run_id".to_owned(), run_id),
        ("repo".to_owned(), Json::Text(run.repo.clone())),
        ("claim_id".to_owned(), claim_id),
        ("issue".to_owned(), Json::Unsigned(run.issue)),
        ("agent".to_owned(), Json::Text(run.agent.clone())),
        ("mode".to_owned(), Json::Text(mode_str(run.mode).to_owned())),
        ("state".to_owned(), Json::Text(run.state.as_str().to_owned())),
        ("worktree".to_owned(), Json::Text(run.worktree.clone())),
        ("worker_pid".to_owned(), write_optional_u32(run.worker_pid)),
        ("child_pid".to_owned(), write_optional_u32(run.child_pid)),
        ("created_at".to_owned(), created_at),
        ("started_at".to_owned(), started_at),
        ("finished_at".to_owned(), finished_at),
        ("exit_code".to_owned(), write_optional_i32(run.exit_code)),
        ("prompt_path".to_owned(), Json::Text(run.prompt_path.clone())),
        ("stdout_path".to_owned(), Json::Text(run.stdout_path.clone())),
        ("stderr_path".to_owned(), Json::Text(run.stderr_path.clone())),
        ("error".to_owned(), write_optional_text(&run.error)),
    ];
    let json = Json::Object(members);
    proof {
        object_view(members);
        let written = members_view(members@);
        assert(written =~= run_json(run@)->0->Object_0);
        let names = run_fields();
        run_fields_distinct();
        named_fields(written, names);
        assert(json@ == JsonView::Object(written));
        assert(record_field(json@, names, 0) == Some(text_json(run@.schema_version)));
        assert(record_field(json@, names, 1) == Some(run_id_json));
        assert(record_field(json@, names, 2) == Some(text_json(run@.repo)));
        assert(record_field(json@, names, 3) == Some(claim_id_json));
        assert(record_field(json@, names, 4) == Some(JsonView::Unsigned(run@.issue)));
        assert(record_field(json@, names, 5) == Some(text_json(run@.agent)));
        mode_name_reads_back(run@.mode);
        assert(record_field(json@, names, 6) == Some(JsonView::Text(mode_name(run@.mode))));
        state_name_reads_back(run@.state);
        assert(record_field(json@, names, 7) == Some(JsonView::Text(run@.state.name())));
        assert(record_field(json@, names, 8) == Some(text_json(run@.worktree)));
        assert(record_field(json@, names, 9) == Some(optional_u32_json(run@.worker_pid)));
        assert(record_field(json@, names, 10) == Some(optional_u32_json(run@.child_pid)));
        assert(record_field(json@, names, 11) == Some(created_at_json));
        assert(record_field(json@, names, 12) == Some(started_at_json));
        assert(record_field(json@, names, 13) == Some(finished_at_json));
        assert(record_field(json@, names, 14) == Some(optional_i32_json(run@.exit_code)));
        assert(record_field(json@, names, 15) == Some(text_json(run@.prompt_path)));
        assert(record_field(json@, names, 16) == Some(text_json(run@.stdout_path)));
        assert(record_field(json@, names, 17) == Some(text_json(run@.stderr_path)));
        assert(record_field(json@, names, 18) == Some(optional_text_json(run@.error)));
    }
    Some(json)
}

impl RunRecord {
    /// Reads a run, and holds it to its rules.
    pub fn from_value(value: &Json) -> (result: Result<RunRecord, ModelError>)
        ensures
            match result {
                Ok(run) => run_in(value@) == Some(run@) && run@.problem() is None,
                Err(ModelError::Invalid(message)) => run_in(value@) matches Some(run)
                    && run.problem() == Some(message@),
                Err(ModelError::Json) => run_in(value@) is None,
            },
    {
        match read_run(value) {
            Some(run) => match run.validate() {
                Ok(()) => Ok(run),
                Err(error) => Err(error),
            },
            None => Err(ModelError::Json),
        }
    }

    /// Writes a run that obeys its rules. What is written reads back as the same run.
    pub fn to_value(&self) -> (result: Result<Json, ModelError>)
        ensures
            match result {
                Ok(json) => self@.problem() is None && run_json(self@) == Some(json@),
                Err(ModelError::Invalid(message)) => self@.problem() == Some(message@),
                Err(ModelError::Json) => self@.problem() is None && run_json(self@) is None,
            },
            self@.recordable() && self@.problem() is None ==> (result matches Ok(json)
                && run_in(json@) == Some(self@)),
    {
        match self.validate() {
            Ok(()) => match write_run(self) {
                Some(json) => Ok(json),
                None => Err(ModelError::Json),
            },
            Err(error) => Err(error),
        }
    }
}

// ---------------------------------------------------------------------------------------------
// What records are printed as
// ---------------------------------------------------------------------------------------------
proof fn references_are_printable(refs: Seq<WaitForRef>)
    ensures
        printable(wait_for_json(refs), 2),
{
    reveal_with_fuel(printable, 3);
    reveal_strlit("issue");
    reveal_strlit("claim_id");
    assert forall|i: int| 0 <= i < refs.len() implies printable(
        #[trigger] wait_for_json(refs)->List_0[i],
        1,
    ) by {
        let members = wait_for_ref_json(refs[i])->Object_0;
        assert(names_of(members)[0].len() != names_of(members)[1].len());
        assert(names_of(members).no_duplicates());
    }
}

proof fn scopes_are_printable(scope: Option<ScopeView>)
    ensures
        printable(optional_scope_json(scope), 2),
{
    reveal_with_fuel(printable, 3);
    reveal_strlit("allowed_paths");
    reveal_strlit("disallowed_paths");
    if let Some(scope) = scope {
        let members = scope_json(scope)->Object_0;
        assert(names_of(members)[0].len() != names_of(members)[1].len());
        assert(names_of(members).no_duplicates());
    }
}

/// The value that a claim is recorded as can be printed, and is nested three deep at most.
pub proof fn claims_are_shallow(claim: ClaimView)
    requires
        claim_json(claim) is Some,
    ensures
        printable(claim_json(claim)->0, 3),
{
    let json = claim_json(claim)->0;
    let members = json->Object_0;
    claim_fields_distinct();
    references_are_printable(claim.wait_for);
    scopes_are_printable(claim.declared_scope);
    assert(names_of(members) =~= claim_fields());
    assert forall|i: int| 0 <= i < members.len() implies printable(
        (#[trigger] members[i]).1,
        2,
    ) by {
        assert(i == 12 || i == 13 || printable(members[i].1, 2));
    }
}

/// The value that a claim is recorded as can be printed.
pub proof fn claims_are_printable(claim: ClaimView)
    requires
        claim_json(claim) is Some,
    ensures
        printable(claim_json(claim)->0, DEPTH as nat),
{
    claims_are_shallow(claim);
    deeper_is_printable(claim_json(claim)->0, 3, DEPTH as nat);
}

/// The value that a release is recorded as can be printed, and is not nested.
pub proof fn releases_are_shallow(release: ReleaseView)
    requires
        release_json(release) is Some,
    ensures
        printable(release_json(release)->0, 1),
{
    reveal_with_fuel(printable, 2);
    release_fields_distinct();
    assert(names_of(release_json(release)->0->Object_0) =~= release_fields());
}

/// The value that a release is recorded as can be printed.
pub proof fn releases_are_printable(release: ReleaseView)
    requires
        release_json(release) is Some,
    ensures
        printable(release_json(release)->0, DEPTH as nat),
{
    releases_are_shallow(release);
    deeper_is_printable(release_json(release)->0, 1, DEPTH as nat);
}

/// The value that an operation is recorded as can be printed.
pub proof fn operations_are_printable(operation: OperationView)
    requires
        operation_json(operation) is Some,
    ensures
        printable(operation_json(operation)->0, DEPTH as nat),
{
    reveal_with_fuel(printable, 2);
    operation_fields_distinct();
    assert(names_of(operation_json(operation)->0->Object_0) =~= operation_fields());
}

/// The value that a run is recorded as can be printed.
pub proof fn runs_are_printable(run: RunView)
    requires
        run_json(run) is Some,
    ensures
        printable(run_json(run)->0, DEPTH as nat),
{
    reveal_with_fuel(printable, 2);
    run_fields_distinct();
    assert(names_of(run_json(run)->0->Object_0) =~= run_fields());
}

} // verus!
