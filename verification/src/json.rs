//! JSON values: what records are stored as, what `gh` answers with and what reports carry as
//! evidence.
use serde::de::IgnoredAny;
use vstd::prelude::*;
use vstd::string::*;

use crate::text::{same, views};

verus! {

/// A JSON value. The members of an object keep the order in which they are written.
#[derive(Debug)]
pub enum Json {
    Null,
    Bool(bool),
    Unsigned(u64),
    Negative(i64),
    /// A number that is no integer of 64 bits, in its notation.
    Other(String),
    Text(String),
    List(Vec<Json>),
    Object(Vec<(String, Json)>),
}

/// What a JSON value stands for.
pub enum JsonView {
    Null,
    Bool(bool),
    Unsigned(u64),
    Negative(i64),
    Other(Seq<char>),
    Text(Seq<char>),
    List(Seq<JsonView>),
    Object(Seq<(Seq<char>, JsonView)>),
}

impl View for Json {
    type V = JsonView;

    open spec fn view(&self) -> JsonView {
        self.contents()
    }
}

impl Json {
    /// What the value stands for.
    pub open spec fn contents(&self) -> JsonView
        decreases self,
    {
        match self {
            Json::Null => JsonView::Null,
            Json::Bool(b) => JsonView::Bool(*b),
            Json::Unsigned(n) => JsonView::Unsigned(*n),
            Json::Negative(n) => JsonView::Negative(*n),
            Json::Other(t) => JsonView::Other(t@),
            Json::Text(t) => JsonView::Text(t@),
            Json::List(items) => JsonView::List(
                Seq::new(
                    items@.len(),
                    |i: int|
                        if 0 <= i < items@.len() {
                            items@[i].contents()
                        } else {
                            JsonView::Null
                        },
                ),
            ),
            Json::Object(members) => JsonView::Object(
                Seq::new(
                    members@.len(),
                    |i: int|
                        if 0 <= i < members@.len() {
                            (members@[i].0@, members@[i].1.contents())
                        } else {
                            (Seq::empty(), JsonView::Null)
                        },
                ),
            ),
        }
    }
}

/// What the members of an object stand for.
pub open spec fn members_view(members: Seq<(String, Json)>) -> Seq<(Seq<char>, JsonView)> {
    Seq::new(members.len(), |i: int| (members[i].0@, members[i].1@))
}

pub proof fn list_view(items: Vec<Json>)
    ensures
        Json::List(items)@ == JsonView::List(views(items@)),
{
    assert(Json::List(items)@->List_0 =~= views(items@));
}

pub proof fn object_view(members: Vec<(String, Json)>)
    ensures
        Json::Object(members)@ == JsonView::Object(members_view(members@)),
{
    assert(Json::Object(members)@->Object_0 =~= members_view(members@));
}

/// Whether two JSON values are the same.
pub fn same_json(a: &Json, b: &Json) -> (equal: bool)
    ensures
        equal == (a@ == b@),
    decreases a,
{
    match (a, b) {
        (Json::Null, Json::Null) => true,
        (Json::Bool(x), Json::Bool(y)) => *x == *y,
        (Json::Unsigned(x), Json::Unsigned(y)) => *x == *y,
        (Json::Negative(x), Json::Negative(y)) => *x == *y,
        (Json::Other(x), Json::Other(y)) => same(x.as_str(), y.as_str()),
        (Json::Text(x), Json::Text(y)) => same(x.as_str(), y.as_str()),
        (Json::List(x), Json::List(y)) => {
            let ghost p = a@->List_0;
            let ghost q = b@->List_0;
            if x.len() != y.len() {
                assert(p.len() != q.len());
                return false;
            }
            let mut i: usize = 0;
            while i < x.len()
                invariant
                    i <= x.len(),
                    x.len() == y.len(),
                    *a == Json::List(*x),
                    *b == Json::List(*y),
                    p == a@->List_0,
                    q == b@->List_0,
                    forall|j: int| 0 <= j < i ==> p[j] == q[j],
                decreases x.len() - i,
            {
                assert(decreases_to!(a => x@[i as int]));
                assert(p[i as int] == x@[i as int]@ && q[i as int] == y@[i as int]@);
                if !same_json(&x[i], &y[i]) {
                    return false;
                }
                i = i + 1;
            }
            assert(p =~= q);
            true
        },
        (Json::Object(x), Json::Object(y)) => {
            let ghost p = a@->Object_0;
            let ghost q = b@->Object_0;
            if x.len() != y.len() {
                assert(p.len() != q.len());
                return false;
            }
            let mut i: usize = 0;
            while i < x.len()
                invariant
                    i <= x.len(),
                    x.len() == y.len(),
                    *a == Json::Object(*x),
                    *b == Json::Object(*y),
                    p == a@->Object_0,
                    q == b@->Object_0,
                    forall|j: int| 0 <= j < i ==> p[j] == q[j],
                decreases x.len() - i,
            {
                assert(decreases_to!(a => x@[i as int].1));
                assert(p[i as int] == (x@[i as int].0@, x@[i as int].1@));
                assert(q[i as int] == (y@[i as int].0@, y@[i as int].1@));
                if !same(x[i].0.as_str(), y[i].0.as_str()) || !same_json(&x[i].1, &y[i].1) {
                    return false;
                }
                i = i + 1;
            }
            assert(p =~= q);
            true
        },
        _ => false,
    }
}

/// A copy of a JSON value.
pub fn clone_json(value: &Json) -> (copy: Json)
    ensures
        copy@ == value@,
    decreases value,
{
    match value {
        Json::Null => Json::Null,
        Json::Bool(b) => Json::Bool(*b),
        Json::Unsigned(n) => Json::Unsigned(*n),
        Json::Negative(n) => Json::Negative(*n),
        Json::Other(t) => Json::Other(t.clone()),
        Json::Text(t) => Json::Text(t.clone()),
        Json::List(items) => {
            let mut copy: Vec<Json> = Vec::new();
            let mut i: usize = 0;
            while i < items.len()
                invariant
                    i <= items.len(),
                    *value == Json::List(*items),
                    copy.len() == i,
                    forall|j: int| 0 <= j < i ==> (#[trigger] copy@[j])@ == items@[j]@,
                decreases items.len() - i,
            {
                assert(decreases_to!(value => value->List_0@[i as int]));
                let item = clone_json(&items[i]);
                copy.push(item);
                i = i + 1;
            }
            let result = Json::List(copy);
            assert(result@->List_0 =~= value@->List_0);
            result
        },
        Json::Object(members) => {
            let mut copy: Vec<(String, Json)> = Vec::new();
            let mut i: usize = 0;
            while i < members.len()
                invariant
                    i <= members.len(),
                    *value == Json::Object(*members),
                    copy.len() == i,
                    forall|j: int|
                        0 <= j < i ==> (#[trigger] copy@[j]).0@ == members@[j].0@
                            && copy@[j].1@ == members@[j].1@,
                decreases members.len() - i,
            {
                assert(decreases_to!(value => value->Object_0@[i as int].1));
                let member = clone_json(&members[i].1);
                copy.push((members[i].0.clone(), member));
                i = i + 1;
            }
            let result = Json::Object(copy);
            assert(result@->Object_0 =~= value@->Object_0);
            result
        },
    }
}

impl Clone for Json {
    fn clone(&self) -> (copy: Self)
        ensures
            copy@ == self@,
    {
        clone_json(self)
    }
}

// ---------------------------------------------------------------------------------------------
// Reading
// ---------------------------------------------------------------------------------------------
/// The value of the first member with the given name.
pub open spec fn member(members: Seq<(Seq<char>, JsonView)>, name: Seq<char>) -> Option<JsonView>
    decreases members.len(),
{
    if members.len() == 0 {
        None
    } else if members[0].0 == name {
        Some(members[0].1)
    } else {
        member(members.drop_first(), name)
    }
}

/// The first member of a name is the one in front of which the name does not occur.
pub proof fn member_at(members: Seq<(Seq<char>, JsonView)>, at: int)
    requires
        0 <= at < members.len(),
        forall|i: int| 0 <= i < at ==> (#[trigger] members[i]).0 != members[at].0,
    ensures
        member(members, members[at].0) == Some(members[at].1),
    decreases members.len(),
{
    if at > 0 {
        let rest = members.drop_first();
        assert(rest[at - 1] == members[at]);
        assert forall|i: int| 0 <= i < at - 1 implies (#[trigger] rest[i]).0 != rest[at - 1].0 by {
            assert(rest[i] == members[i + 1]);
        }
        member_at(rest, at - 1);
    }
}

/// The member of that name of an object, if there is one.
pub fn find_member<'a>(members: &'a Vec<(String, Json)>, name: &str) -> (found: Option<&'a Json>)
    ensures
        match found {
            Some(value) => member(members_view(members@), name@) == Some(value@),
            None => member(members_view(members@), name@) is None,
        },
{
    let ghost all = members_view(members@);
    let mut i: usize = 0;
    assert(all.skip(0) =~= all);
    while i < members.len()
        invariant
            i <= members.len(),
            all == members_view(members@),
            member(all, name@) == member(all.skip(i as int), name@),
        decreases members.len() - i,
    {
        assert(all.skip(i as int)[0] == all[i as int]);
        assert(all.skip(i as int).drop_first() =~= all.skip(i + 1));
        if same(members[i].0.as_str(), name) {
            return Some(&members[i].1);
        }
        i = i + 1;
    }
    None
}

/// Whether every member of an object has one of the given names.
pub open spec fn only_named(members: Seq<(Seq<char>, JsonView)>, names: Seq<Seq<char>>) -> bool {
    forall|i: int| 0 <= i < members.len() ==> names.contains(#[trigger] members[i].0)
}

pub fn has_only(members: &Vec<(String, Json)>, names: &Vec<&str>) -> (result: bool)
    ensures
        result == only_named(members_view(members@), views(names@)),
{
    let ghost all = members_view(members@);
    let ghost wanted = views(names@);
    let mut i: usize = 0;
    while i < members.len()
        invariant
            i <= members.len(),
            all == members_view(members@),
            wanted == views(names@),
            forall|j: int| 0 <= j < i ==> wanted.contains(#[trigger] all[j].0),
        decreases members.len() - i,
    {
        let mut found = false;
        let mut k: usize = 0;
        while k < names.len()
            invariant
                i < members.len(),
                k <= names.len(),
                all == members_view(members@),
                wanted == views(names@),
                found ==> wanted.contains(all[i as int].0),
                !found ==> forall|j: int| 0 <= j < k ==> wanted[j] != all[i as int].0,
            decreases names.len() - k,
        {
            if same(names[k], members[i].0.as_str()) {
                assert(wanted[k as int] == all[i as int].0);
                found = true;
            }
            k = k + 1;
        }
        if !found {
            assert(!wanted.contains(all[i as int].0));
            return false;
        }
        i = i + 1;
    }
    true
}

/// Whether a value can be read as a record of the given fields: an object that has no other
/// members, or a list of as many items.
pub open spec fn record_shape(value: JsonView, names: Seq<Seq<char>>) -> bool {
    match value {
        JsonView::Object(members) => only_named(members, names),
        JsonView::List(items) => items.len() == names.len(),
        _ => false,
    }
}

/// The value of a field of a record: the member of that name, or the item at that place.
pub open spec fn record_field(value: JsonView, names: Seq<Seq<char>>, at: int) -> Option<JsonView> {
    match value {
        JsonView::Object(members) => member(members, names[at]),
        JsonView::List(items) => if 0 <= at < items.len() {
            Some(items[at])
        } else {
            None
        },
        _ => None,
    }
}

/// Whether a value can be read as a record that may have further members: any object, or a list
/// of as many items.
pub open spec fn open_shape(value: JsonView, names: Seq<Seq<char>>) -> bool {
    match value {
        JsonView::Object(_) => true,
        JsonView::List(items) => items.len() == names.len(),
        _ => false,
    }
}

pub fn is_open_record(value: &Json, names: &Vec<&str>) -> (result: bool)
    ensures
        result == open_shape(value@, views(names@)),
{
    match value {
        Json::Object(_) => true,
        Json::List(items) => items.len() == names.len(),
        _ => false,
    }
}

pub fn is_record(value: &Json, names: &Vec<&str>) -> (result: bool)
    ensures
        result == record_shape(value@, views(names@)),
{
    match value {
        Json::Object(members) => {
            proof {
                object_view(*members);
            }
            has_only(members, names)
        },
        Json::List(items) => items.len() == names.len(),
        _ => false,
    }
}

pub fn field_of<'a>(value: &'a Json, names: &Vec<&str>, at: usize) -> (found: Option<&'a Json>)
    requires
        at < names.len(),
    ensures
        match found {
            Some(found) => record_field(value@, views(names@), at as int) == Some(found@),
            None => record_field(value@, views(names@), at as int) is None,
        },
{
    match value {
        Json::Object(members) => {
            proof {
                object_view(*members);
            }
            find_member(members, names[at])
        },
        Json::List(items) => {
            proof {
                list_view(*items);
            }
            if at < items.len() {
                Some(&items[at])
            } else {
                None
            }
        },
        _ => None,
    }
}

// ---------------------------------------------------------------------------------------------
// Notation
// ---------------------------------------------------------------------------------------------
#[verifier::external_type_specification]
#[verifier::external_body]
pub struct ExValue(serde_json::Value);

/// What a parsed value holds.
pub uninterp spec fn value_contents(value: serde_json::Value) -> JsonView;

/// The value that bytes are the notation of, or what is wrong with them.
pub uninterp spec fn json_document(bytes: Seq<u8>) -> Result<JsonView, Seq<char>>;

/// `serde_json::from_slice` to `Value` reads one JSON value, and says of other bytes what is
/// wrong with them. What the notation is stays unsaid; the result is named by the bytes alone.
#[verifier::external_body]
fn parse_value(bytes: &[u8]) -> (result: Result<serde_json::Value, String>)
    ensures
        match result {
            Ok(value) => json_document(bytes@) == Ok::<_, Seq<char>>(value_contents(value)),
            Err(problem) => json_document(bytes@) == Err::<JsonView, _>(problem@),
        },
{
    serde_json::from_slice(bytes).map_err(|error| error.to_string())
}

/// Takes a `serde_json::Value` apart: each of its variants becomes the variant of the same kind,
/// and a number an integer of 64 bits where it is one.
#[verifier::external_body]
fn json_from_value(value: serde_json::Value) -> (json: Json)
    ensures
        json@ == value_contents(value),
{
    match value {
        serde_json::Value::Null => Json::Null,
        serde_json::Value::Bool(b) => Json::Bool(b),
        serde_json::Value::Number(n) => match (n.as_u64(), n.as_i64()) {
            (Some(n), _) => Json::Unsigned(n),
            (None, Some(n)) => Json::Negative(n),
            (None, None) => Json::Other(n.to_string()),
        },
        serde_json::Value::String(text) => Json::Text(text),
        serde_json::Value::Array(items) => Json::List(items.into_iter().map(json_from_value).collect()),
        serde_json::Value::Object(members) => Json::Object(
            members.into_iter().map(|(name, value)| (name, json_from_value(value))).collect(),
        ),
    }
}

/// Reads one JSON value.
pub fn parse_json(bytes: &Vec<u8>) -> (result: Result<Json, String>)
    ensures
        match result {
            Ok(json) => json_document(bytes@) == Ok::<_, Seq<char>>(json@),
            Err(problem) => json_document(bytes@) == Err::<JsonView, _>(problem@),
        },
{
    parse_slice(bytes.as_slice())
}

/// Reads one JSON value of a part of some bytes.
pub fn parse_slice(bytes: &[u8]) -> (result: Result<Json, String>)
    ensures
        match result {
            Ok(json) => json_document(bytes@) == Ok::<_, Seq<char>>(json@),
            Err(problem) => json_document(bytes@) == Err::<JsonView, _>(problem@),
        },
{
    match parse_value(bytes) {
        Ok(value) => Ok(json_from_value(value)),
        Err(problem) => Err(problem),
    }
}

/// How many bytes the first JSON value takes, with the white space before it.
pub uninterp spec fn value_length(bytes: Seq<u8>) -> Option<usize>;

/// `StreamDeserializer::next` to `IgnoredAny` skips white space and one JSON value, and
/// `StreamDeserializer::byte_offset` then says where the value ends. What is a value stays unsaid;
/// the result is named by the bytes alone.
#[verifier::external_body]
pub(crate) fn skip_value(bytes: &[u8]) -> (length: Option<usize>)
    ensures
        length == value_length(bytes@),
        length matches Some(length) ==> 0 < length <= bytes@.len(),
{
    let mut values = serde_json::Deserializer::from_slice(bytes).into_iter::<IgnoredAny>();
    values.next()?.ok()?;
    Some(values.byte_offset())
}

// ---------------------------------------------------------------------------------------------
// Printing
// ---------------------------------------------------------------------------------------------
/// The names of members.
pub open spec fn names_of(members: Seq<(Seq<char>, JsonView)>) -> Seq<Seq<char>> {
    Seq::new(members.len(), |i: int| members[i].0)
}

/// Whether a value can be printed so that it reads back unchanged: it is nested no deeper than
/// that, its numbers are integers of 64 bits, and no member of an object is named like another.
pub open spec fn printable(value: JsonView, depth: nat) -> bool
    decreases depth,
{
    match value {
        JsonView::Negative(n) => n < 0,
        JsonView::Other(_) => false,
        JsonView::List(items) => depth > 0 && forall|i: int|
            0 <= i < items.len() ==> printable(#[trigger] items[i], (depth - 1) as nat),
        JsonView::Object(members) => depth > 0 && names_of(members).no_duplicates() && forall|i: int|
            0 <= i < members.len() ==> printable((#[trigger] members[i]).1, (depth - 1) as nat),
        _ => true,
    }
}

/// What can be printed within some depth can be printed within a greater one.
pub proof fn deeper_is_printable(value: JsonView, depth: nat, more: nat)
    requires
        printable(value, depth),
        depth <= more,
    ensures
        printable(value, more),
    decreases depth,
{
    match value {
        JsonView::List(items) => {
            assert forall|i: int| 0 <= i < items.len() implies printable(
                #[trigger] items[i],
                (more - 1) as nat,
            ) by {
                deeper_is_printable(items[i], (depth - 1) as nat, (more - 1) as nat);
            }
        },
        JsonView::Object(members) => {
            assert forall|i: int| 0 <= i < members.len() implies printable(
                (#[trigger] members[i]).1,
                (more - 1) as nat,
            ) by {
                deeper_is_printable(members[i].1, (depth - 1) as nat, (more - 1) as nat);
            }
        },
        _ => {},
    }
}

/// How deep values are nested that are read.
pub const DEPTH: u8 = 127;

fn is_printable(json: &Json, depth: u8) -> (result: bool)
    ensures
        result == printable(json@, depth as nat),
    decreases depth,
{
    match json {
        Json::Negative(n) => *n < 0,
        Json::Other(_) => false,
        Json::List(items) => {
            proof {
                list_view(*items);
            }
            if depth == 0 {
                return false;
            }
            let mut i: usize = 0;
            while i < items.len()
                invariant
                    i <= items.len(),
                    depth > 0,
                    json@ == JsonView::List(views(items@)),
                    forall|k: int|
                        0 <= k < i ==> printable(#[trigger] views(items@)[k], (depth - 1) as nat),
                decreases items.len() - i,
            {
                if !is_printable(&items[i], depth - 1) {
                    assert(json@->List_0[i as int] == items@[i as int]@);
                    assert(!printable(json@->List_0[i as int], (depth - 1) as nat));
                    return false;
                }
                i = i + 1;
            }
            true
        },
        Json::Object(members) => {
            proof {
                object_view(*members);
            }
            let ghost all = members_view(members@);
            if depth == 0 {
                return false;
            }
            let mut i: usize = 0;
            while i < members.len()
                invariant
                    i <= members.len(),
                    depth > 0,
                    json@ == JsonView::Object(all),
                    all == members_view(members@),
                    forall|k: int|
                        0 <= k < i ==> printable((#[trigger] all[k]).1, (depth - 1) as nat),
                    forall|j: int, k: int|
                        0 <= j < k < i ==> #[trigger] names_of(all)[j] != #[trigger] names_of(all)[k],
                decreases members.len() - i,
            {
                let mut j: usize = 0;
                assert(all[i as int] == (members@[i as int].0@, members@[i as int].1@));
                while j < i
                    invariant
                        j <= i < members.len(),
                        json@ == JsonView::Object(all),
                        all == members_view(members@),
                        forall|k: int|
                            0 <= k < j ==> #[trigger] names_of(all)[k] != names_of(all)[i as int],
                    decreases i - j,
                {
                    assert(names_of(all)[j as int] == members@[j as int].0@);
                    if same(members[j].0.as_str(), members[i].0.as_str()) {
                        assert(names_of(all)[j as int] == names_of(all)[i as int]);
                        return false;
                    }
                    j = j + 1;
                }
                if !is_printable(&members[i].1, depth - 1) {
                    return false;
                }
                i = i + 1;
            }
            assert(names_of(all).no_duplicates());
            true
        },
        _ => true,
    }
}

/// The value in one line.
pub uninterp spec fn compact_notation(value: JsonView) -> Seq<u8>;

/// The value with a line for each item and member.
pub uninterp spec fn pretty_notation(value: JsonView) -> Seq<u8>;

/// Builds a `serde_json::Value`: each variant becomes the one of the same kind, and members keep
/// their order.
#[verifier::external_body]
fn value_from_json(json: &Json) -> (value: serde_json::Value)
    requires
        printable(json@, DEPTH as nat),
    ensures
        value_contents(value) == json@,
{
    match json {
        Json::Null => serde_json::Value::Null,
        Json::Bool(b) => serde_json::Value::Bool(*b),
        Json::Unsigned(n) => serde_json::Value::from(*n),
        Json::Negative(n) => serde_json::Value::from(*n),
        Json::Other(text) => serde_json::Value::String(text.clone()),
        Json::Text(text) => serde_json::Value::String(text.clone()),
        Json::List(items) => items.iter().map(value_from_json).collect(),
        Json::Object(members) => members.iter().map(
            |(name, value)| (name.clone(), value_from_json(value)),
        ).collect(),
    }
}

/// `serde_json::to_vec` on a `Value`, which has no reason to fail. What it writes stays unsaid, but
/// that it is named by the value alone, and that with a line feed behind it `from_slice` reads the
/// value back.
#[verifier::external_body]
fn compact_bytes(value: &serde_json::Value) -> (bytes: Option<Vec<u8>>)
    requires
        printable(value_contents(*value), DEPTH as nat),
    ensures
        match bytes {
            Some(written) => written@ == compact_notation(value_contents(*value)) && json_document(
                written@.push(10),
            ) == Ok::<_, Seq<char>>(value_contents(*value)),
            None => false,
        },
{
    serde_json::to_vec(value).ok()
}

/// `serde_json::to_vec_pretty` on a `Value`, which has no reason to fail. What it writes stays
/// unsaid, but that it is named by the value alone, and that with a line feed behind it
/// `from_slice` reads the value back.
#[verifier::external_body]
fn pretty_bytes(value: &serde_json::Value) -> (bytes: Option<Vec<u8>>)
    requires
        printable(value_contents(*value), DEPTH as nat),
    ensures
        match bytes {
            Some(written) => written@ == pretty_notation(value_contents(*value)) && json_document(
                written@.push(10),
            ) == Ok::<_, Seq<char>>(value_contents(*value)),
            None => false,
        },
{
    serde_json::to_vec_pretty(value).ok()
}

/// Prints a value in a line of its own. What is printed reads back as the value.
pub fn print_line(json: &Json) -> (line: Option<Vec<u8>>)
    ensures
        match line {
            Some(line) => printable(json@, DEPTH as nat) && line@ == compact_notation(json@).push(
                10,
            ) && json_document(line@) == Ok::<_, Seq<char>>(json@),
            None => !printable(json@, DEPTH as nat),
        },
{
    if !is_printable(json, DEPTH) {
        return None;
    }
    let mut line = compact_bytes(&value_from_json(json))?;
    line.push(10);
    Some(line)
}

/// Prints a value over several lines. What is printed reads back as the value.
pub fn print_lines(json: &Json) -> (lines: Option<Vec<u8>>)
    ensures
        match lines {
            Some(lines) => printable(json@, DEPTH as nat) && lines@ == pretty_notation(json@).push(
                10,
            ) && json_document(lines@) == Ok::<_, Seq<char>>(json@),
            None => !printable(json@, DEPTH as nat),
        },
{
    if !is_printable(json, DEPTH) {
        return None;
    }
    let mut lines = pretty_bytes(&value_from_json(json))?;
    lines.push(10);
    Some(lines)
}

} // verus!
