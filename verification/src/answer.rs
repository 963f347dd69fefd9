//! Answers in JSON, of which some members are read and all others are skipped.
//!
//! An answer is taken apart value by value. What is skipped need only be a value. What is read may
//! stand there once.
use vstd::prelude::*;
use vstd::slice::*;

use crate::json::{
    json_document, list_view, members_view, names_of, object_view, parse_slice, skip_value,
    value_length, Json, JsonView,
};
use crate::text::{same, views};

verus! {

// ---------------------------------------------------------------------------------------------
// Parts
// ---------------------------------------------------------------------------------------------
pub open spec fn is_space(byte: u8) -> bool {
    byte == 32 || byte == 9 || byte == 10 || byte == 13
}

/// What stands behind white space.
pub open spec fn unspaced(bytes: Seq<u8>) -> Seq<u8>
    decreases bytes.len(),
{
    if bytes.len() > 0 && is_space(bytes[0]) {
        unspaced(bytes.drop_first())
    } else {
        bytes
    }
}

/// Whether a byte stands next, behind white space.
pub open spec fn stands_next(bytes: Seq<u8>, byte: u8) -> bool {
    unspaced(bytes).len() > 0 && unspaced(bytes)[0] == byte
}

/// What stands behind white space and one byte more.
pub open spec fn past_next(bytes: Seq<u8>) -> Seq<u8> {
    unspaced(bytes).drop_first()
}

/// The next value, with the white space before it, and what stands behind it.
pub open spec fn value_ahead(bytes: Seq<u8>) -> Option<(Seq<u8>, Seq<u8>)> {
    match value_length(bytes) {
        Some(length) if length <= bytes.len() => Some(
            (bytes.take(length as int), bytes.skip(length as int)),
        ),
        _ => None,
    }
}

pub proof fn unspaced_is_no_longer(bytes: Seq<u8>)
    ensures
        unspaced(bytes).len() <= bytes.len(),
    decreases bytes.len(),
{
    if bytes.len() > 0 && is_space(bytes[0]) {
        unspaced_is_no_longer(bytes.drop_first());
    }
}

fn skip_space<'a>(bytes: &'a [u8]) -> (rest: &'a [u8])
    ensures
        rest@ == unspaced(bytes@),
{
    let mut i: usize = 0;
    assert(bytes@.skip(0) =~= bytes@);
    while i < bytes.len() && (bytes[i] == 32 || bytes[i] == 9 || bytes[i] == 10 || bytes[i] == 13)
        invariant
            i <= bytes@.len(),
            unspaced(bytes@) == unspaced(bytes@.skip(i as int)),
        decreases bytes@.len() - i,
    {
        assert(bytes@.skip(i as int)[0] == bytes@[i as int]);
        assert(bytes@.skip(i as int).drop_first() =~= bytes@.skip(i + 1));
        i = i + 1;
    }
    let rest = slice_subrange(bytes, i, bytes.len());
    assert(rest@ =~= bytes@.skip(i as int));
    if i < bytes.len() {
        assert(bytes@.skip(i as int)[0] == bytes@[i as int]);
    }
    rest
}

/// What stands behind a byte, if that stands next.
fn take_byte<'a>(bytes: &'a [u8], byte: u8) -> (rest: Option<&'a [u8]>)
    ensures
        match rest {
            Some(rest) => stands_next(bytes@, byte) && rest@ == past_next(bytes@),
            None => !stands_next(bytes@, byte),
        },
{
    let next = skip_space(bytes);
    if next.len() > 0 && next[0] == byte {
        let rest = slice_subrange(next, 1, next.len());
        assert(rest@ =~= next@.drop_first());
        Some(rest)
    } else {
        None
    }
}

fn take_value<'a>(bytes: &'a [u8]) -> (result: Option<(&'a [u8], &'a [u8])>)
    ensures
        match result {
            Some((value, rest)) => value_ahead(bytes@) == Some((value@, rest@)),
            None => value_ahead(bytes@) is None,
        },
{
    let length: usize = skip_value(bytes)?;
    let value = slice_subrange(bytes, 0, length);
    let rest = slice_subrange(bytes, length, bytes.len());
    assert(value@ =~= bytes@.take(length as int));
    assert(rest@ =~= bytes@.skip(length as int));
    Some((value, rest))
}

// ---------------------------------------------------------------------------------------------
// Lists
// ---------------------------------------------------------------------------------------------
/// The items of a list from here to its end, behind those that were found, and what stands behind
/// the list.
pub open spec fn items_from(bytes: Seq<u8>, found: Seq<Seq<u8>>) -> Option<
    (Seq<Seq<u8>>, Seq<u8>),
>
    decreases bytes.len(),
{
    match value_ahead(bytes) {
        None => None,
        Some((item, rest)) => {
            proof {
                unspaced_is_no_longer(rest);
            }
            if stands_next(rest, 44) {
                items_from(past_next(rest), found.push(item))
            } else if stands_next(rest, 93) {
                Some((found.push(item), past_next(rest)))
            } else {
                None
            }
        },
    }
}

/// The items of a list, each with its own bytes.
pub open spec fn items_in(bytes: Seq<u8>) -> Option<Seq<Seq<u8>>> {
    if !stands_next(bytes, 91) {
        None
    } else {
        let inner = past_next(bytes);
        let all = if stands_next(inner, 93) {
            Some((Seq::empty(), past_next(inner)))
        } else {
            items_from(inner, Seq::empty())
        };
        match all {
            Some((items, rest)) if unspaced(rest).len() == 0 => Some(items),
            _ => None,
        }
    }
}

/// What parts of some bytes stand for.
pub open spec fn slices(parts: Seq<&[u8]>) -> Seq<Seq<u8>> {
    Seq::new(parts.len(), |i: int| parts[i]@)
}

pub fn list_items<'a>(bytes: &'a [u8]) -> (items: Option<Vec<&'a [u8]>>)
    ensures
        match items {
            Some(items) => items_in(bytes@) == Some(slices(items@)),
            None => items_in(bytes@) is None,
        },
{
    let inner = take_byte(bytes, 91)?;
    let mut items: Vec<&'a [u8]> = Vec::new();
    assert(slices(items@) =~= Seq::empty());
    if let Some(rest) = take_byte(inner, 93) {
        if skip_space(rest).len() == 0 {
            return Some(items);
        }
        return None;
    }
    let mut at: &'a [u8] = inner;
    loop
        invariant
            stands_next(bytes@, 91),
            inner@ == past_next(bytes@),
            !stands_next(inner@, 93),
            items_from(inner@, Seq::empty()) == items_from(at@, slices(items@)),
        decreases at@.len(),
    {
        let ghost done = slices(items@);
        let (item, rest) = take_value(at)?;
        proof {
            unspaced_is_no_longer(rest@);
        }
        items.push(item);
        assert(slices(items@) =~= done.push(item@));
        if let Some(next) = take_byte(rest, 44) {
            at = next;
        } else {
            let end = take_byte(rest, 93)?;
            if skip_space(end).len() == 0 {
                return Some(items);
            }
            return None;
        }
    }
}

// ---------------------------------------------------------------------------------------------
// Objects
// ---------------------------------------------------------------------------------------------
/// The members of an object from here to its end, behind those that were found, and what stands
/// behind the object.
pub open spec fn entries_from(bytes: Seq<u8>, found: Seq<(Seq<char>, Seq<u8>)>) -> Option<
    (Seq<(Seq<char>, Seq<u8>)>, Seq<u8>),
>
    decreases bytes.len(),
{
    let start = unspaced(bytes);
    if !stands_next(bytes, 34) {
        None
    } else {
        match value_ahead(start) {
            None => None,
            Some((name, colon)) => match json_document(name) {
                Ok(JsonView::Text(name)) if stands_next(colon, 58) => {
                    match value_ahead(past_next(colon)) {
                        None => None,
                        Some((value, rest)) => {
                            proof {
                                unspaced_is_no_longer(bytes);
                                unspaced_is_no_longer(colon);
                                unspaced_is_no_longer(rest);
                            }
                            if stands_next(rest, 44) {
                                entries_from(past_next(rest), found.push((name, value)))
                            } else if stands_next(rest, 125) {
                                Some((found.push((name, value)), past_next(rest)))
                            } else {
                                None
                            }
                        },
                    }
                },
                _ => None,
            },
        }
    }
}

/// The members of an object, each with its name and the bytes of its value. A name may be repeated.
pub open spec fn entries_in(bytes: Seq<u8>) -> Option<Seq<(Seq<char>, Seq<u8>)>> {
    if !stands_next(bytes, 123) {
        None
    } else {
        let inner = past_next(bytes);
        let all = if stands_next(inner, 125) {
            Some((Seq::empty(), past_next(inner)))
        } else {
            entries_from(inner, Seq::empty())
        };
        match all {
            Some((entries, rest)) if unspaced(rest).len() == 0 => Some(entries),
            _ => None,
        }
    }
}

pub open spec fn entries_view(entries: Seq<(String, &[u8])>) -> Seq<(Seq<char>, Seq<u8>)> {
    Seq::new(entries.len(), |i: int| (entries[i].0@, entries[i].1@))
}

fn object_entries<'a>(bytes: &'a [u8]) -> (entries: Option<Vec<(String, &'a [u8])>>)
    ensures
        match entries {
            Some(entries) => entries_in(bytes@) == Some(entries_view(entries@)),
            None => entries_in(bytes@) is None,
        },
{
    let inner = take_byte(bytes, 123)?;
    let mut entries: Vec<(String, &'a [u8])> = Vec::new();
    assert(entries_view(entries@) =~= Seq::empty());
    if let Some(rest) = take_byte(inner, 125) {
        if skip_space(rest).len() == 0 {
            return Some(entries);
        }
        return None;
    }
    let mut at: &'a [u8] = inner;
    loop
        invariant
            stands_next(bytes@, 123),
            inner@ == past_next(bytes@),
            !stands_next(inner@, 125),
            entries_from(inner@, Seq::empty()) == entries_from(at@, entries_view(entries@)),
        decreases at@.len(),
    {
        let ghost done = entries_view(entries@);
        let start = skip_space(at);
        if start.len() == 0 || start[0] != 34 {
            return None;
        }
        let (name_bytes, colon) = take_value(start)?;
        let name = match parse_slice(name_bytes) {
            Ok(Json::Text(name)) => name,
            _ => return None,
        };
        let after = take_byte(colon, 58)?;
        let (value, rest) = take_value(after)?;
        proof {
            unspaced_is_no_longer(at@);
            unspaced_is_no_longer(colon@);
            unspaced_is_no_longer(rest@);
        }
        let ghost added = (name@, value@);
        entries.push((name, value));
        assert(entries_view(entries@) =~= done.push(added));
        if let Some(next) = take_byte(rest, 44) {
            at = next;
        } else {
            let end = take_byte(rest, 125)?;
            if skip_space(end).len() == 0 {
                return Some(entries);
            }
            return None;
        }
    }
}

// ---------------------------------------------------------------------------------------------
// Records
// ---------------------------------------------------------------------------------------------
/// The members that are read, with their values; nothing where one of them is repeated or is not
/// what can be read.
pub open spec fn read_entries(entries: Seq<(Seq<char>, Seq<u8>)>, names: Seq<Seq<char>>) -> Option<
    Seq<(Seq<char>, JsonView)>,
>
    decreases entries.len(),
{
    if entries.len() == 0 {
        Some(Seq::empty())
    } else {
        let (name, bytes) = entries.last();
        match read_entries(entries.drop_last(), names) {
            None => None,
            Some(front) => if !names.contains(name) {
                Some(front)
            } else if names_of(front).contains(name) {
                None
            } else {
                match json_document(bytes) {
                    Ok(value) => Some(front.push((name, value))),
                    Err(_) => None,
                }
            },
        }
    }
}

/// The items of a record that is written as a list, with their values.
pub open spec fn read_items(items: Seq<Seq<u8>>) -> Option<Seq<JsonView>>
    decreases items.len(),
{
    if items.len() == 0 {
        Some(Seq::empty())
    } else {
        match (read_items(items.drop_last()), json_document(items.last())) {
            (Some(front), Ok(value)) => Some(front.push(value)),
            _ => None,
        }
    }
}

/// The record of the given fields that an answer holds: an object, of which only the members of
/// these names are read; or a list.
pub open spec fn record_in(bytes: Seq<u8>, names: Seq<Seq<char>>) -> Option<JsonView> {
    match entries_in(bytes) {
        Some(entries) => match read_entries(entries, names) {
            Some(members) => Some(JsonView::Object(members)),
            None => None,
        },
        None => match items_in(bytes) {
            Some(items) => match read_items(items) {
                Some(values) => Some(JsonView::List(values)),
                None => None,
            },
            None => None,
        },
    }
}

fn is_among(names: &Vec<&str>, name: &str) -> (found: bool)
    ensures
        found == views(names@).contains(name@),
{
    let mut i: usize = 0;
    while i < names.len()
        invariant
            i <= names.len(),
            forall|j: int| 0 <= j < i ==> #[trigger] views(names@)[j] != name@,
        decreases names.len() - i,
    {
        if same(names[i], name) {
            assert(views(names@)[i as int] == name@);
            return true;
        }
        i = i + 1;
    }
    false
}

fn is_read(members: &Vec<(String, Json)>, name: &str) -> (found: bool)
    ensures
        found == names_of(members_view(members@)).contains(name@),
{
    let ghost all = names_of(members_view(members@));
    let mut i: usize = 0;
    while i < members.len()
        invariant
            i <= members.len(),
            all == names_of(members_view(members@)),
            forall|j: int| 0 <= j < i ==> #[trigger] all[j] != name@,
        decreases members.len() - i,
    {
        assert(all[i as int] == members@[i as int].0@);
        if same(members[i].0.as_str(), name) {
            return true;
        }
        i = i + 1;
    }
    false
}

proof fn unread_stays_unread(
    entries: Seq<(Seq<char>, Seq<u8>)>,
    names: Seq<Seq<char>>,
    end: int,
)
    requires
        0 <= end <= entries.len(),
        read_entries(entries.take(end), names) is None,
    ensures
        read_entries(entries, names) is None,
    decreases entries.len(),
{
    if end < entries.len() {
        assert(entries.drop_last().take(end) =~= entries.take(end));
        unread_stays_unread(entries.drop_last(), names, end);
    } else {
        assert(entries.take(end) =~= entries);
    }
}

proof fn unreadable_stays_unreadable(items: Seq<Seq<u8>>, end: int)
    requires
        0 <= end <= items.len(),
        read_items(items.take(end)) is None,
    ensures
        read_items(items) is None,
    decreases items.len(),
{
    if end < items.len() {
        assert(items.drop_last().take(end) =~= items.take(end));
        unreadable_stays_unreadable(items.drop_last(), end);
    } else {
        assert(items.take(end) =~= items);
    }
}

fn read_members(entries: Vec<(String, &[u8])>, names: &Vec<&str>) -> (members: Option<
    Vec<(String, Json)>,
>)
    ensures
        match members {
            Some(members) => read_entries(entries_view(entries@), views(names@)) == Some(
                members_view(members@),
            ),
            None => read_entries(entries_view(entries@), views(names@)) is None,
        },
{
    let ghost all = entries_view(entries@);
    let ghost wanted = views(names@);
    let mut members: Vec<(String, Json)> = Vec::new();
    let mut i: usize = 0;
    assert(members_view(members@) =~= Seq::empty());
    assert(all.take(0) =~= Seq::empty());
    while i < entries.len()
        invariant
            i <= entries.len(),
            all == entries_view(entries@),
            wanted == views(names@),
            read_entries(all.take(i as int), wanted) == Some(members_view(members@)),
        decreases entries.len() - i,
    {
        let ghost done = members_view(members@);
        let name = &entries[i].0;
        assert(all.take(i + 1).drop_last() =~= all.take(i as int));
        assert(all.take(i + 1).last() == (entries@[i as int].0@, entries@[i as int].1@));
        if is_among(names, name.as_str()) {
            if is_read(&members, name.as_str()) {
                proof {
                    unread_stays_unread(all, wanted, i + 1);
                }
                return None;
            }
            match parse_slice(entries[i].1) {
                Ok(value) => {
                    let ghost added = (name@, value@);
                    members.push((name.clone(), value));
                    assert(members_view(members@) =~= done.push(added));
                },
                Err(_) => {
                    proof {
                        unread_stays_unread(all, wanted, i + 1);
                    }
                    return None;
                },
            }
        }
        i = i + 1;
    }
    assert(all.take(i as int) =~= all);
    Some(members)
}

fn read_values(items: Vec<&[u8]>) -> (values: Option<Vec<Json>>)
    ensures
        match values {
            Some(values) => read_items(slices(items@)) == Some(views(values@)),
            None => read_items(slices(items@)) is None,
        },
{
    let ghost all = slices(items@);
    let mut values: Vec<Json> = Vec::new();
    let mut i: usize = 0;
    assert(views(values@) =~= Seq::empty());
    assert(all.take(0) =~= Seq::empty());
    while i < items.len()
        invariant
            i <= items.len(),
            all == slices(items@),
            read_items(all.take(i as int)) == Some(views(values@)),
        decreases items.len() - i,
    {
        let ghost done = views(values@);
        assert(all.take(i + 1).drop_last() =~= all.take(i as int));
        assert(all.take(i + 1).last() == items@[i as int]@);
        match parse_slice(items[i]) {
            Ok(value) => {
                let ghost added = value@;
                values.push(value);
                assert(views(values@) =~= done.push(added));
            },
            Err(_) => {
                proof {
                    unreadable_stays_unreadable(all, i + 1);
                }
                return None;
            },
        }
        i = i + 1;
    }
    assert(all.take(i as int) =~= all);
    Some(values)
}

/// Reads the record of the given fields.
pub fn parse_record(bytes: &[u8], names: &Vec<&str>) -> (record: Option<Json>)
    ensures
        match record {
            Some(record) => record_in(bytes@, views(names@)) == Some(record@),
            None => record_in(bytes@, views(names@)) is None,
        },
{
    if let Some(entries) = object_entries(bytes) {
        let members = read_members(entries, names)?;
        proof {
            object_view(members);
        }
        return Some(Json::Object(members));
    }
    let items = list_items(bytes)?;
    let values = read_values(items)?;
    proof {
        list_view(values);
    }
    Some(Json::List(values))
}

} // verus!
