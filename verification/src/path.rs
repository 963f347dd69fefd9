//! Paths, as texts whose segments `/` separates and which are absolute when they begin with `/`.
use vstd::prelude::*;
use vstd::string::*;

use crate::text::{
    chars_of, optional, pairs, same, same_texts, split, split_text, text_of, views,
};

verus! {

/// Whether a path begins at the root.
pub open spec fn absolute(path: Seq<char>) -> bool {
    path.len() > 0 && path[0] == '/'
}

pub fn is_absolute(path: &str) -> (result: bool)
    ensures
        result == absolute(path@),
{
    let chars = chars_of(path);
    chars.len() > 0 && chars[0] == '/'
}

/// `path` seen from `base`: itself where it is absolute, else below `base`.
pub open spec fn joined_path(base: Seq<char>, path: Seq<char>) -> Seq<char> {
    if absolute(path) {
        path
    } else if base.len() == 0 || base.last() == '/' {
        base + path
    } else {
        base + "/"@ + path
    }
}

pub fn join_path(base: &str, path: &str) -> (result: String)
    ensures
        result@ == joined_path(base@, path@),
{
    if is_absolute(path) {
        return path.to_owned();
    }
    let chars = chars_of(base);
    let mut result = base.to_owned();
    if chars.len() > 0 && chars[chars.len() - 1] != '/' {
        result.append("/");
    }
    result.append(path);
    result
}

/// The segments that tell paths apart: not those that are empty, nor those that stay in the
/// directory, unless the path begins with one.
pub open spec fn telling(segments: Seq<Seq<char>>) -> Seq<Seq<char>>
    decreases segments.len(),
{
    if segments.len() == 0 {
        Seq::empty()
    } else if segments.last().len() == 0 || (segments.last() == "."@ && segments.len() > 1) {
        telling(segments.drop_last())
    } else {
        telling(segments.drop_last()).push(segments.last())
    }
}

/// What tells a path apart from others: whether it begins at the root, and its segments.
pub open spec fn route(path: Seq<char>) -> (bool, Seq<Seq<char>>) {
    (absolute(path), telling(split(path, '/')))
}

/// Whether two paths are the same, however often their separators are written, and with or without
/// one at the end.
pub open spec fn same_path(a: Seq<char>, b: Seq<char>) -> bool {
    route(a) == route(b)
}

fn telling_segments(path: &str) -> (segments: Vec<String>)
    ensures
        views(segments@) == telling(split(path@, '/')),
{
    let pieces = split_text(path, '/');
    let ghost all = views(pieces@);
    let mut segments: Vec<String> = Vec::new();
    let mut i: usize = 0;
    assert(views(segments@) =~= telling(all.take(0)));
    while i < pieces.len()
        invariant
            i <= pieces.len(),
            all == views(pieces@),
            views(segments@) == telling(all.take(i as int)),
        decreases pieces.len() - i,
    {
        let ghost before = views(segments@);
        let piece = &pieces[i];
        assert(all.take(i + 1).drop_last() =~= all.take(i as int));
        assert(all.take(i + 1).last() == piece@);
        if !(piece.as_str().is_empty() || (same(piece.as_str(), ".") && i > 0)) {
            segments.push(piece.clone());
            assert(views(segments@) =~= before.push(piece@));
        }
        i = i + 1;
    }
    assert(all.take(i as int) =~= all);
    segments
}

pub fn is_same_path(a: &str, b: &str) -> (result: bool)
    ensures
        result == same_path(a@, b@),
{
    let here = telling_segments(a);
    let there = telling_segments(b);
    is_absolute(a) == is_absolute(b) && same_texts(&here, &there)
}

/// The last of the segments that name something: not empty, and not the directory itself.
pub open spec fn last_segment(segments: Seq<Seq<char>>) -> Option<Seq<char>>
    decreases segments.len(),
{
    if segments.len() == 0 {
        None
    } else if segments.last().len() == 0 || segments.last() == "."@ {
        last_segment(segments.drop_last())
    } else {
        Some(segments.last())
    }
}

/// The name of what a path leads to, unless it leads to a root or up from where it starts.
pub open spec fn name_of(path: Seq<char>) -> Option<Seq<char>> {
    match last_segment(split(path, '/')) {
        Some(name) if name != ".."@ => Some(name),
        _ => None,
    }
}

pub fn file_name(path: &str) -> (name: Option<String>)
    ensures
        optional(name) == name_of(path@),
{
    let pieces = split_text(path, '/');
    let ghost all = views(pieces@);
    let mut end: usize = pieces.len();
    assert(all.take(end as int) =~= all);
    while end > 0
        invariant
            end <= pieces.len(),
            all == views(pieces@),
            all == split(path@, '/'),
            last_segment(all) == last_segment(all.take(end as int)),
        decreases end,
    {
        let piece = &pieces[end - 1];
        assert(all.take(end as int).last() == piece@);
        assert(all.take(end as int).drop_last() =~= all.take(end - 1));
        if piece.as_str().is_empty() || same(piece.as_str(), ".") {
            end = end - 1;
        } else if same(piece.as_str(), "..") {
            return None;
        } else {
            return Some(piece.clone());
        }
    }
    None
}

/// The path without separators and segments `.` at its end; a root stays.
pub open spec fn chopped(path: Seq<char>) -> Seq<char>
    decreases path.len(),
{
    if path.len() > 1 && path.last() == '/' {
        chopped(path.drop_last())
    } else if path.len() > 1 && path.last() == '.' && path[path.len() - 2] == '/' {
        chopped(path.drop_last())
    } else {
        path
    }
}

/// Where the last segment of a path begins.
pub open spec fn segment_start(path: Seq<char>) -> nat
    decreases path.len(),
{
    if path.len() == 0 {
        0
    } else if path.last() == '/' {
        path.len()
    } else {
        segment_start(path.drop_last())
    }
}

/// The path of the directory that holds what a path leads to. A root and the empty path have
/// none.
pub open spec fn parent_of(path: Seq<char>) -> Option<Seq<char>> {
    let whole = chopped(path);
    if whole.len() == 0 || whole == "/"@ {
        None
    } else {
        Some(chopped(whole.take(segment_start(whole) as int)))
    }
}

fn chop(chars: &Vec<char>, end: usize) -> (result: usize)
    requires
        end <= chars.len(),
    ensures
        result <= end,
        chopped(chars@.take(end as int)) == chars@.take(result as int),
    decreases end,
{
    let ghost path = chars@.take(end as int);
    if end > 1 && (chars[end - 1] == '/' || (chars[end - 1] == '.' && chars[end - 2] == '/')) {
        assert(path.drop_last() =~= chars@.take(end - 1));
        chop(chars, end - 1)
    } else {
        end
    }
}

pub fn parent(path: &str) -> (result: Option<String>)
    ensures
        optional(result) == parent_of(path@),
{
    let chars = chars_of(path);
    assert(chars@.take(chars@.len() as int) =~= path@);
    let end = chop(&chars, chars.len());
    let ghost whole = chars@.take(end as int);
    proof {
        reveal_strlit("/");
        assert(whole == "/"@ <==> (whole.len() == 1 && whole[0] == '/')) by {
            if whole.len() == 1 && whole[0] == '/' {
                assert(whole =~= "/"@);
            }
        }
    }
    if end == 0 || (end == 1 && chars[0] == '/') {
        return None;
    }
    let mut start: usize = end;
    while start > 0 && chars[start - 1] != '/'
        invariant
            start <= end <= chars.len(),
            whole == chars@.take(end as int),
            segment_start(whole) == segment_start(chars@.take(start as int)),
        decreases start,
    {
        assert(chars@.take(start as int).drop_last() =~= chars@.take(start - 1));
        start = start - 1;
    }
    assert(segment_start(whole) == start);
    assert(whole.take(start as int) =~= chars@.take(start as int));
    let stop = chop(&chars, start);
    let result = text_of(&chars, 0, stop);
    assert(result@ =~= chars@.take(stop as int));
    Some(result)
}

/// Where a path was found to lead to in the file system, by what is known of some paths.
pub open spec fn known_place(places: Seq<(Seq<char>, Seq<char>)>, path: Seq<char>) -> Option<
    Seq<char>,
>
    decreases places.len(),
{
    if places.len() == 0 {
        None
    } else if places[0].0 == path {
        Some(places[0].1)
    } else {
        known_place(places.drop_first(), path)
    }
}

pub fn find_known_place(places: &Vec<(String, String)>, path: &str) -> (place: Option<String>)
    ensures
        optional(place) == known_place(pairs(places@), path@),
{
    let ghost all = pairs(places@);
    let mut i: usize = 0;
    assert(all.skip(0) =~= all);
    while i < places.len()
        invariant
            i <= places.len(),
            all == pairs(places@),
            known_place(all, path@) == known_place(all.skip(i as int), path@),
        decreases places.len() - i,
    {
        assert(all.skip(i as int)[0] == (places@[i as int].0@, places@[i as int].1@));
        assert(all.skip(i as int).drop_first() =~= all.skip(i + 1));
        if same(places[i].0.as_str(), path) {
            return Some(places[i].1.clone());
        }
        i = i + 1;
    }
    None
}

/// Where a path leads to: where it was found to lead, or else where it says.
pub open spec fn place_of(places: Seq<(Seq<char>, Seq<char>)>, path: Seq<char>) -> Seq<char> {
    match known_place(places, path) {
        Some(place) => place,
        None => path,
    }
}

pub fn find_place(places: &Vec<(String, String)>, path: &str) -> (place: String)
    ensures
        place@ == place_of(pairs(places@), path@),
{
    match find_known_place(places, path) {
        Some(place) => place,
        None => path.to_owned(),
    }
}

} // verus!
