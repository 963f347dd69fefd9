//! What paths lead to.
use vstd::prelude::*;

use crate::path::{joined_path, name_of, route, same_path, telling};
use crate::text::split;

verus! {

/// Whether a text is the name of something in a directory.
pub open spec fn is_name(name: Seq<char>) -> bool {
    name.len() > 0 && name != "."@ && name != ".."@ && !name.contains('/')
}

proof fn last_piece(front: Seq<char>, tail: Seq<char>, separator: char)
    requires
        !tail.contains(separator),
    ensures
        split(front + seq![separator] + tail, separator) == split(front, separator).push(tail),
    decreases tail.len(),
{
    let whole = front + seq![separator] + tail;
    if tail.len() == 0 {
        assert(whole.drop_last() =~= front);
        assert(whole.last() == separator);
        assert(tail =~= Seq::empty());
    } else {
        let short = tail.drop_last();
        assert(whole.drop_last() =~= front + seq![separator] + short);
        assert(whole.last() == tail.last());
        assert(tail[tail.len() - 1] == tail.last());
        assert forall|i: int| 0 <= i < short.len() implies short[i] != separator by {
            assert(short[i] == tail[i]);
            assert(tail.contains(tail[i]));
        }
        last_piece(front, short, separator);
        let pieces = split(front, separator).push(short);
        assert(tail.contains(tail.last()));
        assert(pieces.drop_last() =~= split(front, separator));
        assert(short.push(tail.last()) =~= tail);
    }
}

proof fn only_piece(text: Seq<char>, separator: char)
    requires
        !text.contains(separator),
    ensures
        split(text, separator) == seq![text],
    decreases text.len(),
{
    if text.len() == 0 {
        assert(text =~= Seq::empty());
    } else {
        let short = text.drop_last();
        assert forall|i: int| 0 <= i < short.len() implies short[i] != separator by {
            assert(short[i] == text[i]);
            assert(text.contains(text[i]));
        }
        only_piece(short, separator);
        assert(text[text.len() - 1] == text.last());
        assert(text.contains(text.last()));
        assert(short.push(text.last()) =~= text);
        assert(seq![short].drop_last().push(text) =~= seq![text]);
    }
}

proof fn joined_pieces(base: Seq<char>, name: Seq<char>)
    requires
        is_name(name),
    ensures
        split(joined_path(base, name), '/').len() > 0,
        split(joined_path(base, name), '/').last() == name,
        base.len() > 0 ==> split(joined_path(base, name), '/').len() > 1,
{
    reveal_strlit("/");
    assert(name.contains(name[0]));
    if base.len() == 0 {
        assert(base + name =~= name);
        only_piece(name, '/');
    } else if base.last() == '/' {
        let front = base.drop_last();
        assert(base + name =~= front + seq!['/'] + name);
        last_piece(front, name, '/');
        has_a_piece(front, '/');
    } else {
        assert("/"@ =~= seq!['/']);
        last_piece(base, name, '/');
        has_a_piece(base, '/');
    }
}

proof fn has_a_piece(text: Seq<char>, separator: char)
    ensures
        split(text, separator).len() > 0,
    decreases text.len(),
{
    if text.len() > 0 {
        has_a_piece(text.drop_last(), separator);
    }
}

/// What is put into a directory under a name is found there by that name.
pub proof fn joined_paths_end_in_their_name(base: Seq<char>, name: Seq<char>)
    requires
        is_name(name),
    ensures
        name_of(joined_path(base, name)) == Some(name),
{
    joined_pieces(base, name);
}

/// Two names in one directory lead to one place only where they are one name.
pub proof fn names_lead_to_places_of_their_own(base: Seq<char>, a: Seq<char>, b: Seq<char>)
    requires
        is_name(a),
        is_name(b),
    ensures
        same_path(joined_path(base, a), joined_path(base, b)) <==> a == b,
{
    joined_pieces(base, a);
    joined_pieces(base, b);
    let way = split(joined_path(base, a), '/');
    let other = split(joined_path(base, b), '/');
    assert(telling(way).last() == a);
    assert(telling(other).last() == b);
    assert(route(joined_path(base, a)).1 == telling(way));
    assert(route(joined_path(base, b)).1 == telling(other));
}

/// A path leads to the same place with a slash behind it.
pub proof fn slashes_at_the_end_say_nothing(path: Seq<char>)
    requires
        path.len() > 0,
    ensures
        same_path(path + "/"@, path),
{
    reveal_strlit("/");
    let whole = path + "/"@;
    let nothing = Seq::<char>::empty();
    assert("/"@ =~= seq!['/']);
    assert(whole =~= path + seq!['/'] + nothing);
    last_piece(path, nothing, '/');
    let pieces = split(path, '/').push(nothing);
    assert(pieces.drop_last() =~= split(path, '/'));
    assert(whole[0] == path[0]);
}

/// A path that starts at the root leads there from anywhere; any other starts where it is read.
pub proof fn only_relative_paths_are_joined(base: Seq<char>, path: Seq<char>)
    ensures
        path.len() > 0 && path[0] == '/' ==> joined_path(base, path) == path,
        base.len() > 0 && !(path.len() > 0 && path[0] == '/') ==> joined_path(base, path).take(
            base.len() as int,
        ) == base && joined_path(base, path).len() >= base.len() + path.len() && joined_path(
            base,
            path,
        ).skip(joined_path(base, path).len() - path.len()) == path,
{
    reveal_strlit("/");
}

} // verus!
