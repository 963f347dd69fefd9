//! Text: the character-level operations that the rest of the library is stated over.
//!
//! A text is a sequence of Unicode scalar values (`Seq<char>`); paths, branch names, issue
//! titles and rendered reports are all texts.
use vstd::prelude::*;
use vstd::string::*;

verus! {

/// `String::push` puts the character at the end of the string and changes nothing else.
pub assume_specification[ String::push ](string: &mut String, c: char)
    ensures
        final(string)@ == old(string)@.push(c),
;

/// Whether two texts are the same sequence of characters.
pub fn same(a: &str, b: &str) -> (equal: bool)
    ensures
        equal == (a@ == b@),
{
    let x = a.as_bytes();
    let y = b.as_bytes();
    proof {
        vstd::utf8::encode_utf8_decode_utf8(a@);
        vstd::utf8::encode_utf8_decode_utf8(b@);
    }
    if x.len() != y.len() {
        return false;
    }
    let mut i: usize = 0;
    while i < x.len()
        invariant
            i <= x.len(),
            x.len() == y.len(),
            x@ == vstd::utf8::encode_utf8(a@),
            y@ == vstd::utf8::encode_utf8(b@),
            forall|j: int| 0 <= j < i ==> x@[j] == y@[j],
        decreases x.len() - i,
    {
        if x[i] != y[i] {
            return false;
        }
        i = i + 1;
    }
    assert(x@ =~= y@);
    true
}

/// What a sequence of values stands for, item by item.
pub open spec fn views<T: View>(items: Seq<T>) -> Seq<T::V> {
    Seq::new(items.len(), |i: int| items[i]@)
}

/// What a list of pairs of texts stands for.
pub open spec fn pairs(list: Seq<(String, String)>) -> Seq<(Seq<char>, Seq<char>)> {
    Seq::new(list.len(), |i: int| (list[i].0@, list[i].1@))
}

/// What an optional value stands for.
pub open spec fn optional<T: View>(value: Option<T>) -> Option<T::V> {
    match value {
        Some(value) => Some(value@),
        None => None,
    }
}

/// Whether an optional text is exactly the expected one.
pub fn same_optional(a: &Option<String>, b: &Option<String>) -> (equal: bool)
    ensures
        equal == (optional(*a) == optional(*b)),
{
    match (a, b) {
        (Some(a), Some(b)) => same(a.as_str(), b.as_str()),
        (None, None) => true,
        (Some(_), None) => false,
        (None, Some(_)) => false,
    }
}

/// A copy of a list of strings with the same texts.
pub fn clone_texts(strings: &Vec<String>) -> (copy: Vec<String>)
    ensures
        copy@ == strings@,
{
    let mut copy: Vec<String> = Vec::new();
    let mut i: usize = 0;
    while i < strings.len()
        invariant
            i <= strings.len(),
            copy@ == strings@.take(i as int),
        decreases strings.len() - i,
    {
        copy.push(strings[i].clone());
        i = i + 1;
        assert(strings@.take(i as int) =~= strings@.take(i - 1).push(strings@[i - 1]));
    }
    assert(strings@.take(i as int) =~= strings@);
    copy
}

/// The characters of a text.
pub fn chars_of(text: &str) -> (chars: Vec<char>)
    ensures
        chars@ == text@,
{
    let mut chars: Vec<char> = Vec::new();
    for c in it: text.chars()
        invariant
            it.seq() == text@,
            chars@ == text@.take(it.index() as int),
    {
        chars.push(c);
    }
    chars
}

/// The text made of the characters from `from` up to, and without, `to`.
pub fn text_of(chars: &[char], from: usize, to: usize) -> (text: String)
    requires
        from <= to <= chars@.len(),
    ensures
        text@ == chars@.subrange(from as int, to as int),
{
    let mut text = String::new();
    let mut i: usize = from;
    while i < to
        invariant
            from <= i <= to <= chars@.len(),
            text@ == chars@.subrange(from as int, i as int),
        decreases to - i,
    {
        text.push(chars[i]);
        i = i + 1;
        assert(chars@.subrange(from as int, i as int) =~= chars@.subrange(
            from as int,
            i - 1,
        ).push(chars@[i - 1]));
    }
    text
}

// ---------------------------------------------------------------------------------------------
// White space
// ---------------------------------------------------------------------------------------------
/// The characters with the Unicode property `White_Space`.
pub open spec fn whitespace(c: char) -> bool {
    let code = c as u32;
    ||| 0x09 <= code <= 0x0d
    ||| code == 0x20
    ||| code == 0x85
    ||| code == 0xa0
    ||| code == 0x1680
    ||| 0x2000 <= code <= 0x200a
    ||| code == 0x2028
    ||| code == 0x2029
    ||| code == 0x202f
    ||| code == 0x205f
    ||| code == 0x3000
}

pub fn is_whitespace(c: char) -> (white: bool)
    ensures
        white == whitespace(c),
{
    let code: u32 = c as u32;
    (0x09 <= code && code <= 0x0d) || code == 0x20 || code == 0x85 || code == 0xa0 || code == 0x1680
        || (0x2000 <= code && code <= 0x200a) || code == 0x2028 || code == 0x2029 || code == 0x202f
        || code == 0x205f || code == 0x3000
}

/// A text that holds nothing but white space (so also the empty text).
pub open spec fn blank(text: Seq<char>) -> bool {
    forall|i: int| 0 <= i < text.len() ==> whitespace(text[i])
}

pub fn is_blank(text: &str) -> (result: bool)
    ensures
        result == blank(text@),
{
    let chars = chars_of(text);
    let mut i: usize = 0;
    while i < chars.len()
        invariant
            i <= chars.len(),
            chars@ == text@,
            forall|j: int| 0 <= j < i ==> whitespace(text@[j]),
        decreases chars.len() - i,
    {
        if !is_whitespace(chars[i]) {
            return false;
        }
        i = i + 1;
    }
    true
}

/// The text without the white space it ends in.
pub open spec fn trimmed_end(text: Seq<char>) -> Seq<char>
    decreases text.len(),
{
    if text.len() > 0 && whitespace(text.last()) {
        trimmed_end(text.drop_last())
    } else {
        text
    }
}

/// The text without the white space it begins and ends in.
pub open spec fn trimmed(text: Seq<char>) -> Seq<char>
    decreases text.len(),
{
    if text.len() > 0 && whitespace(text[0]) {
        trimmed(text.drop_first())
    } else {
        trimmed_end(text)
    }
}

pub fn trim(text: &str) -> (result: String)
    ensures
        result@ == trimmed(text@),
{
    let chars = chars_of(text);
    let len: usize = chars.len();
    let mut from: usize = 0;
    assert(text@.skip(0) =~= text@);
    while from < len && is_whitespace(chars[from])
        invariant
            from <= len == chars.len(),
            chars@ == text@,
            trimmed(text@) == trimmed(text@.skip(from as int)),
        decreases len - from,
    {
        assert(text@.skip(from as int).drop_first() =~= text@.skip(from + 1));
        from = from + 1;
    }
    let ghost rest = text@.skip(from as int);
    assert(trimmed(text@) == trimmed_end(rest));
    let mut to: usize = len;
    assert(rest =~= text@.subrange(from as int, to as int));
    while to > from && is_whitespace(chars[to - 1])
        invariant
            from <= to <= len == chars.len(),
            chars@ == text@,
            trimmed_end(rest) == trimmed_end(text@.subrange(from as int, to as int)),
        decreases to,
    {
        assert(text@.subrange(from as int, to as int).drop_last() =~= text@.subrange(
            from as int,
            to - 1,
        ));
        to = to - 1;
    }
    text_of(&chars, from, to)
}

// ---------------------------------------------------------------------------------------------
// Numbers
// ---------------------------------------------------------------------------------------------
/// The decimal digit of a number below ten.
pub open spec fn digit(n: int) -> char {
    (48 + n) as char
}

fn digit_char(n: u64) -> (c: char)
    requires
        n < 10,
    ensures
        c == digit(n as int),
{
    (48 + n as u8) as char
}

/// The decimal digits of a number, without leading zeros.
pub open spec fn decimal(n: nat) -> Seq<char>
    decreases n,
{
    if n < 10 {
        seq![digit(n as int)]
    } else {
        decimal(n / 10).push(digit((n % 10) as int))
    }
}

pub fn decimal_text(n: u64) -> (text: String)
    ensures
        text@ == decimal(n as nat),
    decreases n,
{
    if n < 10 {
        let mut text = String::new();
        text.push(digit_char(n));
        assert(text@ =~= decimal(n as nat));
        text
    } else {
        let mut text = decimal_text(n / 10);
        text.push(digit_char(n % 10));
        text
    }
}

/// The decimal digits of a number, behind a minus sign where it is negative.
pub open spec fn signed_decimal(n: int) -> Seq<char> {
    if n < 0 {
        "-"@ + decimal((-n) as nat)
    } else {
        decimal(n as nat)
    }
}

pub fn signed_decimal_text(n: i32) -> (text: String)
    ensures
        text@ == signed_decimal(n as int),
{
    if n < 0 {
        let magnitude: i64 = 0 - (n as i64);
        let mut text = "-".to_owned();
        text.append(decimal_text(magnitude as u64).as_str());
        text
    } else {
        decimal_text(n as u64)
    }
}

// ---------------------------------------------------------------------------------------------
// Order
// ---------------------------------------------------------------------------------------------
/// Texts are ordered by their first difference; a proper prefix comes first.
pub open spec fn before(a: Seq<char>, b: Seq<char>) -> bool
    decreases a.len(),
{
    if b.len() == 0 {
        false
    } else if a.len() == 0 {
        true
    } else if a[0] == b[0] {
        before(a.drop_first(), b.drop_first())
    } else {
        (a[0] as int) < (b[0] as int)
    }
}

pub fn is_before(a: &str, b: &str) -> (less: bool)
    ensures
        less == before(a@, b@),
{
    let x = chars_of(a);
    let y = chars_of(b);
    let mut i: usize = 0;
    assert(a@.skip(0) =~= a@ && b@.skip(0) =~= b@);
    while i < x.len() && i < y.len() && x[i] == y[i]
        invariant
            i <= x.len(),
            i <= y.len(),
            x@ == a@,
            y@ == b@,
            before(a@, b@) == before(a@.skip(i as int), b@.skip(i as int)),
        decreases x.len() - i,
    {
        assert(a@.skip(i as int).drop_first() =~= a@.skip(i + 1));
        assert(b@.skip(i as int).drop_first() =~= b@.skip(i + 1));
        i = i + 1;
    }
    if i == y.len() {
        false
    } else if i == x.len() {
        true
    } else {
        x[i] < y[i]
    }
}

/// The order of texts is a strict linear order: no text is before itself.
pub proof fn before_irreflexive(a: Seq<char>)
    ensures
        !before(a, a),
    decreases a.len(),
{
    if a.len() > 0 {
        before_irreflexive(a.drop_first());
    }
}

/// The order of texts is transitive.
pub proof fn before_transitive(a: Seq<char>, b: Seq<char>, c: Seq<char>)
    requires
        before(a, b),
        before(b, c),
    ensures
        before(a, c),
    decreases a.len(),
{
    if a.len() > 0 && a[0] == b[0] && b[0] == c[0] {
        before_transitive(a.drop_first(), b.drop_first(), c.drop_first());
    }
}

/// Of two different texts, one is before the other.
pub proof fn before_total(a: Seq<char>, b: Seq<char>)
    ensures
        a == b || before(a, b) || before(b, a),
    decreases a.len(),
{
    if a.len() > 0 && b.len() > 0 {
        if a[0] == b[0] {
            before_total(a.drop_first(), b.drop_first());
            if a.drop_first() == b.drop_first() {
                assert(a =~= seq![a[0]] + a.drop_first());
                assert(b =~= seq![b[0]] + b.drop_first());
            }
        }
    } else if a.len() == 0 && b.len() == 0 {
        assert(a =~= b);
    }
}

/// A text with the smaller character at the first difference comes first.
pub proof fn before_by_difference(a: Seq<char>, b: Seq<char>, at: int)
    requires
        0 <= at < a.len(),
        at < b.len(),
        forall|i: int| 0 <= i < at ==> a[i] == b[i],
        (a[at] as int) < (b[at] as int),
    ensures
        before(a, b),
    decreases at,
{
    if at > 0 {
        before_by_difference(a.drop_first(), b.drop_first(), at - 1);
    }
}

/// Texts of which each stands before the next stand in ascending order.
pub proof fn ascending_by_neighbours(list: Seq<Seq<char>>)
    requires
        forall|i: int| 0 <= i < list.len() - 1 ==> before(#[trigger] list[i], list[i + 1]),
    ensures
        ascending(list),
{
    assert forall|i: int, j: int| 0 <= i < j < list.len() implies before(
        #[trigger] list[i],
        #[trigger] list[j],
    ) by {
        neighbours_reach(list, i, j);
    }
}

proof fn neighbours_reach(list: Seq<Seq<char>>, i: int, j: int)
    requires
        forall|i: int| 0 <= i < list.len() - 1 ==> before(#[trigger] list[i], list[i + 1]),
        0 <= i < j < list.len(),
    ensures
        before(list[i], list[j]),
    decreases j,
{
    assert(before(list[j - 1], list[j - 1 + 1]));
    if i < j - 1 {
        neighbours_reach(list, i, j - 1);
        before_transitive(list[i], list[j - 1], list[j]);
    }
}

/// Every text stands before all later ones: sorted, and none occurs twice.
pub open spec fn ascending(list: Seq<Seq<char>>) -> bool {
    forall|i: int, j: int| 0 <= i < j < list.len() ==> before(#[trigger] list[i], #[trigger] list[j])
}

/// `list` is the sorted list, without repetition, of the texts that occur in `source`.
pub open spec fn sorted_set(list: Seq<Seq<char>>, source: Seq<Seq<char>>) -> bool {
    &&& ascending(list)
    &&& forall|text: Seq<char>| list.contains(text) <==> source.contains(text)
}

/// The texts in ascending order, with `text` among them.
pub open spec fn with_text(list: Seq<Seq<char>>, text: Seq<char>) -> Seq<Seq<char>>
    decreases list.len(),
{
    if list.len() == 0 {
        seq![text]
    } else if list.last() == text {
        list
    } else if before(list.last(), text) {
        list.push(text)
    } else {
        with_text(list.drop_last(), text).push(list.last())
    }
}

/// The texts in ascending order, each once.
pub open spec fn ascending_texts(source: Seq<Seq<char>>) -> Seq<Seq<char>>
    decreases source.len(),
{
    if source.len() == 0 {
        Seq::empty()
    } else {
        with_text(ascending_texts(source.drop_last()), source.last())
    }
}

pub proof fn with_text_is_sorted(list: Seq<Seq<char>>, text: Seq<char>)
    requires
        ascending(list),
    ensures
        ascending(with_text(list, text)),
        with_text(list, text).len() > 0,
        forall|other: Seq<char>|
            #![trigger with_text(list, text).contains(other)]
            with_text(list, text).contains(other) <==> (list.contains(other) || other == text),
        with_text(list, text).last() == text || (list.len() > 0 && with_text(list, text).last()
            == list.last()),
    decreases list.len(),
{
    let result = with_text(list, text);
    if list.len() == 0 {
        assert(result[0] == text);
    } else if list.last() == text {
        assert(list[list.len() - 1] == text);
    } else if before(list.last(), text) {
        assert forall|i: int, j: int| 0 <= i < j < result.len() implies before(
            #[trigger] result[i],
            #[trigger] result[j],
        ) by {
            if j == list.len() && i < list.len() - 1 {
                assert(before(list[i], list[list.len() - 1]));
                before_transitive(list[i], list.last(), text);
            }
        }
        assert forall|other: Seq<char>|
            #![trigger result.contains(other)]
            result.contains(other) <==> (list.contains(other) || other == text) by {
            if list.contains(other) {
                let k = choose|k: int| 0 <= k < list.len() && list[k] == other;
                assert(result[k] == other);
            }
            assert(result[result.len() - 1] == text);
        }
    } else {
        let front = list.drop_last();
        assert(ascending(front)) by {
            assert forall|i: int, j: int| 0 <= i < j < front.len() implies before(
                #[trigger] front[i],
                #[trigger] front[j],
            ) by {
                assert(before(list[i], list[j]));
            }
        }
        with_text_is_sorted(front, text);
        before_total(list.last(), text);
        let inner = with_text(front, text);
        assert(result == inner.push(list.last()));
        assert(before(inner.last(), list.last())) by {
            if inner.last() != text {
                assert(front.last() == list[list.len() - 2]);
                assert(before(list[list.len() - 2], list[list.len() - 1]));
            }
        }
        assert forall|i: int, j: int| 0 <= i < j < result.len() implies before(
            #[trigger] result[i],
            #[trigger] result[j],
        ) by {
            if j < inner.len() {
                assert(before(inner[i], inner[j]));
            } else if i < inner.len() - 1 {
                assert(before(inner[i], inner[inner.len() - 1]));
                before_transitive(inner[i], inner.last(), list.last());
            }
        }
        assert forall|other: Seq<char>|
            #![trigger result.contains(other)]
            result.contains(other) <==> (list.contains(other) || other == text) by {
            if list.contains(other) {
                let k = choose|k: int| 0 <= k < list.len() && list[k] == other;
                if k < front.len() {
                    assert(front[k] == other);
                    assert(inner.contains(other));
                    let m = choose|m: int| 0 <= m < inner.len() && inner[m] == other;
                    assert(result[m] == other);
                } else {
                    assert(result[result.len() - 1] == other);
                }
            }
            if other == text {
                assert(inner.contains(other));
                let m = choose|m: int| 0 <= m < inner.len() && inner[m] == other;
                assert(result[m] == other);
            }
            if result.contains(other) {
                let m = choose|m: int| 0 <= m < result.len() && result[m] == other;
                if m < inner.len() {
                    assert(inner[m] == other);
                    assert(inner.contains(other));
                    if front.contains(other) {
                        let k = choose|k: int| 0 <= k < front.len() && front[k] == other;
                        assert(list[k] == other);
                    }
                } else {
                    assert(list[list.len() - 1] == other);
                }
            }
        }
    }
}

/// In ascending order stand the same texts.
pub proof fn ascending_texts_are_sorted(source: Seq<Seq<char>>)
    ensures
        sorted_set(ascending_texts(source), source),
    decreases source.len(),
{
    if source.len() > 0 {
        let front = source.drop_last();
        ascending_texts_are_sorted(front);
        with_text_is_sorted(ascending_texts(front), source.last());
        assert forall|text: Seq<char>| source.contains(text) <==> (front.contains(text) || text
            == source.last()) by {
            if front.contains(text) {
                let k = choose|k: int| 0 <= k < front.len() && front[k] == text;
                assert(source[k] == text);
            }
            assert(source[source.len() - 1] == source.last());
            if source.contains(text) {
                let k = choose|k: int| 0 <= k < source.len() && source[k] == text;
                if k < front.len() {
                    assert(front[k] == text);
                }
            }
        }
        assert forall|text: Seq<char>|
            ascending_texts(source).contains(text) <==> source.contains(text) by {
            assert(ascending_texts(source).contains(text) == with_text(
                ascending_texts(front),
                source.last(),
            ).contains(text));
        }
    } else {
        assert(ascending_texts(source) =~= source);
    }
}

/// Puts a text among texts in ascending order.
pub fn insert_text(list: &mut Vec<String>, text: String)
    ensures
        views(final(list)@) == with_text(views(old(list)@), text@),
{
    let ghost all = views(list@);
    let mut at: usize = list.len();
    assert(all.take(at as int) =~= all);
    assert(all.skip(at as int) =~= Seq::empty());
    assert(with_text(all.take(at as int), text@) + all.skip(at as int) =~= with_text(all, text@));
    while at > 0 && !same(list[at - 1].as_str(), text.as_str()) && !is_before(
        list[at - 1].as_str(),
        text.as_str(),
    )
        invariant
            at <= list.len(),
            views(list@) == all,
            with_text(all.take(at as int), text@) + all.skip(at as int) == with_text(all, text@),
        decreases at,
    {
        let ghost front = all.take(at as int);
        assert(front.drop_last() =~= all.take(at - 1));
        assert(front.last() == list@[at - 1]@);
        assert(with_text(all.take(at - 1), text@).push(all[at - 1]) + all.skip(at as int)
            =~= with_text(all.take(at - 1), text@) + all.skip(at - 1));
        at = at - 1;
    }
    let ghost front = all.take(at as int);
    if at > 0 && same(list[at - 1].as_str(), text.as_str()) {
        assert(front.last() == text@);
        assert(front + all.skip(at as int) =~= all);
        return ;
    }
    let ghost wanted = text@;
    if at > 0 {
        assert(front.last() == list@[at - 1]@);
    }
    list.insert(at, text);
    assert(with_text(front, wanted) =~= front.push(wanted));
    assert(views(list@) =~= front.push(wanted) + all.skip(at as int));
}

/// The texts in ascending order, each once.
pub fn sorted_distinct(source: &Vec<String>) -> (list: Vec<String>)
    ensures
        views(list@) == ascending_texts(views(source@)),
{
    let ghost all = views(source@);
    let mut list: Vec<String> = Vec::new();
    let mut i: usize = 0;
    assert(views(list@) =~= Seq::empty());
    while i < source.len()
        invariant
            i <= source.len(),
            all == views(source@),
            views(list@) == ascending_texts(all.take(i as int)),
        decreases source.len() - i,
    {
        assert(all.take(i + 1).drop_last() =~= all.take(i as int));
        insert_text(&mut list, source[i].clone());
        i = i + 1;
    }
    assert(all.take(i as int) =~= all);
    list
}

/// Whether a text is one of the list.
pub fn contains_text(list: &Vec<String>, text: &str) -> (found: bool)
    ensures
        found == views(list@).contains(text@),
{
    let mut i: usize = 0;
    while i < list.len()
        invariant
            i <= list.len(),
            forall|j: int| 0 <= j < i ==> #[trigger] views(list@)[j] != text@,
        decreases list.len() - i,
    {
        if same(list[i].as_str(), text) {
            assert(views(list@)[i as int] == text@);
            return true;
        }
        i = i + 1;
    }
    false
}

/// Two sorted lists of the same texts are the same list.
pub proof fn sorted_set_unique(a: Seq<Seq<char>>, b: Seq<Seq<char>>, source: Seq<Seq<char>>)
    requires
        sorted_set(a, source),
        sorted_set(b, source),
    ensures
        a == b,
    decreases a.len() + b.len(),
{
    if a.len() == 0 {
        if b.len() > 0 {
            assert(b.contains(b[0]));
            assert(a.contains(b[0]));
        }
        assert(a =~= b);
    } else if b.len() == 0 {
        assert(a.contains(a[0]));
        assert(b.contains(a[0]));
    } else {
        let x = a.last();
        let y = b.last();
        assert(a[a.len() - 1] == x && b[b.len() - 1] == y);
        assert(a.contains(x) && b.contains(y));
        assert(b.contains(x) && a.contains(y));
        let i = choose|i: int| 0 <= i < b.len() && b[i] == x;
        let j = choose|j: int| 0 <= j < a.len() && a[j] == y;
        if x != y {
            assert(before(b[i], b[b.len() - 1]));
            assert(before(a[j], a[a.len() - 1]));
            before_transitive(x, y, x);
            before_irreflexive(x);
        }
        let rest = a.drop_last();
        assert(ascending(rest)) by {
            assert forall|p: int, q: int| 0 <= p < q < rest.len() implies before(
                #[trigger] rest[p],
                #[trigger] rest[q],
            ) by {
                assert(before(a[p], a[q]));
            }
        }
        assert(ascending(b.drop_last())) by {
            assert forall|p: int, q: int| 0 <= p < q < b.drop_last().len() implies before(
                #[trigger] b.drop_last()[p],
                #[trigger] b.drop_last()[q],
            ) by {
                assert(before(b[p], b[q]));
            }
        }
        assert forall|text: Seq<char>| b.drop_last().contains(text) <==> rest.contains(text) by {
            if rest.contains(text) {
                let k = choose|k: int| 0 <= k < rest.len() && rest[k] == text;
                assert(before(a[k], a[a.len() - 1]));
                before_irreflexive(x);
                assert(a.contains(a[k]));
                let m = choose|m: int| 0 <= m < b.len() && b[m] == text;
                assert(m < b.len() - 1);
                assert(b.drop_last()[m] == text);
            }
            if b.drop_last().contains(text) {
                let k = choose|k: int| 0 <= k < b.drop_last().len() && b.drop_last()[k] == text;
                assert(before(b[k], b[b.len() - 1]));
                before_irreflexive(x);
                assert(b.contains(b[k]));
                let m = choose|m: int| 0 <= m < a.len() && a[m] == text;
                assert(m < a.len() - 1);
                assert(rest[m] == text);
            }
        }
        sorted_set_unique(rest, b.drop_last(), rest);
        assert(a =~= rest.push(x));
        assert(b =~= b.drop_last().push(y));
    }
}

// ---------------------------------------------------------------------------------------------
// Parts
// ---------------------------------------------------------------------------------------------
/// Whether `text` begins with `prefix`.
pub open spec fn begins(text: Seq<char>, prefix: Seq<char>) -> bool {
    prefix.len() <= text.len() && text.take(prefix.len() as int) == prefix
}

/// Whether `text` ends in `suffix`.
pub open spec fn ends(text: Seq<char>, suffix: Seq<char>) -> bool {
    suffix.len() <= text.len() && text.skip(text.len() - suffix.len()) == suffix
}

/// The text behind `prefix`, where it begins with it.
pub open spec fn without_prefix(text: Seq<char>, prefix: Seq<char>) -> Option<Seq<char>> {
    if begins(text, prefix) {
        Some(text.skip(prefix.len() as int))
    } else {
        None
    }
}

/// The text in front of `suffix`, where it ends in it.
pub open spec fn without_suffix(text: Seq<char>, suffix: Seq<char>) -> Option<Seq<char>> {
    if ends(text, suffix) {
        Some(text.take(text.len() - suffix.len()))
    } else {
        None
    }
}

/// Whether the characters of `pattern` stand in `chars` from `at` on.
fn stands_at(chars: &[char], pattern: &[char], at: usize) -> (found: bool)
    requires
        at <= chars@.len(),
    ensures
        found == begins(chars@.skip(at as int), pattern@),
{
    let len: usize = chars.len();
    if pattern.len() > len - at {
        return false;
    }
    let mut i: usize = 0;
    while i < pattern.len()
        invariant
            i <= pattern@.len() <= len - at,
            at <= len == chars@.len(),
            forall|j: int| 0 <= j < i ==> chars@[at + j] == pattern@[j],
        decreases pattern@.len() - i,
    {
        if chars[at + i] != pattern[i] {
            assert(chars@.skip(at as int).take(pattern@.len() as int)[i as int] != pattern@[i as int]);
            return false;
        }
        i = i + 1;
    }
    assert(chars@.skip(at as int).take(pattern@.len() as int) =~= pattern@);
    true
}

pub fn strip_prefix(text: &str, prefix: &str) -> (rest: Option<String>)
    ensures
        optional(rest) == without_prefix(text@, prefix@),
{
    let chars = chars_of(text);
    let pattern = chars_of(prefix);
    assert(text@.skip(0) =~= text@);
    if stands_at(&chars, &pattern, 0) {
        let rest = text_of(&chars, pattern.len(), chars.len());
        assert(rest@ =~= text@.skip(prefix@.len() as int));
        Some(rest)
    } else {
        None
    }
}

pub fn starts_with(text: &str, prefix: &str) -> (result: bool)
    ensures
        result == begins(text@, prefix@),
{
    let chars = chars_of(text);
    let pattern = chars_of(prefix);
    assert(text@.skip(0) =~= text@);
    stands_at(&chars, &pattern, 0)
}

pub fn strip_suffix(text: &str, suffix: &str) -> (rest: Option<String>)
    ensures
        optional(rest) == without_suffix(text@, suffix@),
{
    let chars = chars_of(text);
    let pattern = chars_of(suffix);
    if pattern.len() > chars.len() {
        return None;
    }
    let at: usize = chars.len() - pattern.len();
    let ghost tail = text@.skip(at as int);
    if stands_at(&chars, &pattern, at) {
        assert(tail.take(suffix@.len() as int) =~= tail);
        let rest = text_of(&chars, 0, at);
        assert(rest@ =~= text@.take(at as int));
        Some(rest)
    } else {
        assert(tail.take(suffix@.len() as int) =~= tail);
        None
    }
}

/// Whether `pattern` stands somewhere in `text`.
pub open spec fn holds(text: Seq<char>, pattern: Seq<char>) -> bool {
    exists|at: int| 0 <= at <= text.len() && begins(#[trigger] text.skip(at), pattern)
}

pub fn contains(text: &str, pattern: &str) -> (result: bool)
    ensures
        result == holds(text@, pattern@),
{
    let chars = chars_of(text);
    let wanted = chars_of(pattern);
    let mut at: usize = 0;
    while at < chars.len()
        invariant
            at <= chars.len(),
            chars@ == text@,
            wanted@ == pattern@,
            forall|i: int| 0 <= i < at ==> !begins(#[trigger] text@.skip(i), pattern@),
        decreases chars.len() - at,
    {
        if stands_at(&chars, &wanted, at) {
            assert(begins(text@.skip(at as int), pattern@));
            return true;
        }
        at = at + 1;
    }
    let found = stands_at(&chars, &wanted, at);
    assert(found == begins(text@.skip(at as int), pattern@));
    found
}

/// The text with every occurrence of `from`, taken from the left and without overlap, replaced
/// by `to`. The empty text occurs in front of each character and at the end.
pub open spec fn replaced(text: Seq<char>, from: Seq<char>, to: Seq<char>) -> Seq<char>
    decreases text.len(),
{
    if from.len() == 0 {
        if text.len() == 0 {
            to
        } else {
            to + seq![text[0]] + replaced(text.drop_first(), from, to)
        }
    } else if text.len() < from.len() {
        text
    } else if begins(text, from) {
        to + replaced(text.skip(from.len() as int), from, to)
    } else {
        seq![text[0]] + replaced(text.drop_first(), from, to)
    }
}

pub fn replace(text: &str, from: &str, to: &str) -> (result: String)
    ensures
        result@ == replaced(text@, from@, to@),
{
    let chars = chars_of(text);
    let pattern = chars_of(from);
    let mut result = String::new();
    let mut at: usize = 0;
    assert(text@.skip(0) =~= text@);
    assert(result@ + replaced(text@.skip(0), from@, to@) =~= replaced(text@, from@, to@));
    if pattern.len() == 0 {
        while at < chars.len()
            invariant
                at <= chars.len(),
                chars@ == text@,
                from@.len() == 0,
                result@ + replaced(text@.skip(at as int), from@, to@) == replaced(
                    text@,
                    from@,
                    to@,
                ),
            decreases chars.len() - at,
        {
            let ghost done = result@;
            let ghost rest = text@.skip(at as int);
            result.append(to);
            result.push(chars[at]);
            at = at + 1;
            proof {
                assert(rest.drop_first() =~= text@.skip(at as int));
                let tail = replaced(text@.skip(at as int), from@, to@);
                assert((done + to@).push(rest[0]) + tail =~= done + (to@ + seq![rest[0]] + tail));
            }
        }
        assert(text@.skip(at as int) =~= Seq::empty());
        result.append(to);
        return result;
    }
    while at < chars.len() && chars.len() - at >= pattern.len()
        invariant
            at <= chars.len(),
            chars@ == text@,
            pattern@ == from@,
            from@.len() > 0,
            result@ + replaced(text@.skip(at as int), from@, to@) == replaced(text@, from@, to@),
        decreases chars.len() - at,
    {
        let ghost done = result@;
        let ghost rest = text@.skip(at as int);
        if stands_at(&chars, &pattern, at) {
            result.append(to);
            at = at + pattern.len();
            proof {
                assert(rest.skip(from@.len() as int) =~= text@.skip(at as int));
                let tail = replaced(text@.skip(at as int), from@, to@);
                assert((done + to@) + tail =~= done + (to@ + tail));
            }
        } else {
            result.push(chars[at]);
            at = at + 1;
            proof {
                assert(rest.drop_first() =~= text@.skip(at as int));
                let tail = replaced(text@.skip(at as int), from@, to@);
                assert(done.push(rest[0]) + tail =~= done + (seq![rest[0]] + tail));
            }
        }
    }
    let tail = text_of(&chars, at, chars.len());
    assert(tail@ =~= text@.skip(at as int));
    result.append(tail.as_str());
    result
}

/// The pieces of a sequence between the places where `separator` stands.
pub open spec fn split<T>(items: Seq<T>, separator: T) -> Seq<Seq<T>>
    decreases items.len(),
{
    if items.len() == 0 {
        seq![Seq::<T>::empty()]
    } else {
        let front = split(items.drop_last(), separator);
        if items.last() == separator {
            front.push(Seq::<T>::empty())
        } else {
            front.drop_last().push(front.last().push(items.last()))
        }
    }
}

pub fn split_text(text: &str, separator: char) -> (pieces: Vec<String>)
    ensures
        views(pieces@) == split(text@, separator),
        pieces.len() > 0,
{
    let chars = chars_of(text);
    let mut pieces: Vec<String> = Vec::new();
    let mut current = String::new();
    let mut i: usize = 0;
    assert(text@.take(0) =~= Seq::<char>::empty());
    assert(views(pieces@).push(current@) =~= split(text@.take(0), separator));
    while i < chars.len()
        invariant
            i <= chars.len(),
            chars@ == text@,
            views(pieces@).push(current@) == split(text@.take(i as int), separator),
        decreases chars.len() - i,
    {
        let ghost taken = text@.take(i as int);
        let ghost done = views(pieces@);
        let ghost now = text@.take(i + 1);
        assert(now.drop_last() =~= taken);
        if chars[i] == separator {
            pieces.push(current);
            current = String::new();
            assert(views(pieces@) =~= split(taken, separator));
            assert(views(pieces@).push(current@) =~= split(now, separator));
        } else {
            current.push(chars[i]);
            assert(done.push(current@) =~= split(now, separator)) by {
                assert(split(taken, separator).drop_last() =~= done);
            }
        }
        i = i + 1;
    }
    let ghost done = views(pieces@);
    let ghost last = current@;
    pieces.push(current);
    assert(views(pieces@) =~= done.push(last));
    assert(text@.take(i as int) =~= text@);
    pieces
}

/// The texts one after the other, with `separator` between each two.
pub open spec fn joined(list: Seq<Seq<char>>, separator: Seq<char>) -> Seq<char>
    decreases list.len(),
{
    if list.len() == 0 {
        Seq::<char>::empty()
    } else if list.len() == 1 {
        list[0]
    } else {
        joined(list.drop_last(), separator) + separator + list.last()
    }
}

pub fn join(list: &Vec<String>, separator: &str) -> (text: String)
    ensures
        text@ == joined(views(list@), separator@),
{
    let mut text = String::new();
    let mut i: usize = 0;
    while i < list.len()
        invariant
            i <= list.len(),
            text@ == joined(views(list@).take(i as int), separator@),
        decreases list.len() - i,
    {
        let ghost all = views(list@);
        assert(all.take(i + 1).drop_last() =~= all.take(i as int));
        if i > 0 {
            text.append(separator);
        }
        text.append(list[i].as_str());
        if i == 0 {
            assert(text@ =~= list@[0]@);
        }
        i = i + 1;
    }
    assert(views(list@).take(i as int) =~= views(list@));
    text
}

/// Whether two lists hold the same texts.
pub fn same_texts(a: &Vec<String>, b: &Vec<String>) -> (equal: bool)
    ensures
        equal == (views(a@) == views(b@)),
{
    if a.len() != b.len() {
        assert(views(a@).len() != views(b@).len());
        return false;
    }
    let mut i: usize = 0;
    while i < a.len()
        invariant
            i <= a.len(),
            a.len() == b.len(),
            forall|j: int| 0 <= j < i ==> #[trigger] views(a@)[j] == views(b@)[j],
        decreases a.len() - i,
    {
        if !same(a[i].as_str(), b[i].as_str()) {
            assert(views(a@)[i as int] != views(b@)[i as int]);
            return false;
        }
        i = i + 1;
    }
    assert(views(a@) =~= views(b@));
    true
}

/// The text between double quotes, with the characters escaped that `Debug` escapes.
pub uninterp spec fn quoted(text: Seq<char>) -> Seq<char>;

/// `Debug` of `str` writes the text as a Rust string literal would: between double quotes, with
/// quotes, backslashes, control and unprintable characters escaped. What exactly is escaped
/// stays unsaid; the result is named by the text alone.
#[verifier::external_body]
pub(crate) fn quote(text: &str) -> (result: String)
    ensures
        result@ == quoted(text@),
{
    format!("{:?}", text)
}

/// The characters that the given bytes hold, with what is not UTF-8 replaced.
pub uninterp spec fn lossy(bytes: Seq<u8>) -> Seq<char>;

/// `String::from_utf8_lossy` decodes the bytes as UTF-8 and puts the replacement character where
/// they are not. How many replacement characters stand for a broken part stays unsaid.
#[verifier::external_body]
pub(crate) fn lossy_text(bytes: &[u8]) -> (text: String)
    ensures
        text@ == lossy(bytes@),
        vstd::utf8::valid_utf8(bytes@) ==> text@ == vstd::utf8::decode_utf8(bytes@),
{
    String::from_utf8_lossy(bytes).into_owned()
}

/// What is wrong with bytes that are not UTF-8.
pub uninterp spec fn utf8_fault(bytes: Seq<u8>) -> Seq<char>;

/// `str::from_utf8` gives the characters of bytes that are valid UTF-8, and an error for all
/// others, whose words are named by the bytes alone.
#[verifier::external_body]
pub(crate) fn utf8_text(bytes: &[u8]) -> (text: Result<String, String>)
    ensures
        text is Ok <==> vstd::utf8::valid_utf8(bytes@),
        text matches Ok(text) ==> text@ == vstd::utf8::decode_utf8(bytes@),
        text matches Err(fault) ==> fault@ == utf8_fault(bytes@),
{
    std::str::from_utf8(bytes).map(|text| text.to_owned()).map_err(|error| error.to_string())
}

// ---------------------------------------------------------------------------------------------
// Places
// ---------------------------------------------------------------------------------------------
/// Where `pattern` stands first in `text`.
pub open spec fn first_place(text: Seq<char>, pattern: Seq<char>) -> Option<nat>
    decreases text.len(),
{
    if begins(text, pattern) {
        Some(0)
    } else if text.len() == 0 {
        None
    } else {
        match first_place(text.drop_first(), pattern) {
            Some(place) => Some(place + 1),
            None => None,
        }
    }
}

/// What stands behind the first occurrence of `pattern`.
pub open spec fn after_first(text: Seq<char>, pattern: Seq<char>) -> Option<Seq<char>> {
    match first_place(text, pattern) {
        Some(place) => Some(text.skip((place + pattern.len()) as int)),
        None => None,
    }
}

/// What stands in front of and behind the first occurrence of `pattern`.
pub open spec fn around_first(text: Seq<char>, pattern: Seq<char>) -> Option<
    (Seq<char>, Seq<char>),
> {
    match first_place(text, pattern) {
        Some(place) => Some(
            (text.take(place as int), text.skip((place + pattern.len()) as int)),
        ),
        None => None,
    }
}

pub fn split_once(text: &str, pattern: &str) -> (parts: Option<(String, String)>)
    ensures
        match parts {
            Some((before, after)) => around_first(text@, pattern@) == Some((before@, after@)),
            None => around_first(text@, pattern@) is None,
        },
{
    let chars = chars_of(text);
    let wanted = chars_of(pattern);
    let mut at: usize = 0;
    assert(text@.skip(0) =~= text@);
    while at < chars.len() && !stands_at(&chars, &wanted, at)
        invariant
            at <= chars.len(),
            chars@ == text@,
            wanted@ == pattern@,
            first_place(text@, pattern@) == (match first_place(text@.skip(at as int), pattern@) {
                Some(place) => Some(place + at as nat),
                None => None,
            }),
        decreases chars.len() - at,
    {
        assert(text@.skip(at as int).drop_first() =~= text@.skip(at + 1));
        at = at + 1;
    }
    if stands_at(&chars, &wanted, at) {
        let head = text_of(&chars, 0, at);
        let tail = text_of(&chars, at + wanted.len(), chars.len());
        assert(head@ =~= text@.take(at as int));
        assert(tail@ =~= text@.skip(at + pattern@.len()));
        return Some((head, tail));
    }
    None
}

pub fn text_after_first(text: &str, pattern: &str) -> (rest: Option<String>)
    ensures
        optional(rest) == after_first(text@, pattern@),
{
    match split_once(text, pattern) {
        Some((_, rest)) => Some(rest),
        None => None,
    }
}

/// What stands behind the last occurrence of a character.
pub open spec fn after_last(text: Seq<char>, separator: char) -> Option<Seq<char>>
    decreases text.len(),
{
    if text.len() == 0 {
        None
    } else if text.last() == separator {
        Some(Seq::empty())
    } else {
        match after_last(text.drop_last(), separator) {
            Some(rest) => Some(rest.push(text.last())),
            None => None,
        }
    }
}

pub fn text_after_last(text: &str, separator: char) -> (rest: Option<String>)
    ensures
        optional(rest) == after_last(text@, separator),
{
    let chars = chars_of(text);
    let mut at: usize = chars.len();
    assert(text@.take(at as int) =~= text@);
    assert(text@.skip(at as int) =~= Seq::empty());
    proof {
        if after_last(text@, separator) is Some {
            assert(after_last(text@, separator)->0 + text@.skip(at as int) =~= after_last(
                text@,
                separator,
            )->0);
        }
    }
    while at > 0
        invariant
            at <= chars.len(),
            chars@ == text@,
            after_last(text@, separator) == (match after_last(text@.take(at as int), separator) {
                Some(rest) => Some(rest + text@.skip(at as int)),
                None => None,
            }),
        decreases at,
    {
        let ghost front = text@.take(at as int);
        assert(front.last() == text@[at - 1]);
        assert(front.drop_last() =~= text@.take(at - 1));
        if chars[at - 1] == separator {
            let rest = text_of(&chars, at, chars.len());
            assert(rest@ =~= Seq::<char>::empty() + text@.skip(at as int));
            return Some(rest);
        }
        proof {
            match after_last(text@.take(at - 1), separator) {
                Some(rest) => {
                    assert(rest.push(text@[at - 1]) + text@.skip(at as int) =~= rest + text@.skip(
                        at - 1,
                    ));
                },
                None => {},
            }
        }
        at = at - 1;
    }
    None
}

/// The text without the character at its beginning and its end.
pub open spec fn stripped(text: Seq<char>, c: char) -> Seq<char>
    decreases text.len(),
{
    if text.len() > 0 && text[0] == c {
        stripped(text.drop_first(), c)
    } else if text.len() > 0 && text.last() == c {
        stripped(text.drop_last(), c)
    } else {
        text
    }
}

pub fn strip_char(text: &str, c: char) -> (result: String)
    ensures
        result@ == stripped(text@, c),
{
    let chars = chars_of(text);
    let mut from: usize = 0;
    let mut to: usize = chars.len();
    assert(text@.subrange(0, to as int) =~= text@);
    while from < to && (chars[from] == c || chars[to - 1] == c)
        invariant
            from <= to <= chars.len(),
            chars@ == text@,
            stripped(text@, c) == stripped(text@.subrange(from as int, to as int), c),
        decreases to - from,
    {
        let ghost middle = text@.subrange(from as int, to as int);
        if chars[from] == c {
            assert(middle.drop_first() =~= text@.subrange(from + 1, to as int));
            from = from + 1;
        } else {
            assert(middle.drop_last() =~= text@.subrange(from as int, to - 1));
            to = to - 1;
        }
    }
    text_of(&chars, from, to)
}

/// A line without the carriage return in front of its line feed.
pub open spec fn line_text(line: Seq<char>) -> Seq<char> {
    if line.len() > 0 && line.last() == '\r' {
        line.drop_last()
    } else {
        line
    }
}

/// The lines of a text: what stands in front of each line feed, and what stands behind the last.
pub open spec fn lines_of(text: Seq<char>) -> Seq<Seq<char>> {
    let pieces = split(text, '\n');
    let ended = Seq::new(
        (pieces.len() - 1) as nat,
        |i: int| line_text(pieces[i]),
    );
    if pieces.last().len() == 0 {
        ended
    } else {
        ended.push(pieces.last())
    }
}

pub fn lines(text: &str) -> (result: Vec<String>)
    ensures
        views(result@) == lines_of(text@),
{
    let pieces = split_text(text, '\n');
    let ghost all = split(text@, '\n');
    let mut result: Vec<String> = Vec::new();
    let mut i: usize = 0;
    while i < pieces.len() - 1
        invariant
            i <= pieces.len() - 1,
            pieces.len() > 0,
            views(pieces@) == all,
            result.len() == i,
            forall|j: int| 0 <= j < i ==> (#[trigger] result@[j])@ == line_text(all[j]),
        decreases pieces.len() - i,
    {
        assert(all[i as int] == pieces@[i as int]@);
        let line = match strip_suffix(pieces[i].as_str(), "\r") {
            Some(line) => line,
            None => pieces[i].clone(),
        };
        proof {
            reveal_strlit("\r");
            let piece = all[i as int];
            assert(ends(piece, "\r"@) <==> (piece.len() > 0 && piece.last() == '\r')) by {
                if piece.len() > 0 {
                    let tail = piece.skip(piece.len() - 1);
                    assert(tail[0] == piece.last());
                    if piece.last() == '\r' {
                        assert(tail =~= "\r"@);
                    }
                }
            }
            assert(line@ =~= line_text(piece));
        }
        result.push(line);
        i = i + 1;
    }
    let last = &pieces[i];
    assert(all.last() == last@);
    if !last.as_str().is_empty() {
        result.push(last.clone());
    }
    assert(views(result@) =~= lines_of(text@));
    result
}

} // verus!
