//! Terminals: colours, and fields with their labels.
use vstd::prelude::*;
use vstd::string::*;

use crate::text::chars_of;

verus! {

/// A text in a colour, or as it is.
pub open spec fn painted(color: bool, code: Seq<char>, value: Seq<char>) -> Seq<char> {
    if color {
        "\u{1b}["@ + code + "m"@ + value + "\u{1b}[0m"@
    } else {
        value
    }
}

pub fn paint(color: bool, code: &str, value: &str) -> (text: String)
    ensures
        text@ == painted(color, code@, value@),
{
    if color {
        let mut text = "\u{1b}[".to_owned();
        text.append(code);
        text.append("m");
        text.append(value);
        text.append("\u{1b}[0m");
        text
    } else {
        value.to_owned()
    }
}

/// What fills a label up to a width.
pub open spec fn filler(width: nat, label: Seq<char>) -> Seq<char> {
    Seq::new(
        if label.len() < width {
            (width - label.len()) as nat
        } else {
            0
        },
        |i: int| ' ',
    )
}

fn fill(width: usize, label: &str) -> (text: String)
    ensures
        text@ == filler(width as nat, label@),
{
    let length: usize = chars_of(label).len();
    let mut text = "".to_owned();
    let mut at: usize = length;
    proof {
        reveal_strlit("");
    }
    assert(text@ =~= Seq::new(0, |i: int| ' '));
    while at < width
        invariant
            length == label@.len(),
            length <= at,
            at <= width || at == length,
            text@ == Seq::new((at - length) as nat, |i: int| ' '),
        decreases width - at,
    {
        text.push(' ');
        at = at + 1;
        assert(text@ =~= Seq::new((at - length) as nat, |i: int| ' '));
    }
    assert(text@ =~= filler(width as nat, label@));
    text
}

/// A line with a label and a value behind it.
pub open spec fn field_line(
    color: bool,
    width: nat,
    label: Seq<char>,
    value: Seq<char>,
) -> Seq<char> {
    "  "@ + painted(color, "2"@, label) + filler(width, label) + value + "\n"@
}

pub fn append_field(output: &mut String, color: bool, width: usize, label: &str, value: &str)
    ensures
        final(output)@ == old(output)@ + field_line(color, width as nat, label@, value@),
{
    let mut line = "  ".to_owned();
    line.append(paint(color, "2", label).as_str());
    line.append(fill(width, label).as_str());
    line.append(value);
    line.append("\n");
    output.append(line.as_str());
}

} // verus!
