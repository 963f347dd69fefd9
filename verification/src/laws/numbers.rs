//! How numbers are written and read.
use vstd::prelude::*;

use crate::id::{all_digits, digits_value, is_digit, parsed_issue};
use crate::text::{begins, decimal};

verus! {

proof fn decimals_are_read(n: nat)
    ensures
        all_digits(decimal(n)),
        decimal(n).len() > 0,
        digits_value(decimal(n)) == n,
        is_digit(decimal(n)[0]),
    decreases n,
{
    let text = decimal(n);
    if n < 10 {
        reveal_with_fuel(digits_value, 2);
        assert(text.drop_last() =~= Seq::empty());
    } else {
        let front = decimal(n / 10);
        decimals_are_read(n / 10);
        assert(text.drop_last() =~= front);
        assert forall|i: int| 0 <= i < text.len() implies is_digit(#[trigger] text[i]) by {
            if i < front.len() {
                assert(text[i] == front[i]);
            }
        }
        assert(text[0] == front[0]);
    }
}

/// The number of an issue is read back from its decimal notation, with or without a sign in front.
/// Zero is the number of none.
pub proof fn issue_numbers_are_read_back(n: u64)
    ensures
        n > 0 ==> parsed_issue(decimal(n as nat)) == Some(n),
        n > 0 ==> parsed_issue("+"@ + decimal(n as nat)) == Some(n),
        parsed_issue(decimal(0)) is None,
        parsed_issue(Seq::empty()) is None,
{
    reveal_strlit("+");
    let text = decimal(n as nat);
    let signed = "+"@ + text;
    decimals_are_read(n as nat);
    decimals_are_read(0);
    assert(signed.take(1) =~= "+"@);
    assert(signed.skip(1) =~= text);
    assert(text.take(1)[0] == text[0]);
    assert(decimal(0).take(1)[0] == decimal(0)[0]);
}

/// What is no plain decimal is no number of an issue.
pub proof fn only_digits_are_issue_numbers(text: Seq<char>, at: int)
    requires
        0 <= at < text.len(),
        !('0' <= text[at] && text[at] <= '9'),
        at > 0 || text[at] != '+',
    ensures
        parsed_issue(text) is None,
{
    reveal_strlit("+");
    if begins(text, "+"@) {
        let rest = text.skip(1);
        assert(text.take(1)[0] == '+');
        assert(rest[at - 1] == text[at]);
        assert(!is_digit(rest[at - 1]));
    } else {
        assert(!is_digit(text[at]));
    }
}

} // verus!
