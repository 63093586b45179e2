//! Decimal numerals and string comparison.

use vstd::prelude::*;
use vstd::string::StringExecFns;

verus! {

/// The character of one decimal digit.
pub open spec fn digit_char(digit: nat) -> char {
    (48 + digit) as char
}

/// The decimal numeral of `n`, without leading zeros.
pub open spec fn decimal(n: nat) -> Seq<char>
    decreases n,
{
    if n < 10 {
        seq![digit_char(n)]
    } else {
        decimal(n / 10).push(digit_char(n % 10))
    }
}

/// The number that a row of decimal digits stands for.
pub open spec fn numeral_value(digits: Seq<char>) -> int
    decreases digits.len(),
{
    if digits.len() == 0 {
        0
    } else {
        numeral_value(digits.drop_last()) * 10 + (digits.last() as int - 48)
    }
}

/// A decimal numeral is a row of digits that stands for the number and does not begin
/// with a zero, unless it is one.
pub proof fn law_decimal(n: nat)
    ensures
        numeral_value(decimal(n)) == n,
        decimal(n).len() > 0,
        decimal(n).len() > 1 ==> decimal(n)[0] != '0',
        forall|i: int| 0 <= i < decimal(n).len() ==> '0' <= #[trigger] decimal(n)[i] <= '9',
    decreases n,
{
    if n < 10 {
        assert(decimal(n).drop_last() =~= Seq::<char>::empty());
        assert(numeral_value(decimal(n).drop_last()) == 0);
    } else {
        law_decimal(n / 10);
        assert(decimal(n).drop_last() =~= decimal(n / 10));
        assert(decimal(n)[0] == decimal(n / 10)[0]);
        if n / 10 < 10 {
            assert(decimal(n / 10) =~= seq![digit_char(n / 10)]);
        } else {
            law_decimal(n / 10 / 10);
            assert(decimal(n / 10) =~= decimal(n / 10 / 10).push(digit_char(n / 10 % 10)));
        }
    }
}

/// Appends the decimal numeral of `n` to `text`.
pub fn push_decimal(text: &mut String, n: u128)
    ensures
        final(text)@ == old(text)@ + decimal(n as nat),
    decreases n,
{
    if n >= 10 {
        push_decimal(text, n / 10);
    }
    push_digit(text, n % 10);
    assert(text@ =~= old(text)@ + decimal(n as nat));
}

/// Appends one decimal digit to `text`.
fn push_digit(text: &mut String, digit: u128)
    requires
        digit < 10,
    ensures
        final(text)@ == old(text)@.push(digit_char(digit as nat)),
{
    proof {
        reveal_strlit("0");
        reveal_strlit("1");
        reveal_strlit("2");
        reveal_strlit("3");
        reveal_strlit("4");
        reveal_strlit("5");
        reveal_strlit("6");
        reveal_strlit("7");
        reveal_strlit("8");
        reveal_strlit("9");
    }
    if digit == 0 {
        text.append("0");
    } else if digit == 1 {
        text.append("1");
    } else if digit == 2 {
        text.append("2");
    } else if digit == 3 {
        text.append("3");
    } else if digit == 4 {
        text.append("4");
    } else if digit == 5 {
        text.append("5");
    } else if digit == 6 {
        text.append("6");
    } else if digit == 7 {
        text.append("7");
    } else if digit == 8 {
        text.append("8");
    } else {
        text.append("9");
    }
    assert(text@ =~= old(text)@.push(digit_char(digit as nat)));
}

/// Tells whether two strings hold the same characters.
pub fn same_text(a: &str, b: &str) -> (same: bool)
    ensures
        same == (a@ == b@),
{
    a.to_owned() == b.to_owned()
}

} // verus!
