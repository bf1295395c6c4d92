//! Text assembled from literals and decimal numbers.

use vstd::prelude::*;

verus! {

/// The character of one decimal digit.
pub open spec fn digit_char(digit: nat) -> char {
    if digit == 0 {
        '0'
    } else if digit == 1 {
        '1'
    } else if digit == 2 {
        '2'
    } else if digit == 3 {
        '3'
    } else if digit == 4 {
        '4'
    } else if digit == 5 {
        '5'
    } else if digit == 6 {
        '6'
    } else if digit == 7 {
        '7'
    } else if digit == 8 {
        '8'
    } else {
        '9'
    }
}

/// Decimal digits of `value`, most significant first and without padding.
pub open spec fn decimal(value: nat) -> Seq<char>
    decreases value,
{
    if value < 10 {
        seq![digit_char(value)]
    } else {
        decimal(value / 10).push(digit_char(value % 10))
    }
}

/// Decimal digits of `value`, padded on the left with zeros to three characters.
pub open spec fn decimal3(value: nat) -> Seq<char> {
    if value < 10 {
        seq!['0', '0'] + decimal(value)
    } else if value < 100 {
        seq!['0'] + decimal(value)
    } else {
        decimal(value)
    }
}

fn append_digit(text: &mut String, digit: u64)
    requires
        digit < 10,
    ensures
        final(text)@ == old(text)@.push(digit_char(digit as nat)),
{
    proof {
        reveal_strlit("0");
        reveal_strlit("1");
        reveal_strlit("2");
        reveal_strlit("3");
        reveal_strlit("4");
        reveal_strlit("5");
        reveal_strlit("6");
        reveal_strlit("7");
        reveal_strlit("8");
        reveal_strlit("9");
    }
    let piece: &str = if digit == 0 {
        "0"
    } else if digit == 1 {
        "1"
    } else if digit == 2 {
        "2"
    } else if digit == 3 {
        "3"
    } else if digit == 4 {
        "4"
    } else if digit == 5 {
        "5"
    } else if digit == 6 {
        "6"
    } else if digit == 7 {
        "7"
    } else if digit == 8 {
        "8"
    } else {
        "9"
    };
    text.append(piece);
    assert(piece@ =~= seq![digit_char(digit as nat)]);
    assert(text@ =~= old(text)@.push(digit_char(digit as nat)));
}

/// Appends `value` in decimal.
pub fn append_decimal(text: &mut String, value: u64)
    ensures
        final(text)@ == old(text)@ + decimal(value as nat),
    decreases value,
{
    if value >= 10 {
        append_decimal(text, value / 10);
    }
    append_digit(text, value % 10);
    assert(text@ =~= old(text)@ + decimal(value as nat));
}

/// Appends `value` in decimal, padded with zeros to three characters.
pub fn append_decimal3(text: &mut String, value: u64)
    ensures
        final(text)@ == old(text)@ + decimal3(value as nat),
{
    if value < 100 {
        append_digit(text, 0);
    }
    if value < 10 {
        append_digit(text, 0);
    }
    append_decimal(text, value);
    assert(text@ =~= old(text)@ + decimal3(value as nat));
}

/// Whether two texts hold the same characters.
pub fn same_text(left: &str, right: &str) -> (same: bool)
    ensures
        same == (left@ == right@),
{
    left.to_owned() == right.to_owned()
}

/// Decimal digits are digits, and there is at least one.
pub proof fn lemma_decimal_digits(value: nat)
    ensures
        decimal(value).len() > 0,
        forall|i: int| 0 <= i < decimal(value).len() ==> '0' <= #[trigger] decimal(value)[i] <= '9',
    decreases value,
{
    if value >= 10 {
        lemma_decimal_digits(value / 10);
    }
}

/// Different numbers have different digits.
pub proof fn law_decimal_is_injective(left: nat, right: nat)
    requires
        decimal(left) == decimal(right),
    ensures
        left == right,
    decreases left,
{
    lemma_decimal_digits(left / 10);
    lemma_decimal_digits(right / 10);
    if left >= 10 && right >= 10 {
        assert(decimal(left).drop_last() =~= decimal(left / 10));
        assert(decimal(right).drop_last() =~= decimal(right / 10));
        law_decimal_is_injective(left / 10, right / 10);
        assert(decimal(left).last() == digit_char(left % 10));
        assert(decimal(right).last() == digit_char(right % 10));
    } else if left < 10 && right < 10 {
        assert(decimal(left)[0] == digit_char(left));
        assert(decimal(right)[0] == digit_char(right));
    } else if left < 10 {
        assert(decimal(right).len() == decimal(right / 10).len() + 1);
    } else {
        assert(decimal(left).len() == decimal(left / 10).len() + 1);
    }
}

} // verus!
