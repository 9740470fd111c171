//! Numbers as decimal text.

use vstd::prelude::*;

verus! {

/// The digit for a value below 10.
pub open spec fn digit(value: nat) -> char {
    ((value + 48) as u8) as char
}

/// The decimal digits of a number, without leading zeros.
pub open spec fn decimal(n: nat) -> Seq<char>
    decreases n,
{
    if n < 10 {
        seq![digit(n)]
    } else {
        decimal(n / 10).push(digit(n % 10))
    }
}

/// The decimal text of a number that may be negative.
pub open spec fn signed_decimal(n: int) -> Seq<char> {
    if n < 0 {
        seq!['-'] + decimal((-n) as nat)
    } else {
        decimal(n as nat)
    }
}

/// The decimal text of a number, with spaces before it where it has a single digit.
pub open spec fn decimal_in_two(n: nat) -> Seq<char> {
    if n < 10 {
        seq![' '] + decimal(n)
    } else {
        decimal(n)
    }
}

/// Whether a character is a decimal digit.
pub open spec fn is_digit(c: char) -> bool {
    '0' <= c <= '9'
}

/// The number that a sequence of digits writes.
pub open spec fn value_of(digits: Seq<char>) -> nat
    decreases digits.len(),
{
    if digits.len() == 0 {
        0
    } else {
        (10 * value_of(digits.drop_last()) + (digits.last() as u32 - 48)) as nat
    }
}

/// The digits of a number that may be written with one leading `+`.
pub open spec fn after_plus(s: Seq<char>) -> Seq<char> {
    if s.len() > 0 && s[0] == '+' {
        s.drop_first()
    } else {
        s
    }
}

/// The 16-bit number that a text writes: an optional `+` and at least one digit, nothing else, and
/// no more than the type can hold.
pub open spec fn parsed_u16(s: Seq<char>) -> Option<u16> {
    let digits = after_plus(s);
    if digits.len() > 0 && (forall|i: int| 0 <= i < digits.len() ==> #[trigger] is_digit(digits[i]))
        && value_of(digits) <= u16::MAX {
        Some(value_of(digits) as u16)
    } else {
        None
    }
}

/// Prints a number in decimal.
pub fn decimal_text(n: u64) -> (text: String)
    ensures
        text@ == decimal(n as nat),
    decreases n,
{
    if n < 10 {
        let mut text = String::new();
        text.push((n as u8 + 48) as char);
        assert(text@ == seq![digit(n as nat)]);
        text
    } else {
        let mut text = decimal_text(n / 10);
        text.push(((n % 10) as u8 + 48) as char);
        text
    }
}

/// Prints a number that may be negative in decimal.
pub fn signed_decimal_text(n: i32) -> (text: String)
    ensures
        text@ == signed_decimal(n as int),
{
    if n < 0 {
        let mut text = String::new();
        text.push('-');
        text.append(decimal_text((-(n as i64)) as u64).as_str());
        assert(text@ == seq!['-'] + decimal((-n) as nat));
        text
    } else {
        decimal_text(n as u64)
    }
}

/// Prints a number in decimal, at least two characters wide.
pub fn decimal_text_in_two(n: u32) -> (text: String)
    ensures
        text@ == decimal_in_two(n as nat),
{
    if n < 10 {
        let mut text = String::new();
        text.push(' ');
        text.append(decimal_text(n as u64).as_str());
        assert(text@ == seq![' '] + decimal(n as nat));
        text
    } else {
        decimal_text(n as u64)
    }
}

/// More digits never make a smaller number.
proof fn lemma_value_grows(digits: Seq<char>, shorter: nat)
    requires
        shorter <= digits.len(),
        forall|i: int| 0 <= i < digits.len() ==> #[trigger] is_digit(digits[i]),
    ensures
        value_of(digits.take(shorter as int)) <= value_of(digits),
    decreases digits.len(),
{
    if shorter < digits.len() {
        let rest = digits.drop_last();
        assert forall|i: int| 0 <= i < rest.len() implies #[trigger] is_digit(rest[i]) by {
            assert(is_digit(digits[i]));
        }
        lemma_value_grows(rest, shorter);
        assert(rest.take(shorter as int) == digits.take(shorter as int));
        assert(is_digit(digits.last()));
    } else {
        assert(digits.take(shorter as int) == digits);
    }
}

/// Reads a 16-bit number.
pub fn parse_u16(chars: &Vec<char>) -> (number: Option<u16>)
    ensures
        number == parsed_u16(chars@),
{
    let start: usize = if chars.len() > 0 && chars[0] == '+' {
        1
    } else {
        0
    };
    let ghost digits = after_plus(chars@);
    assert(digits == chars@.skip(start as int));
    if start == chars.len() {
        return None;
    }
    let mut value: u32 = 0;
    let mut i: usize = start;
    assert(digits.take(0) == Seq::<char>::empty());
    while i < chars.len()
        invariant
            start <= i <= chars@.len(),
            digits == after_plus(chars@),
            digits == chars@.skip(start as int),
            digits.len() > 0,
            forall|j: int| 0 <= j < i - start ==> #[trigger] is_digit(digits[j]),
            value == value_of(digits.take(i - start)),
            value <= u16::MAX,
        decreases chars@.len() - i,
    {
        let c = chars[i];
        assert(c == digits[i - start]);
        if c < '0' || c > '9' {
            assert(!is_digit(digits[i - start]));
            return None;
        }
        assert(is_digit(digits[i - start]));
        assert(digits.take(i + 1 - start).drop_last() == digits.take(i - start));
        value = value * 10 + (c as u32 - 48);
        if value > 65535 {
            proof {
                if forall|j: int| 0 <= j < digits.len() ==> #[trigger] is_digit(digits[j]) {
                    lemma_value_grows(digits, (i + 1 - start) as nat);
                }
            }
            return None;
        }
        i = i + 1;
    }
    assert(digits.take(i - start) == digits);
    Some(value as u16)
}

/// The digits of a number write that number, without zeros before them.
pub proof fn law_decimal_writes_value(n: nat)
    ensures
        value_of(decimal(n)) == n,
        decimal(n).len() > 0,
        forall|i: int| 0 <= i < decimal(n).len() ==> #[trigger] is_digit(decimal(n)[i]),
        n > 0 ==> decimal(n)[0] != '0',
        n < 10 ==> decimal(n).len() == 1,
    decreases n,
{
    if n < 10 {
        assert(decimal(n).drop_last() == Seq::<char>::empty());
        reveal_with_fuel(value_of, 2);
    } else {
        law_decimal_writes_value(n / 10);
        let shorter = decimal(n / 10);
        assert(decimal(n).drop_last() == shorter);
        assert forall|i: int| 0 <= i < decimal(n).len() implies #[trigger] is_digit(
            decimal(n)[i],
        ) by {
            if i < shorter.len() {
                assert(is_digit(shorter[i]));
            }
        }
    }
}

/// Printing a 16-bit number and reading it again gives the number back.
pub proof fn law_printed_number_is_read_back(n: u16)
    ensures
        parsed_u16(decimal(n as nat)) == Some(n),
{
    law_decimal_writes_value(n as nat);
    assert(is_digit(decimal(n as nat)[0]));
    assert(after_plus(decimal(n as nat)) == decimal(n as nat));
}

/// A number below zero is written with a minus before its digits, any other with its digits alone.
pub proof fn law_sign_stands_before_digits(n: int)
    ensures
        n >= 0 ==> signed_decimal(n) == decimal(n as nat),
        n < 0 ==> signed_decimal(n) == seq!['-'] + decimal((-n) as nat),
{
}

/// A number in a field of two ends in its digits; a space stands before a single digit.
pub proof fn law_field_of_two_ends_in_number(n: nat)
    ensures
        decimal(n).is_suffix_of(decimal_in_two(n)),
        decimal_in_two(n).len() >= 2,
        decimal_in_two(n).len() == 2 || decimal_in_two(n) == decimal(n),
        decimal_in_two(n) != decimal(n) ==> decimal_in_two(n)[0] == ' ',
{
    law_decimal_writes_value(n);
    if n >= 10 {
        law_decimal_writes_value(n / 10);
        assert(decimal(n).subrange(0, decimal(n).len() as int) == decimal(n));
    } else {
        assert(decimal_in_two(n).subrange(1, 2) == decimal(n));
    }
}

/// What is no number of 16 bits is not read as one: a text with a character that is no digit, but
/// for one plus at its beginning, a text without digits, and a number that is too large.
pub proof fn law_only_numbers_are_read(s: Seq<char>, at: int)
    ensures
        0 < at < s.len() && !('0' <= s[at] <= '9') ==> parsed_u16(s) is None,
        s.len() > 0 && s[0] != '+' && !('0' <= s[0] <= '9') ==> parsed_u16(s) is None,
        s.len() == 0 ==> parsed_u16(s) is None,
        s.len() == 1 && s[0] == '+' ==> parsed_u16(s) is None,
        parsed_u16(s) is Some ==> value_of(s) == parsed_u16(s)->0 || s[0] == '+',
{
    let digits = after_plus(s);
    if 0 < at < s.len() {
        if s[0] == '+' {
            assert(digits[at - 1] == s[at]);
            assert(!is_digit(digits[at - 1]) || '0' <= s[at] <= '9');
        } else {
            assert(!is_digit(digits[at]) || '0' <= s[at] <= '9');
        }
    }
    if s.len() > 0 && s[0] != '+' {
        assert(!is_digit(digits[0]) || '0' <= s[0] <= '9');
    }
}

/// A zero before digits does not change the number that they write.
proof fn lemma_leading_zero(digits: Seq<char>)
    ensures
        value_of(seq!['0'] + digits) == value_of(digits),
    decreases digits.len(),
{
    let longer = seq!['0'] + digits;
    if digits.len() == 0 {
        assert(longer.drop_last() == Seq::<char>::empty());
        reveal_with_fuel(value_of, 2);
    } else {
        lemma_leading_zero(digits.drop_last());
        assert(longer.drop_last() == seq!['0'] + digits.drop_last());
    }
}

/// A number is read with a plus or a zero before its digits as without, if it has 16 bits; no larger
/// number is read.
pub proof fn law_numbers_of_16_bits_are_read(n: nat)
    ensures
        ({
            let read = if n <= 65535 {
                Some(n as u16)
            } else {
                None
            };
            &&& parsed_u16(decimal(n)) == read
            &&& parsed_u16(seq!['+'] + decimal(n)) == read
            &&& parsed_u16(seq!['0'] + decimal(n)) == read
            &&& parsed_u16(seq!['+', '+'] + decimal(n)) is None
        }),
{
    let digits = decimal(n);
    law_decimal_writes_value(n);
    assert(is_digit(digits[0]));
    assert(after_plus(digits) == digits);
    assert(after_plus(seq!['+'] + digits) == digits);
    let zero = seq!['0'] + digits;
    lemma_leading_zero(digits);
    assert(after_plus(zero) == zero);
    assert forall|i: int| 0 <= i < zero.len() implies #[trigger] is_digit(zero[i]) by {
        if i > 0 {
            assert(is_digit(digits[i - 1]));
        }
    }
    let twice = seq!['+', '+'] + digits;
    assert(!is_digit(after_plus(twice)[0]));
}

} // verus!
