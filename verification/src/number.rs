//! Decimal numbers as text.
use vstd::prelude::*;

use crate::text::chars_of;

verus! {

/// The decimal digit `d`.
pub open spec fn digit_char(d: nat) -> char {
    ('0' as int + d) as char
}

/// `n` in decimal, without leading zeros.
pub open spec fn decimal_text(n: nat) -> Seq<char>
    decreases n,
{
    if n < 10 {
        seq![digit_char(n)]
    } else {
        decimal_text(n / 10).push(digit_char(n % 10))
    }
}

/// `n` in decimal.
pub fn decimal(n: u64) -> (text: String)
    ensures
        text@ == decimal_text(n as nat),
    decreases n,
{
    let mut text = if n < 10 {
        String::new()
    } else {
        decimal(n / 10)
    };
    let digit: u8 = (n % 10) as u8;
    let c = (48u8 + digit) as char;
    let ghost head = text@;
    text.push(c);
    assert(n < 10 ==> text@ =~= seq![digit_char(n as nat)]);
    text
}

/// `n` in decimal, with a minus sign when it is negative.
pub open spec fn signed_text(n: int) -> Seq<char> {
    if n < 0 {
        seq!['-'] + decimal_text((-n) as nat)
    } else {
        decimal_text(n as nat)
    }
}

/// `n` in decimal, with a minus sign when it is negative.
pub fn signed_decimal(n: i32) -> (text: String)
    ensures
        text@ == signed_text(n as int),
{
    if n < 0 {
        let magnitude: u64 = (-(n as i64)) as u64;
        let mut text = String::new();
        text.push('-');
        let digits = decimal(magnitude);
        text.append(digits.as_str());
        assert(text@ =~= seq!['-'] + digits@);
        text
    } else {
        decimal(n as u64)
    }
}

/// Whether `c` is one of `0` to `9`.
pub open spec fn is_digit(c: char) -> bool {
    '0' <= c <= '9'
}

/// Whether `s` holds nothing but digits.
pub open spec fn all_digits(s: Seq<char>) -> bool {
    forall|i: int| 0 <= i < s.len() ==> is_digit(#[trigger] s[i])
}

/// The number that the digits `s` stand for.
pub open spec fn digits_value(s: Seq<char>) -> nat
    decreases s.len(),
{
    if s.len() == 0 {
        0
    } else {
        digits_value(s.drop_last()) * 10 + (s.last() as int - '0' as int) as nat
    }
}

/// The number from 0 to 255 that `s` stands for: one digit or more, after an optional plus sign.
pub open spec fn parse_u8_text(s: Seq<char>) -> Option<u8> {
    let digits = if s.len() > 0 && s[0] == '+' {
        s.skip(1)
    } else {
        s
    };
    if digits.len() > 0 && all_digits(digits) && digits_value(digits) <= 255 {
        Some(digits_value(digits) as u8)
    } else {
        None
    }
}

proof fn lemma_digits_value_grows(s: Seq<char>, n: int)
    requires
        0 <= n <= s.len(),
        all_digits(s),
    ensures
        digits_value(s.take(n)) <= digits_value(s),
    decreases s.len(),
{
    if n < s.len() {
        assert(s.drop_last().take(n) =~= s.take(n));
        assert(is_digit(s.last()));
        lemma_digits_value_grows(s.drop_last(), n);
    } else {
        assert(s.take(n) =~= s);
    }
}

/// The number from 0 to 255 that `text` stands for.
pub fn parse_u8(text: &str) -> (value: Option<u8>)
    ensures
        value == parse_u8_text(text@),
{
    let chars = chars_of(text);
    let from: usize = if chars.len() > 0 && chars[0] == '+' {
        1
    } else {
        0
    };
    let ghost digits = chars@.skip(from as int);
    assert(from == 0 ==> digits =~= chars@);
    if from == chars.len() {
        return None;
    }
    let mut value: u16 = 0;
    let mut i: usize = from;
    assert(digits.take(0) =~= Seq::empty());
    while i < chars.len()
        invariant
            from <= i <= chars@.len(),
            from < chars@.len(),
            digits == chars@.skip(from as int),
            parse_u8_text(text@) == (if digits.len() > 0 && all_digits(digits) && digits_value(
                digits,
            ) <= 255 {
                Some(digits_value(digits) as u8)
            } else {
                None
            }),
            value <= 255,
            value == digits_value(digits.take(i - from)),
            forall|j: int| 0 <= j < i - from ==> is_digit(#[trigger] digits[j]),
        decreases chars@.len() - i,
    {
        let c = chars[i];
        assert(digits[i - from] == c);
        if c < '0' || '9' < c {
            return None;
        }
        assert(digits.take(i + 1 - from).drop_last() =~= digits.take(i - from));
        value = value * 10 + (c as u8 - 48) as u16;
        assert(value == digits_value(digits.take(i + 1 - from)));
        if value > 255 {
            proof {
                if all_digits(digits) {
                    lemma_digits_value_grows(digits, i + 1 - from);
                }
            }
            return None;
        }
        i = i + 1;
    }
    assert(digits.take(i - from) =~= digits);
    Some(value as u8)
}

// ---------------------------------------------------------------------------
// Laws
// ---------------------------------------------------------------------------

/// One more digit makes ten times the number and the digit.
pub proof fn law_digit_adds_ten_times(s: Seq<char>, d: nat)
    requires
        d < 10,
    ensures
        digits_value(Seq::empty()) == 0,
        digits_value(s.push((48 + d) as char)) == 10 * digits_value(s) + d,
{
    let c = (48 + d) as char;
    assert(s.push(c).drop_last() =~= s);
    assert(c as int == 48 + d);
}

/// A number is written in the digits `0` to `9`, without a leading zero but for zero itself, and its
/// digits stand for it.
pub proof fn law_decimal_reads_back(n: nat)
    ensures
        decimal_text(n).len() > 0,
        forall|i: int| 0 <= i < decimal_text(n).len() ==> '0' <= #[trigger] decimal_text(n)[i] <= '9',
        digits_value(decimal_text(n)) == n,
        n > 0 ==> decimal_text(n)[0] != '0',
        n == 0 ==> decimal_text(n) == seq!['0'],
        n <= 255 ==> parse_u8_text(decimal_text(n)) == Some(n as u8),
        n > 255 ==> parse_u8_text(decimal_text(n)) is None,
    decreases n,
{
    let text = decimal_text(n);
    if n < 10 {
        assert(text[0] as int == 48 + n);
        law_digit_adds_ten_times(Seq::empty(), n);
        assert(text =~= Seq::<char>::empty().push((48 + n) as char));
        assert(n == 0 ==> text =~= seq!['0']);
    } else {
        law_decimal_reads_back(n / 10);
        let head = decimal_text(n / 10);
        assert(text[text.len() - 1] as int == 48 + n % 10);
        law_digit_adds_ten_times(head, n % 10);
        assert(text =~= head.push((48 + n % 10) as char));
        assert forall|i: int| 0 <= i < text.len() implies '0' <= #[trigger] text[i] <= '9' by {
            if i < head.len() {
                assert(text[i] == head[i]);
            }
        }
        assert(text[0] == head[0]);
    }
    assert(all_digits(text));
    assert(text[0] != '+');
}

/// Different numbers are written differently.
pub proof fn law_decimal_tells_numbers_apart(a: nat, b: nat)
    requires
        a != b,
    ensures
        decimal_text(a) != decimal_text(b),
{
    law_decimal_reads_back(a);
    law_decimal_reads_back(b);
}

/// A negative number is written as its opposite behind a minus sign, any other as it is.
pub proof fn law_minus_sign_marks_negative_numbers(n: nat)
    ensures
        signed_text(n as int) == decimal_text(n),
        n > 0 ==> signed_text(-n) == seq!['-'] + decimal_text(n),
{
}

/// A plus sign before digits does not count, and nothing but digits is read: neither an empty text
/// nor one with another character, and nothing above 255.
pub proof fn law_what_is_read_as_a_number(s: Seq<char>, v: u8)
    ensures
        parse_u8_text(Seq::empty()) is None,
        parse_u8_text(seq!['+']) is None,
        s.len() > 0 && s[0] != '+' ==> parse_u8_text(seq!['+'] + s) == parse_u8_text(s),
        s.len() > 0 && s[0] != '+' && parse_u8_text(s) == Some(v) ==> digits_value(s) == v
            && forall|i: int| 0 <= i < s.len() ==> '0' <= #[trigger] s[i] <= '9',
        s.len() > 0 && (forall|i: int| 0 <= i < s.len() ==> '0' <= #[trigger] s[i] <= '9')
            && digits_value(s) <= 255 ==> parse_u8_text(s) == Some(digits_value(s) as u8),
{
    assert((seq!['+'] + s).skip(1) =~= s);
    assert(seq!['+'].skip(1) =~= Seq::empty());
    if s.len() > 0 && (forall|i: int| 0 <= i < s.len() ==> '0' <= #[trigger] s[i] <= '9') {
        assert('0' <= s[0]);
        assert(all_digits(s));
    }
}

} // verus!
