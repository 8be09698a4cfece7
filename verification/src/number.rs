//! Decimal notation of integers.

use crate::text::chars_of;
use vstd::prelude::*;

verus! {

/// The character of a decimal digit.
pub open spec fn digit_char(d: int) -> char {
    ('0' as int + d) as char
}

/// `n` in decimal digits, without leading zeros.
pub open spec fn decimal_digits(n: nat) -> Seq<char>
    decreases n,
{
    if n < 10 {
        seq![digit_char(n as int)]
    } else {
        decimal_digits(n / 10).push(digit_char((n % 10) as int))
    }
}

/// `n` in decimal notation, with a minus sign where it is negative.
pub open spec fn decimal(n: int) -> Seq<char> {
    if n < 0 {
        seq!['-'] + decimal_digits((-n) as nat)
    } else {
        decimal_digits(n as nat)
    }
}

/// Appends the decimal digits of `n` to `out`.
fn push_digits(out: &mut String, n: u64)
    ensures
        final(out)@ == old(out)@ + decimal_digits(n as nat),
    decreases n,
{
    if n >= 10 {
        push_digits(out, n / 10);
    }
    let d: u8 = (n % 10) as u8;
    let c: char = (48u8 + d) as char;
    out.push(c);
    assert(c == digit_char((n % 10) as int));
    assert(final(out)@ =~= old(out)@ + decimal_digits(n as nat));
}

/// `n` in decimal notation.
pub fn u32_text(n: u32) -> (r: String)
    ensures
        r@ == decimal(n as int),
{
    let mut out: String = String::new();
    push_digits(&mut out, n as u64);
    assert(out@ =~= decimal(n as int));
    out
}

/// `n` in decimal notation.
pub fn i32_text(n: i32) -> (r: String)
    ensures
        r@ == decimal(n as int),
{
    let mut out: String = String::new();
    let wide: i64 = n as i64;
    if wide < 0 {
        out.push('-');
        push_digits(&mut out, (-wide) as u64);
    } else {
        push_digits(&mut out, wide as u64);
    }
    assert(out@ =~= decimal(n as int));
    out
}

/// `s` is one or more ASCII digits.
pub open spec fn all_digits(s: Seq<char>) -> bool {
    s.len() > 0 && forall|i: int| 0 <= i < s.len() ==> '0' <= #[trigger] s[i] <= '9'
}

/// The number that the digits of `s` denote.
pub open spec fn digits_value(s: Seq<char>) -> int
    decreases s.len(),
{
    if s.len() == 0 {
        0
    } else {
        digits_value(s.drop_last()) * 10 + (s.last() as int - '0' as int)
    }
}

/// The integer that `s` denotes: digits, with at most one sign before them.
pub open spec fn integer_of(s: Seq<char>) -> Option<int> {
    if s.len() > 0 && s[0] == '-' && all_digits(s.drop_first()) {
        Some(-digits_value(s.drop_first()))
    } else if s.len() > 0 && s[0] == '+' && all_digits(s.drop_first()) {
        Some(digits_value(s.drop_first()))
    } else if all_digits(s) {
        Some(digits_value(s))
    } else {
        None
    }
}

/// The 32-bit integer that `s` denotes, where it denotes one.
pub open spec fn i32_of(s: Seq<char>) -> Option<i32> {
    match integer_of(s) {
        Some(v) => if i32::MIN <= v <= i32::MAX {
            Some(v as i32)
        } else {
            None
        },
        None => None,
    }
}

/// More digits never denote a smaller number.
proof fn lemma_digits_value_grows(s: Seq<char>, n: int)
    requires
        all_digits(s),
        0 <= n <= s.len(),
    ensures
        0 <= digits_value(s.take(n)) <= digits_value(s),
    decreases s.len(),
{
    if n == s.len() {
        assert(s.take(n) =~= s);
        if n > 1 {
            lemma_digits_value_grows(s.drop_last(), n - 1);
        } else {
            assert(digits_value(s.drop_last()) == 0);
        }
    } else if s.len() == 1 {
        assert(digits_value(s.take(n)) == 0);
        assert(digits_value(s.drop_last()) == 0);
    } else {
        lemma_digits_value_grows(s.drop_last(), n);
        assert(s.drop_last().take(n) =~= s.take(n));
    }
}

/// The number denoted by the digits `text[from..]`, where it is at most 2147483648.
fn digits_to_i64(text: &Vec<char>, from: usize) -> (r: Option<i64>)
    requires
        from <= text@.len(),
    ensures
        match r {
            Some(v) => all_digits(text@.skip(from as int)) && v == digits_value(
                text@.skip(from as int),
            ) && 0 <= v <= 2147483648,
            None => all_digits(text@.skip(from as int)) ==> digits_value(text@.skip(from as int))
                > 2147483648,
        },
{
    let size: usize = text.len();
    if from == size {
        return None;
    }
    let ghost digits = text@.skip(from as int);
    let mut acc: i64 = 0;
    let mut i: usize = from;
    while i < size
        invariant
            from <= i <= size,
            size == text@.len(),
            digits == text@.skip(from as int),
            0 <= acc <= 2147483648,
            forall|k: int| 0 <= k < i - from ==> '0' <= #[trigger] digits[k] <= '9',
            acc == digits_value(digits.take(i - from)),
        decreases size - i,
    {
        let c: char = text[i];
        assert(digits[i - from] == c);
        if c < '0' || '9' < c {
            return None;
        }
        assert(digits.take(i - from + 1).drop_last() =~= digits.take(i - from));
        acc = acc * 10 + (c as u32 as i64 - 48);
        i += 1;
        if acc > 2147483648 {
            proof {
                if all_digits(digits) {
                    lemma_digits_value_grows(digits, i - from);
                }
            }
            return None;
        }
    }
    assert(digits.take(i - from) =~= digits);
    Some(acc)
}

/// The 32-bit integer that `s` denotes: digits, with at most one sign before them.
pub fn parse_i32(s: &str) -> (r: Option<i32>)
    ensures
        r == i32_of(s@),
{
    let text: Vec<char> = chars_of(s);
    if text.len() == 0 {
        return None;
    }
    assert(s@.skip(1) =~= s@.drop_first());
    assert(s@.skip(0) =~= s@);
    let negative: bool = text[0] == '-';
    let signed: bool = negative || text[0] == '+';
    assert(signed ==> !all_digits(s@)) by {
        assert(s@[0] == text@[0]);
    }
    match digits_to_i64(&text, if signed { 1 } else { 0 }) {
        None => None,
        Some(v) => {
            let value: i64 = if negative { -v } else { v };
            if value <= 2147483647 {
                Some(value as i32)
            } else {
                None
            }
        },
    }
}

/// The decimal digits of a number denote it.
pub proof fn lemma_decimal_digits(n: nat)
    ensures
        all_digits(decimal_digits(n)),
        digits_value(decimal_digits(n)) == n,
    decreases n,
{
    let text = decimal_digits(n);
    if n < 10 {
        assert(digits_value(text.drop_last()) == 0);
    } else {
        lemma_decimal_digits(n / 10);
        assert(text.drop_last() =~= decimal_digits(n / 10));
        assert forall|i: int| 0 <= i < text.len() implies '0' <= #[trigger] text[i] <= '9' by {
            if i < text.len() - 1 {
                assert(text[i] == decimal_digits(n / 10)[i]);
            }
        }
    }
}

/// Reading back the decimal notation of a 32-bit integer gives that integer.
pub proof fn law_decimal_read_back(n: i32)
    ensures
        i32_of(decimal(n as int)) == Some(n),
{
    let text = decimal(n as int);
    if n < 0 {
        lemma_decimal_digits((-n) as nat);
        assert(text.drop_first() =~= decimal_digits((-n) as nat));
    } else {
        lemma_decimal_digits(n as nat);
        assert('0' <= text[0] <= '9');
    }
}

} // verus!
