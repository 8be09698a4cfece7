//! What the operations on numbers and on UTF-16 text do.

use crate::number::{
    all_digits, decimal, decimal_digits, digit_char, digits_value, i32_of, i32_text, integer_of,
    lemma_decimal_digits, parse_i32, u32_text,
};
use crate::wide::{code_units, from_utf16_lossy, utf16, wide_null};
use vstd::prelude::*;

verus! {

/// A number below ten is written as its digit, a larger one as its tenth and then its last digit.
pub proof fn law_u32_text(n: u32, tenth: u32, r: String, q: String)
    requires
        call_ensures(u32_text, (n,), r),
        call_ensures(u32_text, (tenth,), q),
        tenth == n / 10,
    ensures
        n < 10 ==> r@ == seq!["0123456789"@[n as int]],
        n >= 10 ==> r@ == q@ + seq!["0123456789"@[(n % 10) as int]],
{
    reveal_strlit("0123456789");
    if n >= 10 {
        assert(decimal_digits(n as nat) == decimal_digits((n / 10) as nat).push(
            digit_char((n % 10) as int),
        ));
        assert(digit_char((n % 10) as int) == "0123456789"@[(n % 10) as int]);
        assert(r@ =~= q@ + seq!["0123456789"@[(n % 10) as int]]);
    } else {
        assert(digit_char(n as int) == "0123456789"@[n as int]);
        assert(decimal_digits(n as nat) == seq![digit_char(n as int)]);
    }
}

/// A signed number is written as its size, with a minus sign before it where it is negative.
pub proof fn law_i32_text(n: i32, size: u32, r: String, q: String)
    requires
        call_ensures(i32_text, (n,), r),
        call_ensures(u32_text, (size,), q),
    ensures
        n >= 0 && size == n ==> r@ == q@,
        n < 0 && size == -n ==> r@ == seq!['-'] + q@,
        r@ == decimal(n as int),
        q@ == decimal(size as int),
{
}

/// `count` times the digit zero.
pub open spec fn zeros(count: nat) -> Seq<char> {
    Seq::new(count, |i: int| '0')
}

/// Leading zeros do not change the number that digits denote.
proof fn lemma_zeros(count: nat, digits: Seq<char>)
    requires
        all_digits(digits),
    ensures
        all_digits(zeros(count) + digits),
        digits_value(zeros(count) + digits) == digits_value(digits),
    decreases count + digits.len(),
{
    let s = zeros(count) + digits;
    assert(s.last() == digits.last());
    assert forall|i: int| 0 <= i < s.len() implies '0' <= #[trigger] s[i] <= '9' by {
        if i >= count {
            assert(s[i] == digits[i - count]);
        }
    }
    if digits.len() > 1 {
        let rest = digits.drop_last();
        assert forall|i: int| 0 <= i < rest.len() implies '0' <= #[trigger] rest[i] <= '9' by {
            assert(rest[i] == digits[i]);
        }
        lemma_zeros(count, rest);
        assert(s.drop_last() =~= zeros(count) + rest);
    } else {
        assert(digits_value(digits.drop_last()) == 0);
        assert(s.drop_last() =~= zeros(count));
        if count > 0 {
            assert(zeros(count) =~= zeros((count - 1) as nat) + seq!['0']);
            lemma_zeros((count - 1) as nat, seq!['0']);
            assert(digits_value(seq!['0'].drop_last()) == 0);
            assert(digits_value(seq!['0']) == 0);
        } else {
            assert(digits_value(zeros(count)) == 0);
        }
    }
}

/// Digits are the decimal notation of what they denote, with zeros before it.
proof fn lemma_digits_form(digits: Seq<char>) -> (count: nat)
    requires
        all_digits(digits),
    ensures
        digits_value(digits) >= 0,
        digits == zeros(count) + decimal_digits(digits_value(digits) as nat),
    decreases digits.len(),
{
    let d = digits.last() as int - '0' as int;
    assert(digits[digits.len() - 1] == digits.last());
    assert(digit_char(d) == digits.last());
    if digits.len() == 1 {
        assert(digits_value(digits.drop_last()) == 0);
        assert(digits =~= zeros(0) + decimal_digits(d as nat));
        0
    } else {
        let rest = digits.drop_last();
        assert forall|i: int| 0 <= i < rest.len() implies '0' <= #[trigger] rest[i] <= '9' by {
            assert(rest[i] == digits[i]);
        }
        let before = lemma_digits_form(rest);
        assert(digits =~= rest.push(digits.last()));
        let v = digits_value(rest);
        let w = v * 10 + d;
        if v == 0 {
            assert(decimal_digits(0) == seq![digit_char(0)]);
            assert(digits =~= zeros(before + 1) + decimal_digits(d as nat));
            before + 1
        } else {
            assert(w / 10 == v && w % 10 == d);
            assert(decimal_digits(w as nat) == decimal_digits(v as nat).push(digit_char(d)));
            assert(digits =~= zeros(before) + decimal_digits(w as nat));
            before
        }
    }
}

/// `s` writes `n`: its size in decimal, with any zeros before it, behind a minus sign where it is
/// below zero, and else behind a plus sign or nothing (zero may have either sign).
pub open spec fn writes(s: Seq<char>, n: int) -> bool {
    exists|count: nat|
        {
            ||| n >= 0 && s == #[trigger] zeros(count) + decimal(n)
            ||| n >= 0 && s == seq!['+'] + zeros(count) + decimal(n)
            ||| n <= 0 && s == seq!['-'] + zeros(count) + decimal(-n)
        }
}

/// `parse_i32` gives the 32-bit integer that the text writes, and nothing where it writes none.
pub proof fn law_parse_i32(s: &str, n: i32, r: Option<i32>)
    requires
        call_ensures(parse_i32, (s,), r),
    ensures
        r == Some(n) <==> writes(s@, n as int),
        r is None ==> !writes(s@, n as int),
{
    lemma_writes(s@, n);
}

/// The texts that denote an integer are those that write it.
pub proof fn lemma_writes(s: Seq<char>, n: i32)
    ensures
        i32_of(s) == Some(n) <==> writes(s, n as int),
{
    let tail = s.drop_first();
    if i32_of(s) == Some(n) {
        if s.len() > 0 && (s[0] == '-' || s[0] == '+') && all_digits(tail) {
            let count = lemma_digits_form(tail);
            let size = digits_value(tail);
            assert(s =~= seq![s[0]] + tail);
            assert(s =~= seq![s[0]] + zeros(count) + decimal(size));
        } else {
            let count = lemma_digits_form(s);
            assert(s =~= zeros(count) + decimal(digits_value(s)));
        }
    }
    if writes(s, n as int) {
        let count = choose|count: nat|
            {
                ||| n >= 0 && s == #[trigger] zeros(count) + decimal(n as int)
                ||| n >= 0 && s == seq!['+'] + zeros(count) + decimal(n as int)
                ||| n <= 0 && s == seq!['-'] + zeros(count) + decimal(-n)
            };
        let size: int = if n < 0 {
            -n
        } else {
            n as int
        };
        lemma_decimal_digits(size as nat);
        lemma_zeros(count, decimal_digits(size as nat));
        let digits = zeros(count) + decimal_digits(size as nat);
        if s[0] == '-' || s[0] == '+' {
            assert('0' <= digits[0] <= '9');
            assert(tail =~= digits);
        } else {
            assert(n >= 0);
            assert(s =~= digits);
        }
        assert(integer_of(s) == Some(n as int));
    }
}

/// The UTF-16 encoding of a text is that of its characters, one by one, and a zero unit behind
/// them. A character is its code point where that is below 0x10000, and else a high and a low
/// surrogate that carry what it exceeds that by.
pub proof fn law_wide_null(s: &str, c: char, t: &str, r: Vec<u16>, q: Vec<u16>)
    requires
        call_ensures(wide_null, (s,), r),
        call_ensures(wide_null, (t,), q),
    ensures
        s@.len() == 0 ==> r@ == seq![0u16],
        s@ == seq![c] + t@ && (c as int) < 0x10000 ==> r@.len() == q@.len() + 1 && r@[0] == c as int
            && r@.skip(1) == q@,
        s@ == seq![c] + t@ && (c as int) >= 0x10000 ==> {
            &&& r@.len() == q@.len() + 2
            &&& 0xd800 <= r@[0] < 0xdc00
            &&& 0xdc00 <= r@[1] < 0xe000
            &&& 0x10000 + (r@[0] - 0xd800) * 0x400 + (r@[1] - 0xdc00) == c as int
            &&& r@.skip(2) == q@
        },
{
    lemma_scalar(c);
    if s@ == seq![c] + t@ {
        assert(s@[0] == c);
        assert(s@.drop_first() =~= t@);
        assert(utf16(s@) == code_units(c) + utf16(t@));
        if (c as int) < 0x10000 {
            assert(r@.skip(1) =~= q@);
        } else {
            assert(r@.skip(2) =~= q@);
        }
    }
}

/// The bounds of a code point.
proof fn lemma_scalar(c: char)
    ensures
        0 <= c as int <= 0x10ffff,
        !(0xd800 <= c as int <= 0xdfff),
{
}

/// Reading UTF-16 code units takes a high surrogate and a low one behind it as the character that
/// they carry, any other surrogate as U+FFFD, and any other unit as the character of that code
/// point. Only the given number of units is read.
pub proof fn law_from_utf16_lossy(
    units: Vec<u16>,
    len: usize,
    others: Vec<u16>,
    count: usize,
    r: String,
    q: String,
)
    requires
        len <= units@.len(),
        count <= others@.len(),
        call_ensures(from_utf16_lossy, (&units, len), r),
        call_ensures(from_utf16_lossy, (&others, count), q),
    ensures
        len == 0 ==> r@.len() == 0,
        len >= 1 && !(0xd800 <= units@[0] <= 0xdfff) && others@.take(count as int)
            == units@.subrange(1, len as int) ==> r@ == seq![units@[0] as char] + q@,
        len >= 2 && 0xd800 <= units@[0] <= 0xdbff && 0xdc00 <= units@[1] <= 0xdfff && others@.take(
            count as int,
        ) == units@.subrange(2, len as int) ==> r@ == seq![
            (0x10000 + (units@[0] - 0xd800) * 0x400 + (units@[1] - 0xdc00)) as char,
        ] + q@,
        len >= 1 && 0xd800 <= units@[0] <= 0xdfff && !(len >= 2 && 0xd800 <= units@[0] <= 0xdbff
            && 0xdc00 <= units@[1] <= 0xdfff) && others@.take(count as int) == units@.subrange(
            1,
            len as int,
        ) ==> r@ == seq!['\u{fffd}'] + q@,
{
    let all = units@.take(len as int);
    if len >= 1 {
        assert(all[0] == units@[0]);
        assert(all.skip(1) =~= units@.subrange(1, len as int));
    }
    if len >= 2 {
        assert(all[1] == units@[1]);
        assert(all.skip(2) =~= units@.subrange(2, len as int));
    }
}

} // verus!
