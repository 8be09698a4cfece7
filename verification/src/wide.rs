//! UTF-16 text, as Windows takes and gives it.

use crate::text::chars_of;
use vstd::prelude::*;

verus! {

/// `char::from_u32`: the character with the code point `i`, where `i` is a Unicode scalar value
/// (at most U+10FFFF and no surrogate), and nothing for other numbers.
pub assume_specification[ char::from_u32 ](i: u32) -> (r: Option<char>)
    ensures
        match r {
            Some(c) => c as u32 == i,
            None => 0xd800 <= i <= 0xdfff || 0x10ffff < i,
        },
;

/// The code units of one character: itself, or a surrogate pair.
pub open spec fn code_units(c: char) -> Seq<u16> {
    let v = c as int;
    if v < 0x10000 {
        seq![v as u16]
    } else {
        seq![(0xd800 + (v - 0x10000) / 0x400) as u16, (0xdc00 + (v - 0x10000) % 0x400) as u16]
    }
}

/// The code point of a character is at most U+10FFFF and no surrogate.
proof fn lemma_code_point(c: char)
    ensures
        c as int == c as u32,
        0 <= c as int <= 0x10ffff,
        !(0xd800 <= c as int <= 0xdfff),
        (c as int) as char == c,
{
}

/// The UTF-16 encoding of a text.
pub open spec fn utf16(s: Seq<char>) -> Seq<u16>
    decreases s.len(),
{
    if s.len() == 0 {
        Seq::empty()
    } else {
        code_units(s[0]) + utf16(s.drop_first())
    }
}

/// The UTF-16 encoding of `s`, ended by a zero unit.
pub fn wide_null(s: &str) -> (r: Vec<u16>)
    ensures
        r@ == utf16(s@).push(0),
{
    let text: Vec<char> = chars_of(s);
    let mut out: Vec<u16> = Vec::new();
    let mut i: usize = 0;
    assert(s@.skip(0) =~= s@);
    assert(Seq::<u16>::empty() + utf16(s@) =~= utf16(s@));
    while i < text.len()
        invariant
            text@ == s@,
            i <= s@.len(),
            utf16(s@) == out@ + utf16(s@.skip(i as int)),
        decreases s@.len() - i,
    {
        let c: char = text[i];
        let v: u32 = c as u32;
        proof {
            lemma_code_point(c);
        }
        let ghost before = out@;
        if v < 0x10000 {
            out.push(v as u16);
        } else {
            out.push((0xd800 + (v - 0x10000) / 0x400) as u16);
            out.push((0xdc00 + (v - 0x10000) % 0x400) as u16);
        }
        assert(out@ =~= before + code_units(c));
        assert(s@.skip(i as int).drop_first() =~= s@.skip(i + 1));
        assert(before + (code_units(c) + utf16(s@.skip(i + 1))) =~= out@ + utf16(s@.skip(i + 1)));
        i += 1;
    }
    assert(out@ + Seq::<u16>::empty() =~= out@);
    out.push(0);
    out
}

/// `u` is the first unit of a surrogate pair.
pub open spec fn high_surrogate(u: u16) -> bool {
    0xd800 <= u < 0xdc00
}

/// `u` is the second unit of a surrogate pair.
pub open spec fn low_surrogate(u: u16) -> bool {
    0xdc00 <= u < 0xe000
}

/// The character that a surrogate pair stands for.
pub open spec fn pair_char(high: u16, low: u16) -> char {
    (0x10000 + (high - 0xd800) * 0x400 + (low - 0xdc00)) as char
}

/// The text that UTF-16 code units denote, with U+FFFD for each unpaired surrogate.
pub open spec fn utf16_lossy(units: Seq<u16>) -> Seq<char>
    decreases units.len(),
{
    if units.len() == 0 {
        Seq::empty()
    } else if units.len() > 1 && high_surrogate(units[0]) && low_surrogate(units[1]) {
        seq![pair_char(units[0], units[1])] + utf16_lossy(units.skip(2))
    } else if high_surrogate(units[0]) || low_surrogate(units[0]) {
        seq!['\u{fffd}'] + utf16_lossy(units.skip(1))
    } else {
        seq![units[0] as char] + utf16_lossy(units.skip(1))
    }
}

/// The character with the code point `v`.
fn scalar(v: u32) -> (r: char)
    requires
        v < 0xd800 || 0xe000 <= v <= 0x10ffff,
    ensures
        r as u32 == v,
{
    match char::from_u32(v) {
        Some(c) => c,
        None => '\u{fffd}',
    }
}

/// The text that the first `len` of the code units denote, with U+FFFD for each unpaired
/// surrogate.
pub fn from_utf16_lossy(units: &Vec<u16>, len: usize) -> (r: String)
    requires
        len <= units@.len(),
    ensures
        r@ == utf16_lossy(units@.take(len as int)),
{
    let ghost all = units@.take(len as int);
    let mut out: String = String::new();
    let mut i: usize = 0;
    assert(all.skip(0) =~= all);
    assert(out@ + utf16_lossy(all) =~= utf16_lossy(all));
    while i < len
        invariant
            i <= len <= units@.len(),
            all == units@.take(len as int),
            utf16_lossy(all) == out@ + utf16_lossy(all.skip(i as int)),
        decreases len - i,
    {
        let ghost rest = all.skip(i as int);
        let ghost before = out@;
        let u: u16 = units[i];
        let first_high: bool = 0xd800 <= u && u < 0xdc00;
        let first_low: bool = 0xdc00 <= u && u < 0xe000;
        if first_high && len - i > 1 && 0xdc00 <= units[i + 1] && units[i + 1] < 0xe000 {
            let low: u16 = units[i + 1];
            let c: char = scalar(
                0x10000 + (u as u32 - 0xd800) * 0x400 + (low as u32 - 0xdc00),
            );
            assert(rest.skip(2) =~= all.skip(i + 2));
            out.push(c);
            assert(before + (seq![c] + utf16_lossy(all.skip(i + 2))) =~= out@ + utf16_lossy(
                all.skip(i + 2),
            ));
            i += 2;
        } else {
            let c: char = if first_high || first_low {
                '\u{fffd}'
            } else {
                scalar(u as u32)
            };
            assert(rest.skip(1) =~= all.skip(i + 1));
            out.push(c);
            assert(before + (seq![c] + utf16_lossy(all.skip(i + 1))) =~= out@ + utf16_lossy(
                all.skip(i + 1),
            ));
            i += 1;
        }
    }
    assert(out@ + Seq::<char>::empty() =~= out@);
    out
}

/// Decoding the UTF-16 encoding of a text gives that text.
pub proof fn law_utf16_read_back(s: Seq<char>)
    ensures
        utf16_lossy(utf16(s)) == s,
    decreases s.len(),
{
    if s.len() > 0 {
        let c = s[0];
        let rest = s.drop_first();
        lemma_code_point(c);
        law_utf16_read_back(rest);
        let units = utf16(s);
        if (c as int) < 0x10000 {
            assert(units.skip(1) =~= utf16(rest));
            assert(units[0] as char == c);
        } else {
            assert(units.skip(2) =~= utf16(rest));
            assert(pair_char(units[0], units[1]) == c);
        }
        assert(seq![c] + rest =~= s);
    }
}

} // verus!
