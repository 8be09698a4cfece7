//! Text operations over Unicode scalar values, stated on `Seq<char>`.

use vstd::prelude::*;

verus! {

/// `String::push`: appends the given character to the end of the string.
pub assume_specification[ String::push ](s: &mut String, c: char)
    ensures
        final(s)@ == old(s)@.push(c),
;

/// The texts held by a list of strings.
pub open spec fn texts(list: Seq<String>) -> Seq<Seq<char>> {
    list.map_values(|t: String| t@)
}

/// The characters of an optional string.
pub open spec fn optional_text(s: Option<String>) -> Option<Seq<char>> {
    match s {
        Some(t) => Some(t@),
        None => None,
    }
}

/// The characters of `s`, in order.
pub fn chars_of(s: &str) -> (r: Vec<char>)
    ensures
        r@ == s@,
{
    let mut out: Vec<char> = Vec::new();
    for c in it: s.chars()
        invariant
            it.seq() == s@,
            out@ == s@.take(it.index() as int),
    {
        out.push(c);
        assert(s@.take(it.index() as int).push(c) =~= s@.take(it.index() + 1));
    }
    assert(s@.take(s@.len() as int) =~= s@);
    out
}

/// The string made of the characters `chars[from..to]`.
pub fn string_of(chars: &Vec<char>, from: usize, to: usize) -> (r: String)
    requires
        from <= to <= chars@.len(),
    ensures
        r@ == chars@.subrange(from as int, to as int),
{
    let mut out: String = String::new();
    let mut i: usize = from;
    while i < to
        invariant
            from <= i <= to <= chars@.len(),
            out@ == chars@.subrange(from as int, i as int),
        decreases to - i,
    {
        out.push(chars[i]);
        i += 1;
        assert(chars@.subrange(from as int, i as int) =~= chars@.subrange(
            from as int,
            i - 1,
        ).push(chars@[i - 1]));
    }
    out
}

/// `first` followed by `second`.
pub fn followed_by(first: &str, second: &str) -> (r: String)
    ensures
        r@ == first@ + second@,
{
    let mut out: String = String::new();
    out.append(first);
    out.append(second);
    assert(Seq::<char>::empty() + first@ =~= first@);
    out
}

/// `pat` stands in `s` at position `at`.
pub open spec fn occurs_at(s: Seq<char>, pat: Seq<char>, at: int) -> bool {
    0 <= at && at + pat.len() <= s.len() && s.subrange(at, at + pat.len()) == pat
}

/// `pat` stands somewhere in `s`.
pub open spec fn contains_text(s: Seq<char>, pat: Seq<char>) -> bool {
    exists|at: int| occurs_at(s, pat, at)
}

/// Whether `pat` stands in `s` at position `at`.
fn matches_at(s: &Vec<char>, pat: &Vec<char>, at: usize) -> (r: bool)
    requires
        at <= s@.len(),
    ensures
        r == occurs_at(s@, pat@, at as int),
{
    let size: usize = s.len();
    if size - at < pat.len() {
        return false;
    }
    let mut i: usize = 0;
    while i < pat.len()
        invariant
            i <= pat@.len(),
            at + pat@.len() <= s@.len(),
            s@.len() == size,
            forall|k: int| 0 <= k < i ==> s@[at + k] == pat@[k],
        decreases pat@.len() - i,
    {
        if s[at + i] != pat[i] {
            assert(s@.subrange(at as int, at + pat@.len())[i as int] != pat@[i as int]);
            return false;
        }
        i += 1;
    }
    assert(s@.subrange(at as int, at + pat@.len()) =~= pat@);
    true
}

/// Whether `pat` stands somewhere in `s`.
pub fn contains(s: &str, pat: &str) -> (r: bool)
    ensures
        r == contains_text(s@, pat@),
{
    let text: Vec<char> = chars_of(s);
    let part: Vec<char> = chars_of(pat);
    let mut at: usize = 0;
    loop
        invariant
            text@ == s@,
            part@ == pat@,
            at <= text@.len(),
            forall|k: int| 0 <= k < at ==> !occurs_at(text@, part@, k),
        decreases text@.len() - at,
    {
        if matches_at(&text, &part, at) {
            return true;
        }
        if at == text.len() {
            return false;
        }
        at += 1;
    }
}

/// Whether `s` begins with `pat`.
pub fn starts_with(s: &str, pat: &str) -> (r: bool)
    ensures
        r == pat@.is_prefix_of(s@),
{
    let text: Vec<char> = chars_of(s);
    let part: Vec<char> = chars_of(pat);
    matches_at(&text, &part, 0)
}

/// Whether `s` ends with `pat`.
pub fn ends_with(s: &str, pat: &str) -> (r: bool)
    ensures
        r == pat@.is_suffix_of(s@),
{
    let text: Vec<char> = chars_of(s);
    let part: Vec<char> = chars_of(pat);
    if text.len() < part.len() {
        return false;
    }
    matches_at(&text, &part, text.len() - part.len())
}

/// Unicode's White_Space property.
pub open spec fn white_space(c: char) -> bool {
    ||| '\u{9}' <= c <= '\u{d}'
    ||| c == ' '
    ||| c == '\u{85}'
    ||| c == '\u{a0}'
    ||| c == '\u{1680}'
    ||| '\u{2000}' <= c <= '\u{200a}'
    ||| c == '\u{2028}'
    ||| c == '\u{2029}'
    ||| c == '\u{202f}'
    ||| c == '\u{205f}'
    ||| c == '\u{3000}'
}

/// Whether `c` is white space.
fn is_white_space(c: char) -> (r: bool)
    ensures
        r == white_space(c),
{
    ('\u{9}' <= c && c <= '\u{d}') || c == ' ' || c == '\u{85}' || c == '\u{a0}' || c == '\u{1680}'
        || ('\u{2000}' <= c && c <= '\u{200a}') || c == '\u{2028}' || c == '\u{2029}'
        || c == '\u{202f}' || c == '\u{205f}' || c == '\u{3000}'
}

/// `s` without its leading white space.
pub open spec fn trim_front(s: Seq<char>) -> Seq<char>
    decreases s.len(),
{
    if s.len() > 0 && white_space(s[0]) {
        trim_front(s.drop_first())
    } else {
        s
    }
}

/// `s` without its trailing white space.
pub open spec fn trim_back(s: Seq<char>) -> Seq<char>
    decreases s.len(),
{
    if s.len() > 0 && white_space(s.last()) {
        trim_back(s.drop_last())
    } else {
        s
    }
}

/// `s` without leading and trailing white space.
pub open spec fn trimmed(s: Seq<char>) -> Seq<char> {
    trim_back(trim_front(s))
}

/// `s` without leading and trailing white space.
pub fn trim(s: &str) -> (r: String)
    ensures
        r@ == trimmed(s@),
{
    let text: Vec<char> = chars_of(s);
    let mut from: usize = 0;
    let mut to: usize = text.len();
    assert(s@.skip(0) =~= s@);
    while from < text.len() && is_white_space(text[from])
        invariant
            text@ == s@,
            from <= text@.len(),
            trim_front(s@) == trim_front(s@.skip(from as int)),
        decreases text@.len() - from,
    {
        assert(s@.skip(from as int).drop_first() =~= s@.skip(from + 1));
        from += 1;
    }
    let ghost rest = s@.skip(from as int);
    assert(rest == trim_front(s@));
    assert(text@.subrange(from as int, to as int) =~= rest);
    while from < to && is_white_space(text[to - 1])
        invariant
            from <= to <= text@.len(),
            trim_back(rest) == trim_back(text@.subrange(from as int, to as int)),
        decreases to - from,
    {
        assert(text@.subrange(from as int, to as int).drop_last() =~= text@.subrange(
            from as int,
            to - 1,
        ));
        to -= 1;
    }
    string_of(&text, from, to)
}

/// `s` with every leading repetition of `prefix` removed.
pub open spec fn without_prefixes(s: Seq<char>, prefix: Seq<char>) -> Seq<char>
    decreases s.len(),
{
    if prefix.len() > 0 && prefix.is_prefix_of(s) {
        without_prefixes(s.skip(prefix.len() as int), prefix)
    } else {
        s
    }
}

/// `s` with every leading repetition of `prefix` removed.
pub fn trim_start_matches(s: &str, prefix: &str) -> (r: String)
    ensures
        r@ == without_prefixes(s@, prefix@),
{
    let text: Vec<char> = chars_of(s);
    let part: Vec<char> = chars_of(prefix);
    let mut from: usize = 0;
    assert(s@.skip(0) =~= s@);
    let size: usize = text.len();
    loop
        invariant
            text@ == s@,
            part@ == prefix@,
            from <= text@.len(),
            size == text@.len(),
            without_prefixes(s@, prefix@) == without_prefixes(s@.skip(from as int), prefix@),
        decreases text@.len() - from,
    {
        let ghost rest = s@.skip(from as int);
        assert(from + part@.len() <= size ==> rest.subrange(0, part@.len() as int) =~= s@.subrange(
            from as int,
            from + part@.len(),
        ));
        if part.len() == 0 || !matches_at(&text, &part, from) {
            assert(rest =~= text@.subrange(from as int, size as int));
            return string_of(&text, from, size);
        }
        assert(rest.skip(part@.len() as int) =~= s@.skip(from + part@.len()));
        from += part.len();
    }
}

/// What follows the last `sep` of `s`; all of `s` where it holds none.
pub open spec fn after_last(s: Seq<char>, sep: char) -> Seq<char>
    decreases s.len(),
{
    if s.len() == 0 || s.last() == sep {
        Seq::empty()
    } else {
        after_last(s.drop_last(), sep).push(s.last())
    }
}

/// What follows the last `sep` of `s`; all of `s` where it holds none.
pub fn last_segment(s: &str, sep: char) -> (r: String)
    ensures
        r@ == after_last(s@, sep),
{
    let text: Vec<char> = chars_of(s);
    let size: usize = text.len();
    let mut from: usize = size;
    assert(s@.take(size as int) =~= s@);
    assert(after_last(s@, sep) + s@.skip(size as int) =~= after_last(s@, sep));
    while from > 0 && text[from - 1] != sep
        invariant
            text@ == s@,
            size == s@.len(),
            from <= size,
            after_last(s@, sep) == after_last(s@.take(from as int), sep) + s@.skip(from as int),
        decreases from,
    {
        let ghost head = s@.take(from as int);
        assert(head.drop_last() =~= s@.take(from - 1));
        assert(after_last(head.drop_last(), sep).push(head.last()) + s@.skip(from as int)
            =~= after_last(s@.take(from - 1), sep) + s@.skip(from - 1));
        from -= 1;
    }
    assert(Seq::<char>::empty() + s@.skip(from as int) =~= text@.subrange(from as int, size as int));
    string_of(&text, from, size)
}

/// The number of characters of `s` before its first line feed.
pub open spec fn line_length(s: Seq<char>) -> nat
    decreases s.len(),
{
    if s.len() == 0 || s[0] == '\n' {
        0
    } else {
        1 + line_length(s.drop_first())
    }
}

/// `s` without one carriage return at its end.
pub open spec fn without_return(s: Seq<char>) -> Seq<char> {
    if s.len() > 0 && s.last() == '\r' {
        s.drop_last()
    } else {
        s
    }
}

/// The lines of `s`. A line ends at a line feed, which with a carriage return before it is no
/// part of the line; what follows the last line feed is a line unless it is empty.
pub open spec fn lines_of(s: Seq<char>) -> Seq<Seq<char>>
    decreases s.len(),
{
    if s.len() == 0 {
        Seq::empty()
    } else {
        let n = line_length(s) as int;
        if n >= s.len() {
            seq![s]
        } else {
            seq![without_return(s.take(n))] + lines_of(s.skip(n + 1))
        }
    }
}

/// A text without a line feed, a line feed, and what follows it: the first line, then the lines of
/// what follows.
pub proof fn lemma_first_line(head: Seq<char>, rest: Seq<char>)
    requires
        !head.contains('\n'),
    ensures
        lines_of(head + seq!['\n'] + rest) == seq![without_return(head)] + lines_of(rest),
{
    let s = head + seq!['\n'] + rest;
    lemma_line_length(head, rest);
    assert(s.take(head.len() as int) =~= head);
    assert(s.skip(head.len() as int + 1) =~= rest);
}

/// The first line is as long as what stands before the first line feed.
proof fn lemma_line_length(head: Seq<char>, rest: Seq<char>)
    requires
        !head.contains('\n'),
    ensures
        line_length(head + seq!['\n'] + rest) == head.len(),
    decreases head.len(),
{
    let s = head + seq!['\n'] + rest;
    if head.len() > 0 {
        let tail = head.drop_first();
        assert(head.contains(head[0]));
        assert forall|i: int| 0 <= i < tail.len() implies tail[i] != '\n' by {
            assert(head.contains(head[i + 1]));
        }
        lemma_line_length(tail, rest);
        assert(s.drop_first() =~= tail + seq!['\n'] + rest);
    }
}

/// The lines of `s`.
pub fn lines(s: &str) -> (r: Vec<String>)
    ensures
        texts(r@) == lines_of(s@),
{
    let text: Vec<char> = chars_of(s);
    let size: usize = text.len();
    let mut out: Vec<String> = Vec::new();
    let mut from: usize = 0;
    let mut at: usize = 0;
    assert(s@.skip(0) =~= s@);
    assert(texts(out@) + lines_of(s@) =~= lines_of(s@));
    while at < size
        invariant
            text@ == s@,
            size == s@.len(),
            from <= at <= size,
            lines_of(s@) == texts(out@) + lines_of(s@.skip(from as int)),
            line_length(s@.skip(from as int)) == (at - from) + line_length(s@.skip(at as int)),
        decreases size - at,
    {
        let ghost rest = s@.skip(from as int);
        if text[at] == '\n' {
            let ghost line = rest.take(at - from);
            let to: usize = if at > from && text[at - 1] == '\r' {
                at - 1
            } else {
                at
            };
            assert(without_return(line) =~= text@.subrange(from as int, to as int));
            assert(rest.skip(at - from + 1) =~= s@.skip(at + 1));
            let ghost before = texts(out@);
            out.push(string_of(&text, from, to));
            assert(texts(out@) =~= before.push(without_return(line)));
            assert(lines_of(rest) == seq![without_return(line)] + lines_of(s@.skip(at + 1)));
            assert(before + lines_of(rest) =~= texts(out@) + lines_of(s@.skip(at + 1)));
            from = at + 1;
        } else {
            assert(s@.skip(at as int).drop_first() =~= s@.skip(at + 1));
        }
        at += 1;
    }
    let ghost rest = s@.skip(from as int);
    if from < size {
        assert(rest =~= text@.subrange(from as int, size as int));
        let ghost before = texts(out@);
        out.push(string_of(&text, from, size));
        assert(texts(out@) =~= before.push(rest));
        assert(before + seq![rest] =~= texts(out@));
    } else {
        assert(texts(out@) + lines_of(rest) =~= texts(out@));
    }
    out
}

/// The first text of `list` that begins with `prefix`.
pub open spec fn first_with_prefix(list: Seq<Seq<char>>, prefix: Seq<char>) -> Option<Seq<char>>
    decreases list.len(),
{
    if list.len() == 0 {
        None
    } else if prefix.is_prefix_of(list[0]) {
        Some(list[0])
    } else {
        first_with_prefix(list.drop_first(), prefix)
    }
}

/// The first line of `s` that begins with `prefix`.
pub fn find_line(s: &str, prefix: &str) -> (r: Option<String>)
    ensures
        match r {
            Some(line) => first_with_prefix(lines_of(s@), prefix@) == Some(line@),
            None => first_with_prefix(lines_of(s@), prefix@) is None,
        },
{
    let list: Vec<String> = lines(s);
    let ghost all = texts(list@);
    let mut i: usize = 0;
    assert(all.skip(0) =~= all);
    while i < list.len()
        invariant
            i <= list@.len(),
            all == texts(list@),
            all == lines_of(s@),
            first_with_prefix(all, prefix@) == first_with_prefix(all.skip(i as int), prefix@),
        decreases list@.len() - i,
    {
        if starts_with(list[i].as_str(), prefix) {
            return Some(list[i].clone());
        }
        assert(all.skip(i as int).drop_first() =~= all.skip(i + 1));
        i += 1;
    }
    None
}

/// The texts of `list` in order, with `sep` between neighbours.
pub open spec fn joined(list: Seq<Seq<char>>, sep: Seq<char>) -> Seq<char>
    decreases list.len(),
{
    if list.len() == 0 {
        Seq::empty()
    } else if list.len() == 1 {
        list[0]
    } else {
        list[0] + sep + joined(list.drop_first(), sep)
    }
}

/// The texts of `list` in order, with `sep` between neighbours.
pub fn join(list: &Vec<String>, sep: &str) -> (r: String)
    ensures
        r@ == joined(texts(list@), sep@),
{
    let ghost all = texts(list@);
    let size: usize = list.len();
    if size == 0 {
        return String::new();
    }
    let mut i: usize = size - 1;
    let mut out: String = list[i].clone();
    assert(all.skip(i as int) =~= seq![all[i as int]]);
    while i > 0
        invariant
            size == list@.len(),
            all == texts(list@),
            i < size,
            out@ == joined(all.skip(i as int), sep@),
        decreases i,
    {
        i -= 1;
        assert(all.skip(i as int).drop_first() =~= all.skip(i + 1));
        out = followed_by(followed_by(list[i].as_str(), sep).as_str(), out.as_str());
    }
    assert(all.skip(0) =~= all);
    out
}

} // verus!
