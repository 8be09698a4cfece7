//! What the operations on text do.

use crate::text::{
    after_last, contains, contains_text, ends_with, find_line, first_with_prefix, join,
    last_segment, lemma_first_line, line_length, lines, occurs_at, starts_with, texts, trim,
    trim_back, trim_front, trim_start_matches, white_space, without_return,
};
use vstd::prelude::*;

verus! {

/// `s` is made of something, then `part`, then something.
pub open spec fn holds(s: Seq<char>, part: Seq<char>) -> bool {
    exists|a: Seq<char>, b: Seq<char>| #[trigger] (a + part + b) == s
}

/// `s` is `first` followed by something.
pub open spec fn begins(s: Seq<char>, first: Seq<char>) -> bool {
    exists|b: Seq<char>| #[trigger] (first + b) == s
}

/// Every character of `s` is white space.
pub open spec fn blank(s: Seq<char>) -> bool {
    forall|i: int| 0 <= i < s.len() ==> white_space(#[trigger] s[i])
}

/// A text holds another where it occurs at some position.
pub proof fn lemma_holds(s: Seq<char>, part: Seq<char>)
    ensures
        contains_text(s, part) <==> holds(s, part),
{
    if contains_text(s, part) {
        let at = choose|at: int| occurs_at(s, part, at);
        let a = s.take(at);
        let b = s.skip(at + part.len());
        assert(a + part + b =~= s) by {
            assert(s.subrange(at, at + part.len()) == part);
            assert forall|i: int| 0 <= i < s.len() implies (a + part + b)[i] == s[i] by {
                if at <= i < at + part.len() {
                    assert(s.subrange(at, at + part.len())[i - at] == s[i]);
                }
            }
        }
    }
    if holds(s, part) {
        let (a, b) = choose|a: Seq<char>, b: Seq<char>| #[trigger] (a + part + b) == s;
        assert(s.subrange(a.len() as int, (a.len() + part.len()) as int) =~= part);
        assert(occurs_at(s, part, a.len() as int));
    }
}

/// A text begins with another where that is its prefix.
pub proof fn lemma_begins(s: Seq<char>, first: Seq<char>)
    ensures
        first.is_prefix_of(s) <==> begins(s, first),
{
    if first.is_prefix_of(s) {
        assert(first + s.skip(first.len() as int) =~= s);
    }
    if begins(s, first) {
        let b = choose|b: Seq<char>| #[trigger] (first + b) == s;
        assert(s.subrange(0, first.len() as int) =~= first);
    }
}

/// A list of strings is seen as the list of their characters, item by item.
pub proof fn law_texts(list: Seq<String>)
    ensures
        texts(list).len() == list.len(),
        forall|i: int| 0 <= i < list.len() ==> #[trigger] texts(list)[i] == list[i]@,
{
}

/// `contains` tells whether the text is made of something, the pattern, and something.
pub proof fn law_contains(s: &str, pat: &str, r: bool)
    requires
        call_ensures(contains, (s, pat), r),
    ensures
        r <==> exists|a: Seq<char>, b: Seq<char>| #[trigger] (a + pat@ + b) == s@,
{
    lemma_holds(s@, pat@);
}

/// `starts_with` tells whether the text is the pattern and something behind it.
pub proof fn law_starts_with(s: &str, pat: &str, r: bool)
    requires
        call_ensures(starts_with, (s, pat), r),
    ensures
        r <==> exists|b: Seq<char>| #[trigger] (pat@ + b) == s@,
{
    lemma_begins(s@, pat@);
}

/// `ends_with` tells whether the text is something and the pattern behind it.
pub proof fn law_ends_with(s: &str, pat: &str, r: bool)
    requires
        call_ensures(ends_with, (s, pat), r),
    ensures
        r <==> exists|a: Seq<char>| #[trigger] (a + pat@) == s@,
{
    if r {
        assert(s@.take(s@.len() - pat@.len()) + pat@ =~= s@);
    }
    if exists|a: Seq<char>| #[trigger] (a + pat@) == s@ {
        let a = choose|a: Seq<char>| #[trigger] (a + pat@) == s@;
        assert(s@.subrange(s@.len() - pat@.len(), s@.len() as int) =~= pat@);
    }
}

/// White space is the characters of these code points.
pub proof fn law_white_space(c: char)
    ensures
        white_space(c) <==> ({
            let v = c as int;
            ||| 9 <= v <= 13
            ||| v == 32
            ||| v == 133
            ||| v == 160
            ||| v == 5760
            ||| 8192 <= v <= 8202
            ||| v == 8232
            ||| v == 8233
            ||| v == 8239
            ||| v == 8287
            ||| v == 12288
        }),
{
}

/// Removing white space in front takes away a blank part and leaves no white space in front.
proof fn lemma_front(s: Seq<char>)
    ensures
        trim_front(s).len() <= s.len(),
        s.skip(s.len() - trim_front(s).len()) == trim_front(s),
        blank(s.take(s.len() - trim_front(s).len())),
        trim_front(s).len() > 0 ==> !white_space(trim_front(s)[0]),
    decreases s.len(),
{
    let r = trim_front(s);
    if s.len() > 0 && white_space(s[0]) {
        let t = s.drop_first();
        lemma_front(t);
        let n = t.len() - r.len();
        assert(s.skip(n + 1) =~= t.skip(n));
        assert forall|i: int| 0 <= i < n + 1 implies white_space(#[trigger] s.take(n + 1)[i]) by {
            if i > 0 {
                assert(t.take(n)[i - 1] == s[i]);
            }
        }
    } else {
        assert(s.skip(0) =~= s);
    }
}

/// Removing white space at the end takes away a blank part and leaves no white space there.
proof fn lemma_back(s: Seq<char>)
    ensures
        trim_back(s).len() <= s.len(),
        s.take(trim_back(s).len() as int) == trim_back(s),
        blank(s.skip(trim_back(s).len() as int)),
        trim_back(s).len() > 0 ==> !white_space(trim_back(s).last()),
    decreases s.len(),
{
    let r = trim_back(s);
    if s.len() > 0 && white_space(s.last()) {
        let t = s.drop_last();
        lemma_back(t);
        let n = r.len() as int;
        assert(s.take(n) =~= t.take(n));
        assert forall|i: int| 0 <= i < s.len() - n implies white_space(
            #[trigger] s.skip(n)[i],
        ) by {
            if n + i < t.len() {
                assert(t.skip(n)[i] == s[n + i]);
            }
        }
    } else {
        assert(s.take(s.len() as int) =~= s);
    }
}

/// `trim` takes away blank parts before and behind, and nothing else: what is left has no white
/// space at either end.
pub proof fn law_trim(s: &str, r: String)
    requires
        call_ensures(trim, (s,), r),
    ensures
        exists|a: Seq<char>, b: Seq<char>| #[trigger]
            (a + r@ + b) == s@ && blank(a) && blank(b),
        r@.len() > 0 ==> !white_space(r@[0]) && !white_space(r@.last()),
{
    let front = trim_front(s@);
    lemma_front(s@);
    lemma_back(front);
    let a = s@.take(s@.len() - front.len());
    let b = front.skip(r@.len() as int);
    assert(front =~= r@ + b) by {
        assert(front.take(r@.len() as int) == r@);
        assert(front =~= front.take(r@.len() as int) + front.skip(r@.len() as int));
    }
    assert(a + r@ + b =~= s@) by {
        assert(s@ =~= a + s@.skip(s@.len() - front.len()));
        assert(a + r@ + b =~= a + front);
    }
    if r@.len() > 0 {
        assert(r@[0] == front[0]) by {
            assert(front.take(r@.len() as int)[0] == front[0]);
        }
    }
}

/// A text between blank parts, without white space at either end, is what trimming leaves.
pub proof fn lemma_trimmed(a: Seq<char>, t: Seq<char>, b: Seq<char>)
    requires
        blank(a),
        blank(b),
        t.len() > 0,
        !white_space(t[0]),
        !white_space(t.last()),
    ensures
        trim_back(trim_front(a + t + b)) == t,
    decreases a.len() + b.len(),
{
    let s = a + t + b;
    if a.len() > 0 {
        let c = a.drop_first();
        assert(blank(c)) by {
            assert forall|i: int| 0 <= i < c.len() implies white_space(#[trigger] c[i]) by {
                assert(a[i + 1] == c[i]);
            }
        }
        assert(white_space(a[0]));
        assert(s.drop_first() =~= c + t + b);
        lemma_trimmed(c, t, b);
    } else if b.len() > 0 {
        assert(s =~= t + b);
        assert(s[0] == t[0]);
        let c = b.drop_last();
        assert(white_space(b[b.len() - 1]));
        assert(s.drop_last() =~= a + t + c);
        assert(blank(c)) by {
            assert forall|i: int| 0 <= i < c.len() implies white_space(#[trigger] c[i]) by {
                assert(b[i] == c[i]);
            }
        }
        lemma_trimmed(a, t, c);
        assert((a + t + c)[0] == t[0]);
        assert(trim_front(a + t + c) == a + t + c);
    } else {
        assert(s =~= t);
    }
}

/// `trim_start_matches` gives the same for a text with one more pattern in front, and leaves a text
/// alone that does not begin with the pattern.
pub proof fn law_trim_start_matches(s: &str, t: &str, pat: &str, r: String, q: String)
    requires
        call_ensures(trim_start_matches, (s, pat), r),
        call_ensures(trim_start_matches, (t, pat), q),
    ensures
        pat@.len() > 0 && s@ == pat@ + t@ ==> r@ == q@,
        !(exists|b: Seq<char>| #[trigger] (pat@ + b) == s@) ==> r@ == s@,
        pat@.len() == 0 ==> r@ == s@,
{
    lemma_begins(s@, pat@);
    if pat@.len() > 0 && s@ == pat@ + t@ {
        assert(s@.skip(pat@.len() as int) =~= t@);
        assert(s@.subrange(0, pat@.len() as int) =~= pat@);
    }
}

/// What `last_segment` gives is the end of the text, without the separator, and the separator
/// stands before it unless it is all of the text.
pub proof fn law_last_segment(s: &str, sep: char, r: String)
    requires
        call_ensures(last_segment, (s, sep), r),
    ensures
        !r@.contains(sep),
        r@ == s@ || exists|a: Seq<char>| #[trigger] (a.push(sep) + r@) == s@,
{
    lemma_after_last(s@, sep);
    let n = s@.len() - r@.len();
    if n > 0 {
        let a = s@.take(n - 1);
        assert(a.push(sep) + r@ =~= s@);
    } else {
        assert(s@.skip(0) =~= s@);
    }
}

/// What follows the last separator, by position.
pub proof fn lemma_after_last(s: Seq<char>, sep: char)
    ensures
        after_last(s, sep).len() <= s.len(),
        s.skip(s.len() - after_last(s, sep).len()) == after_last(s, sep),
        !after_last(s, sep).contains(sep),
        after_last(s, sep).len() < s.len() ==> s[s.len() - after_last(s, sep).len() - 1] == sep,
    decreases s.len(),
{
    let r = after_last(s, sep);
    if s.len() == 0 || s.last() == sep {
        assert(s.skip(s.len() as int) =~= Seq::<char>::empty());
    } else {
        let t = s.drop_last();
        lemma_after_last(t, sep);
        let q = after_last(t, sep);
        assert(s.skip(s.len() - r.len()) =~= r) by {
            assert forall|i: int| 0 <= i < q.len() implies s[s.len() - r.len() + i] == q[i] by {
                assert(t.skip(t.len() - q.len())[i] == q[i]);
            }
        }
        if r.contains(sep) {
            let i = choose|i: int| 0 <= i < r.len() && r[i] == sep;
            assert(q[i] == sep);
        }
    }
}

/// `lines` gives nothing for the empty text, the text itself where it has no line feed, and else
/// the part before the first line feed, without the carriage return that belongs to the feed,
/// followed by the lines of what is behind.
pub proof fn law_lines(s: &str, head: Seq<char>, t: &str, r: Vec<String>, q: Vec<String>)
    requires
        call_ensures(lines, (s,), r),
        call_ensures(lines, (t,), q),
        !head.contains('\n'),
    ensures
        s@.len() == 0 ==> texts(r@) == Seq::<Seq<char>>::empty(),
        s@.len() > 0 && s@ == head ==> texts(r@) == seq![head],
        s@ == head + seq!['\r', '\n'] + t@ ==> texts(r@) == seq![head] + texts(q@),
        (head.len() == 0 || head.last() != '\r') && s@ == head + seq!['\n'] + t@ ==> texts(r@)
            == seq![head] + texts(q@),
{
    if s@ == head && s@.len() > 0 {
        lemma_no_feed(head);
    }
    if s@ == head + seq!['\r', '\n'] + t@ {
        let first = head.push('\r');
        assert(s@ =~= first + seq!['\n'] + t@);
        assert(!first.contains('\n')) by {
            if first.contains('\n') {
                let i = choose|i: int| 0 <= i < first.len() && first[i] == '\n';
                assert(head[i] == '\n');
            }
        }
        lemma_first_line(first, t@);
        assert(without_return(first) =~= head);
    }
    if (head.len() == 0 || head.last() != '\r') && s@ == head + seq!['\n'] + t@ {
        lemma_first_line(head, t@);
    }
}

/// Without a line feed the line is as long as the text.
proof fn lemma_no_feed(s: Seq<char>)
    requires
        !s.contains('\n'),
    ensures
        line_length(s) == s.len(),
    decreases s.len(),
{
    if s.len() > 0 {
        assert(s.contains(s[0]));
        let t = s.drop_first();
        assert forall|i: int| 0 <= i < t.len() implies t[i] != '\n' by {
            assert(s.contains(s[i + 1]));
        }
        lemma_no_feed(t);
    }
}

/// A text with a line feed is its first line, the feed, and what follows.
pub proof fn lemma_line_split(s: Seq<char>)
    ensures
        line_length(s) <= s.len(),
        !s.take(line_length(s) as int).contains('\n'),
        line_length(s) < s.len() ==> s == s.take(line_length(s) as int) + seq!['\n'] + s.skip(
            line_length(s) as int + 1,
        ),
    decreases s.len(),
{
    let n = line_length(s) as int;
    if s.len() > 0 && s[0] != '\n' {
        let t = s.drop_first();
        lemma_line_split(t);
        assert forall|i: int| 0 <= i < n implies s.take(n)[i] != '\n' by {
            if i > 0 {
                assert(t.take(n - 1).contains(t.take(n - 1)[i - 1]));
                assert(t.take(n - 1)[i - 1] == s[i]);
            }
        }
        if n < s.len() {
            assert(t[n - 1] == (t.take(n - 1) + seq!['\n'] + t.skip(n))[n - 1]);
            assert(s[n] == '\n');
            assert(s =~= s.take(n) + seq!['\n'] + s.skip(n + 1));
        }
    } else if s.len() > 0 {
        assert(s =~= s.take(0) + seq!['\n'] + s.skip(1));
    }
}

/// The first text that begins with the prefix, by position.
pub proof fn lemma_first_with_prefix(list: Seq<Seq<char>>, prefix: Seq<char>)
    ensures
        forall|k: int|
            0 <= k < list.len() && prefix.is_prefix_of(#[trigger] list[k]) && (forall|j: int|
                0 <= j < k ==> !prefix.is_prefix_of(#[trigger] list[j])) ==> first_with_prefix(
                list,
                prefix,
            ) == Some(list[k]),
        (forall|j: int| 0 <= j < list.len() ==> !prefix.is_prefix_of(#[trigger] list[j]))
            ==> first_with_prefix(list, prefix) is None,
    decreases list.len(),
{
    if list.len() > 0 {
        let rest = list.drop_first();
        lemma_first_with_prefix(rest, prefix);
        assert forall|k: int|
            0 <= k < list.len() && prefix.is_prefix_of(#[trigger] list[k]) && (forall|j: int|
                0 <= j < k ==> !prefix.is_prefix_of(
                    #[trigger] list[j],
                )) implies first_with_prefix(list, prefix) == Some(list[k]) by {
            if k > 0 {
                assert(rest[k - 1] == list[k]);
                assert forall|j: int| 0 <= j < k - 1 implies !prefix.is_prefix_of(
                    #[trigger] rest[j],
                ) by {
                    assert(rest[j] == list[j + 1]);
                }
                assert(!prefix.is_prefix_of(list[0]));
            }
        }
        if forall|j: int| 0 <= j < list.len() ==> !prefix.is_prefix_of(#[trigger] list[j]) {
            assert(!prefix.is_prefix_of(list[0]));
            assert forall|j: int| 0 <= j < rest.len() implies !prefix.is_prefix_of(
                #[trigger] rest[j],
            ) by {
                assert(rest[j] == list[j + 1]);
            }
        }
    }
}

/// `find_line` gives the first of the lines that begins with the prefix, and nothing where none
/// does.
pub proof fn law_find_line(s: &str, prefix: &str, list: Vec<String>, r: Option<String>)
    requires
        call_ensures(lines, (s,), list),
        call_ensures(find_line, (s, prefix), r),
    ensures
        match r {
            Some(line) => exists|k: int|
                0 <= k < list@.len() && #[trigger] list@[k]@ == line@ && begins(line@, prefix@) && (
                forall|j: int| 0 <= j < k ==> !begins(#[trigger] list@[j]@, prefix@)),
            None => forall|j: int| 0 <= j < list@.len() ==> !begins(#[trigger] list@[j]@, prefix@),
        },
{
    let all = texts(list@);
    assert forall|j: int| 0 <= j < list@.len() implies begins(#[trigger] list@[j]@, prefix@)
        == prefix@.is_prefix_of(all[j]) by {
        lemma_begins(list@[j]@, prefix@);
    }
    lemma_first_with_prefix(all, prefix@);
    if exists|j: int| 0 <= j < list@.len() && begins(#[trigger] list@[j]@, prefix@) {
        let j = choose|j: int| 0 <= j < list@.len() && begins(#[trigger] list@[j]@, prefix@);
        lemma_least(list@, prefix@, j);
        let k = choose|k: int|
            0 <= k < list@.len() && begins(#[trigger] list@[k]@, prefix@) && (forall|i: int|
                0 <= i < k ==> !begins(#[trigger] list@[i]@, prefix@));
        assert(prefix@.is_prefix_of(all[k]));
        assert forall|i: int| 0 <= i < k implies !prefix@.is_prefix_of(#[trigger] all[i]) by {
            assert(!begins(list@[i]@, prefix@));
        }
        assert(first_with_prefix(all, prefix@) == Some(all[k]));
    } else {
        assert forall|i: int| 0 <= i < all.len() implies !prefix@.is_prefix_of(
            #[trigger] all[i],
        ) by {
            assert(!begins(list@[i]@, prefix@));
        }
    }
}

/// Where some text begins with the prefix, there is a first one.
proof fn lemma_least(list: Seq<String>, prefix: Seq<char>, j: int)
    requires
        0 <= j < list.len(),
        begins(list[j]@, prefix),
    ensures
        exists|k: int|
            0 <= k < list.len() && begins(#[trigger] list[k]@, prefix) && (forall|i: int|
                0 <= i < k ==> !begins(#[trigger] list[i]@, prefix)),
    decreases j,
{
    if exists|i: int| 0 <= i < j && begins(#[trigger] list[i]@, prefix) {
        let i = choose|i: int| 0 <= i < j && begins(#[trigger] list[i]@, prefix);
        lemma_least(list, prefix, i);
    } else {
        assert(begins(list[j]@, prefix));
    }
}

/// `join` gives nothing for no texts, one text as it is, and else the first text, the separator,
/// and what it gives for the others.
pub proof fn law_join(list: Vec<String>, rest: Vec<String>, sep: &str, r: String, q: String)
    requires
        call_ensures(join, (&list, sep), r),
        call_ensures(join, (&rest, sep), q),
    ensures
        list@.len() == 0 ==> r@ == Seq::<char>::empty(),
        list@.len() == 1 ==> r@ == list@[0]@,
        list@.len() > 1 && rest@ == list@.drop_first() ==> r@ == list@[0]@ + sep@ + q@,
{
    if list@.len() > 1 && rest@ == list@.drop_first() {
        assert(texts(list@).drop_first() =~= texts(rest@));
    }
}

} // verus!
