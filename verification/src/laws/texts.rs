//! Laws on text.

use vstd::prelude::*;
use crate::text;

verus! {

/// Whether `s` is made of white space alone.
pub open spec fn blank(s: Seq<char>) -> bool {
    forall|i: int| 0 <= i < s.len() ==> text::is_space(#[trigger] s[i])
}

/// Whether `s` is made of `c` alone.
pub open spec fn only(s: Seq<char>, c: char) -> bool {
    forall|i: int| 0 <= i < s.len() ==> (#[trigger] s[i]) == c
}

/// White space are blanks, tabs, the ends of lines and pages, and the blanks of every
/// width, and nothing else.
pub proof fn law_white_space(c: char)
    ensures
        text::is_space(c) <==> {
            let n = c as u32;
            ||| 9 <= n <= 13 || n == 32 || n == 0x85 || n == 0xa0
            ||| n == 0x1680 || 0x2000 <= n <= 0x200a
            ||| n == 0x2028 || n == 0x2029 || n == 0x202f || n == 0x205f || n == 0x3000
        },
{
}

/// Whatever white space stands round a text that neither begins nor ends with
/// some, trimming gives back the text.
pub proof fn law_trimming_takes_only_white_space(before: Seq<char>, s: Seq<char>, after: Seq<char>)
    requires
        blank(before),
        blank(after),
        s.len() > 0 ==> !text::is_space(s[0]) && !text::is_space(s.last()),
    ensures
        text::trimmed(before + s + after) == s,
        text::trim_left(before + s + after) == (if s.len() > 0 {
            s + after
        } else {
            seq![]
        }),
{
    lemma_trim_left(before, s + after);
    assert(before + s + after =~= before + (s + after));
    if s.len() == 0 {
        assert(s + after =~= after);
        lemma_trim_left(after, seq![]);
        assert(after + seq![] =~= after);
    } else {
        assert((s + after)[0] == s[0]);
        lemma_trim_right(s, after);
    }
}

proof fn lemma_trim_left(a: Seq<char>, s: Seq<char>)
    requires
        blank(a),
    ensures
        text::trim_left(a + s) == text::trim_left(s),
    decreases a.len(),
{
    if a.len() == 0 {
        assert(a + s =~= s);
    } else {
        assert(text::is_space(a[0]));
        let t = a.skip(1);
        assert forall|i: int| 0 <= i < t.len() implies text::is_space(#[trigger] t[i]) by {
            assert(t[i] == a[i + 1]);
        }
        assert((a + s)[0] == a[0]);
        assert((a + s).skip(1) =~= t + s);
        lemma_trim_left(t, s);
    }
}

proof fn lemma_trim_right(s: Seq<char>, b: Seq<char>)
    requires
        blank(b),
        s.len() > 0,
        !text::is_space(s.last()),
    ensures
        text::trim_right(s + b) == s,
    decreases b.len(),
{
    if b.len() == 0 {
        assert(s + b =~= s);
    } else {
        assert(text::is_space(b[b.len() - 1]));
        let t = b.drop_last();
        assert forall|i: int| 0 <= i < t.len() implies text::is_space(#[trigger] t[i]) by {
            assert(t[i] == b[i]);
        }
        assert((s + b).last() == b.last());
        assert((s + b).drop_last() =~= s + t);
        lemma_trim_right(s, t);
    }
}

/// However often `c` stands before or behind a text that does not begin or end with
/// it, stripping gives back the text.
pub proof fn law_stripping_takes_only_the_character(pad: Seq<char>, s: Seq<char>, c: char)
    requires
        only(pad, c),
    ensures
        !(s.len() > 0 && s[0] == c) ==> text::strip_leading(pad + s, c) == s,
        !(s.len() > 0 && s.last() == c) ==> text::strip_trailing(s + pad, c) == s,
    decreases pad.len(),
{
    if pad.len() == 0 {
        assert(pad + s =~= s);
        assert(s + pad =~= s);
    } else {
        assert(pad[0] == c && pad[pad.len() - 1] == c);
        let t = pad.skip(1);
        let u = pad.drop_last();
        assert forall|i: int| 0 <= i < t.len() implies (#[trigger] t[i]) == c by {
            assert(t[i] == pad[i + 1]);
        }
        assert forall|i: int| 0 <= i < u.len() implies (#[trigger] u[i]) == c by {
            assert(u[i] == pad[i]);
        }
        assert(t =~= u);
        assert((pad + s)[0] == c);
        assert((pad + s).skip(1) =~= t + s);
        assert((s + pad).last() == c);
        assert((s + pad).drop_last() =~= s + u);
        law_stripping_takes_only_the_character(t, s, c);
    }
}

/// One more copy of a prefix before a text is taken away with the others; a text
/// that does not begin with it stays.
pub proof fn law_prefixes_are_taken_away(p: Seq<char>, s: Seq<char>)
    requires
        p.len() > 0,
    ensures
        text::strip_prefixes(p + s, p) == text::strip_prefixes(s, p),
        !p.is_prefix_of(s) ==> text::strip_prefixes(s, p) == s,
{
    assert((p + s).take(p.len() as int) =~= p);
    assert((p + s).skip(p.len() as int) =~= s);
    if text::has_prefix(s, p) {
        assert(s.take(p.len() as int) == p);
        assert(p.is_prefix_of(s));
    }
}

/// A text has exactly its beginnings for prefixes.
pub proof fn law_prefixes(p: Seq<char>, s: Seq<char>, rest: Seq<char>)
    ensures
        text::has_prefix(p + rest, p),
        text::has_prefix(s, p) ==> s == p + s.skip(p.len() as int),
{
    assert((p + rest).take(p.len() as int) =~= p);
    if text::has_prefix(s, p) {
        assert(s =~= s.take(p.len() as int) + s.skip(p.len() as int));
    }
}

/// A line ends at a line feed and nowhere else, and the lines behind it are those
/// of the rest; a carriage return at its end is no part of it.  Without a line feed
/// a text is one line, if it is anything.
pub proof fn law_lines_end_at_line_feeds(line: Seq<char>, rest: Seq<char>)
    requires
        !line.contains('\n'),
    ensures
        text::lines_of(line + seq!['\n'] + rest) == seq![
            if line.len() > 0 && line.last() == '\r' {
                line.drop_last()
            } else {
                line
            },
        ] + text::lines_of(rest),
        line.len() > 0 ==> text::lines_of(line) == seq![line],
        text::lines_of(seq![]) == Seq::<Seq<char>>::empty(),
{
    let s = line + seq!['\n'] + rest;
    let k = line.len() as int;
    lemma_first(line, '\n', rest);
    lemma_none(line, '\n');
    assert(s.take(k) =~= line);
    assert(s.skip(k + 1) =~= rest);
}

/// What a null character ends is listed, in order; what none ends is not.
pub proof fn law_null_characters_end_texts(item: Seq<char>, rest: Seq<char>)
    requires
        !item.contains('\0'),
    ensures
        text::null_ended(item + seq!['\0'] + rest) == seq![item] + text::null_ended(rest),
        text::null_ended(item) == Seq::<Seq<char>>::empty(),
{
    let s = item + seq!['\0'] + rest;
    let k = item.len() as int;
    lemma_first(item, '\0', rest);
    lemma_none(item, '\0');
    assert(s.take(k) =~= item);
    assert(s.skip(k + 1) =~= rest);
}

/// The first place of a character is behind all others before it.
pub proof fn law_first_places(before: Seq<char>, c: char, rest: Seq<char>)
    requires
        !before.contains(c),
    ensures
        text::first_index(before + seq![c] + rest, c) == before.len(),
        text::first_index(before, c) == before.len(),
{
    lemma_first(before, c, rest);
    lemma_none(before, c);
}

proof fn lemma_first(before: Seq<char>, c: char, rest: Seq<char>)
    requires
        !before.contains(c),
    ensures
        text::first_index(before + seq![c] + rest, c) == before.len(),
{
    let s = before + seq![c] + rest;
    assert forall|i: int| 0 <= i < before.len() implies s[i] != c by {
        assert(before.contains(before[i]));
    }
    text::lemma_first_index_unique(s, c, before.len() as int);
}

proof fn lemma_none(s: Seq<char>, c: char)
    requires
        !s.contains(c),
    ensures
        text::first_index(s, c) == s.len(),
{
    assert forall|i: int| 0 <= i < s.len() implies s[i] != c by {
        assert(s.contains(s[i]));
    }
    text::lemma_first_index_unique(s, c, s.len() as int);
}

/// The words of a text are what stands between its white space: the first is the
/// first run of other characters, and the words behind it are those of the rest.
pub proof fn law_words_stand_between_white_space(
    before: Seq<char>,
    word: Seq<char>,
    gap: Seq<char>,
    rest: Seq<char>,
    n: nat,
)
    requires
        blank(before),
        blank(gap),
        gap.len() > 0 || rest.len() == 0,
        word.len() > 0,
        forall|i: int| 0 <= i < word.len() ==> !text::is_space(#[trigger] word[i]),
    ensures
        text::word_at(before + word + gap + rest, 0) == Some(word),
        text::word_at(before + word + gap + rest, n + 1) == text::word_at(rest, n),
        text::word_at(before, n) is None,
{
    let s = before + word + gap + rest;
    let t = word + gap + rest;
    assert(s =~= before + t);
    lemma_trim_left(before, t);
    assert(t[0] == word[0]);
    assert(text::trim_left(s) == t);
    text::lemma_word_len(t);
    let k = word.len() as int;
    let f = text::word_len(t);
    assert(f == k) by {
        if f < k {
            assert(t[f] == word[f]);
        }
        if f > k {
            if gap.len() > 0 {
                assert(t[k] == gap[0]);
            }
        }
    }
    assert(t.take(k) =~= word);
    assert(t.skip(k) =~= gap + rest);
    lemma_trim_left(gap, rest);
    assert(text::word_at(gap + rest, n) == text::word_at(rest, n));
    lemma_trim_left(before, seq![]);
    assert(before + seq![] =~= before);
}

/// Replacing goes character by character.
pub proof fn law_replacing_goes_by_characters(a: Seq<char>, b: Seq<char>, c: char, by: Seq<char>, d: char)
    ensures
        text::replaced(a + b, c, by) == text::replaced(a, c, by) + text::replaced(b, c, by),
        text::replaced(seq![c], c, by) == by,
        d != c ==> text::replaced(seq![d], c, by) == seq![d],
    decreases b.len(),
{
    reveal_with_fuel(text::replaced, 2);
    assert(seq![c].drop_last() =~= seq![]);
    assert(seq![d].drop_last() =~= seq![]);
    assert(text::replaced(seq![c], c, by) =~= by);
    assert(d != c ==> text::replaced(seq![d], c, by) =~= seq![d]);
    if b.len() == 0 {
        assert(a + b =~= a);
        assert(text::replaced(a, c, by) + text::replaced(b, c, by) =~= text::replaced(a, c, by));
    } else {
        law_replacing_goes_by_characters(a, b.drop_last(), c, by, d);
        assert((a + b).drop_last() =~= a + b.drop_last());
        assert((a + b).last() == b.last());
        assert(text::replaced(a + b, c, by) =~= text::replaced(a, c, by) + text::replaced(b, c, by));
    }
}

/// Joining puts the separator between two parts and nowhere else.
pub proof fn law_joining_separates(a: Seq<Seq<char>>, b: Seq<Seq<char>>, sep: Seq<char>, one: Seq<char>)
    ensures
        text::joined(seq![one], sep) == one,
        text::joined(seq![], sep) == Seq::<char>::empty(),
        a.len() > 0 && b.len() > 0 ==> text::joined(a + b, sep) == text::joined(a, sep) + sep + text::joined(b, sep),
    decreases b.len(),
{
    if a.len() > 0 && b.len() > 0 {
        assert((a + b).drop_last() =~= a + b.drop_last());
        assert((a + b).last() == b.last());
        if b.len() == 1 {
            assert(a + b.drop_last() =~= a);
            assert(b[0] == b.last());
        } else {
            law_joining_separates(a, b.drop_last(), sep, one);
            assert(text::joined(a + b, sep) =~= text::joined(a, sep) + sep + text::joined(b, sep));
        }
    }
}

/// A text occurs in another exactly if the other is made of it and something round
/// it.
pub proof fn law_occurring(before: Seq<char>, needle: Seq<char>, after: Seq<char>, t: Seq<char>) -> (round: (
    Seq<char>,
    Seq<char>,
))
    ensures
        text::occurs(before + needle + after, needle),
        text::occurs(t, needle) ==> t == round.0 + needle + round.1,
{
    let whole = before + needle + after;
    assert(whole.subrange(before.len() as int, (before.len() + needle.len()) as int) =~= needle);
    assert(text::occurs_at(whole, needle, before.len() as int));
    if text::occurs(t, needle) {
        let i = choose|i: int| #[trigger] text::occurs_at(t, needle, i);
        let a = t.take(i);
        let b = t.skip(i + needle.len());
        assert(t =~= a + needle + b);
        (a, b)
    } else {
        (seq![], seq![])
    }
}

/// Lists of strings are seen item by item.
pub proof fn law_strings_are_seen_whole(v: Seq<String>, w: Seq<(String, String)>, i: int)
    ensures
        text::strs(v).len() == v.len(),
        0 <= i < v.len() ==> text::strs(v)[i] == v[i]@,
        text::pairs(w).len() == w.len(),
        0 <= i < w.len() ==> text::pairs(w)[i] == (w[i].0@, w[i].1@),
{
}

/// An optional string is seen as it is.
pub proof fn law_options_are_seen_whole(o: Option<String>, p: Option<&str>)
    ensures
        text::opt(o) is Some <==> o is Some,
        o matches Some(s) ==> text::opt(o) == Some(s@),
        text::opt_ref(p) is Some <==> p is Some,
        p matches Some(s) ==> text::opt_ref(p) == Some(s@),
{
}

} // verus!
