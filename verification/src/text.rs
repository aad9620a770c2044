//! Text primitives: exact, verified operations on strings.

use vstd::prelude::*;
use vstd::string::*;

verus! {

/// `String::push` appends one character to the end of the string.
pub assume_specification[ String::push ](s: &mut String, c: char)
    ensures
        final(s)@ == old(s)@.push(c),
;

/// The contents of a list of strings.
pub open spec fn strs(v: Seq<String>) -> Seq<Seq<char>> {
    v.map_values(|s: String| s@)
}

/// The contents of an optional string.
pub open spec fn opt(o: Option<String>) -> Option<Seq<char>> {
    match o {
        Some(s) => Some(s@),
        None => None,
    }
}

pub broadcast proof fn lemma_strs_push(v: Seq<String>, s: String)
    ensures
        #[trigger] strs(v.push(s)) == strs(v).push(s@),
{
    assert(strs(v.push(s)) =~= strs(v).push(s@));
}

/// A copy of an optional string.
pub fn copy_opt(o: &Option<String>) -> (r: Option<String>)
    ensures
        r == *o,
{
    match o {
        Some(s) => Some(s.clone()),
        None => None,
    }
}

/// The contents of an optional string slice.
pub open spec fn opt_ref(o: Option<&str>) -> Option<Seq<char>> {
    match o {
        Some(s) => Some(s@),
        None => None,
    }
}

/// The contents of a list of pairs of strings.
pub open spec fn pairs(v: Seq<(String, String)>) -> Seq<(Seq<char>, Seq<char>)> {
    v.map_values(|p: (String, String)| (p.0@, p.1@))
}

pub broadcast proof fn lemma_pairs_push(v: Seq<(String, String)>, p: (String, String))
    ensures
        #[trigger] pairs(v.push(p)) == pairs(v).push((p.0@, p.1@)),
{
    assert(pairs(v.push(p)) =~= pairs(v).push((p.0@, p.1@)));
}

/// Appends copies of `more`.
pub fn extend(v: &mut Vec<String>, more: &Vec<String>)
    ensures
        strs(final(v)@) == strs(old(v)@) + strs(more@),
{
    broadcast use lemma_strs_push;

    let ghost before = strs(v@);
    let ghost all = strs(more@);
    let mut i: usize = 0;
    assert(before + all.take(0) =~= before);
    while i < more.len()
        invariant
            i <= more@.len(),
            all == strs(more@),
            strs(v@) == before + all.take(i as int),
        decreases more@.len() - i,
    {
        v.push(more[i].clone());
        assert((before + all.take(i as int)).push(all[i as int]) =~= before + all.take(i + 1));
        i += 1;
    }
    assert(all.take(all.len() as int) =~= all);
}

/// The characters of a string, as a vector.
pub fn chars_of(s: &str) -> (r: Vec<char>)
    ensures
        r@ == s@,
{
    let mut out: Vec<char> = Vec::new();
    for c in it: s.chars()
        invariant
            it.seq() == s@,
            out@ == s@.take(it.index() as int),
    {
        out.push(c);
        assert(s@.take(it.index() as int).push(c) =~= s@.take(it.index() + 1));
    }
    assert(s@.take(s@.len() as int) =~= s@);
    out
}

/// The string made of the characters `from..to`.
pub fn string_of(cs: &Vec<char>, from: usize, to: usize) -> (r: String)
    requires
        from <= to <= cs@.len(),
    ensures
        r@ == cs@.subrange(from as int, to as int),
{
    let mut out = String::new();
    let mut i: usize = from;
    while i < to
        invariant
            from <= i <= to <= cs@.len(),
            out@ == cs@.subrange(from as int, i as int),
        decreases to - i,
    {
        out.push(cs[i]);
        assert(cs@.subrange(from as int, i as int).push(cs@[i as int]) =~= cs@.subrange(from as int, i + 1));
        i += 1;
    }
    out
}

/// Whether two strings hold the same characters.
pub fn str_eq(a: &str, b: &str) -> (r: bool)
    ensures
        r == (a@ == b@),
{
    let x = chars_of(a);
    let y = chars_of(b);
    if x.len() != y.len() {
        return false;
    }
    let mut i: usize = 0;
    while i < x.len()
        invariant
            x@ == a@,
            y@ == b@,
            x@.len() == y@.len(),
            i <= x@.len(),
            forall|j: int| 0 <= j < i ==> x@[j] == y@[j],
        decreases x@.len() - i,
    {
        if x[i] != y[i] {
            return false;
        }
        i += 1;
    }
    assert(x@ =~= y@);
    true
}

// ── Whitespace and trimming ──────────────────────────────────────────────────

/// The characters with the Unicode `White_Space` property.
pub open spec fn is_space(c: char) -> bool {
    ||| '\u{9}' <= c <= '\u{d}'
    ||| c == ' '
    ||| c == '\u{85}'
    ||| c == '\u{a0}'
    ||| c == '\u{1680}'
    ||| '\u{2000}' <= c <= '\u{200a}'
    ||| c == '\u{2028}'
    ||| c == '\u{2029}'
    ||| c == '\u{202f}'
    ||| c == '\u{205f}'
    ||| c == '\u{3000}'
}

/// Whether a character is white space.
pub fn is_whitespace(c: char) -> (r: bool)
    ensures
        r == is_space(c),
{
    ('\u{9}' <= c && c <= '\u{d}') || c == ' ' || c == '\u{85}' || c == '\u{a0}' || c == '\u{1680}' || ('\u{2000}' <= c
        && c <= '\u{200a}') || c == '\u{2028}' || c == '\u{2029}' || c == '\u{202f}' || c == '\u{205f}' || c
        == '\u{3000}'
}

/// `s` without its leading white space.
pub open spec fn trim_left(s: Seq<char>) -> Seq<char>
    decreases s.len(),
{
    if s.len() > 0 && is_space(s[0]) {
        trim_left(s.skip(1))
    } else {
        s
    }
}

/// `s` without its trailing white space.
pub open spec fn trim_right(s: Seq<char>) -> Seq<char>
    decreases s.len(),
{
    if s.len() > 0 && is_space(s.last()) {
        trim_right(s.drop_last())
    } else {
        s
    }
}

/// `s` without the white space at either end.
pub open spec fn trimmed(s: Seq<char>) -> Seq<char> {
    trim_right(trim_left(s))
}

/// A copy of `s` without the white space at either end.
pub fn trim(s: &str) -> (r: String)
    ensures
        r@ == trimmed(s@),
{
    let cs = chars_of(s);
    let mut from: usize = 0;
    assert(cs@.skip(0) =~= cs@);
    while from < cs.len() && is_whitespace(cs[from])
        invariant
            from <= cs@.len(),
            trim_left(cs@) == trim_left(cs@.skip(from as int)),
        decreases cs@.len() - from,
    {
        assert(cs@.skip(from as int).skip(1) =~= cs@.skip(from + 1));
        from += 1;
    }
    assert(trim_left(cs@) == cs@.skip(from as int));
    let mut to: usize = cs.len();
    assert(cs@.subrange(from as int, to as int) =~= cs@.skip(from as int));
    while from < to && is_whitespace(cs[to - 1])
        invariant
            from <= to <= cs@.len(),
            trimmed(cs@) == trim_right(cs@.subrange(from as int, to as int)),
        decreases to,
    {
        assert(cs@.subrange(from as int, to as int).drop_last() =~= cs@.subrange(from as int, to - 1));
        to -= 1;
    }
    string_of(&cs, from, to)
}

/// Whether `s` is empty or made of white space alone.
pub fn is_blank(s: &str) -> (r: bool)
    ensures
        r == (trimmed(s@).len() == 0),
{
    let t = trim(s);
    t.as_str().is_empty()
}

// ── Prefixes, suffixes and single characters ─────────────────────────────────

/// `s` without any leading `c`.
pub open spec fn strip_leading(s: Seq<char>, c: char) -> Seq<char>
    decreases s.len(),
{
    if s.len() > 0 && s[0] == c {
        strip_leading(s.skip(1), c)
    } else {
        s
    }
}

/// A copy of `s` without any leading `c`.
pub fn trim_start_char(s: &str, c: char) -> (r: String)
    ensures
        r@ == strip_leading(s@, c),
{
    let cs = chars_of(s);
    let mut from: usize = 0;
    assert(cs@.skip(0) =~= cs@);
    while from < cs.len() && cs[from] == c
        invariant
            from <= cs@.len(),
            strip_leading(cs@, c) == strip_leading(cs@.skip(from as int), c),
        decreases cs@.len() - from,
    {
        assert(cs@.skip(from as int).skip(1) =~= cs@.skip(from + 1));
        from += 1;
    }
    assert(cs@.subrange(from as int, cs@.len() as int) =~= cs@.skip(from as int));
    let n: usize = cs.len();
    string_of(&cs, from, n)
}

/// `s` without any trailing `c`.
pub open spec fn strip_trailing(s: Seq<char>, c: char) -> Seq<char>
    decreases s.len(),
{
    if s.len() > 0 && s.last() == c {
        strip_trailing(s.drop_last(), c)
    } else {
        s
    }
}

/// A copy of `s` without any trailing `c`.
pub fn trim_end_char(s: &str, c: char) -> (r: String)
    ensures
        r@ == strip_trailing(s@, c),
{
    let cs = chars_of(s);
    let mut to: usize = cs.len();
    assert(cs@.take(to as int) =~= cs@);
    while to > 0 && cs[to - 1] == c
        invariant
            to <= cs@.len(),
            strip_trailing(cs@, c) == strip_trailing(cs@.take(to as int), c),
        decreases to,
    {
        assert(cs@.take(to as int).drop_last() =~= cs@.take(to - 1));
        to -= 1;
    }
    assert(cs@.subrange(0, to as int) =~= cs@.take(to as int));
    string_of(&cs, 0, to)
}

/// Whether `s` begins with `p`.
pub open spec fn has_prefix(s: Seq<char>, p: Seq<char>) -> bool {
    p.len() <= s.len() && s.take(p.len() as int) == p
}

/// Whether `s` begins with `p`.
pub fn starts_with(s: &str, p: &str) -> (r: bool)
    ensures
        r == has_prefix(s@, p@),
{
    let x = chars_of(s);
    let y = chars_of(p);
    prefix_of(&x, &y)
}

fn prefix_of(x: &Vec<char>, y: &Vec<char>) -> (r: bool)
    ensures
        r == has_prefix(x@, y@),
{
    if y.len() > x.len() {
        return false;
    }
    let mut i: usize = 0;
    while i < y.len()
        invariant
            y@.len() <= x@.len(),
            i <= y@.len(),
            forall|j: int| 0 <= j < i ==> x@[j] == y@[j],
        decreases y@.len() - i,
    {
        if x[i] != y[i] {
            assert(x@.take(y@.len() as int)[i as int] != y@[i as int]);
            return false;
        }
        i += 1;
    }
    assert(x@.take(y@.len() as int) =~= y@);
    true
}

/// What follows the prefix `p` in `s`, if `s` begins with it.
pub fn strip_prefix(s: &str, p: &str) -> (r: Option<String>)
    ensures
        r is Some <==> has_prefix(s@, p@),
        r matches Some(rest) ==> rest@ == s@.skip(p@.len() as int),
{
    let x = chars_of(s);
    let y = chars_of(p);
    if prefix_of(&x, &y) {
        let n: usize = x.len();
        assert(x@.subrange(y@.len() as int, n as int) =~= x@.skip(y@.len() as int));
        Some(string_of(&x, y.len(), n))
    } else {
        None
    }
}

/// `s` without its leading copies of `p`.
pub open spec fn strip_prefixes(s: Seq<char>, p: Seq<char>) -> Seq<char>
    decreases s.len(),
{
    if p.len() > 0 && has_prefix(s, p) {
        strip_prefixes(s.skip(p.len() as int), p)
    } else {
        s
    }
}

/// A copy of `s` without its leading copies of `p`.
pub fn trim_start_prefix(s: &str, p: &str) -> (r: String)
    ensures
        r@ == strip_prefixes(s@, p@),
{
    let mut rest = s.to_string();
    if p.is_empty() {
        return rest;
    }
    loop
        invariant
            p@.len() > 0,
            strip_prefixes(s@, p@) == strip_prefixes(rest@, p@),
        decreases rest@.len(),
    {
        match strip_prefix(rest.as_str(), p) {
            Some(next) => {
                rest = next;
            },
            None => {
                return rest;
            },
        }
    }
}

/// The position of the first `c` in `s`, or the length of `s`.
pub open spec fn first_index(s: Seq<char>, c: char) -> int
    decreases s.len(),
{
    if s.len() == 0 || s[0] == c {
        0
    } else {
        1 + first_index(s.skip(1), c)
    }
}

pub proof fn lemma_first_index(s: Seq<char>, c: char)
    ensures
        0 <= first_index(s, c) <= s.len(),
        first_index(s, c) < s.len() ==> s[first_index(s, c)] == c,
        forall|i: int| 0 <= i < first_index(s, c) ==> s[i] != c,
    decreases s.len(),
{
    if s.len() != 0 && s[0] != c {
        let t = s.skip(1);
        lemma_first_index(t, c);
        assert forall|i: int| 0 <= i < first_index(s, c) implies s[i] != c by {
            if i > 0 {
                assert(t[i - 1] == s[i]);
            }
        }
    }
}

/// The position is determined by what it means.
pub proof fn lemma_first_index_unique(s: Seq<char>, c: char, k: int)
    requires
        0 <= k <= s.len(),
        k < s.len() ==> s[k] == c,
        forall|i: int| 0 <= i < k ==> s[i] != c,
    ensures
        first_index(s, c) == k,
{
    lemma_first_index(s, c);
    let f = first_index(s, c);
    if f < k {
        assert(s[f] != c);
    }
    if k < f {
        assert(s[k] != c);
    }
}

/// The position of the first `c` in `cs` from `from` on, or its length.
pub fn find_char(cs: &Vec<char>, from: usize, c: char) -> (r: usize)
    requires
        from <= cs@.len(),
    ensures
        from <= r <= cs@.len(),
        r - from == first_index(cs@.skip(from as int), c),
{
    let mut i: usize = from;
    while i < cs.len() && cs[i] != c
        invariant
            from <= i <= cs@.len(),
            forall|j: int| from <= j < i ==> cs@[j] != c,
        decreases cs@.len() - i,
    {
        i += 1;
    }
    proof {
        let t = cs@.skip(from as int);
        assert forall|j: int| 0 <= j < i - from implies t[j] != c by {
            assert(t[j] == cs@[from + j]);
        }
        lemma_first_index_unique(t, c, i - from);
    }
    i
}

/// The part of `s` before the first `c`; all of `s` where there is none.
pub fn before_char(s: &str, c: char) -> (r: String)
    ensures
        r@ == s@.take(first_index(s@, c)),
{
    let cs = chars_of(s);
    assert(cs@.skip(0) =~= cs@);
    let k = find_char(&cs, 0, c);
    assert(cs@.subrange(0, k as int) =~= cs@.take(k as int));
    string_of(&cs, 0, k)
}

// ── Lines ────────────────────────────────────────────────────────────────────

/// A line without the carriage return that may end it.
pub open spec fn strip_cr(s: Seq<char>) -> Seq<char> {
    if s.len() > 0 && s.last() == '\r' {
        s.drop_last()
    } else {
        s
    }
}

/// The lines of a text: each ends at a line feed (with the carriage return
/// before it, if any) or at the end of the text; a final line feed opens no
/// further line.
pub open spec fn lines_of(s: Seq<char>) -> Seq<Seq<char>>
    decreases s.len(),
{
    if s.len() == 0 {
        seq![]
    } else {
        let k = first_index(s, '\n');
        if k < 0 || k >= s.len() {
            seq![s]
        } else {
            seq![strip_cr(s.take(k))] + lines_of(s.skip(k + 1))
        }
    }
}

/// The lines of a text.
pub fn lines(s: &str) -> (r: Vec<String>)
    ensures
        strs(r@) == lines_of(s@),
{
    broadcast use lemma_strs_push;

    let cs = chars_of(s);
    let n: usize = cs.len();
    let mut out: Vec<String> = Vec::new();
    let mut i: usize = 0;
    assert(cs@.skip(0) =~= cs@);
    assert(strs(out@) + lines_of(cs@) =~= lines_of(cs@));
    while i < n
        invariant
            i <= n,
            n == cs@.len(),
            strs(out@) + lines_of(cs@.skip(i as int)) == lines_of(cs@),
        decreases n - i,
    {
        let k = find_char(&cs, i, '\n');
        let ghost rest = cs@.skip(i as int);
        let ghost done = strs(out@);
        proof {
            lemma_first_index(rest, '\n');
        }
        if k == n {
            assert(cs@.subrange(i as int, n as int) =~= rest);
            out.push(string_of(&cs, i, n));
            assert(cs@.skip(n as int) =~= seq![]);
            assert(strs(out@) + lines_of(cs@.skip(n as int)) =~= done + seq![rest]);
            i = n;
        } else {
            let mut end: usize = k;
            if end > i && cs[end - 1] == '\r' {
                end -= 1;
            }
            assert(cs@.subrange(i as int, k as int) =~= rest.take(k - i));
            assert(cs@.subrange(i as int, end as int) =~= strip_cr(rest.take(k - i)));
            out.push(string_of(&cs, i, end));
            assert(rest.skip(k - i + 1) =~= cs@.skip(k + 1));
            assert(strs(out@) + lines_of(cs@.skip(k + 1)) =~= done + (seq![strip_cr(rest.take(k - i))] + lines_of(
                cs@.skip(k + 1),
            )));
            i = k + 1;
        }
    }
    assert(cs@.skip(n as int) =~= seq![]);
    assert(strs(out@) + lines_of(cs@.skip(i as int)) =~= strs(out@));
    out
}

// ── Lists ────────────────────────────────────────────────────────────────────

/// The texts in `s`, each of which a null character ends.
pub open spec fn null_ended(s: Seq<char>) -> Seq<Seq<char>>
    decreases s.len(),
{
    let k = first_index(s, '\0');
    if k < 0 || k >= s.len() {
        seq![]
    } else {
        seq![s.take(k)] + null_ended(s.skip(k + 1))
    }
}

/// The texts in `s`, each of which a null character ends.
pub fn split_nulls(s: &str) -> (r: Vec<String>)
    ensures
        strs(r@) == null_ended(s@),
{
    broadcast use lemma_strs_push;

    let cs = chars_of(s);
    let n: usize = cs.len();
    let mut out: Vec<String> = Vec::new();
    let mut i: usize = 0;
    assert(cs@.skip(0) =~= cs@);
    assert(strs(out@) + null_ended(cs@) =~= null_ended(cs@));
    while i < n
        invariant
            i <= n,
            n == cs@.len(),
            cs@ == s@,
            strs(out@) + null_ended(cs@.skip(i as int)) == null_ended(cs@),
        decreases n - i,
    {
        let k = find_char(&cs, i, '\0');
        let ghost rest = cs@.skip(i as int);
        let ghost done = strs(out@);
        if k == n {
            assert(done + null_ended(rest) =~= done);
            return out;
        }
        assert(cs@.subrange(i as int, k as int) =~= rest.take(k - i));
        out.push(string_of(&cs, i, k));
        assert(rest.skip(k - i + 1) =~= cs@.skip(k + 1));
        assert(strs(out@) + null_ended(cs@.skip(k + 1)) =~= done + (seq![rest.take(k - i)] + null_ended(
            cs@.skip(k + 1),
        )));
        i = k + 1;
    }
    assert(cs@.skip(n as int) =~= seq![]);
    assert(strs(out@) + null_ended(cs@.skip(i as int)) =~= strs(out@));
    out
}

/// Whether a text is in a list.
pub fn is_in(v: &Vec<String>, s: &str) -> (r: bool)
    ensures
        r == strs(v@).contains(s@),
{
    let ghost all = strs(v@);
    let mut i: usize = 0;
    while i < v.len()
        invariant
            i <= v@.len(),
            all == strs(v@),
            forall|j: int| 0 <= j < i ==> all[j] != s@,
        decreases v@.len() - i,
    {
        assert(all[i as int] == v@[i as int]@);
        if str_eq(v[i].as_str(), s) {
            return true;
        }
        i += 1;
    }
    false
}

// ── Words ────────────────────────────────────────────────────────────────────

/// The number of leading characters of `s` that are no white space.
pub open spec fn word_len(s: Seq<char>) -> int
    decreases s.len(),
{
    if s.len() == 0 || is_space(s[0]) {
        0
    } else {
        1 + word_len(s.skip(1))
    }
}

pub proof fn lemma_word_len(s: Seq<char>)
    ensures
        0 <= word_len(s) <= s.len(),
        word_len(s) < s.len() ==> is_space(s[word_len(s)]),
        forall|i: int| 0 <= i < word_len(s) ==> !is_space(s[i]),
    decreases s.len(),
{
    if s.len() != 0 && !is_space(s[0]) {
        let t = s.skip(1);
        lemma_word_len(t);
        assert forall|i: int| 0 <= i < word_len(s) implies !is_space(s[i]) by {
            if i > 0 {
                assert(t[i - 1] == s[i]);
            }
        }
    }
}

proof fn lemma_word_len_unique(s: Seq<char>, k: int)
    requires
        0 <= k <= s.len(),
        k < s.len() ==> is_space(s[k]),
        forall|i: int| 0 <= i < k ==> !is_space(s[i]),
    ensures
        word_len(s) == k,
{
    lemma_word_len(s);
    let f = word_len(s);
    if f < k {
        assert(!is_space(s[f]));
    }
    if k < f {
        assert(!is_space(s[k]));
    }
}

/// The `n`-th run of non-white-space characters of `s`, counted from zero.
pub open spec fn word_at(s: Seq<char>, n: nat) -> Option<Seq<char>>
    decreases n,
{
    let t = trim_left(s);
    if t.len() == 0 {
        None
    } else if n == 0 {
        Some(t.take(word_len(t)))
    } else {
        word_at(t.skip(word_len(t)), (n - 1) as nat)
    }
}

/// The `n`-th white-space separated word of `s`, counted from zero.
pub fn word(s: &str, n: usize) -> (r: Option<String>)
    ensures
        opt(r) == word_at(s@, n as nat),
{
    let cs = chars_of(s);
    let len: usize = cs.len();
    let mut i: usize = 0;
    let mut left: usize = n;
    assert(cs@.skip(0) =~= cs@);
    loop
        invariant
            i <= len,
            len == cs@.len(),
            word_at(cs@.skip(i as int), left as nat) == word_at(s@, n as nat),
        decreases left,
    {
        let ghost rest = cs@.skip(i as int);
        let mut from: usize = i;
        while from < len && is_whitespace(cs[from])
            invariant
                i <= from <= len,
                len == cs@.len(),
                trim_left(rest) == trim_left(cs@.skip(from as int)),
            decreases len - from,
        {
            assert(cs@.skip(from as int).skip(1) =~= cs@.skip(from + 1));
            from += 1;
        }
        let ghost t = cs@.skip(from as int);
        assert(trim_left(rest) == t);
        if from == len {
            return None;
        }
        let mut to: usize = from;
        while to < len && !is_whitespace(cs[to])
            invariant
                from <= to <= len,
                len == cs@.len(),
                forall|j: int| from <= j < to ==> !is_space(cs@[j]),
            decreases len - to,
        {
            to += 1;
        }
        proof {
            assert forall|j: int| 0 <= j < to - from implies !is_space(t[j]) by {
                assert(t[j] == cs@[from + j]);
            }
            lemma_word_len_unique(t, to - from);
        }
        if left == 0 {
            assert(cs@.subrange(from as int, to as int) =~= t.take(to - from));
            return Some(string_of(&cs, from, to));
        }
        assert(t.skip(to - from) =~= cs@.skip(to as int));
        i = to;
        left -= 1;
    }
}

// ── Search, replacement, joining ─────────────────────────────────────────────

/// Whether `needle` stands in `text` at position `i`.
pub open spec fn occurs_at(text: Seq<char>, needle: Seq<char>, i: int) -> bool {
    0 <= i && i + needle.len() <= text.len() && text.subrange(i, i + needle.len()) == needle
}

/// Whether `needle` stands anywhere in `text`.
pub open spec fn occurs(text: Seq<char>, needle: Seq<char>) -> bool {
    exists|i: int| #[trigger] occurs_at(text, needle, i)
}

/// Whether `needle` stands anywhere in `text`.
pub fn contains(text: &str, needle: &str) -> (r: bool)
    ensures
        r == occurs(text@, needle@),
{
    let t = chars_of(text);
    let n = chars_of(needle);
    if n.len() > t.len() {
        assert(forall|i: int| !occurs_at(t@, n@, i));
        return false;
    }
    let size: usize = t.len();
    let last: usize = size - n.len();
    let mut i: usize = 0;
    loop
        invariant
            size == t@.len(),
            t@ == text@,
            n@ == needle@,
            n@.len() <= t@.len(),
            last == t@.len() - n@.len(),
            i <= last,
            forall|k: int| 0 <= k < i ==> !occurs_at(t@, n@, k),
        decreases last - i,
    {
        let mut j: usize = 0;
        while j < n.len() && t[i + j] == n[j]
            invariant
                size == t@.len(),
                i + n@.len() <= size,
                j <= n@.len(),
                forall|k: int| 0 <= k < j ==> t@[i + k] == n@[k],
            decreases n@.len() - j,
        {
            j += 1;
        }
        if j == n.len() {
            assert(t@.subrange(i as int, i + n@.len()) =~= n@);
            assert(occurs_at(text@, needle@, i as int));
            return true;
        }
        assert(t@.subrange(i as int, i + n@.len())[j as int] != n@[j as int]);
        assert(!occurs_at(t@, n@, i as int));
        if i == last {
            assert(forall|k: int| !occurs_at(t@, n@, k));
            return false;
        }
        i += 1;
    }
}

/// `s` with every `c` replaced by `by`.
pub open spec fn replaced(s: Seq<char>, c: char, by: Seq<char>) -> Seq<char>
    decreases s.len(),
{
    if s.len() == 0 {
        seq![]
    } else {
        replaced(s.drop_last(), c, by) + (if s.last() == c {
            by
        } else {
            seq![s.last()]
        })
    }
}

/// A copy of `s` with every `c` replaced by `by`.
pub fn replace_char(s: &str, c: char, by: &str) -> (r: String)
    ensures
        r@ == replaced(s@, c, by@),
{
    let cs = chars_of(s);
    let mut out = String::new();
    let mut i: usize = 0;
    while i < cs.len()
        invariant
            i <= cs@.len(),
            out@ == replaced(cs@.take(i as int), c, by@),
        decreases cs@.len() - i,
    {
        assert(cs@.take(i + 1).drop_last() =~= cs@.take(i as int));
        if cs[i] == c {
            out.append(by);
        } else {
            out.push(cs[i]);
            assert(replaced(cs@.take(i as int), c, by@).push(cs@[i as int]) =~= replaced(cs@.take(i as int), c, by@)
                + seq![cs@[i as int]]);
        }
        i += 1;
    }
    assert(cs@.take(cs@.len() as int) =~= cs@);
    out
}

/// The items of `parts` with `sep` between them.
pub open spec fn joined(parts: Seq<Seq<char>>, sep: Seq<char>) -> Seq<char>
    decreases parts.len(),
{
    if parts.len() == 0 {
        seq![]
    } else if parts.len() == 1 {
        parts[0]
    } else {
        joined(parts.drop_last(), sep) + sep + parts.last()
    }
}

/// The items of `parts` with `sep` between them.
pub fn join(parts: &Vec<String>, sep: &str) -> (r: String)
    ensures
        r@ == joined(strs(parts@), sep@),
{
    let mut out = String::new();
    let mut i: usize = 0;
    let ghost all = strs(parts@);
    while i < parts.len()
        invariant
            i <= parts@.len(),
            all == strs(parts@),
            out@ == joined(all.take(i as int), sep@),
        decreases parts@.len() - i,
    {
        assert(all.take(i + 1).drop_last() =~= all.take(i as int));
        if i > 0 {
            out.append(sep);
        } else {
            assert(out@ + parts@[0]@ =~= parts@[0]@);
        }
        out.append(parts[i].as_str());
        i += 1;
    }
    assert(all.take(all.len() as int) =~= all);
    out
}

} // verus!
