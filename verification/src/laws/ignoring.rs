//! Laws on patterns, on what they leave out, and on what directories hold.

use vstd::prelude::*;
use vstd::string::*;
use vstd::utf8::*;
use crate::sync::contents;
use crate::sync::contents::{Contents, ContentsView, WalkView};
use crate::sync::ignore;
use crate::sync::ignore::{Entry, EntryKind, EntryView, IgnoreRules, ScanStep, ScanStepView, ScanView};
use crate::sync::pattern;
use crate::text;
use crate::laws::texts;

verus! {

// ── Patterns ─────────────────────────────────────────────────────────────────

/// Whether a character stands for itself in a pattern.
pub open spec fn is_ordinary(c: char) -> bool {
    c != '*' && c != '?' && c != '[' && c != '\\'
}

/// An ordinary character describes itself, a question mark any character but a
/// slash, and what stands behind a backslash itself.
pub proof fn law_single_characters(c: char, p: Seq<char>, d: char, s: Seq<char>)
    ensures
        is_ordinary(c) ==> (pattern::describes(seq![c] + p, seq![d] + s) <==> c == d && pattern::describes(p, s)),
        pattern::describes(seq!['?'] + p, seq![d] + s) <==> d != '/' && pattern::describes(p, s),
        pattern::describes(seq!['\\', c] + p, seq![d] + s) <==> c == d && pattern::describes(p, s),
        is_ordinary(c) ==> !pattern::describes(seq![c] + p, seq![]),
        !pattern::describes(seq!['?'] + p, seq![]),
        !pattern::describes(seq!['\\', c] + p, seq![]),
        pattern::describes(seq![], s) <==> s.len() == 0,
{
    assert((seq![c] + p).skip(1) =~= p);
    assert((seq!['?'] + p).skip(1) =~= p);
    assert((seq!['\\', c] + p).skip(2) =~= p);
    assert((seq![d] + s).skip(1) =~= s);
}

/// A star describes any text without a slash, and nothing else.
pub proof fn law_stars_stop_at_slashes(p: Seq<char>, s: Seq<char>)
    requires
        !(p.len() > 0 && p[0] == '*'),
    ensures
        pattern::describes(seq!['*'] + p, s) <==> exists|k: int|
            0 <= k <= s.len() && !s.take(k).contains('/') && #[trigger] pattern::describes(p, s.skip(k)),
    decreases s.len(),
{
    let star = seq!['*'] + p;
    assert(star.skip(1) =~= p);
    assert(star[0] == '*');
    if star.len() > 1 {
        assert(star[1] == p[0]);
    }
    assert(s.skip(0) =~= s);
    assert(pattern::describes(star, s) == (pattern::describes(p, s) || (s.len() > 0 && s[0] != '/'
        && pattern::describes(star, s.skip(1)))));
    if pattern::describes(p, s) {
        assert(pattern::describes(p, s.skip(0)));
    }
    assert(!s.take(0).contains('/'));
    if s.len() > 0 {
        let t = s.skip(1);
        law_stars_stop_at_slashes(p, t);
        if s[0] != '/' && pattern::describes(star, t) {
            let k = choose|k: int|
                0 <= k <= t.len() && !t.take(k).contains('/') && #[trigger] pattern::describes(p, t.skip(k));
            assert(s.skip(k + 1) =~= t.skip(k));
            let more = s.take(k + 1);
            if more.contains('/') {
                let i = choose|i: int| 0 <= i < more.len() && more[i] == '/';
                assert(t.take(k)[i - 1] == '/');
            }
            assert(pattern::describes(p, s.skip(k + 1)));
        }
        if exists|k: int|
            0 <= k <= s.len() && !s.take(k).contains('/') && #[trigger] pattern::describes(p, s.skip(k)) {
            let k = choose|k: int|
                0 <= k <= s.len() && !s.take(k).contains('/') && #[trigger] pattern::describes(p, s.skip(k));
            if k > 0 {
                assert(s.take(k)[0] == s[0]);
                assert(t.skip(k - 1) =~= s.skip(k));
                let fewer = t.take(k - 1);
                if fewer.contains('/') {
                    let i = choose|i: int| 0 <= i < fewer.len() && fewer[i] == '/';
                    assert(s.take(k)[i + 1] == '/');
                }
                assert(pattern::describes(p, t.skip(k - 1)));
            } else {
                assert(pattern::describes(p, s));
            }
        }
    } else {
        assert forall|k: int| 0 <= k <= s.len() && #[trigger] pattern::describes(p, s.skip(k)) implies pattern::describes(
            p,
            s,
        ) by {
            assert(s.skip(k) =~= s);
        }
    }
}

/// Two stars describe any text at all.
pub proof fn law_two_stars_go_on(p: Seq<char>, s: Seq<char>)
    ensures
        pattern::describes(seq!['*', '*'] + p, s) <==> exists|k: int|
            0 <= k <= s.len() && #[trigger] pattern::describes(p, s.skip(k)),
    decreases s.len(),
{
    let stars = seq!['*', '*'] + p;
    assert(stars.skip(2) =~= p);
    assert(stars[0] == '*' && stars[1] == '*');
    assert(s.skip(0) =~= s);
    assert(pattern::describes(stars, s) == (pattern::describes(p, s) || (s.len() > 0 && pattern::describes(
        stars,
        s.skip(1),
    ))));
    if pattern::describes(p, s) {
        assert(pattern::describes(p, s.skip(0)));
    }
    if s.len() > 0 {
        let t = s.skip(1);
        law_two_stars_go_on(p, t);
        if pattern::describes(stars, t) {
            let k = choose|k: int| 0 <= k <= t.len() && #[trigger] pattern::describes(p, t.skip(k));
            assert(s.skip(k + 1) =~= t.skip(k));
            assert(pattern::describes(p, s.skip(k + 1)));
        }
        if exists|k: int| 0 <= k <= s.len() && #[trigger] pattern::describes(p, s.skip(k)) {
            let k = choose|k: int| 0 <= k <= s.len() && #[trigger] pattern::describes(p, s.skip(k));
            if k > 0 {
                assert(t.skip(k - 1) =~= s.skip(k));
                assert(pattern::describes(p, t.skip(k - 1)));
            }
        }
    } else {
        assert forall|k: int| 0 <= k <= s.len() && #[trigger] pattern::describes(p, s.skip(k)) implies pattern::describes(
            p,
            s,
        ) by {
            assert(s.skip(k) =~= s);
        }
    }
}

/// Brackets round characters, none of them a hyphen, describe each of those but a
/// slash; with `!` or `^` before them, every other character but a slash.
pub proof fn law_brackets_list_characters(not: char, list: Seq<char>, p: Seq<char>, d: char, s: Seq<char>)
    requires
        list.len() > 0 && !list.contains(']') && !list.contains('-'),
        not == '!' || not == '^',
    ensures
        list[0] != '!' && list[0] != '^' ==> (pattern::describes(seq!['['] + list + seq![']'] + p, seq![d] + s)
            <==> d != '/' && list.contains(d) && pattern::describes(p, s)),
        pattern::describes(seq!['[', not] + list + seq![']'] + p, seq![d] + s) <==> d != '/' && !list.contains(d)
            && pattern::describes(p, s),
{
    let a = seq!['['] + list + seq![']'] + p;
    let b = seq!['[', not] + list + seq![']'] + p;
    let t = seq![d] + s;
    assert(t.skip(1) =~= s);
    let n = list.len() as int;
    assert forall|i: int| 0 <= i < n implies list[i] != ']' && list[i] != '-' by {
        assert(list.contains(list[i]));
    }
    assert forall|i: int| 0 <= i < n implies a[i + 1] == list[i] by {}
    assert forall|i: int| 0 <= i < n implies b[i + 2] == list[i] by {}
    assert(a[1] == list[0]);
    lemma_closing(a, 2, n + 1);
    lemma_closing(b, 3, n + 2);
    assert forall|i: int| 1 <= i < n + 1 implies a[i] != '-' by {
        assert(a[i] == list[i - 1]);
    }
    assert forall|i: int| 2 <= i < n + 2 implies b[i] != '-' by {
        assert(b[i] == list[i - 2]);
    }
    lemma_listed_singly(a, 1, n + 1, d);
    lemma_listed_singly(b, 2, n + 2, d);
    if list.contains(d) {
        let i = choose|i: int| 0 <= i < n && list[i] == d;
        assert(a[i + 1] == d && b[i + 2] == d);
    }
    assert forall|i: int| 1 <= i < n + 1 && a[i] == d implies list.contains(d) by {
        assert(list[i - 1] == d);
    }
    assert forall|i: int| 2 <= i < n + 2 && b[i] == d implies list.contains(d) by {
        assert(list[i - 2] == d);
    }
    assert(a.skip(n + 2) =~= p);
    assert(b.skip(n + 3) =~= p);
    if list[0] != '!' && list[0] != '^' {
        assert(pattern::listed_from(a) == 1 && pattern::listed_to(a) == n + 1);
    }
    assert(pattern::listed_from(b) == 2 && pattern::listed_to(b) == n + 2);
}

/// A hyphen between two characters in brackets stands for all from the one to the
/// other, and what follows is listed as well.
pub proof fn law_brackets_list_ranges(from: char, to: char, list: Seq<char>, p: Seq<char>, d: char, s: Seq<char>)
    requires
        !list.contains(']') && !list.contains('-') && to != ']',
        from != '!' && from != '^',
    ensures
        pattern::describes(seq!['[', from, '-', to] + list + seq![']'] + p, seq![d] + s) <==> d != '/' && ((from as u32
            <= d as u32 && d as u32 <= to as u32) || list.contains(d)) && pattern::describes(p, s),
{
    let a = seq!['[', from, '-', to] + list + seq![']'] + p;
    let t = seq![d] + s;
    assert(t.skip(1) =~= s);
    let n = list.len() as int;
    assert forall|i: int| 0 <= i < n implies list[i] != ']' && list[i] != '-' by {
        assert(list.contains(list[i]));
    }
    assert forall|i: int| 0 <= i < n implies a[i + 4] == list[i] by {}
    assert forall|i: int| 4 <= i < n + 4 implies a[i] != '-' && a[i] != ']' by {
        assert(a[i] == list[i - 4]);
    }
    lemma_closing(a, 2, n + 4);
    lemma_listed_singly(a, 4, n + 4, d);
    if list.contains(d) {
        let i = choose|i: int| 0 <= i < n && list[i] == d;
        assert(a[i + 4] == d);
    }
    assert forall|i: int| 4 <= i < n + 4 && a[i] == d implies list.contains(d) by {
        assert(list[i - 4] == d);
    }
    assert(a.skip(n + 5) =~= p);
    assert(pattern::listed_from(a) == 1 && pattern::listed_to(a) == n + 4);
    assert(pattern::is_listed(a, 1, n + 4, d) == ((from as u32 <= d as u32 && d as u32 <= to as u32)
        || pattern::is_listed(a, 4, n + 4, d)));
}

proof fn lemma_closing(p: Seq<char>, i: int, end: int)
    requires
        0 <= i <= end < p.len(),
        p[end] == ']',
        forall|j: int| i <= j < end ==> (#[trigger] p[j]) != ']',
    ensures
        pattern::closing(p, i) == end,
    decreases end - i,
{
    if i < end {
        lemma_closing(p, i + 1, end);
    }
}

proof fn lemma_listed_singly(p: Seq<char>, i: int, end: int, c: char)
    requires
        0 <= i <= end <= p.len(),
        forall|j: int| i <= j < end ==> (#[trigger] p[j]) != '-',
    ensures
        pattern::is_listed(p, i, end, c) <==> exists|j: int| i <= j < end && (#[trigger] p[j]) == c,
    decreases end - i,
{
    if i < end {
        lemma_listed_singly(p, i + 1, end, c);
        if i + 2 < end {
            assert(p[i + 1] != '-');
        }
    }
}

/// What stands in brackets is listed item by item: a first character counts beside
/// what follows it, unless a hyphen does.
pub proof fn law_items_in_brackets_count_singly(c: char, list: Seq<char>, p: Seq<char>, d: char, s: Seq<char>)
    requires
        list.len() > 0 && !list.contains(']'),
        list[0] != '!' && list[0] != '^' && list[0] != '-',
        c != '!' && c != '^',
    ensures
        pattern::describes(seq!['[', c] + list + seq![']'] + p, seq![d] + s) <==> (d == c && d != '/'
            && pattern::describes(p, s)) || pattern::describes(seq!['['] + list + seq![']'] + p, seq![d] + s),
{
    let a = seq!['[', c] + list + seq![']'] + p;
    let b = seq!['['] + list + seq![']'] + p;
    let t = seq![d] + s;
    let n = list.len() as int;
    assert(t.skip(1) =~= s);
    lemma_in_brackets(b, 1, list, p);
    lemma_in_brackets(a, 2, list, p);
    assert(a[2] == list[0] && b[1] == list[0]);
    lemma_closing(a, 2, n + 2);
    lemma_closing(b, 2, n + 1);
    lemma_listed_alike(a, 2, b, 1, n, d);
    assert(a.skip(n + 3) =~= p);
    assert(b.skip(n + 2) =~= p);
    assert(pattern::listed_from(a) == 1 && pattern::listed_to(a) == n + 2);
    assert(pattern::listed_from(b) == 1 && pattern::listed_to(b) == n + 1);
    assert(pattern::is_listed(a, 1, n + 2, d) == (c == d || pattern::is_listed(a, 2, n + 2, d)));
}

/// A first range counts beside what follows it, be it characters or ranges.
pub proof fn law_ranges_in_brackets_count_singly(
    from: char,
    to: char,
    list: Seq<char>,
    p: Seq<char>,
    d: char,
    s: Seq<char>,
)
    requires
        list.len() > 0 && !list.contains(']') && to != ']',
        list[0] != '!' && list[0] != '^',
        from != '!' && from != '^',
    ensures
        pattern::describes(seq!['[', from, '-', to] + list + seq![']'] + p, seq![d] + s) <==> (from as u32 <= d as u32
            && d as u32 <= to as u32 && d != '/' && pattern::describes(p, s)) || pattern::describes(
            seq!['['] + list + seq![']'] + p,
            seq![d] + s,
        ),
{
    let a = seq!['[', from, '-', to] + list + seq![']'] + p;
    let b = seq!['['] + list + seq![']'] + p;
    let t = seq![d] + s;
    let n = list.len() as int;
    assert(t.skip(1) =~= s);
    lemma_in_brackets(b, 1, list, p);
    lemma_in_brackets(a, 4, list, p);
    assert(b[1] == list[0]);
    lemma_closing(a, 2, n + 4);
    lemma_closing(b, 2, n + 1);
    lemma_listed_alike(a, 4, b, 1, n, d);
    assert(a.skip(n + 5) =~= p);
    assert(b.skip(n + 2) =~= p);
    assert(pattern::listed_from(a) == 1 && pattern::listed_to(a) == n + 4);
    assert(pattern::listed_from(b) == 1 && pattern::listed_to(b) == n + 1);
    assert(pattern::is_listed(a, 1, n + 4, d) == ((from as u32 <= d as u32 && d as u32 <= to as u32)
        || pattern::is_listed(a, 4, n + 4, d)));
}

/// With `!` or `^` before it, a list describes exactly what it does not describe
/// without, but never a slash.
pub proof fn law_lists_are_negated(not: char, list: Seq<char>, p: Seq<char>, d: char, s: Seq<char>)
    requires
        list.len() > 0 && !list.contains(']'),
        list[0] != '!' && list[0] != '^',
        not == '!' || not == '^',
    ensures
        pattern::describes(seq!['[', not] + list + seq![']'] + p, seq![d] + s) <==> d != '/' && pattern::describes(p, s)
            && !pattern::describes(seq!['['] + list + seq![']'] + p, seq![d] + s),
{
    let a = seq!['[', not] + list + seq![']'] + p;
    let b = seq!['['] + list + seq![']'] + p;
    let t = seq![d] + s;
    let n = list.len() as int;
    assert(t.skip(1) =~= s);
    lemma_in_brackets(b, 1, list, p);
    lemma_in_brackets(a, 2, list, p);
    assert(b[1] == list[0]);
    lemma_closing(a, 3, n + 2);
    lemma_closing(b, 2, n + 1);
    lemma_listed_alike(a, 2, b, 1, n, d);
    assert(a.skip(n + 3) =~= p);
    assert(b.skip(n + 2) =~= p);
    assert(pattern::listed_from(a) == 2 && pattern::listed_to(a) == n + 2);
    assert(pattern::listed_from(b) == 1 && pattern::listed_to(b) == n + 1);
}

/// A closing bracket that stands first in a list is listed.
pub proof fn law_closing_brackets_can_be_listed(list: Seq<char>, p: Seq<char>, d: char, s: Seq<char>)
    requires
        !list.contains(']') && !list.contains('-'),
    ensures
        pattern::describes(seq!['[', ']'] + list + seq![']'] + p, seq![d] + s) <==> d != '/' && (d == ']'
            || list.contains(d)) && pattern::describes(p, s),
{
    let a = seq!['[', ']'] + list + seq![']'] + p;
    let t = seq![d] + s;
    let n = list.len() as int;
    assert(t.skip(1) =~= s);
    lemma_in_brackets(a, 2, list, p);
    lemma_closing(a, 2, n + 2);
    assert forall|i: int| 1 <= i < n + 2 implies a[i] != '-' by {
        if i >= 2 {
            assert(a[i] == list[i - 2]);
            assert(list.contains(list[i - 2]));
        }
    }
    lemma_listed_singly(a, 1, n + 2, d);
    if list.contains(d) {
        let i = choose|i: int| 0 <= i < n && list[i] == d;
        assert(a[i + 2] == d);
    }
    if d == ']' {
        assert(a[1] == d);
    }
    assert forall|i: int| 1 <= i < n + 2 && a[i] == d implies d == ']' || list.contains(d) by {
        if i >= 2 {
            assert(list[i - 2] == d);
        }
    }
    assert(a.skip(n + 3) =~= p);
    assert(pattern::listed_from(a) == 1 && pattern::listed_to(a) == n + 2);
}

proof fn lemma_in_brackets(a: Seq<char>, k: int, list: Seq<char>, p: Seq<char>)
    requires
        0 <= k,
        !list.contains(']'),
        a.len() == k + list.len() + 1 + p.len(),
        a.skip(k) =~= list + seq![']'] + p,
    ensures
        forall|i: int| k <= i < k + list.len() ==> (#[trigger] a[i]) != ']' && a[i] == list[i - k],
        a[k + list.len()] == ']',
{
    let rest = a.skip(k);
    assert forall|i: int| k <= i < k + list.len() implies (#[trigger] a[i]) != ']' && a[i] == list[i - k] by {
        assert(rest[i - k] == a[i]);
        assert(list.contains(list[i - k]));
    }
    assert(rest[list.len() as int] == a[k + list.len()]);
}

proof fn lemma_listed_alike(a: Seq<char>, i: int, b: Seq<char>, j: int, n: int, c: char)
    requires
        0 <= i && i + n <= a.len() && 0 <= j && j + n <= b.len() && 0 <= n,
        forall|k: int| 0 <= k < n ==> #[trigger] a[i + k] == b[j + k],
    ensures
        pattern::is_listed(a, i, i + n, c) == pattern::is_listed(b, j, j + n, c),
    decreases n,
{
    if n > 0 {
        assert(a[i + 0] == b[j + 0]);
        if n > 2 {
            assert(a[i + 1] == b[j + 1]);
            assert(a[i + 2] == b[j + 2]);
        }
        if n > 2 && a[i + 1] == '-' {
            assert forall|k: int| 0 <= k < n - 3 implies #[trigger] a[(i + 3) + k] == b[(j + 3) + k] by {
                assert(a[i + (k + 3)] == b[j + (k + 3)]);
            }
            lemma_listed_alike(a, i + 3, b, j + 3, n - 3, c);
        } else {
            assert forall|k: int| 0 <= k < n - 1 implies #[trigger] a[(i + 1) + k] == b[(j + 1) + k] by {
                assert(a[i + (k + 1)] == b[j + (k + 1)]);
            }
            lemma_listed_alike(a, i + 1, b, j + 1, n - 1, c);
        }
    }
}

/// A bracket that nothing closes describes nothing.
pub proof fn law_brackets_must_be_closed(list: Seq<char>, s: Seq<char>)
    requires
        !list.contains(']'),
    ensures
        !pattern::describes(seq!['['] + list, s),
{
    let a = seq!['['] + list;
    assert forall|i: int| 0 <= i < a.len() implies a[i] != ']' by {
        if i > 0 {
            assert(a[i] == list[i - 1]);
            assert(list.contains(list[i - 1]));
        }
    }
    lemma_unclosed(a, pattern::listed_from(a) + 1);
}

proof fn lemma_unclosed(p: Seq<char>, i: int)
    requires
        forall|j: int| 0 <= j < p.len() ==> (#[trigger] p[j]) != ']',
        0 <= i,
    ensures
        pattern::closing(p, i) == p.len(),
    decreases p.len() - i,
{
    if i < p.len() {
        lemma_unclosed(p, i + 1);
    }
}

/// Without a wildcard a pattern stands for itself alone, backslashes included; with
/// one, for what it describes.
pub proof fn law_what_patterns_stand_for(p: Seq<char>, s: Seq<char>)
    ensures
        !p.contains('*') && !p.contains('?') && !p.contains('[') ==> (pattern::stands_for(p, s) <==> p == s),
        p.contains('*') || p.contains('?') || p.contains('[') ==> (pattern::stands_for(p, s) <==> pattern::describes(
            p,
            s,
        )),
{
}

/// A pattern that begins with a slash covers only from the top; any other covers
/// wherever a name begins.
pub proof fn law_where_patterns_apply(p: Seq<char>, dir: Seq<char>, s: Seq<char>, is_dir: bool)
    requires
        p.len() > 0 && p.last() != '/' && p[0] != '/',
        s.len() > 0,
    ensures
        pattern::covers(seq!['/'] + p, s, is_dir) <==> pattern::stands_for(p, s),
        pattern::stands_for(p, s) ==> pattern::covers(p, s, is_dir),
        pattern::stands_for(p, s) ==> pattern::covers(p, dir + seq!['/'] + s, is_dir),
{
    let top = seq!['/'] + p;
    assert(top.last() == p.last());
    assert(top.skip(1) =~= p);
    assert(pattern::without_slash(top) == top);
    assert(pattern::without_slash(p) == p);
    assert(s.skip(0) =~= s);
    assert(pattern::begins_component(s, 0));
    let whole = dir + seq!['/'] + s;
    let at = (dir.len() + 1) as int;
    assert(whole.skip(at) =~= s);
    assert(pattern::begins_component(whole, at));
    if pattern::stands_for(p, s) {
        assert(pattern::stands_for(p, s.skip(0)));
        assert(pattern::stands_for(p, whole.skip(at)));
    }
}

/// A pattern that begins with a slash covers from the top, whatever follows, and an
/// empty one covers nothing.
pub proof fn law_patterns_from_the_top(p: Seq<char>, s: Seq<char>, is_dir: bool)
    ensures
        p.len() > 0 && p.last() != '/' ==> (pattern::covers(seq!['/'] + p, s, is_dir) <==> pattern::stands_for(p, s)),
        !pattern::covers(seq![], s, is_dir),
        !pattern::covers(seq!['/'], s, is_dir),
{
    let top = seq!['/'] + p;
    if p.len() > 0 && p.last() != '/' {
        assert(top.last() == p.last());
        assert(top.skip(1) =~= p);
        assert(pattern::without_slash(top) == top);
    }
    let nothing = Seq::<char>::empty();
    assert(seq!['/'].drop_last() =~= nothing);
    assert(!nothing.contains('*') && !nothing.contains('?') && !nothing.contains('['));
    assert forall|i: int| pattern::begins_component(s, i) implies !#[trigger] pattern::stands_for(
        nothing,
        s.skip(i),
    ) by {
        assert(s.skip(i).len() > 0);
    }
}

/// A pattern that ends with a slash covers only directories, those that it covers
/// without the slash; for any other it makes no difference whether it is one.
pub proof fn law_patterns_for_directories(p: Seq<char>, s: Seq<char>)
    requires
        p.len() > 0 && p.last() != '/',
    ensures
        pattern::covers(p + seq!['/'], s, true) <==> pattern::covers(p, s, true),
        !pattern::covers(p + seq!['/'], s, false),
        pattern::covers(p, s, true) <==> pattern::covers(p, s, false),
{
    assert((p + seq!['/']).drop_last() =~= p);
    assert(pattern::without_slash(p + seq!['/']) == pattern::without_slash(p));
}

/// A pattern covers nothing but a text that it stands for where a name begins.
pub proof fn law_what_is_covered(p: Seq<char>, s: Seq<char>, is_dir: bool) -> (before: Seq<char>)
    requires
        p.len() > 0 && p.last() != '/' && p[0] != '/',
    ensures
        pattern::covers(p, s, is_dir) ==> {
            &&& before.is_prefix_of(s)
            &&& before.len() == 0 || before.last() == '/'
            &&& pattern::stands_for(p, s.skip(before.len() as int))
        },
{
    if pattern::covers(p, s, is_dir) {
        let i = choose|i: int| pattern::begins_component(s, i) && #[trigger] pattern::stands_for(p, s.skip(i));
        s.take(i)
    } else {
        seq![]
    }
}

// ── Rules ────────────────────────────────────────────────────────────────────

/// A path is left out if a pattern covers it or a directory on the way to it, and
/// for no other reason.
pub proof fn law_what_is_left_out(
    patterns: Seq<Seq<char>>,
    k: int,
    dir: Seq<char>,
    rest: Seq<char>,
    s: Seq<char>,
    is_dir: bool,
) -> (way: Seq<char>)
    ensures
        0 <= k < patterns.len() && pattern::covers(patterns[k], s, is_dir) ==> ignore::excluded(patterns, s, is_dir),
        0 <= k < patterns.len() && pattern::covers(patterns[k], dir, true) ==> ignore::excluded(
            patterns,
            dir + seq!['/'] + rest,
            is_dir,
        ),
        ignore::excluded(patterns, s, is_dir) ==> {
            ||| exists|i: int| 0 <= i < patterns.len() && pattern::covers(#[trigger] patterns[i], s, is_dir)
            ||| {
                &&& (way + seq!['/']).is_prefix_of(s)
                &&& exists|i: int| 0 <= i < patterns.len() && pattern::covers(#[trigger] patterns[i], way, true)
            }
        },
        patterns.len() == 0 ==> !ignore::excluded(patterns, s, is_dir),
{
    let whole = dir + seq!['/'] + rest;
    let n = dir.len() as int;
    assert(whole.take(n) =~= dir);
    assert(whole[n] == '/');
    if 0 <= k < patterns.len() && pattern::covers(patterns[k], dir, true) {
        assert(ignore::is_covered(patterns, whole.take(n), true));
    }
    if ignore::excluded(patterns, s, is_dir) && !ignore::is_covered(patterns, s, is_dir) {
        let i = choose|i: int|
            0 <= i < s.len() && s[i] == '/' && #[trigger] ignore::is_covered(patterns, s.take(i), true);
        assert(s.take(i) + seq!['/'] =~= s.take(i + 1));
        s.take(i)
    } else {
        seq![]
    }
}

/// Of a list of paths those that are not left out are kept, in order.
pub proof fn law_what_is_kept(patterns: Seq<Seq<char>>, a: Seq<Seq<char>>, b: Seq<Seq<char>>, p: Seq<char>, is_dir: bool)
    ensures
        ignore::kept(patterns, a + b, is_dir) == ignore::kept(patterns, a, is_dir) + ignore::kept(patterns, b, is_dir),
        ignore::excluded(patterns, p, is_dir) ==> ignore::kept(patterns, seq![p], is_dir).len() == 0,
        !ignore::excluded(patterns, p, is_dir) ==> ignore::kept(patterns, seq![p], is_dir) == seq![p],
    decreases b.len(),
{
    reveal_with_fuel(ignore::kept, 2);
    assert(seq![p].drop_last() =~= seq![]);
    assert(!ignore::excluded(patterns, p, is_dir) ==> ignore::kept(patterns, seq![p], is_dir) =~= seq![p]);
    if b.len() == 0 {
        assert(a + b =~= a);
    } else {
        law_what_is_kept(patterns, a, b.drop_last(), p, is_dir);
        assert((a + b).drop_last() =~= a + b.drop_last());
        assert((a + b).last() == b.last());
    }
    assert(ignore::kept(patterns, a + b, is_dir) =~= ignore::kept(patterns, a, is_dir) + ignore::kept(
        patterns,
        b,
        is_dir,
    ));
}

/// Of the lines of a rules file each is a pattern, without the white space round it,
/// unless it is blank or a remark.
pub proof fn law_lines_are_patterns(
    a: Seq<Seq<char>>,
    b: Seq<Seq<char>>,
    before: Seq<char>,
    line: Seq<char>,
    after: Seq<char>,
)
    requires
        texts::blank(before) && texts::blank(after),
        line.len() > 0 ==> !text::is_space(line[0]) && !text::is_space(line.last()),
    ensures
        ignore::patterns_in(a + b) == ignore::patterns_in(a) + ignore::patterns_in(b),
        line.len() == 0 || line[0] == '#' ==> ignore::patterns_in(seq![before + line + after]).len() == 0,
        line.len() > 0 && line[0] != '#' ==> ignore::patterns_in(seq![before + line + after]) == seq![line],
    decreases b.len(),
{
    reveal_with_fuel(ignore::patterns_in, 2);
    texts::law_trimming_takes_only_white_space(before, line, after);
    let one = seq![before + line + after];
    assert(one.drop_last() =~= seq![]);
    if line.len() > 0 && line[0] != '#' {
        assert(ignore::patterns_in(one) =~= seq![line]);
    }
    if b.len() == 0 {
        assert(a + b =~= a);
    } else {
        law_lines_are_patterns(a, b.drop_last(), before, line, after);
        assert((a + b).drop_last() =~= a + b.drop_last());
        assert((a + b).last() == b.last());
    }
    assert(ignore::patterns_in(a + b) =~= ignore::patterns_in(a) + ignore::patterns_in(b));
}

/// A rules file gives the patterns of its lines; without one there are none.
pub proof fn law_rules_files(contents: Seq<char>)
    ensures
        ignore::file_patterns(Some(contents)) == ignore::patterns_in(text::lines_of(contents)),
        ignore::file_patterns(None).len() == 0,
{
}

/// What is left out on every machine: caches, logs, locks, temporary files, and what
/// belongs to the display, the sound, the desktop and the network of one machine.
pub proof fn law_what_belongs_to_one_machine(p: Seq<char>)
    ensures
        ignore::builtin_patterns().len() == 30,
        ignore::builtin_patterns().contains(p) <==> {
            ||| p == ".cache/"@ || p == "*.log"@ || p == "*.pid"@ || p == "*.lock"@ || p == "*~"@ || p == "*.swp"@
            ||| p == "*.swo"@ || p == "*.tmp"@ || p == "monitors.xml"@ || p == ".config/monitors.xml"@
            ||| p == ".config/xrandr/"@ || p == ".local/share/xorg/"@ || p == "pulse/*.tdb"@
            ||| p == ".config/pulse/*.tdb"@ || p == ".config/pipewire/media-session.d/volumes.conf"@
            ||| p == "recently-used.xbel"@ || p == ".local/share/recently-used.xbel"@
            ||| p == ".local/share/gvfs-metadata/"@ || p == ".local/share/gnome-shell/"@ || p == "tracker/"@
            ||| p == ".local/share/tracker/"@ || p == ".local/share/baloo/"@ || p == ".local/share/networkmanagement/"@
            ||| p == "dconf/"@ || p == ".config/dconf/user"@ || p == ".local/share/thumbnails/"@
            ||| p == ".local/share/Trash/"@ || p == ".DS_Store"@ || p == "Thumbs.db"@ || p == "desktop.ini"@
        },
{
    let all = ignore::builtin_patterns();
    assert(all[0] == ".cache/"@ && all[1] == "*.log"@ && all[2] == "*.pid"@ && all[3] == "*.lock"@ && all[4] == "*~"@);
    assert(all[5] == "*.swp"@ && all[6] == "*.swo"@ && all[7] == "*.tmp"@ && all[8] == "monitors.xml"@);
    assert(all[9] == ".config/monitors.xml"@ && all[10] == ".config/xrandr/"@ && all[11] == ".local/share/xorg/"@);
    assert(all[12] == "pulse/*.tdb"@ && all[13] == ".config/pulse/*.tdb"@);
    assert(all[14] == ".config/pipewire/media-session.d/volumes.conf"@ && all[15] == "recently-used.xbel"@);
    assert(all[16] == ".local/share/recently-used.xbel"@ && all[17] == ".local/share/gvfs-metadata/"@);
    assert(all[18] == ".local/share/gnome-shell/"@ && all[19] == "tracker/"@ && all[20] == ".local/share/tracker/"@);
    assert(all[21] == ".local/share/baloo/"@ && all[22] == ".local/share/networkmanagement/"@);
    assert(all[23] == "dconf/"@ && all[24] == ".config/dconf/user"@ && all[25] == ".local/share/thumbnails/"@);
    assert(all[26] == ".local/share/Trash/"@ && all[27] == ".DS_Store"@ && all[28] == "Thumbs.db"@);
    assert(all[29] == "desktop.ini"@);
    if all.contains(p) {
        let i = choose|i: int| 0 <= i < all.len() && all[i] == p;
    }
}

/// rsync is handed every pattern, in order, as an exclusion.
pub proof fn law_rsync_is_handed_every_pattern(patterns: Seq<Seq<char>>, i: int)
    ensures
        ignore::exclude_options(patterns).len() == patterns.len(),
        0 <= i < patterns.len() ==> ignore::exclude_options(patterns)[i] == "--exclude="@ + patterns[i],
{
}

/// Rules are seen pattern by pattern.
pub proof fn law_rules_are_seen_whole(r: IgnoreRules, i: int)
    ensures
        r@.len() == r.patterns@.len(),
        0 <= i < r.patterns@.len() ==> r@[i] == r.patterns@[i]@,
{
}

// ── The search for what belongs to one machine ───────────────────────────────

/// A file is flagged exactly if it can be read, is small enough, is text, and holds
/// the name or the number of the machine.
pub proof fn law_what_is_flagged(
    size: u64,
    bytes: Seq<u8>,
    before: Seq<char>,
    after: Seq<char>,
    hostname: Seq<char>,
    machine_id: Seq<char>,
)
    requires
        valid_utf8(bytes),
    ensures
        ({
            let t = decode_utf8(bytes);
            let flagged = ignore::has_fingerprint(Some(size), Some(bytes), hostname, machine_id);
            &&& size <= 65536 && hostname.len() > 0 && t == before + hostname + after ==> flagged
            &&& size <= 65536 && machine_id.len() > 0 && t == before + machine_id + after ==> flagged
            &&& flagged ==> size <= 65536 && (hostname.len() > 0 && text::occurs(t, hostname) || machine_id.len() > 0
                && text::occurs(t, machine_id))
            &&& !ignore::has_fingerprint(None, Some(bytes), hostname, machine_id)
            &&& !ignore::has_fingerprint(Some(size), None, hostname, machine_id)
        }),
{
    texts::law_occurring(before, hostname, after, seq![]);
    texts::law_occurring(before, machine_id, after, seq![]);
}

/// What is not text is not flagged.
pub proof fn law_only_text_is_flagged(size: Option<u64>, bytes: Seq<u8>, hostname: Seq<char>, machine_id: Seq<char>)
    requires
        !valid_utf8(bytes),
    ensures
        !ignore::has_fingerprint(size, Some(bytes), hostname, machine_id),
{
}

/// The name and the number of the machine count without the white space round them.
pub proof fn law_names_of_machines_are_trimmed(before: Seq<char>, s: Seq<char>, after: Seq<char>)
    requires
        texts::blank(before) && texts::blank(after),
        s.len() > 0 && !text::is_space(s[0]) && !text::is_space(s.last()),
    ensures
        ignore::fingerprint_part(Some(before + s + after)) == s,
        ignore::fingerprint_part(None).len() == 0,
        ignore::fingerprint_part(Some(before)).len() == 0,
{
    texts::law_trimming_takes_only_white_space(before, s, after);
    texts::law_trimming_takes_only_white_space(before, seq![], seq![]);
    assert(before + Seq::<char>::empty() + Seq::<char>::empty() =~= before);
}

/// A search begins with the root alone; without a name and a number of the machine
/// there is nothing to look for.
pub proof fn law_searches_begin_at_the_root(
    root: Seq<char>,
    kind: EntryKind,
    hostname: Seq<char>,
    machine_id: Seq<char>,
)
    ensures
        ({
            let s = ScanView::of(root, kind, hostname, machine_id);
            &&& s.hostname == hostname && s.machine_id == machine_id && s.found.len() == 0
            &&& hostname.len() == 0 && machine_id.len() == 0 ==> s.pending.len() == 0
            &&& hostname.len() > 0 || machine_id.len() > 0 ==> s.pending.len() == 1 && s.pending[0].path == root
                && s.pending[0].kind == kind && s.pending[0].name.len() == 0
        }),
{
}

/// Whether a search passes over `e`: it is neither a file nor a directory, or it is a
/// directory of one of the names that never matter.
pub open spec fn is_passed_over(e: EntryView) -> bool {
    match e.kind {
        EntryKind::File => false,
        EntryKind::Dir => e.name == ".cache"@ || e.name == ".git"@ || e.name == ".local"@ || e.name == "node_modules"@
            || e.name == "__pycache__"@,
        EntryKind::Other => true,
    }
}

/// A search takes what is pending in order, and passes over only what never matters:
/// a file is read and a directory listed.
pub proof fn law_searches_go_in_order(s: ScanView, passed: Seq<EntryView>, e: EntryView, rest: Seq<EntryView>)
    requires
        forall|i: int| 0 <= i < passed.len() ==> is_passed_over(#[trigger] passed[i]),
        !is_passed_over(e),
    ensures
        s.pending == passed + seq![e] + rest ==> {
            &&& s.step() == (if e.kind == EntryKind::Dir {
                ScanStepView::List(e.path)
            } else {
                ScanStepView::Read(e.path)
            })
            &&& s.advanced() == ScanView { pending: rest, ..s }
        },
        s.pending == passed ==> s.step() == ScanStepView::Finished && s.advanced().pending.len() == 0
            && s.advanced().found == s.found,
    decreases passed.len(),
{
    let all = passed + seq![e] + rest;
    lemma_passed_over(passed, e, rest);
    if s.pending == all {
        assert((seq![e] + rest)[0] == e);
        assert((seq![e] + rest).skip(1) =~= rest);
    }
}

proof fn lemma_passed_over(passed: Seq<EntryView>, e: EntryView, rest: Seq<EntryView>)
    requires
        forall|i: int| 0 <= i < passed.len() ==> is_passed_over(#[trigger] passed[i]),
        !is_passed_over(e),
    ensures
        ignore::skip_unvisited(passed + seq![e] + rest) == seq![e] + rest,
        ignore::skip_unvisited(passed).len() == 0,
    decreases passed.len(),
{
    let all = passed + seq![e] + rest;
    if passed.len() == 0 {
        assert(all =~= seq![e] + rest);
        assert(all[0] == e);
    } else {
        let t = passed.skip(1);
        assert(is_passed_over(passed[0]));
        assert forall|i: int| 0 <= i < t.len() implies is_passed_over(#[trigger] t[i]) by {
            assert(t[i] == passed[i + 1]);
        }
        lemma_passed_over(t, e, rest);
        assert(all[0] == passed[0]);
        assert(all.skip(1) =~= t + seq![e] + rest);
    }
}

/// What a directory holds is looked at before what is behind it; a file that is
/// flagged is found, behind those found before; nothing else changes.
pub proof fn law_searches_remember(
    s: ScanView,
    entries: Seq<EntryView>,
    file: Seq<char>,
    size: Option<u64>,
    bytes: Option<Seq<u8>>,
)
    ensures
        s.listed(entries) == (ScanView { pending: entries + s.pending, ..s }),
        ignore::has_fingerprint(size, bytes, s.hostname, s.machine_id) ==> s.inspected(file, size, bytes) == (ScanView {
            found: s.found.push(file),
            ..s
        }),
        !ignore::has_fingerprint(size, bytes, s.hostname, s.machine_id) ==> s.inspected(file, size, bytes) == s,
{
}

/// A step of a search, and what it is told, is seen as it is.
pub proof fn law_searches_are_seen_whole(step: ScanStep, e: Entry, v: Seq<Entry>, i: int, bytes: Option<Vec<u8>>)
    ensures
        match (step, step@) {
            (ScanStep::List(p), ScanStepView::List(q)) => p@ == q,
            (ScanStep::Read(p), ScanStepView::Read(q)) => p@ == q,
            (ScanStep::Finished, ScanStepView::Finished) => true,
            _ => false,
        },
        e@.path == e.path@ && e@.name == e.name@ && e@.kind == e.kind,
        ignore::entries_view(v).len() == v.len(),
        0 <= i < v.len() ==> ignore::entries_view(v)[i] == v[i]@,
        ignore::bytes_view(bytes) is Some <==> bytes is Some,
        bytes matches Some(b) ==> ignore::bytes_view(bytes) == Some(b@),
{
}

// ── What directories hold ────────────────────────────────────────────────────

/// The child of a directory that a path lies in is named before its first slash.
pub proof fn law_first_names(name: Seq<char>, rest: Seq<char>)
    requires
        !name.contains('/'),
    ensures
        contents::first_name(name + seq!['/'] + rest) == name,
        contents::first_name(name) == name,
{
    texts::law_first_places(name, '/', rest);
    assert((name + seq!['/'] + rest).take(name.len() as int) =~= name);
    assert(name.take(name.len() as int) =~= name);
}

/// Every child is named once, in the order in which the paths first speak of them.
pub proof fn law_children_are_named_once(paths: Seq<Seq<char>>, p: Seq<char>, name: Seq<char>)
    ensures
        contents::first_names(paths).no_duplicates(),
        contents::first_names(paths).contains(name) <==> exists|i: int|
            0 <= i < paths.len() && contents::first_name(#[trigger] paths[i]) == name,
        contents::first_names(paths).is_prefix_of(contents::first_names(paths.push(p))),
        contents::first_names(seq![p]) == seq![contents::first_name(p)],
    decreases paths.len(),
{
    reveal_with_fuel(contents::first_names, 2);
    assert(seq![p].drop_last() =~= seq![]);
    assert(contents::first_names(seq![p]) =~= seq![contents::first_name(p)]);
    assert(paths.push(p).drop_last() =~= paths);
    let all = contents::first_names(paths);
    assert(all =~= all.push(contents::first_name(p)).take(all.len() as int));
    if paths.len() > 0 {
        let before = paths.drop_last();
        let earlier = contents::first_names(before);
        let last = contents::first_name(paths.last());
        law_children_are_named_once(before, p, name);
        if earlier.contains(name) {
            let i = choose|i: int| 0 <= i < before.len() && contents::first_name(#[trigger] before[i]) == name;
            assert(paths[i] == before[i]);
            let j = choose|j: int| 0 <= j < earlier.len() && earlier[j] == name;
            assert(all[j] == name);
        }
        if name == last {
            assert(paths[paths.len() - 1] == paths.last());
            if !earlier.contains(last) {
                assert(all[earlier.len() as int] == name);
            }
        }
        if all.contains(name) && !earlier.contains(name) {
            let j = choose|j: int| 0 <= j < all.len() && all[j] == name;
            if j < earlier.len() {
                assert(earlier[j] == name);
            }
            assert(name == last);
        }
        if exists|i: int| 0 <= i < paths.len() && contents::first_name(#[trigger] paths[i]) == name {
            let i = choose|i: int| 0 <= i < paths.len() && contents::first_name(#[trigger] paths[i]) == name;
            if i < before.len() {
                assert(contents::first_name(before[i]) == name);
            } else {
                assert(paths[i] == paths.last());
            }
        }
    }
}

/// The children of a directory are those of its directories and of its files, and
/// what is left out of it is left out of both, a directory by the rules for
/// directories.
pub proof fn law_directories_and_files_count(c: ContentsView, patterns: Seq<Seq<char>>)
    ensures
        c.children() == contents::first_names(c.dirs + c.files),
        c.without(patterns).dirs == ignore::kept(patterns, c.dirs, true),
        c.without(patterns).files == ignore::kept(patterns, c.files, false),
{
}

/// Of what `find` lists, what ends with a slash is a directory and what does not is a
/// file, each named from the directory that was searched.
pub proof fn law_listings_are_read(a: Seq<Seq<char>>, b: Seq<Seq<char>>, name: Seq<char>)
    requires
        name.len() > 0 && name.last() != '/',
    ensures
        contents::listed(a + b).dirs == contents::listed(a).dirs + contents::listed(b).dirs,
        contents::listed(a + b).files == contents::listed(a).files + contents::listed(b).files,
        contents::listed(seq!["./"@ + name + "/"@]) == (ContentsView { dirs: seq![name], files: seq![] }),
        contents::listed(seq!["./"@ + name]) == (ContentsView { dirs: seq![], files: seq![name] }),
        !"./"@.is_prefix_of(name) ==> contents::listed(seq![name]) == (ContentsView {
            dirs: seq![],
            files: seq![name],
        }),
        !"./"@.is_prefix_of(name) ==> contents::listed(seq![name + "/"@]) == (
        ContentsView { dirs: seq![name], files: seq![] }),
        contents::listed(seq![]) == (ContentsView { dirs: seq![], files: seq![] }),
    decreases b.len(),
{
    reveal_strlit("./");
    reveal_strlit("/");
    reveal_with_fuel(contents::listed, 2);
    let file = "./"@ + name;
    let dir = file + "/"@;
    assert(seq![file].drop_last() =~= seq![]);
    assert(seq![dir].drop_last() =~= seq![]);
    assert(seq![name].drop_last() =~= seq![]);
    assert(dir.last() == '/' && file.last() == name.last());
    assert(dir.drop_last() =~= file);
    assert(file.take(2) =~= "./"@);
    assert(file.skip(2) =~= name);
    assert(contents::listed(seq![dir]).dirs =~= seq![name]);
    let plain = name + "/"@;
    assert(seq![plain].drop_last() =~= seq![]);
    assert(plain.drop_last() =~= name);
    if !"./"@.is_prefix_of(name) {
        if text::has_prefix(name, "./"@) {
            assert("./"@.is_prefix_of(name));
        }
        assert(contents::listed(seq![plain]).dirs =~= seq![name]);
    }
    assert(contents::listed(seq![file]).files =~= seq![name]);
    if !"./"@.is_prefix_of(name) {
        if text::has_prefix(name, "./"@) {
            assert("./"@.is_prefix_of(name));
        }
        assert(contents::listed(seq![name]).files =~= seq![name]);
    }
    if b.len() == 0 {
        assert(a + b =~= a);
    } else {
        law_listings_are_read(a, b.drop_last(), name);
        assert((a + b).drop_last() =~= a + b.drop_last());
        assert((a + b).last() == b.last());
    }
    assert(contents::listed(a + b).dirs =~= contents::listed(a).dirs + contents::listed(b).dirs);
    assert(contents::listed(a + b).files =~= contents::listed(a).files + contents::listed(b).files);
}

/// Only a slash at the end makes what is listed a directory.
pub proof fn law_what_is_listed_as_a_directory(entry: Seq<char>)
    ensures
        contents::is_listed_dir(entry + seq!['/']),
        contents::is_listed_dir(entry) ==> entry.len() > 0 && entry.last() == '/',
{
}

/// Of what a directory holds, what is of a kind is named below the directory, in
/// order.
pub proof fn law_entries_are_named_below_their_directory(
    dir: Seq<char>,
    a: Seq<EntryView>,
    b: Seq<EntryView>,
    e: EntryView,
    kind: EntryKind,
)
    ensures
        contents::paths_of(dir, a + b, kind) == contents::paths_of(dir, a, kind) + contents::paths_of(dir, b, kind),
        e.kind == kind && dir.len() > 0 ==> contents::paths_of(dir, seq![e], kind) == seq![dir + "/"@ + e.name],
        e.kind == kind && dir.len() == 0 ==> contents::paths_of(dir, seq![e], kind) == seq![e.name],
        e.kind != kind ==> contents::paths_of(dir, seq![e], kind).len() == 0,
    decreases b.len(),
{
    reveal_with_fuel(contents::paths_of, 2);
    let one = seq![e];
    assert(one.drop_last() =~= seq![]);
    assert(e.kind == kind ==> contents::paths_of(dir, one, kind) =~= seq![contents::under(dir, e.name)]);
    if b.len() == 0 {
        assert(a + b =~= a);
    } else {
        law_entries_are_named_below_their_directory(dir, a, b.drop_last(), e, kind);
        assert((a + b).drop_last() =~= a + b.drop_last());
        assert((a + b).last() == b.last());
    }
    assert(contents::paths_of(dir, a + b, kind) =~= contents::paths_of(dir, a, kind) + contents::paths_of(dir, b, kind));
}

/// A walk begins at the top with nothing found; every directory that is listed adds
/// its directories, which will be listed too, and its files.
pub proof fn law_walks_go_everywhere(w: WalkView, dir: Seq<char>, entries: Seq<EntryView>)
    ensures
        WalkView::start().pending == seq![Seq::<char>::empty()],
        WalkView::start().found.dirs.len() == 0 && WalkView::start().found.files.len() == 0,
        ({
            let dirs = contents::paths_of(dir, entries, EntryKind::Dir);
            let files = contents::paths_of(dir, entries, EntryKind::File);
            &&& w.listed(dir, entries).pending == w.pending + dirs
            &&& w.listed(dir, entries).found.dirs == w.found.dirs + dirs
            &&& w.listed(dir, entries).found.files == w.found.files + files
        }),
{
}

/// What a directory holds is seen as it is.
pub proof fn law_contents_are_seen_whole(c: Contents, i: int)
    ensures
        c@.dirs.len() == c.dirs@.len() && c@.files.len() == c.files@.len(),
        0 <= i < c.dirs@.len() ==> c@.dirs[i] == c.dirs@[i]@,
        0 <= i < c.files@.len() ==> c@.files[i] == c.files@[i]@,
{
}

} // verus!
