//! Exclusion patterns and the paths that they cover.
//!
//! `*` stands for any characters but slashes, `**` for any characters, `?` for
//! one character that is not a slash and `[...]` for one of the characters listed
//! (`[!...]` or `[^...]`: for any other).  In a pattern with one of these a
//! backslash takes away the meaning of the character behind it; in any other it
//! stands for itself.  A slash at the end restricts the pattern to directories,
//! one at the beginning ties it to the root of the transfer; any other pattern
//! covers a path whose last components it describes.
//!
//! This much of what rsync reads in `--exclude` is read here.  Character classes
//! such as `[[:alpha:]]`, a backslash between brackets, and the prefixes `+ `,
//! `- ` and `!`, by which rsync tells rules apart, are not: they stand for their
//! characters.

use vstd::prelude::*;
use vstd::string::*;
use crate::text;

verus! {

// ── Characters between brackets ──────────────────────────────────────────────

/// Where the first `]` at or after `i` stands; the length of `p` where there is
/// none.
pub open spec fn closing(p: Seq<char>, i: int) -> int
    decreases p.len() - i,
{
    if i >= p.len() {
        p.len() as int
    } else if p[i] == ']' {
        i
    } else {
        closing(p, i + 1)
    }
}

/// Where the characters listed begin in a pattern that begins with `[`.
pub open spec fn listed_from(p: Seq<char>) -> int {
    if p.len() > 1 && (p[1] == '!' || p[1] == '^') {
        2
    } else {
        1
    }
}

/// Where the `]` stands that ends the list at the beginning of `p`.  The first
/// character listed is listed whatever it is.
pub open spec fn listed_to(p: Seq<char>) -> int {
    closing(p, listed_from(p) + 1)
}

/// Whether `c` is among the characters from `i` on and before `end`; `a-z` lists
/// a range.
pub open spec fn is_listed(p: Seq<char>, i: int, end: int, c: char) -> bool
    decreases end - i,
{
    if i >= end {
        false
    } else if i + 2 < end && p[i + 1] == '-' {
        (p[i] as u32 <= c as u32 && c as u32 <= p[i + 2] as u32) || is_listed(p, i + 3, end, c)
    } else {
        p[i] == c || is_listed(p, i + 1, end, c)
    }
}

/// Whether the brackets at the beginning of `p` stand for `c`.
pub open spec fn brackets_allow(p: Seq<char>, c: char) -> bool {
    c != '/' && is_listed(p, listed_from(p), listed_to(p), c) == (listed_from(p) == 1)
}

fn find_closing(p: &Vec<char>, from: usize) -> (r: usize)
    requires
        from <= p@.len(),
    ensures
        r == closing(p@, from as int),
        from <= r <= p@.len(),
{
    let mut i: usize = from;
    while i < p.len()
        invariant
            from <= i <= p@.len(),
            closing(p@, i as int) == closing(p@, from as int),
        decreases p@.len() - i,
    {
        if p[i] == ']' {
            return i;
        }
        i += 1;
    }
    i
}

fn char_is_listed(p: &Vec<char>, from: usize, end: usize, c: char) -> (r: bool)
    requires
        end <= p@.len(),
    ensures
        r == is_listed(p@, from as int, end as int, c),
{
    let mut i: usize = from;
    while i < end
        invariant
            end <= p@.len(),
            is_listed(p@, i as int, end as int, c) == is_listed(p@, from as int, end as int, c),
        decreases end - i,
    {
        if end - i > 2 && p[i + 1] == '-' {
            if p[i] as u32 <= c as u32 && c as u32 <= p[i + 2] as u32 {
                return true;
            }
            i += 3;
        } else {
            if p[i] == c {
                return true;
            }
            i += 1;
        }
    }
    false
}

// ── Whole patterns ───────────────────────────────────────────────────────────

/// Whether the pattern `p` describes the whole of `s`.
pub open spec fn describes(p: Seq<char>, s: Seq<char>) -> bool
    decreases p.len(), s.len(),
{
    if p.len() == 0 {
        s.len() == 0
    } else if p[0] == '*' && p.len() > 1 && p[1] == '*' {
        describes(p.skip(2), s) || (s.len() > 0 && describes(p, s.skip(1)))
    } else if p[0] == '*' {
        describes(p.skip(1), s) || (s.len() > 0 && s[0] != '/' && describes(p, s.skip(1)))
    } else if s.len() == 0 {
        false
    } else if p[0] == '?' {
        s[0] != '/' && describes(p.skip(1), s.skip(1))
    } else if p[0] == '\\' && p.len() > 1 {
        s[0] == p[1] && describes(p.skip(2), s.skip(1))
    } else if p[0] == '[' {
        listed_from(p) < listed_to(p) < p.len() && brackets_allow(p, s[0]) && describes(
            p.skip(listed_to(p) + 1),
            s.skip(1),
        )
    } else {
        s[0] == p[0] && describes(p.skip(1), s.skip(1))
    }
}

/// Whether some character of a pattern stands for others.
pub open spec fn has_wildcard(p: Seq<char>) -> bool {
    p.contains('*') || p.contains('?') || p.contains('[')
}

/// Whether the pattern `p` stands for the whole of `s`.
pub open spec fn stands_for(p: Seq<char>, s: Seq<char>) -> bool {
    if has_wildcard(p) {
        describes(p, s)
    } else {
        p == s
    }
}

/// Whether a component of the path `s` begins at `i`.
pub open spec fn begins_component(s: Seq<char>, i: int) -> bool {
    0 <= i < s.len() && (i == 0 || s[i - 1] == '/')
}

/// Whether a pattern is for directories only.
pub open spec fn is_for_dirs(pattern: Seq<char>) -> bool {
    pattern.len() > 0 && pattern.last() == '/'
}

/// A pattern without the slash that restricts it to directories.
pub open spec fn without_slash(pattern: Seq<char>) -> Seq<char> {
    if is_for_dirs(pattern) {
        pattern.drop_last()
    } else {
        pattern
    }
}

/// Whether a pattern covers a path, given from the root of the transfer.
pub open spec fn covers(pattern: Seq<char>, relative: Seq<char>, is_dir: bool) -> bool {
    let p = without_slash(pattern);
    &&& is_for_dirs(pattern) ==> is_dir
    &&& if p.len() > 0 && p[0] == '/' {
        stands_for(p.skip(1), relative)
    } else {
        exists|i: int| begins_component(relative, i) && #[trigger] stands_for(p, relative.skip(i))
    }
}

fn tail(p: &Vec<char>, from: usize) -> (r: Vec<char>)
    requires
        from <= p@.len(),
    ensures
        r@ == p@.skip(from as int),
{
    let mut out: Vec<char> = Vec::new();
    let mut i: usize = from;
    while i < p.len()
        invariant
            from <= i <= p@.len(),
            out@ == p@.subrange(from as int, i as int),
        decreases p@.len() - i,
    {
        out.push(p[i]);
        assert(p@.subrange(from as int, i as int).push(p@[i as int]) =~= p@.subrange(from as int, i + 1));
        i += 1;
    }
    assert(p@.subrange(from as int, p@.len() as int) =~= p@.skip(from as int));
    out
}

fn describes_from(p: &Vec<char>, i: usize, s: &Vec<char>, j: usize) -> (r: bool)
    requires
        i <= p@.len(),
        j <= s@.len(),
    ensures
        r == describes(p@.skip(i as int), s@.skip(j as int)),
    decreases p@.len() - i, s@.len() - j,
{
    let ghost ps = p@.skip(i as int);
    let ghost ss = s@.skip(j as int);
    if i == p.len() {
        return j == s.len();
    }
    assert(ps.skip(1) =~= p@.skip(i + 1));
    if j < s.len() {
        assert(ss.skip(1) =~= s@.skip(j + 1));
    }
    if p[i] == '*' && p.len() - i > 1 && p[i + 1] == '*' {
        assert(ps.skip(2) =~= p@.skip(i + 2));
        return describes_from(p, i + 2, s, j) || (j < s.len() && describes_from(p, i, s, j + 1));
    }
    if p[i] == '*' {
        return describes_from(p, i + 1, s, j) || (j < s.len() && s[j] != '/' && describes_from(p, i, s, j + 1));
    }
    if j == s.len() {
        return false;
    }
    if p[i] == '?' {
        s[j] != '/' && describes_from(p, i + 1, s, j + 1)
    } else if p[i] == '\\' && p.len() - i > 1 {
        assert(ps.skip(2) =~= p@.skip(i + 2));
        s[j] == p[i + 1] && describes_from(p, i + 2, s, j + 1)
    } else if p[i] == '[' {
        let rest = tail(p, i);
        let from: usize = if rest.len() > 1 && (rest[1] == '!' || rest[1] == '^') {
            2
        } else {
            1
        };
        if from == rest.len() {
            assert(listed_to(ps) == ps.len());
            return false;
        }
        let end = find_closing(&rest, from + 1);
        if end == rest.len() {
            return false;
        }
        assert(ps.skip(end + 1) =~= p@.skip(i + end + 1));
        s[j] != '/' && char_is_listed(&rest, from, end, s[j]) == (from == 1) && describes_from(
            p,
            i + end + 1,
            s,
            j + 1,
        )
    } else {
        s[j] == p[i] && describes_from(p, i + 1, s, j + 1)
    }
}

fn stands_for_from(p: &Vec<char>, s: &Vec<char>, j: usize) -> (r: bool)
    requires
        j <= s@.len(),
    ensures
        r == stands_for(p@, s@.skip(j as int)),
{
    let mut i: usize = 0;
    while i < p.len()
        invariant
            i <= p@.len(),
            j <= s@.len(),
            forall|k: int| 0 <= k < i ==> p@[k] != '*' && p@[k] != '?' && p@[k] != '[',
        decreases p@.len() - i,
    {
        if p[i] == '*' || p[i] == '?' || p[i] == '[' {
            assert(p@.contains(p@[i as int]));
            assert(p@.skip(0) =~= p@);
            return describes_from(p, 0, s, j);
        }
        i += 1;
    }
    assert(!has_wildcard(p@));
    let rest = tail(s, j);
    p.len() == rest.len() && equal_chars(p, &rest)
}

fn equal_chars(a: &Vec<char>, b: &Vec<char>) -> (r: bool)
    requires
        a@.len() == b@.len(),
    ensures
        r == (a@ == b@),
{
    let mut i: usize = 0;
    while i < a.len()
        invariant
            i <= a@.len(),
            a@.len() == b@.len(),
            forall|k: int| 0 <= k < i ==> a@[k] == b@[k],
        decreases a@.len() - i,
    {
        if a[i] != b[i] {
            return false;
        }
        i += 1;
    }
    assert(a@ =~= b@);
    true
}

/// Whether a pattern covers a path, given from the root of the transfer.
pub fn covers_path(pattern: &str, relative: &str, is_dir: bool) -> (r: bool)
    ensures
        r == covers(pattern@, relative@, is_dir),
{
    let mut p = text::chars_of(pattern);
    let s = text::chars_of(relative);
    if p.len() > 0 && p[p.len() - 1] == '/' {
        if !is_dir {
            return false;
        }
        p.pop();
    }
    assert(p@ =~= without_slash(pattern@));
    assert(s@.skip(0) =~= s@);
    if p.len() > 0 && p[0] == '/' {
        let rest = tail(&p, 1);
        return stands_for_from(&rest, &s, 0);
    }
    let mut i: usize = 0;
    while i < s.len()
        invariant
            i <= s@.len(),
            s@ == relative@,
            p@ == without_slash(pattern@),
            !(p@.len() > 0 && p@[0] == '/'),
            is_for_dirs(pattern@) ==> is_dir,
            forall|k: int| begins_component(relative@, k) && k < i ==> !#[trigger] stands_for(p@, relative@.skip(k)),
        decreases s@.len() - i,
    {
        if (i == 0 || s[i - 1] == '/') && stands_for_from(&p, &s, i) {
            assert(begins_component(relative@, i as int));
            return true;
        }
        i += 1;
    }
    false
}

// ── Laws ─────────────────────────────────────────────────────────────────────

/// Whether no character of a pattern has a meaning of its own.
pub open spec fn is_plain(p: Seq<char>) -> bool {
    forall|i: int| 0 <= i < p.len() ==> (#[trigger] p[i]) != '*' && p[i] != '?' && p[i] != '[' && p[i] != '\\'
}

/// A plain pattern describes itself alone.
pub proof fn law_plain_patterns_describe_themselves(p: Seq<char>, s: Seq<char>)
    requires
        is_plain(p),
    ensures
        describes(p, s) <==> p == s,
    decreases p.len(),
{
    if p.len() == 0 {
        if s.len() == 0 {
            assert(p =~= s);
        }
    } else if s.len() > 0 {
        assert(p[0] != '*');
        assert forall|i: int| 0 <= i < p.skip(1).len() implies (#[trigger] p.skip(1)[i]) != '*' && p.skip(1)[i] != '?'
            && p.skip(1)[i] != '[' && p.skip(1)[i] != '\\' by {
            assert(p.skip(1)[i] == p[i + 1]);
        }
        law_plain_patterns_describe_themselves(p.skip(1), s.skip(1));
        assert(seq![p[0]] + p.skip(1) =~= p);
        assert(seq![s[0]] + s.skip(1) =~= s);
    } else {
        assert(p[0] != '*');
    }
}

/// A star before a plain pattern describes every text that ends with the pattern
/// and has no slash before it.
pub proof fn law_star_describes_endings(p: Seq<char>, s: Seq<char>)
    requires
        is_plain(p),
    ensures
        describes(seq!['*'] + p, s) <==> {
            let k = s.len() - p.len();
            &&& k >= 0
            &&& s.skip(k) == p
            &&& forall|i: int| 0 <= i < k ==> s[i] != '/'
        },
    decreases s.len(),
{
    let star = seq!['*'] + p;
    let k = s.len() - p.len();
    assert(star.skip(1) =~= p);
    assert(star[0] == '*');
    if star.len() > 1 {
        assert(star[1] == p[0]);
    }
    law_plain_patterns_describe_themselves(p, s);
    if k == 0 {
        assert(s.skip(0) =~= s);
    }
    if s.len() > 0 {
        let rest = s.skip(1);
        law_star_describes_endings(p, rest);
        if k >= 1 {
            assert(rest.skip(k - 1) =~= s.skip(k));
            if s[0] != '/' {
                assert forall|i: int| 0 <= i < k && forall|j: int| 0 <= j < k - 1 ==> rest[j] != '/' implies s[i]
                    != '/' by {
                    if i > 0 {
                        assert(rest[i - 1] == s[i]);
                    }
                }
                assert forall|j: int| 0 <= j < k - 1 && forall|i: int| 0 <= i < k ==> s[i] != '/' implies rest[j]
                    != '/' by {
                    assert(rest[j] == s[j + 1]);
                }
            }
        }
    }
}

/// A plain name covers every path whose last component it is; with a slash
/// behind it, every directory of that name.
pub proof fn law_plain_names_cover_wherever_they_stand(dir: Seq<char>, name: Seq<char>, is_dir: bool)
    requires
        is_plain(name),
        name.len() > 0,
        !name.contains('/'),
    ensures
        covers(name, name, is_dir),
        covers(name, dir + seq!['/'] + name, is_dir),
        covers(name.push('/'), name, is_dir) <==> is_dir,
        covers(name.push('/'), dir + seq!['/'] + name, is_dir) <==> is_dir,
{
    let whole = dir + seq!['/'] + name;
    let k = dir.len() + 1;
    assert(name.contains(name[0]));
    assert(name.contains(name.last()));
    assert(name.push('/').drop_last() =~= name);
    law_plain_patterns_describe_themselves(name, name);
    assert(name.skip(0) =~= name);
    assert(begins_component(name, 0));
    assert(stands_for(name, name.skip(0)));
    assert(whole.skip(k as int) =~= name);
    assert(whole[k - 1] == '/');
    assert(begins_component(whole, k as int));
    assert(stands_for(name, whole.skip(k as int)));
}

} // verus!
