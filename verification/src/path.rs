//! File system paths as text, with the rules of Unix path syntax.

use vstd::prelude::*;
use vstd::string::*;
use crate::text;

verus! {

/// `rest` taken relative to `base`; an absolute `rest` stands for itself.
pub open spec fn joined(base: Seq<char>, rest: Seq<char>) -> Seq<char> {
    if rest.len() > 0 && rest[0] == '/' {
        rest
    } else if base.len() == 0 || base.last() == '/' {
        base + rest
    } else {
        base + "/"@ + rest
    }
}

/// `rest` taken relative to `base`; an absolute `rest` stands for itself.
pub fn join(base: &str, rest: &str) -> (r: String)
    ensures
        r@ == joined(base@, rest@),
{
    let rs = text::chars_of(rest);
    if rs.len() > 0 && rs[0] == '/' {
        return rest.to_string();
    }
    let bs = text::chars_of(base);
    let mut s = base.to_string();
    if bs.len() > 0 && bs[bs.len() - 1] != '/' {
        s.append("/");
    }
    s.append(rest);
    s
}

/// The path of `rest` in the directory `dir`.
pub open spec fn inside(dir: Seq<char>, rest: Seq<char>) -> Seq<char> {
    if dir.len() > 0 && dir.last() == '/' {
        dir + rest
    } else {
        dir + "/"@ + rest
    }
}

/// The path of `rest` in the directory `dir`.
pub fn place_inside(dir: &str, rest: &str) -> (r: String)
    ensures
        r@ == inside(dir@, rest@),
{
    let ds = text::chars_of(dir);
    if ds.len() > 0 && ds[ds.len() - 1] == '/' {
        dir.to_string().concat(rest)
    } else {
        dir.to_string().concat("/").concat(rest)
    }
}

/// Different paths in one directory stay different.
pub proof fn lemma_inside_is_injective(dir: Seq<char>, a: Seq<char>, b: Seq<char>)
    requires
        inside(dir, a) == inside(dir, b),
    ensures
        a == b,
{
    let k = inside(dir, a).len() - a.len();
    assert(inside(dir, a).skip(k) =~= a);
    assert(inside(dir, b).skip(k) =~= b);
}

/// Where the last slash of a path stands; `-1` where there is none.
pub open spec fn last_slash(p: Seq<char>) -> int
    decreases p.len(),
{
    if p.len() == 0 {
        -1
    } else if p.last() == '/' {
        p.len() - 1
    } else {
        last_slash(p.drop_last())
    }
}

/// What stands before the last slash of a path; nothing where there is none.
pub open spec fn parent(p: Seq<char>) -> Seq<char> {
    if last_slash(p) > 0 {
        p.take(last_slash(p))
    } else {
        seq![]
    }
}

/// What stands behind the last slash of a path; all of it where there is none.
pub open spec fn last_name(p: Seq<char>) -> Seq<char> {
    p.skip(last_slash(p) + 1)
}

/// The number of characters up to the last slash, that slash among them.
fn last_slash_end(cs: &Vec<char>) -> (r: usize)
    ensures
        r == last_slash(cs@) + 1,
        r <= cs@.len(),
{
    let mut i: usize = cs.len();
    assert(cs@.take(i as int) =~= cs@);
    while i > 0
        invariant
            i <= cs@.len(),
            last_slash(cs@.take(i as int)) == last_slash(cs@),
        decreases i,
    {
        if cs[i - 1] == '/' {
            return i;
        }
        assert(cs@.take(i as int).drop_last() =~= cs@.take(i - 1));
        i -= 1;
    }
    0
}

/// What stands before the last slash of a path; nothing where there is none.
pub fn parent_of(p: &str) -> (r: String)
    ensures
        r@ == parent(p@),
{
    let cs = text::chars_of(p);
    let end = last_slash_end(&cs);
    if end > 1 {
        let r = text::string_of(&cs, 0, end - 1);
        assert(r@ =~= p@.take(end - 1));
        r
    } else {
        String::new()
    }
}

/// What stands behind the last slash of a path; all of it where there is none.
pub fn last_name_of(p: &str) -> (r: String)
    ensures
        r@ == last_name(p@),
{
    let cs = text::chars_of(p);
    let n: usize = cs.len();
    let end = last_slash_end(&cs);
    assert(cs@.subrange(end as int, n as int) =~= p@.skip(end as int));
    text::string_of(&cs, end, n)
}

/// A path in a directory has the directory for its parent, and the name that it
/// was given.
pub proof fn law_what_is_placed_in_a_directory_lies_in_it(dir: Seq<char>, name: Seq<char>)
    requires
        dir.len() > 0,
        dir.last() != '/',
        !name.contains('/'),
    ensures
        parent(inside(dir, name)) == dir,
        last_name(inside(dir, name)) == name,
{
    reveal_strlit("/");
    let p = inside(dir, name);
    let k = dir.len() as int;
    assert(p.take(k) =~= dir);
    assert(p.skip(k + 1) =~= name);
    lemma_last_slash(p, k);
}

proof fn lemma_last_slash(p: Seq<char>, k: int)
    requires
        0 <= k < p.len(),
        p[k] == '/',
        !p.skip(k + 1).contains('/'),
    ensures
        last_slash(p) == k,
    decreases p.len(),
{
    if k < p.len() - 1 {
        let after = p.skip(k + 1);
        assert(after[p.len() - 1 - (k + 1)] == p.last());
        assert(after.contains(p.last()));
        let shorter = p.drop_last().skip(k + 1);
        assert forall|i: int| 0 <= i < shorter.len() implies shorter[i] != '/' by {
            assert(shorter[i] == after[i]);
            assert(after.contains(after[i]));
        }
        lemma_last_slash(p.drop_last(), k);
    }
}

/// Whether `home` can be the user's home directory, where there is one: its name
/// is not empty.
pub open spec fn is_home(home: Option<Seq<char>>) -> bool {
    home matches Some(h) ==> h.len() > 0
}

/// `dirs::home_dir`: the user's home directory, or `None` where none can be
/// determined or its name is not text (not UTF-8).  It comes from the environment or the user database, so
/// nothing is promised of which directory it is, only that its name is not empty.
#[verifier::external_body]
pub(crate) fn home_dir() -> (r: Option<String>)
    ensures
        is_home(text::opt(r)),
{
    dirs::home_dir().and_then(|d| d.to_str().map(|s| s.to_string()))
}

/// The named parts of a path: what stands between slashes, without the empty
/// parts and without `.`.
pub open spec fn names(p: Seq<char>) -> Seq<Seq<char>>
    decreases p.len(),
{
    if p.len() == 0 {
        seq![]
    } else {
        let k = text::first_index(p, '/');
        let rest = if 0 <= k < p.len() {
            names(p.skip(k + 1))
        } else {
            seq![]
        };
        let part = p.take(k);
        if part.len() == 0 || part == seq!['.'] {
            rest
        } else {
            seq![part] + rest
        }
    }
}

/// The components of a path: the root `/` or a leading `.`, if the path begins
/// with one, and then its named parts.
pub open spec fn components(p: Seq<char>) -> Seq<Seq<char>> {
    if p.len() > 0 && p[0] == '/' {
        seq![seq!['/']] + names(p)
    } else if p.take(text::first_index(p, '/')) == seq!['.'] {
        seq![seq!['.']] + names(p)
    } else {
        names(p)
    }
}

/// Whether `p` is `base` or lies under it, component by component.
pub open spec fn is_under(p: Seq<char>, base: Seq<char>) -> bool {
    &&& components(base).len() <= components(p).len()
    &&& components(p).take(components(base).len() as int) == components(base)
}

/// The components of a path.
pub fn split_components(p: &str) -> (r: Vec<String>)
    ensures
        text::strs(r@) == components(p@),
{
    broadcast use text::lemma_strs_push;

    let cs = text::chars_of(p);
    let n: usize = cs.len();
    let mut out: Vec<String> = Vec::new();
    assert(cs@.skip(0) =~= cs@);
    let first = text::find_char(&cs, 0, '/');
    if n > 0 && cs[0] == '/' {
        let root = text::string_of(&cs, 0, 1);
        assert(root@ =~= seq!['/']);
        out.push(root);
    } else if first == 1 && cs[0] == '.' {
        let here = text::string_of(&cs, 0, 1);
        assert(here@ =~= seq!['.']);
        assert(cs@.take(1) =~= seq!['.']);
        out.push(here);
    }
    let ghost head = text::strs(out@);
    proof {
        text::lemma_first_index(cs@, '/');
        let lead = cs@.take(first as int);
        if n > 0 && cs@[0] == '/' {
            assert(head =~= seq![seq!['/']]);
        } else if first == 1 && cs@[0] == '.' {
            assert(lead =~= seq!['.']);
            assert(head =~= seq![seq!['.']]);
        } else {
            if lead == seq!['.'] {
                assert(lead.len() == 1);
                assert(lead[0] == '.');
            }
            assert(head =~= seq![]);
            assert(head + names(cs@) =~= names(cs@));
        }
        assert(head + names(cs@) == components(cs@));
    }
    let mut i: usize = 0;
    while i < n
        invariant
            i <= n,
            n == cs@.len(),
            text::strs(out@) + names(cs@.skip(i as int)) == head + names(cs@),
        decreases n - i,
    {
        let ghost rest = cs@.skip(i as int);
        let ghost done = text::strs(out@);
        let k = text::find_char(&cs, i, '/');
        proof {
            text::lemma_first_index(rest, '/');
            assert(cs@.subrange(i as int, k as int) =~= rest.take(k - i));
            if k < n {
                assert(rest.skip(k - i + 1) =~= cs@.skip(k + 1));
            } else {
                assert(cs@.skip(n as int) =~= seq![]);
            }
            if k == i + 1 && cs@[i as int] == '.' {
                assert(rest.take(1) =~= seq!['.']);
            }
            if rest.take(k - i) == seq!['.'] {
                assert(rest.take(k - i)[0] == '.');
            }
        }
        if k == i || (k == i + 1 && cs[i] == '.') {
        } else {
            out.push(text::string_of(&cs, i, k));
        }
        let ghost tail = if k < n {
            names(cs@.skip(k + 1))
        } else {
            seq![]
        };
        assert(text::strs(out@) + tail =~= done + names(rest));
        if k < n {
            i = k + 1;
        } else {
            i = n;
        }
    }
    assert(cs@.skip(n as int) =~= seq![]);
    assert(text::strs(out@) + names(cs@.skip(i as int)) =~= text::strs(out@));
    out
}

/// Whether `p` is `base` or lies under it, component by component.
pub fn starts_with(p: &str, base: &str) -> (r: bool)
    ensures
        r == is_under(p@, base@),
{
    let x = split_components(p);
    let y = split_components(base);
    let ghost xs = text::strs(x@);
    let ghost ys = text::strs(y@);
    if y.len() > x.len() {
        return false;
    }
    let mut i: usize = 0;
    while i < y.len()
        invariant
            xs == text::strs(x@),
            ys == text::strs(y@),
            xs == components(p@),
            ys == components(base@),
            i <= y@.len() <= x@.len(),
            forall|j: int| 0 <= j < i ==> xs[j] == ys[j],
        decreases y@.len() - i,
    {
        if x[i] != y[i] {
            assert(xs.take(ys.len() as int)[i as int] != ys[i as int]);
            return false;
        }
        i += 1;
    }
    assert(xs.take(ys.len() as int) =~= ys);
    true
}

/// Every path lies under itself.
pub proof fn law_every_path_lies_under_itself(p: Seq<char>)
    ensures
        is_under(p, p),
{
    assert(components(p).take(components(p).len() as int) =~= components(p));
}

/// What lies under a path lies under whatever that path lies under.
pub proof fn law_lying_under_is_transitive(p: Seq<char>, q: Seq<char>, r: Seq<char>)
    requires
        is_under(p, q),
        is_under(q, r),
    ensures
        is_under(p, r),
{
    assert(components(p).take(components(r).len() as int) =~= components(p).take(components(q).len() as int).take(
        components(r).len() as int,
    ));
}

} // verus!
