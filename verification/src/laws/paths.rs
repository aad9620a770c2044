//! Laws on paths.

use vstd::prelude::*;
use vstd::string::*;
use crate::path;
use crate::text;

verus! {

/// Whether `name` is the name of one file or directory.
pub open spec fn is_name(name: Seq<char>) -> bool {
    name.len() > 0 && !name.contains('/') && name != seq!['.']
}

/// The named parts of a path are those before a slash and those behind it.
pub proof fn law_parts_are_divided_by_slashes(a: Seq<char>, b: Seq<char>)
    ensures
        path::names(a + seq!['/'] + b) == path::names(a) + path::names(b),
    decreases a.len(),
{
    let whole = a + seq!['/'] + b;
    text::lemma_first_index(a, '/');
    let k = text::first_index(a, '/');
    if k < a.len() {
        assert forall|i: int| 0 <= i < k implies whole[i] != '/' by {
            assert(whole[i] == a[i]);
        }
        assert(whole[k] == a[k]);
        text::lemma_first_index_unique(whole, '/', k);
        let rest = a.skip(k + 1);
        assert(whole.skip(k + 1) =~= rest + seq!['/'] + b);
        assert(whole.take(k) =~= a.take(k));
        law_parts_are_divided_by_slashes(rest, b);
        assert(path::names(whole) =~= path::names(a) + path::names(b));
    } else {
        assert forall|i: int| 0 <= i < k implies whole[i] != '/' by {
            assert(whole[i] == a[i]);
        }
        text::lemma_first_index_unique(whole, '/', k);
        assert(whole.skip(k + 1) =~= b);
        assert(whole.take(k) =~= a);
        assert(a.take(k) =~= a);
        assert(path::names(whole) =~= path::names(a) + path::names(b));
    }
}

/// A single name is its own only part; no name at all and `.` have none.
pub proof fn law_a_name_is_its_own_part(name: Seq<char>)
    requires
        is_name(name),
    ensures
        path::names(name) == seq![name],
        path::names(seq![]) == Seq::<Seq<char>>::empty(),
        path::names(seq!['.']) == Seq::<Seq<char>>::empty(),
{
    lemma_no_slash(name);
    assert(name.take(name.len() as int) =~= name);
    assert(!seq!['.'].contains('/')) by {
        assert(seq!['.'][0] == '.');
    }
    lemma_no_slash(seq!['.']);
    assert(seq!['.'].take(1) =~= seq!['.']);
}

proof fn lemma_no_slash(s: Seq<char>)
    requires
        !s.contains('/'),
    ensures
        text::first_index(s, '/') == s.len(),
{
    assert forall|i: int| 0 <= i < s.len() implies s[i] != '/' by {
        assert(s.contains(s[i]));
    }
    text::lemma_first_index_unique(s, '/', s.len() as int);
}

/// The components of a path in a directory are those of the directory and then the
/// named parts of the rest, whatever they are called.
pub proof fn law_components_of_a_path_in_a_directory(base: Seq<char>, rest: Seq<char>)
    requires
        base.len() > 0,
    ensures
        path::components(path::inside(base, rest)) == path::components(base) + path::names(rest),
        path::components(seq!['/']) == seq![seq!['/']],
{
    reveal_strlit("/");
    let whole = path::inside(base, rest);
    assert("/"@ =~= seq!['/']);
    lemma_root();
    assert(path::components(seq!['/']) =~= seq![seq!['/']]);
    if base.last() == '/' {
        let a = base.drop_last();
        assert(base =~= a + seq!['/'] + Seq::<char>::empty());
        assert(whole =~= a + seq!['/'] + rest);
        law_parts_are_divided_by_slashes(a, seq![]);
        law_parts_are_divided_by_slashes(a, rest);
        assert(path::names(base) =~= path::names(a));
    } else {
        assert(whole =~= base + seq!['/'] + rest);
        law_parts_are_divided_by_slashes(base, rest);
    }
    assert(whole[0] == base[0]);
    text::lemma_first_index(base, '/');
    let k = text::first_index(base, '/');
    if base[0] != '/' {
        assert forall|i: int| 0 <= i < k implies whole[i] != '/' by {
            assert(whole[i] == base[i]);
        }
        if k < base.len() {
            assert(whole[k] == base[k]);
        }
        text::lemma_first_index_unique(whole, '/', k);
        assert(whole.take(k) =~= base.take(k));
    }
    assert(path::components(whole) =~= path::components(base) + path::names(rest));
}

proof fn lemma_root()
    ensures
        path::names(seq!['/']) == Seq::<Seq<char>>::empty(),
{
    law_parts_are_divided_by_slashes(seq![], seq![]);
    assert(Seq::<char>::empty() + seq!['/'] + Seq::<char>::empty() =~= seq!['/']);
}

/// The first component is the root of an absolute path, the dot of a path that begins
/// with one, and else the first name; the named parts follow.
pub proof fn law_where_paths_begin(name: Seq<char>, rest: Seq<char>)
    requires
        is_name(name),
    ensures
        path::components(seq!['/'] + rest) == seq![seq!['/']] + path::names(rest),
        path::components(seq!['.', '/'] + rest) == seq![seq!['.']] + path::names(rest),
        path::components(name + seq!['/'] + rest) == seq![name] + path::names(rest),
        path::components(seq!['.']) == seq![seq!['.']],
        path::components(name) == seq![name],
        path::components(seq![]) == Seq::<Seq<char>>::empty(),
{
    let dot = seq!['.'];
    law_a_name_is_its_own_part(name);
    law_parts_are_divided_by_slashes(seq![], rest);
    law_parts_are_divided_by_slashes(dot, rest);
    law_parts_are_divided_by_slashes(name, rest);
    assert(Seq::<char>::empty() + seq!['/'] + rest =~= seq!['/'] + rest);
    assert(path::names(seq![]) =~= seq![]);
    lemma_no_slash(dot);
    lemma_no_slash(name);
    assert(dot.take(1) =~= dot);
    assert(path::names(dot) =~= seq![]);
    let d = seq!['.', '/'] + rest;
    assert(d =~= dot + seq!['/'] + rest);
    text::lemma_first_index_unique(d, '/', 1);
    assert(d.take(1) =~= dot);
    assert(path::components(d) =~= seq![dot] + path::names(rest));
    assert(path::components(seq!['/'] + rest) =~= seq![seq!['/']] + path::names(rest));
    let n = name + seq!['/'] + rest;
    let k = name.len() as int;
    assert(!name.contains('/'));
    assert forall|i: int| 0 <= i < k implies n[i] != '/' by {
        assert(n[i] == name[i]);
        assert(name.contains(name[i]));
    }
    text::lemma_first_index_unique(n, '/', k);
    assert(n.take(k) =~= name);
    assert(n[0] == name[0]);
    assert(name.contains(name[0]));
    assert(path::components(n) =~= seq![name] + path::names(rest));
    assert(name.take(k) =~= name);
    assert(path::components(name) =~= seq![name]);
    assert(path::components(dot) =~= seq![dot]);
    let nothing = Seq::<char>::empty();
    assert(nothing.take(text::first_index(nothing, '/')).len() == 0);
}

/// Whatever is in a directory, at any depth and under any name, lies under it.
pub proof fn law_what_is_inside_lies_under(base: Seq<char>, rest: Seq<char>)
    ensures
        path::is_under(path::inside(base, rest), base),
{
    if base.len() > 0 {
        law_components_of_a_path_in_a_directory(base, rest);
        let b = path::components(base);
        assert((b + path::names(rest)).take(b.len() as int) =~= b);
    } else {
        assert(path::components(base) =~= seq![]) by {
            assert(base.take(text::first_index(base, '/')).len() == 0);
        }
        assert(path::components(path::inside(base, rest)).take(0) =~= path::components(base));
    }
}

/// Of two things in one directory, one lies under the other exactly if they are the
/// same: what only begins with the same letters does not.  And no directory lies
/// under what is in it.
pub proof fn law_neighbours_lie_apart(base: Seq<char>, x: Seq<char>, y: Seq<char>)
    requires
        base.len() > 0,
        is_name(x),
        is_name(y),
    ensures
        path::is_under(path::inside(base, x), path::inside(base, y)) <==> x == y,
        !path::is_under(base, path::inside(base, x)),
        path::components(path::inside(base, x)) == path::components(base).push(x),
{
    law_components_of_a_path_in_a_directory(base, x);
    law_components_of_a_path_in_a_directory(base, y);
    law_a_name_is_its_own_part(x);
    law_a_name_is_its_own_part(y);
    let b = path::components(base);
    let cx = path::components(path::inside(base, x));
    let cy = path::components(path::inside(base, y));
    assert(cx =~= b.push(x));
    assert(cy =~= b.push(y));
    assert(cx.take(cy.len() as int) =~= cx);
    if cx == cy {
        assert(cx[b.len() as int] == x && cy[b.len() as int] == y);
    }
}

/// What lies under a path has its components, in order, and then its own.
pub proof fn law_lying_under_is_having_the_components(p: Seq<char>, base: Seq<char>, i: int)
    requires
        path::is_under(p, base),
        0 <= i < path::components(base).len(),
    ensures
        path::components(base).len() <= path::components(p).len(),
        path::components(p)[i] == path::components(base)[i],
{
    assert(path::components(p).take(path::components(base).len() as int)[i] == path::components(p)[i]);
}

/// A path joined to a directory is the path in that directory; an absolute one
/// stands for itself.
pub proof fn law_joining(base: Seq<char>, rest: Seq<char>)
    ensures
        rest.len() > 0 && rest[0] == '/' ==> path::joined(base, rest) == rest,
        base.len() > 0 && base.last() != '/' && !(rest.len() > 0 && rest[0] == '/') ==> path::joined(base, rest)
            == base + seq!['/'] + rest && path::inside(base, rest) == base + seq!['/'] + rest,
        base.len() > 0 && base.last() == '/' && !(rest.len() > 0 && rest[0] == '/') ==> path::joined(base, rest)
            == base + rest && path::inside(base, rest) == base + rest,
        path::joined(seq![], rest) == rest,
{
    reveal_strlit("/");
    assert("/"@ =~= seq!['/']);
    assert(Seq::<char>::empty() + rest =~= rest);
}

/// What is put inside a directory stands behind one slash more, if the directory does
/// not end with one, whatever it begins with.
pub proof fn law_putting_inside(base: Seq<char>, rest: Seq<char>)
    ensures
        base.len() > 0 && base.last() == '/' ==> path::inside(base, rest) == base + rest,
        !(base.len() > 0 && base.last() == '/') ==> path::inside(base, rest) == base + seq!['/'] + rest,
{
    reveal_strlit("/");
    assert("/"@ =~= seq!['/']);
}

/// A home directory that is known has a name.
pub proof fn law_home_directories_have_names(h: Seq<char>)
    ensures
        path::is_home(Some(h)) <==> h.len() > 0,
        path::is_home(None),
{
}

/// The parent of a path and its last name make the path again.
pub proof fn law_parents_and_names_make_the_path(dir: Seq<char>, name: Seq<char>)
    requires
        dir.len() > 0,
        !name.contains('/'),
    ensures
        path::parent(dir + seq!['/'] + name) == dir,
        path::last_name(dir + seq!['/'] + name) == name,
        path::parent(name) == Seq::<char>::empty(),
        path::last_name(name) == name,
        path::parent(seq!['/'] + name) == Seq::<char>::empty(),
        path::last_name(seq!['/'] + name) == name,
{
    let top = seq!['/'] + name;
    assert(top.skip(1) =~= name);
    lemma_last(top, 0);
    let p = dir + seq!['/'] + name;
    let k = dir.len() as int;
    lemma_last(p, k);
    assert(p.take(k) =~= dir);
    assert(p.skip(k + 1) =~= name);
    lemma_no_last(name);
    assert(name.skip(0) =~= name);
}

proof fn lemma_last(p: Seq<char>, k: int)
    requires
        0 <= k < p.len(),
        p[k] == '/',
        !p.skip(k + 1).contains('/'),
    ensures
        path::last_slash(p) == k,
    decreases p.len(),
{
    if k < p.len() - 1 {
        let after = p.skip(k + 1);
        assert(after[p.len() - 1 - (k + 1)] == p.last());
        assert(after.contains(p.last()));
        let shorter = p.drop_last().skip(k + 1);
        assert forall|i: int| 0 <= i < shorter.len() implies shorter[i] != '/' by {
            assert(shorter[i] == after[i]);
            assert(after.contains(after[i]));
        }
        lemma_last(p.drop_last(), k);
    }
}

proof fn lemma_no_last(s: Seq<char>)
    requires
        !s.contains('/'),
    ensures
        path::last_slash(s) == -1,
    decreases s.len(),
{
    if s.len() > 0 {
        assert(s.contains(s.last()));
        let t = s.drop_last();
        assert forall|i: int| 0 <= i < t.len() implies t[i] != '/' by {
            assert(s.contains(s[i]));
        }
        lemma_no_last(t);
    }
}

} // verus!
