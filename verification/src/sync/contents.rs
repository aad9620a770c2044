//! What a directory holds.
//!
//! scp cannot leave anything out, so the contents of a directory have to be known
//! before it is copied: those of a directory on this machine are found by a
//! [`Walk`], those of a directory on the container are listed by a command
//! ([`parse_listing`]).

use vstd::prelude::*;
use vstd::string::*;
use crate::sync::ignore;
use crate::sync::ignore::{Entry, EntryKind, EntryView, Node};
use crate::text;

verus! {

// ── Contents ─────────────────────────────────────────────────────────────────

/// The directories and the files under a directory, given from it, at any depth.
#[derive(Debug)]
pub struct Contents {
    pub dirs: Vec<String>,
    pub files: Vec<String>,
}

/// The mathematical content of [`Contents`].
#[verifier::ext_equal]
pub ghost struct ContentsView {
    pub dirs: Seq<Seq<char>>,
    pub files: Seq<Seq<char>>,
}

impl View for Contents {
    type V = ContentsView;

    open spec fn view(&self) -> ContentsView {
        ContentsView { dirs: text::strs(self.dirs@), files: text::strs(self.files@) }
    }
}

/// What stands before the first slash of a path; all of it where there is none.
pub open spec fn first_name(p: Seq<char>) -> Seq<char> {
    p.take(text::first_index(p, '/'))
}

/// The first names of the paths, each once, in order.
pub open spec fn first_names(paths: Seq<Seq<char>>) -> Seq<Seq<char>>
    decreases paths.len(),
{
    if paths.len() == 0 {
        seq![]
    } else {
        let earlier = first_names(paths.drop_last());
        let name = first_name(paths.last());
        if earlier.contains(name) {
            earlier
        } else {
            earlier.push(name)
        }
    }
}

impl ContentsView {
    /// The contents without what the patterns exclude.
    pub open spec fn without(self, patterns: Seq<Seq<char>>) -> ContentsView {
        ContentsView {
            dirs: ignore::kept(patterns, self.dirs, true),
            files: ignore::kept(patterns, self.files, false),
        }
    }

    /// What stands in the directory itself.
    pub open spec fn children(self) -> Seq<Seq<char>> {
        first_names(self.dirs + self.files)
    }
}

fn first_names_of(paths: &Vec<String>) -> (r: Vec<String>)
    ensures
        text::strs(r@) == first_names(text::strs(paths@)),
{
    broadcast use text::lemma_strs_push;

    let ghost all = text::strs(paths@);
    let mut out: Vec<String> = Vec::new();
    let mut i: usize = 0;
    assert(text::strs(out@) =~= first_names(all.take(0)));
    while i < paths.len()
        invariant
            i <= paths@.len(),
            all == text::strs(paths@),
            text::strs(out@) == first_names(all.take(i as int)),
        decreases paths@.len() - i,
    {
        assert(all.take(i + 1).drop_last() =~= all.take(i as int));
        assert(all[i as int] == paths@[i as int]@);
        let name = text::before_char(paths[i].as_str(), '/');
        if !text::is_in(&out, name.as_str()) {
            out.push(name);
        }
        i += 1;
    }
    assert(all.take(all.len() as int) =~= all);
    out
}

impl Contents {
    /// The contents without what the patterns exclude.
    pub fn without(&self, patterns: &Vec<String>) -> (r: Contents)
        ensures
            r@ == self@.without(text::strs(patterns@)),
    {
        Contents {
            dirs: ignore::keep(patterns, &self.dirs, true),
            files: ignore::keep(patterns, &self.files, false),
        }
    }

    /// What stands in the directory itself.
    pub fn children(&self) -> (r: Vec<String>)
        ensures
            text::strs(r@) == self@.children(),
    {
        let mut all: Vec<String> = Vec::new();
        text::extend(&mut all, &self.dirs);
        text::extend(&mut all, &self.files);
        assert(text::strs(all@) =~= self@.dirs + self@.files);
        first_names_of(&all)
    }
}

/// Every path lies in one of the children, and every child is there because of a
/// path.
pub proof fn law_children_hold_everything(c: ContentsView, name: Seq<char>)
    ensures
        c.children().contains(name) <==> exists|i: int|
            0 <= i < c.dirs.len() + c.files.len() && first_name(#[trigger] (c.dirs + c.files)[i]) == name,
        c.children().len() == 0 <==> c.dirs.len() == 0 && c.files.len() == 0,
{
    let all = c.dirs + c.files;
    lemma_first_names(all, name);
    if all.len() > 0 {
        lemma_first_names(all, first_name(all[0]));
        assert(c.children().contains(first_name(all[0])));
    }
}

proof fn lemma_first_names(paths: Seq<Seq<char>>, name: Seq<char>)
    ensures
        first_names(paths).contains(name) <==> exists|i: int|
            0 <= i < paths.len() && first_name(#[trigger] paths[i]) == name,
    decreases paths.len(),
{
    if paths.len() > 0 {
        let fewer = paths.drop_last();
        let earlier = first_names(fewer);
        let last = first_name(paths.last());
        lemma_first_names(fewer, name);
        lemma_first_names(fewer, last);
        if exists|i: int| 0 <= i < fewer.len() && first_name(#[trigger] fewer[i]) == name {
            let i = choose|i: int| 0 <= i < fewer.len() && first_name(#[trigger] fewer[i]) == name;
            assert(paths[i] == fewer[i]);
        }
        if exists|i: int| 0 <= i < paths.len() && first_name(#[trigger] paths[i]) == name {
            let i = choose|i: int| 0 <= i < paths.len() && first_name(#[trigger] paths[i]) == name;
            if i < fewer.len() {
                assert(fewer[i] == paths[i]);
            }
        }
        assert(paths[paths.len() - 1] == paths.last());
        if !earlier.contains(last) {
            let all = earlier.push(last);
            assert(all[earlier.len() as int] == last);
            if earlier.contains(name) {
                let k = choose|k: int| 0 <= k < earlier.len() && earlier[k] == name;
                assert(all[k] == name);
            }
            if all.contains(name) && name != last {
                let k = choose|k: int| 0 <= k < all.len() && all[k] == name;
                assert(earlier[k] == name);
            }
        }
    }
}

// ── Listings from the container ──────────────────────────────────────────────

/// A listed path without the `./` that stands for the directory listed.
pub open spec fn listed_name(entry: Seq<char>) -> Seq<char> {
    if text::has_prefix(entry, "./"@) {
        entry.skip(2)
    } else {
        entry
    }
}

/// Whether a listed path is a directory.
pub open spec fn is_listed_dir(entry: Seq<char>) -> bool {
    entry.len() > 0 && entry.last() == '/'
}

/// The contents that these entries list.
pub open spec fn listed(entries: Seq<Seq<char>>) -> ContentsView
    decreases entries.len(),
{
    if entries.len() == 0 {
        ContentsView { dirs: seq![], files: seq![] }
    } else {
        let earlier = listed(entries.drop_last());
        let entry = entries.last();
        if is_listed_dir(entry) {
            ContentsView { dirs: earlier.dirs.push(listed_name(entry.drop_last())), ..earlier }
        } else {
            ContentsView { files: earlier.files.push(listed_name(entry)), ..earlier }
        }
    }
}

fn name_listed(entry: &str) -> (r: String)
    ensures
        r@ == listed_name(entry@),
{
    proof {
        reveal_strlit("./");
    }
    match text::strip_prefix(entry, "./") {
        Some(name) => name,
        None => entry.to_string(),
    }
}

/// The contents of a directory on the container, given its listing: every path
/// begins with `./` and is ended by a null character; a directory has a slash
/// behind it.
pub fn parse_listing(output: &str) -> (r: Contents)
    ensures
        r@ == listed(text::null_ended(output@)),
{
    broadcast use text::lemma_strs_push;

    let entries = text::split_nulls(output);
    let ghost all = text::strs(entries@);
    let mut c = Contents { dirs: Vec::new(), files: Vec::new() };
    let mut i: usize = 0;
    assert(c@ =~= listed(all.take(0)));
    while i < entries.len()
        invariant
            i <= entries@.len(),
            all == text::strs(entries@),
            c@ == listed(all.take(i as int)),
        decreases entries@.len() - i,
    {
        assert(all.take(i + 1).drop_last() =~= all.take(i as int));
        assert(all[i as int] == entries@[i as int]@);
        let cs = text::chars_of(entries[i].as_str());
        if cs.len() > 0 && cs[cs.len() - 1] == '/' {
            let dir = text::string_of(&cs, 0, cs.len() - 1);
            assert(dir@ =~= entries@[i as int]@.drop_last());
            c.dirs.push(name_listed(dir.as_str()));
        } else {
            c.files.push(name_listed(entries[i].as_str()));
        }
        i += 1;
    }
    assert(all.take(all.len() as int) =~= all);
    c
}

// ── Walking a directory of this machine ──────────────────────────────────────

/// The path of `name` in the directory `dir`; the root itself is empty.
pub open spec fn under(dir: Seq<char>, name: Seq<char>) -> Seq<char> {
    if dir.len() == 0 {
        name
    } else {
        dir + "/"@ + name
    }
}

fn place_under(dir: &str, name: &str) -> (r: String)
    ensures
        r@ == under(dir@, name@),
{
    if dir.is_empty() {
        name.to_string()
    } else {
        dir.to_string().concat("/").concat(name)
    }
}

/// The entries of `dir` that are of the given kind, as paths, in order.
pub open spec fn paths_of(dir: Seq<char>, entries: Seq<EntryView>, kind: EntryKind) -> Seq<Seq<char>>
    decreases entries.len(),
{
    if entries.len() == 0 {
        seq![]
    } else {
        let earlier = paths_of(dir, entries.drop_last(), kind);
        if entries.last().kind == kind {
            earlier.push(under(dir, entries.last().name))
        } else {
            earlier
        }
    }
}

/// A walk through a directory in progress.
#[derive(Debug)]
pub struct Walk {
    /// Directories still to list; the last one comes next.
    pending: Vec<String>,
    found: Contents,
}

/// The mathematical content of a [`Walk`].
pub ghost struct WalkView {
    pub pending: Seq<Seq<char>>,
    pub found: ContentsView,
}

impl View for Walk {
    type V = WalkView;

    closed spec fn view(&self) -> WalkView {
        WalkView { pending: text::strs(self.pending@), found: self.found@ }
    }
}

impl WalkView {
    /// The walk before it begins: the root is still to be listed.
    pub open spec fn start() -> WalkView {
        WalkView { pending: seq![seq![]], found: ContentsView { dirs: seq![], files: seq![] } }
    }

    /// The walk once it has been given the entries of `dir`.
    pub open spec fn listed(self, dir: Seq<char>, entries: Seq<EntryView>) -> WalkView {
        WalkView {
            pending: self.pending + paths_of(dir, entries, EntryKind::Dir),
            found: ContentsView {
                dirs: self.found.dirs + paths_of(dir, entries, EntryKind::Dir),
                files: self.found.files + paths_of(dir, entries, EntryKind::File),
            },
        }
    }
}

impl Walk {
    /// Begins a walk.  It asks for the entries of one directory at a time
    /// ([`Walk::next_dir`]); once there is none left, [`Walk::into_contents`] gives
    /// what was found.
    pub fn new() -> (r: Walk)
        ensures
            r@ == WalkView::start(),
    {
        broadcast use text::lemma_strs_push;

        let mut pending: Vec<String> = Vec::new();
        assert(text::strs(pending@) =~= seq![]);
        pending.push(String::new());
        let r = Walk { pending, found: Contents { dirs: Vec::new(), files: Vec::new() } };
        assert(r@.pending =~= seq![seq![]]);
        assert(r@.found =~= WalkView::start().found);
        r
    }

    /// The directory whose entries are needed next, given from the root of the
    /// walk; the root itself is empty.
    pub fn next_dir(&mut self) -> (r: Option<String>)
        ensures
            final(self)@.found == old(self)@.found,
            match r {
                Some(dir) => old(self)@.pending == final(self)@.pending.push(dir@),
                None => old(self)@.pending.len() == 0 && final(self)@.pending.len() == 0,
            },
    {
        broadcast use text::lemma_strs_push;

        let ghost before = self.pending@;
        let r = self.pending.pop();
        assert(before.len() > 0 ==> before =~= self.pending@.push(before.last()));
        r
    }

    /// Takes the entries of the directory that was asked for.
    pub fn listed(&mut self, dir: &str, entries: &Vec<Entry>)
        ensures
            final(self)@ == old(self)@.listed(dir@, ignore::entries_view(entries@)),
    {
        broadcast use text::lemma_strs_push;

        let ghost before = self@;
        let ghost all = ignore::entries_view(entries@);
        let mut i: usize = 0;
        assert(all.take(0) =~= seq![]);
        assert(self@.pending =~= before.listed(dir@, all.take(0)).pending);
        assert(self@.found =~= before.listed(dir@, all.take(0)).found);
        while i < entries.len()
            invariant
                i <= entries@.len(),
                all == ignore::entries_view(entries@),
                self@.pending == before.listed(dir@, all.take(i as int)).pending,
                self@.found == before.listed(dir@, all.take(i as int)).found,
            decreases entries@.len() - i,
        {
            let ghost now = self@;
            let ghost e = all[i as int];
            let ghost seen = all.take(i + 1);
            assert(seen.drop_last() =~= all.take(i as int));
            assert(seen.last() == e && e == entries@[i as int]@);
            assert(paths_of(dir@, seen, e.kind) == paths_of(dir@, all.take(i as int), e.kind).push(
                under(dir@, e.name),
            ));
            match entries[i].kind {
                EntryKind::Dir => {
                    let path = place_under(dir, entries[i].name.as_str());
                    self.pending.push(path.clone());
                    self.found.dirs.push(path);
                    assert(self@.pending =~= now.pending.push(under(dir@, e.name)));
                    assert(self@.found.dirs =~= now.found.dirs.push(under(dir@, e.name)));
                    assert(self@.found.files == now.found.files);
                },
                EntryKind::File => {
                    self.found.files.push(place_under(dir, entries[i].name.as_str()));
                    assert(self@.pending == now.pending);
                    assert(self@.found.dirs == now.found.dirs);
                    assert(self@.found.files =~= now.found.files.push(under(dir@, e.name)));
                },
                EntryKind::Other => {},
            }
            assert(self@.pending =~= before.listed(dir@, seen).pending);
            assert(self@.found.dirs =~= before.listed(dir@, seen).found.dirs);
            assert(self@.found.files =~= before.listed(dir@, seen).found.files);
            i += 1;
        }
        assert(all.take(all.len() as int) =~= all);
    }

    /// What was found.
    pub fn into_contents(self) -> (r: Contents)
        ensures
            r@ == self@.found,
    {
        self.found
    }
}

/// Whether `p` is the path of a file under `dir`, which holds `nodes`.
pub open spec fn is_file_in(nodes: Seq<Node>, dir: Seq<char>, p: Seq<char>) -> bool
    decreases nodes,
{
    if nodes.len() == 0 {
        false
    } else {
        is_file_in(nodes.subrange(0, nodes.len() - 1), dir, p) || (match nodes[nodes.len() - 1] {
            Node::Dir { name, entries, .. } => is_file_in(entries, under(dir, name), p),
            Node::File { name, .. } => p == under(dir, name),
            Node::Other { .. } => false,
        })
    }
}

/// Whether `p` is the path of a directory under `dir`, which holds `nodes`.
pub open spec fn is_dir_in(nodes: Seq<Node>, dir: Seq<char>, p: Seq<char>) -> bool
    decreases nodes,
{
    if nodes.len() == 0 {
        false
    } else {
        is_dir_in(nodes.subrange(0, nodes.len() - 1), dir, p) || (match nodes[nodes.len() - 1] {
            Node::Dir { name, entries, .. } => p == under(dir, name) || is_dir_in(entries, under(dir, name), p),
            _ => false,
        })
    }
}

/// The directories among the nodes of `dir`, each with what it holds.
pub open spec fn dirs_among(nodes: Seq<Node>, dir: Seq<char>) -> Seq<(Seq<char>, Seq<Node>)>
    decreases nodes.len(),
{
    if nodes.len() == 0 {
        seq![]
    } else {
        let earlier = dirs_among(nodes.drop_last(), dir);
        match nodes.last() {
            Node::Dir { name, entries, .. } => earlier.push((under(dir, name), entries)),
            _ => earlier,
        }
    }
}

/// The paths of directories still to list.
pub open spec fn paths_to_list(todo: Seq<(Seq<char>, Seq<Node>)>) -> Seq<Seq<char>> {
    todo.map_values(|d: (Seq<char>, Seq<Node>)| d.0)
}

/// Whether a walk has found the file `p`, or will find it in `todo`.
pub open spec fn finds_file(w: WalkView, todo: Seq<(Seq<char>, Seq<Node>)>, p: Seq<char>) -> bool {
    ||| w.found.files.contains(p)
    ||| exists|k: int| 0 <= k < todo.len() && is_file_in((#[trigger] todo[k]).1, todo[k].0, p)
}

/// Whether a walk has found the directory `p`, or will find it in `todo`.
pub open spec fn finds_dir(w: WalkView, todo: Seq<(Seq<char>, Seq<Node>)>, p: Seq<char>) -> bool {
    ||| w.found.dirs.contains(p)
    ||| exists|k: int| 0 <= k < todo.len() && is_dir_in((#[trigger] todo[k]).1, todo[k].0, p)
}

/// Every step of a walk over a fixed file tree keeps what it finds in the end, and
/// a walk that has nothing left to list has found exactly that.  With
/// [`law_walk_begins_at_the_root`]: whatever the tree, a walk finds exactly its
/// directories and its files.
///
/// `todo` are the directories that the walk has still to list, with what they hold;
/// the last one comes next.  The result are those that it has still to list then.
pub proof fn law_walk_is_exact(w: WalkView, todo: Seq<(Seq<char>, Seq<Node>)>, p: Seq<char>) -> (rest: Seq<
    (Seq<char>, Seq<Node>),
>)
    requires
        w.pending == paths_to_list(todo),
    ensures
        todo.len() == 0 ==> (finds_file(w, todo, p) <==> w.found.files.contains(p)) && (finds_dir(w, todo, p)
            <==> w.found.dirs.contains(p)),
        todo.len() > 0 ==> {
            let (dir, nodes) = todo.last();
            let left = WalkView { pending: w.pending.drop_last(), ..w };
            let next = left.listed(dir, ignore::entries_of(nodes));
            &&& w.pending == left.pending.push(dir)
            &&& next.pending == paths_to_list(rest)
            &&& finds_file(next, rest, p) <==> finds_file(w, todo, p)
            &&& finds_dir(next, rest, p) <==> finds_dir(w, todo, p)
        },
{
    if todo.len() == 0 {
        todo
    } else {
        let (dir, nodes) = todo.last();
        let before = todo.drop_last();
        let inner = dirs_among(nodes, dir);
        let rest = before + inner;
        let left = WalkView { pending: w.pending.drop_last(), ..w };
        let entries = ignore::entries_of(nodes);
        let next = left.listed(dir, entries);
        let files = paths_of(dir, entries, EntryKind::File);
        let dirs = paths_of(dir, entries, EntryKind::Dir);
        assert(w.pending =~= left.pending.push(dir));
        lemma_one_directory(nodes, dir, p);
        assert(next.pending =~= paths_to_list(rest));
        lemma_in_concat(w.found.files, files, p);
        lemma_in_concat(w.found.dirs, dirs, p);
        let by_file = |d: (Seq<char>, Seq<Node>)| is_file_in(d.1, d.0, p);
        let by_dir = |d: (Seq<char>, Seq<Node>)| is_dir_in(d.1, d.0, p);
        lemma_some_concat(before, inner, by_file);
        lemma_some_concat(before, seq![todo.last()], by_file);
        lemma_some_concat(before, inner, by_dir);
        lemma_some_concat(before, seq![todo.last()], by_dir);
        assert(before + seq![todo.last()] =~= todo);
        assert(some(seq![todo.last()], by_file) <==> is_file_in(nodes, dir, p)) by {
            assert(by_file(seq![todo.last()][0]) == is_file_in(nodes, dir, p));
        }
        assert(some(seq![todo.last()], by_dir) <==> is_dir_in(nodes, dir, p)) by {
            assert(by_dir(seq![todo.last()][0]) == is_dir_in(nodes, dir, p));
        }
        lemma_finds(w, todo, p);
        lemma_finds(next, rest, p);
        rest
    }
}

/// A walk begins with the root, and with nothing found.
pub proof fn law_walk_begins_at_the_root(nodes: Seq<Node>, p: Seq<char>)
    ensures
        ({
            let todo = seq![(Seq::<char>::empty(), nodes)];
            &&& WalkView::start().pending == paths_to_list(todo)
            &&& finds_file(WalkView::start(), todo, p) <==> is_file_in(nodes, seq![], p)
            &&& finds_dir(WalkView::start(), todo, p) <==> is_dir_in(nodes, seq![], p)
        }),
{
    let todo = seq![(Seq::<char>::empty(), nodes)];
    assert(WalkView::start().pending =~= paths_to_list(todo));
    assert(todo[0].1 == nodes && todo[0].0 == Seq::<char>::empty());
}

spec fn some(todo: Seq<(Seq<char>, Seq<Node>)>, by: spec_fn((Seq<char>, Seq<Node>)) -> bool) -> bool {
    exists|k: int| 0 <= k < todo.len() && by(#[trigger] todo[k])
}

proof fn lemma_some_concat(
    a: Seq<(Seq<char>, Seq<Node>)>,
    b: Seq<(Seq<char>, Seq<Node>)>,
    by: spec_fn((Seq<char>, Seq<Node>)) -> bool,
)
    ensures
        some(a + b, by) <==> some(a, by) || some(b, by),
{
    let ab = a + b;
    if some(a, by) {
        let k = choose|k: int| 0 <= k < a.len() && by(#[trigger] a[k]);
        assert(ab[k] == a[k]);
    }
    if some(b, by) {
        let k = choose|k: int| 0 <= k < b.len() && by(#[trigger] b[k]);
        assert(ab[a.len() + k] == b[k]);
    }
    if some(ab, by) {
        let k = choose|k: int| 0 <= k < ab.len() && by(#[trigger] ab[k]);
        if k < a.len() {
            assert(a[k] == ab[k]);
        } else {
            assert(b[k - a.len()] == ab[k]);
        }
    }
}

proof fn lemma_finds(w: WalkView, todo: Seq<(Seq<char>, Seq<Node>)>, p: Seq<char>)
    ensures
        finds_file(w, todo, p) <==> w.found.files.contains(p) || some(
            todo,
            |d: (Seq<char>, Seq<Node>)| is_file_in(d.1, d.0, p),
        ),
        finds_dir(w, todo, p) <==> w.found.dirs.contains(p) || some(
            todo,
            |d: (Seq<char>, Seq<Node>)| is_dir_in(d.1, d.0, p),
        ),
{
}

proof fn lemma_in_concat(a: Seq<Seq<char>>, b: Seq<Seq<char>>, p: Seq<char>)
    ensures
        (a + b).contains(p) <==> a.contains(p) || b.contains(p),
{
    let ab = a + b;
    if a.contains(p) {
        let k = choose|k: int| 0 <= k < a.len() && a[k] == p;
        assert(ab[k] == p);
    }
    if b.contains(p) {
        let k = choose|k: int| 0 <= k < b.len() && b[k] == p;
        assert(ab[a.len() + k] == p);
    }
    if ab.contains(p) {
        let k = choose|k: int| 0 <= k < ab.len() && ab[k] == p;
        if k < a.len() {
            assert(a[k] == p);
        } else {
            assert(b[k - a.len()] == p);
        }
    }
}

/// What one directory holds is what it lists and what the directories in it hold.
proof fn lemma_one_directory(nodes: Seq<Node>, dir: Seq<char>, p: Seq<char>)
    ensures
        paths_to_list(dirs_among(nodes, dir)) == paths_of(dir, ignore::entries_of(nodes), EntryKind::Dir),
        is_file_in(nodes, dir, p) <==> paths_of(dir, ignore::entries_of(nodes), EntryKind::File).contains(p) || some(
            dirs_among(nodes, dir),
            |d: (Seq<char>, Seq<Node>)| is_file_in(d.1, d.0, p),
        ),
        is_dir_in(nodes, dir, p) <==> paths_of(dir, ignore::entries_of(nodes), EntryKind::Dir).contains(p) || some(
            dirs_among(nodes, dir),
            |d: (Seq<char>, Seq<Node>)| is_dir_in(d.1, d.0, p),
        ),
    decreases nodes.len(),
{
    let by_file = |d: (Seq<char>, Seq<Node>)| is_file_in(d.1, d.0, p);
    let by_dir = |d: (Seq<char>, Seq<Node>)| is_dir_in(d.1, d.0, p);
    let entries = ignore::entries_of(nodes);
    if nodes.len() == 0 {
        assert(paths_to_list(dirs_among(nodes, dir)) =~= paths_of(dir, entries, EntryKind::Dir));
    } else {
        let fewer = nodes.drop_last();
        let last = nodes.last();
        lemma_one_directory(fewer, dir, p);
        assert(entries.drop_last() =~= ignore::entries_of(fewer));
        assert(entries.last() == last.entry());
        assert(nodes.subrange(0, nodes.len() - 1) =~= fewer);
        let files = paths_of(dir, ignore::entries_of(fewer), EntryKind::File);
        let dirs = paths_of(dir, ignore::entries_of(fewer), EntryKind::Dir);
        let earlier = dirs_among(fewer, dir);
        match last {
            Node::Dir { name, entries: inner, .. } => {
                let d = (under(dir, name), inner);
                assert(dirs_among(nodes, dir) =~= earlier + seq![d]);
                lemma_some_concat(earlier, seq![d], by_file);
                lemma_some_concat(earlier, seq![d], by_dir);
                assert(some(seq![d], by_file) <==> is_file_in(inner, under(dir, name), p)) by {
                    assert(by_file(seq![d][0]) == is_file_in(inner, under(dir, name), p));
                }
                assert(some(seq![d], by_dir) <==> is_dir_in(inner, under(dir, name), p)) by {
                    assert(by_dir(seq![d][0]) == is_dir_in(inner, under(dir, name), p));
                }
                lemma_in_concat(dirs, seq![under(dir, name)], p);
                assert(dirs.push(under(dir, name)) =~= dirs + seq![under(dir, name)]);
                assert(seq![under(dir, name)].contains(p) <==> p == under(dir, name)) by {
                    assert(seq![under(dir, name)][0] == under(dir, name));
                }
                assert(paths_to_list(dirs_among(nodes, dir)) =~= paths_of(dir, entries, EntryKind::Dir));
            },
            Node::File { name, .. } => {
                lemma_in_concat(files, seq![under(dir, name)], p);
                assert(files.push(under(dir, name)) =~= files + seq![under(dir, name)]);
                assert(seq![under(dir, name)].contains(p) <==> p == under(dir, name)) by {
                    assert(seq![under(dir, name)][0] == under(dir, name));
                }
            },
            Node::Other { .. } => {},
        }
    }
}

} // verus!
