//! Real-time synchronisation.
//!
//! Push: file system events are debounced, then the path that was changed is
//! pushed.  Pull: every path is pulled at a fixed interval.  This module holds
//! the debouncing and the choice of what to push and pull; the caller owns the
//! event source and the clock.

use vstd::prelude::*;
use vstd::string::*;
use crate::config;
use crate::config::{SyncPath, SyncPathView};
use crate::error::{Error, ErrorView};
use crate::path;
use crate::sync::profile;
use crate::sync::profile::Syncer;
use crate::sync::run;
use crate::sync::run::{RunStepView, RunView, SyncRun, SyncRunStep};
use crate::text;

verus! {

// ── Directions ───────────────────────────────────────────────────────────────

/// What a watcher does.
#[derive(Debug, Clone, Copy, PartialEq, Eq, Structural)]
pub enum WatchDirection {
    Push,
    Pull,
    Both,
}

/// How to watch.
#[derive(Debug, Clone, Copy)]
pub struct WatchArgs {
    pub direction: WatchDirection,
    pub debounce_ms: u64,
    pub poll_secs: u64,
}

/// The direction that a word names.
pub open spec fn direction_named(s: Seq<char>) -> Option<WatchDirection> {
    if s == "push"@ {
        Some(WatchDirection::Push)
    } else if s == "pull"@ {
        Some(WatchDirection::Pull)
    } else if s == "both"@ {
        Some(WatchDirection::Both)
    } else {
        None
    }
}

impl WatchDirection {
    /// Reads a direction: `push`, `pull` or `both`.
    pub fn parse(s: &str) -> (r: Result<WatchDirection, Error>)
        ensures
            match r {
                Ok(d) => direction_named(s@) == Some(d),
                Err(e) => direction_named(s@) is None && e@ == ErrorView::Config(
                    "unknown direction '"@ + s@ + "' — use push, pull, or both"@,
                ),
            },
    {
        if text::str_eq(s, "push") {
            Ok(WatchDirection::Push)
        } else if text::str_eq(s, "pull") {
            Ok(WatchDirection::Pull)
        } else if text::str_eq(s, "both") {
            Ok(WatchDirection::Both)
        } else {
            Err(
                Error::Config(
                    "unknown direction '".to_string().concat(s).concat("' — use push, pull, or both"),
                ),
            )
        }
    }

    /// Whether changes are pushed.
    pub fn pushes(&self) -> (r: bool)
        ensures
            r == (*self != WatchDirection::Pull),
    {
        match self {
            WatchDirection::Push | WatchDirection::Both => true,
            WatchDirection::Pull => false,
        }
    }

    /// Whether the container is polled.
    pub fn pulls(&self) -> (r: bool)
        ensures
            r == (*self != WatchDirection::Push),
    {
        match self {
            WatchDirection::Pull | WatchDirection::Both => true,
            WatchDirection::Push => false,
        }
    }
}

/// The result of watching in both directions: the failure of the push side, else
/// that of the pull side.
pub fn both_results(push: Result<(), Error>, pull: Result<(), Error>) -> (r: Result<(), Error>)
    ensures
        r == (if push is Err {
            push
        } else {
            pull
        }),
{
    match push {
        Ok(_) => pull,
        Err(e) => Err(e),
    }
}

// ── Events ───────────────────────────────────────────────────────────────────

/// What a file system event is about.
#[derive(Debug, Clone, Copy, PartialEq, Eq, Structural)]
pub enum EventClass {
    Create,
    Modify,
    Remove,
    Access,
    Other,
}

/// Whether an event changes a file, so that a push is due.
pub fn is_change(class: EventClass) -> (r: bool)
    ensures
        r == (class == EventClass::Create || class == EventClass::Modify || class == EventClass::Remove),
{
    match class {
        EventClass::Create | EventClass::Modify | EventClass::Remove => true,
        EventClass::Access | EventClass::Other => false,
    }
}

// ── Watched paths ────────────────────────────────────────────────────────────

/// The local side of `paths`, with the home directory in place.
pub open spec fn locals(paths: Seq<SyncPathView>, home: Option<Seq<char>>) -> Seq<Seq<char>> {
    paths.map_values(|p: SyncPathView| profile::expanded(p.local, home))
}

/// The local side of `paths`, given the home directory.
pub fn local_paths_in(paths: &[SyncPath], home: Option<&str>) -> (r: Vec<String>)
    ensures
        text::strs(r@) == locals(crate::config::paths_view(paths@), text::opt_ref(home)),
{
    broadcast use text::lemma_strs_push;

    let ghost all = locals(crate::config::paths_view(paths@), text::opt_ref(home));
    let mut out: Vec<String> = Vec::new();
    let mut i: usize = 0;
    assert(text::strs(out@) =~= all.take(0));
    while i < paths.len()
        invariant
            i <= paths@.len(),
            all == locals(crate::config::paths_view(paths@), text::opt_ref(home)),
            text::strs(out@) == all.take(i as int),
        decreases paths@.len() - i,
    {
        out.push(profile::expand_tilde_in(paths[i].local.as_str(), home));
        assert(all.take(i as int).push(all[i as int]) =~= all.take(i + 1));
        i += 1;
    }
    assert(all.take(all.len() as int) =~= all);
    out
}

/// The local side of `paths`, with the user's home directory.
pub fn local_paths(paths: &[SyncPath]) -> (r: Vec<String>)
    ensures
        exists|home: Option<Seq<char>>|
            path::is_home(home) && text::strs(r@) == #[trigger] locals(crate::config::paths_view(paths@), home),
{
    match path::home_dir() {
        Some(h) => local_paths_in(paths, Some(h.as_str())),
        None => local_paths_in(paths, None),
    }
}

/// The number of entries that hold.
pub open spec fn count_true(v: Seq<bool>) -> nat
    decreases v.len(),
{
    if v.len() == 0 {
        0
    } else {
        count_true(v.drop_last()) + (if v.last() {
            1nat
        } else {
            0nat
        })
    }
}

/// How many paths are watched: those that are there.  With none there is nothing
/// to watch.
pub fn watched_count(present: &Vec<bool>) -> (r: usize)
    ensures
        r == count_true(present@),
        r == 0 <==> forall|i: int| 0 <= i < present@.len() ==> !#[trigger] present@[i],
{
    let mut n: usize = 0;
    let mut i: usize = 0;
    while i < present.len()
        invariant
            n <= i <= present@.len(),
            n == count_true(present@.take(i as int)),
            n == 0 <==> forall|j: int| 0 <= j < i ==> !#[trigger] present@[j],
        decreases present@.len() - i,
    {
        assert(present@.take(i + 1).drop_last() =~= present@.take(i as int));
        if present[i] {
            n += 1;
        }
        i += 1;
    }
    assert(present@.take(present@.len() as int) =~= present@);
    n
}

// ── Which path a change belongs to ───────────────────────────────────────────

/// The number of components of a path.
pub open spec fn depth(p: Seq<char>) -> nat {
    path::components(p).len()
}

/// The watched path that a change belongs to, among the first `n`: the deepest
/// one that it lies under, and the last of those where several are as deep.
pub open spec fn owner(changed: Seq<char>, locals: Seq<Seq<char>>, n: int) -> Option<int>
    decreases n,
{
    if n <= 0 {
        None
    } else {
        let earlier = owner(changed, locals, n - 1);
        if !path::is_under(changed, locals[n - 1]) {
            earlier
        } else {
            match earlier {
                Some(k) if depth(locals[n - 1]) < depth(locals[k]) => Some(k),
                _ => Some(n - 1),
            }
        }
    }
}

/// The watched path that a change belongs to.
pub fn find_owner(changed: &str, locals: &Vec<String>) -> (r: Option<usize>)
    ensures
        match r {
            Some(k) => owner(changed@, text::strs(locals@), locals@.len() as int) == Some(k as int),
            None => owner(changed@, text::strs(locals@), locals@.len() as int) is None,
        },
{
    let ghost all = text::strs(locals@);
    let mut best: Option<usize> = None;
    let mut best_depth: usize = 0;
    let mut i: usize = 0;
    while i < locals.len()
        invariant
            i <= locals@.len(),
            all == text::strs(locals@),
            match best {
                Some(k) => k < i && owner(changed@, all, i as int) == Some(k as int) && best_depth == depth(all[k as int]),
                None => owner(changed@, all, i as int) is None,
            },
        decreases locals@.len() - i,
    {
        if path::starts_with(changed, locals[i].as_str()) {
            let parts = path::split_components(locals[i].as_str());
            assert(parts@.len() == text::strs(parts@).len());
            let d: usize = parts.len();
            if best.is_none() || d >= best_depth {
                best = Some(i);
                best_depth = d;
            }
        }
        i += 1;
    }
    best
}

/// The owner of a change is a watched path that the change lies under, no other
/// such path is deeper, and a change without an owner lies under no watched path.
pub proof fn law_owner_is_deepest(changed: Seq<char>, locals: Seq<Seq<char>>, n: int)
    requires
        0 <= n <= locals.len(),
    ensures
        match owner(changed, locals, n) {
            Some(k) => {
                &&& 0 <= k < n
                &&& path::is_under(changed, locals[k])
                &&& forall|j: int|
                    0 <= j < n && path::is_under(changed, #[trigger] locals[j]) ==> depth(locals[j]) <= depth(
                        locals[k],
                    )
            },
            None => forall|j: int| 0 <= j < n ==> !path::is_under(changed, #[trigger] locals[j]),
        },
    decreases n,
{
    if n > 0 {
        law_owner_is_deepest(changed, locals, n - 1);
    }
}

// ── Debouncing ───────────────────────────────────────────────────────────────

/// A changed path and the moment at which it is due.
#[derive(Debug)]
struct Pending {
    path: String,
    due: u128,
}

/// The mathematical content of a pending change.
pub ghost struct PendingView {
    pub path: Seq<char>,
    pub due: int,
}

/// Changes waiting for their paths to settle.  Times are nanoseconds since some
/// fixed moment.
#[derive(Debug)]
pub struct Debouncer {
    window: u128,
    pending: Vec<Pending>,
}

/// The mathematical content of a [`Debouncer`].
pub ghost struct DebouncerView {
    pub window: int,
    pub pending: Seq<PendingView>,
}

spec fn pending_view(v: Seq<Pending>) -> Seq<PendingView> {
    v.map_values(|p: Pending| PendingView { path: p.path@, due: p.due as int })
}

impl View for Debouncer {
    type V = DebouncerView;

    closed spec fn view(&self) -> DebouncerView {
        DebouncerView { window: self.window as int, pending: pending_view(self.pending@) }
    }
}

/// The position of `p` among the pending changes, or their number.
pub open spec fn position(pending: Seq<PendingView>, p: Seq<char>) -> int
    decreases pending.len(),
{
    if pending.len() == 0 || pending[0].path == p {
        0
    } else {
        1 + position(pending.skip(1), p)
    }
}

/// The paths of the changes that are due at `now`, in order.
pub open spec fn due_paths(pending: Seq<PendingView>, now: int) -> Seq<Seq<char>>
    decreases pending.len(),
{
    if pending.len() == 0 {
        seq![]
    } else {
        let earlier = due_paths(pending.drop_last(), now);
        if pending.last().due <= now {
            earlier.push(pending.last().path)
        } else {
            earlier
        }
    }
}

/// The changes that are not due at `now`, in order.
pub open spec fn not_due(pending: Seq<PendingView>, now: int) -> Seq<PendingView>
    decreases pending.len(),
{
    if pending.len() == 0 {
        seq![]
    } else {
        let earlier = not_due(pending.drop_last(), now);
        if pending.last().due <= now {
            earlier
        } else {
            earlier.push(pending.last())
        }
    }
}

/// The owners of `changed`, in order; changes without an owner are dropped.
pub open spec fn owners(changed: Seq<Seq<char>>, locals: Seq<Seq<char>>) -> Seq<int>
    decreases changed.len(),
{
    if changed.len() == 0 {
        seq![]
    } else {
        let earlier = owners(changed.drop_last(), locals);
        match owner(changed.last(), locals, locals.len() as int) {
            Some(k) => earlier.push(k),
            None => earlier,
        }
    }
}

/// Whether `t` is the earliest moment at which something is due.
pub open spec fn is_earliest(pending: Seq<PendingView>, t: int) -> bool {
    &&& exists|i: int| 0 <= i < pending.len() && (#[trigger] pending[i]).due == t
    &&& forall|i: int| 0 <= i < pending.len() ==> t <= (#[trigger] pending[i]).due
}

impl DebouncerView {
    /// Every path is pending at most once.
    pub open spec fn is_valid(self) -> bool {
        forall|i: int, j: int|
            0 <= i < j < self.pending.len() ==> (#[trigger] self.pending[i]).path != (
            #[trigger] self.pending[j]).path
    }

    /// The debouncer once a change of `p` was seen at `now`.
    pub open spec fn changed(self, p: Seq<char>, now: int) -> DebouncerView {
        let k = position(self.pending, p);
        let entry = PendingView { path: p, due: now + self.window };
        DebouncerView {
            pending: if k < self.pending.len() {
                self.pending.update(k, entry)
            } else {
                self.pending.push(entry)
            },
            ..self
        }
    }

    /// The debouncer once what is due at `now` was taken out.
    pub open spec fn fired(self, now: int) -> DebouncerView {
        DebouncerView { pending: not_due(self.pending, now), ..self }
    }

    /// When `p` is due, if a change of it is pending.
    pub open spec fn due_time(self, p: Seq<char>) -> Option<int> {
        let k = position(self.pending, p);
        if k < self.pending.len() {
            Some(self.pending[k].due)
        } else {
            None
        }
    }
}

proof fn lemma_position(pending: Seq<PendingView>, p: Seq<char>)
    ensures
        0 <= position(pending, p) <= pending.len(),
        position(pending, p) < pending.len() ==> pending[position(pending, p)].path == p,
        forall|i: int| 0 <= i < position(pending, p) ==> (#[trigger] pending[i]).path != p,
    decreases pending.len(),
{
    if pending.len() != 0 && pending[0].path != p {
        let t = pending.skip(1);
        lemma_position(t, p);
        assert forall|i: int| 0 <= i < position(pending, p) implies (#[trigger] pending[i]).path != p by {
            if i > 0 {
                assert(t[i - 1] == pending[i]);
            }
        }
    }
}

proof fn lemma_position_unique(pending: Seq<PendingView>, p: Seq<char>, k: int)
    requires
        0 <= k <= pending.len(),
        k < pending.len() ==> pending[k].path == p,
        forall|i: int| 0 <= i < k ==> (#[trigger] pending[i]).path != p,
    ensures
        position(pending, p) == k,
{
    lemma_position(pending, p);
    let f = position(pending, p);
    if f < k {
        assert(pending[f].path != p);
    }
    if k < f {
        assert(pending[k].path != p);
    }
}

impl Debouncer {
    /// A debouncer with a window of `debounce_ms` milliseconds.
    pub fn new(debounce_ms: u64) -> (r: Debouncer)
        ensures
            r@.window == debounce_ms * 1_000_000,
            r@.pending.len() == 0,
            r.well_formed(),
    {
        Debouncer { window: debounce_ms as u128 * 1_000_000, pending: Vec::new() }
    }

    /// Whether every path is pending at most once and the window is one that
    /// [`Debouncer::new`] makes.
    pub open spec fn well_formed(&self) -> bool {
        self@.is_valid() && 0 <= self@.window <= u64::MAX * 1_000_000
    }

    /// Notes a change: the path is due one window from now, whatever was noted of
    /// it before.
    pub fn reset_deadline(&mut self, path: String, now: u64)
        requires
            old(self).well_formed(),
        ensures
            final(self).well_formed(),
            final(self)@ == old(self)@.changed(path@, now as int),
    {
        let ghost before = self@;
        let due: u128 = now as u128 + self.window;
        let mut i: usize = 0;
        while i < self.pending.len()
            invariant
                i <= self.pending@.len(),
                self@ == before,
                before.is_valid(),
                0 <= before.window <= u64::MAX * 1_000_000,
                before == old(self)@,
                due == now + before.window,
                forall|j: int| 0 <= j < i ==> (#[trigger] before.pending[j]).path != path@,
            decreases self.pending@.len() - i,
        {
            assert(before.pending[i as int].path == self.pending@[i as int].path@);
            if self.pending[i].path == path {
                proof {
                    lemma_position_unique(before.pending, path@, i as int);
                }
                self.pending.set(i, Pending { path, due });
                assert(self@.pending =~= before.changed(path@, now as int).pending);
                return;
            }
            i += 1;
        }
        proof {
            lemma_position_unique(before.pending, path@, i as int);
        }
        self.pending.push(Pending { path, due });
        assert(self@.pending =~= before.changed(path@, now as int).pending);
    }

    /// The earliest moment at which something is due; `None` while nothing is
    /// pending.
    pub fn next_deadline(&self) -> (r: Option<u128>)
        ensures
            match r {
                Some(t) => is_earliest(self@.pending, t as int),
                None => self@.pending.len() == 0,
            },
    {
        if self.pending.len() == 0 {
            return None;
        }
        let mut min: u128 = self.pending[0].due;
        let mut i: usize = 1;
        assert(self@.pending[0].due == min);
        while i < self.pending.len()
            invariant
                1 <= i <= self.pending@.len(),
                exists|j: int| 0 <= j < i && (#[trigger] self@.pending[j]).due == min,
                forall|j: int| 0 <= j < i ==> min <= (#[trigger] self@.pending[j]).due,
            decreases self.pending@.len() - i,
        {
            assert(self@.pending[i as int].due == self.pending@[i as int].due);
            if self.pending[i].due < min {
                min = self.pending[i].due;
            }
            i += 1;
        }
        Some(min)
    }

    /// Takes out the changes that are due at `now`, in the order in which their
    /// paths were first noted.
    pub fn take_due(&mut self, now: u128) -> (r: Vec<String>)
        requires
            old(self).well_formed(),
        ensures
            final(self).well_formed(),
            final(self)@ == old(self)@.fired(now as int),
            text::strs(r@) == due_paths(old(self)@.pending, now as int),
    {
        broadcast use text::lemma_strs_push;

        let ghost before = self@;
        let mut due: Vec<String> = Vec::new();
        let mut kept: Vec<Pending> = Vec::new();
        let mut i: usize = 0;
        assert(pending_view(kept@) =~= not_due(before.pending.take(0), now as int));
        assert(text::strs(due@) =~= due_paths(before.pending.take(0), now as int));
        while i < self.pending.len()
            invariant
                i <= self.pending@.len(),
                self@ == before,
                pending_view(kept@) == not_due(before.pending.take(i as int), now as int),
                text::strs(due@) == due_paths(before.pending.take(i as int), now as int),
            decreases self.pending@.len() - i,
        {
            assert(before.pending.take(i + 1).drop_last() =~= before.pending.take(i as int));
            let ghost was = pending_view(kept@);
            let entry = Pending { path: self.pending[i].path.clone(), due: self.pending[i].due };
            assert(before.pending[i as int] == (PendingView { path: entry.path@, due: entry.due as int }));
            if entry.due <= now {
                due.push(entry.path);
            } else {
                kept.push(entry);
                assert(pending_view(kept@) =~= was.push(before.pending[i as int]));
            }
            i += 1;
        }
        assert(before.pending.take(i as int) =~= before.pending);
        proof {
            lemma_not_due_subsequence(before.pending, now as int);
        }
        self.pending = kept;
        due
    }

    /// Takes out the changes that are due at `now` and gives the watched paths to
    /// push for them, one for each change that belongs to a watched path.
    pub fn fire_due(&mut self, now: u128, locals: &Vec<String>) -> (r: Vec<usize>)
        requires
            old(self).well_formed(),
        ensures
            final(self).well_formed(),
            final(self)@ == old(self)@.fired(now as int),
            r@.map_values(|k: usize| k as int) == owners(
                due_paths(old(self)@.pending, now as int),
                text::strs(locals@),
            ),
            forall|i: int| 0 <= i < r@.len() ==> #[trigger] r@[i] < locals@.len(),
    {
        let due = self.take_due(now);
        let ghost all = text::strs(due@);
        let ghost ls = text::strs(locals@);
        let mut out: Vec<usize> = Vec::new();
        let mut i: usize = 0;
        assert(out@.map_values(|k: usize| k as int) =~= owners(all.take(0), ls));
        while i < due.len()
            invariant
                i <= due@.len(),
                all == text::strs(due@),
                ls == text::strs(locals@),
                out@.map_values(|k: usize| k as int) == owners(all.take(i as int), ls),
                forall|j: int| 0 <= j < out@.len() ==> #[trigger] out@[j] < locals@.len(),
            decreases due@.len() - i,
        {
            assert(all.take(i + 1).drop_last() =~= all.take(i as int));
            let ghost was = out@.map_values(|k: usize| k as int);
            match find_owner(due[i].as_str(), locals) {
                Some(k) => {
                    proof {
                        law_owner_is_deepest(all[i as int], ls, ls.len() as int);
                    }
                    out.push(k);
                    assert(out@.map_values(|k: usize| k as int) =~= was.push(k as int));
                },
                None => {},
            }
            i += 1;
        }
        assert(all.take(all.len() as int) =~= all);
        out
    }
}

/// What is not due keeps its order, and every path stays pending at most once.
proof fn lemma_not_due_subsequence(pending: Seq<PendingView>, now: int)
    ensures
        not_due(pending, now).len() <= pending.len(),
        forall|i: int| 0 <= i < not_due(pending, now).len() ==> pending.contains(#[trigger] not_due(pending, now)[i]),
        (forall|i: int, j: int|
            0 <= i < j < pending.len() ==> (#[trigger] pending[i]).path != (#[trigger] pending[j]).path) ==> (forall|
            i: int,
            j: int,
        |
            0 <= i < j < not_due(pending, now).len() ==> (#[trigger] not_due(pending, now)[i]).path != (
            #[trigger] not_due(pending, now)[j]).path),
    decreases pending.len(),
{
    if pending.len() > 0 {
        let rest = pending.drop_last();
        let left = not_due(rest, now);
        lemma_not_due_subsequence(rest, now);
        let whole = not_due(pending, now);
        assert forall|i: int| 0 <= i < whole.len() implies pending.contains(#[trigger] whole[i]) by {
            if i < left.len() {
                assert(rest.contains(left[i]));
                let k = choose|k: int| 0 <= k < rest.len() && rest[k] == left[i];
                assert(pending[k] == whole[i]);
            } else {
                assert(pending[pending.len() - 1] == whole[i]);
            }
        }
        if forall|i: int, j: int|
            0 <= i < j < pending.len() ==> (#[trigger] pending[i]).path != (#[trigger] pending[j]).path {
            assert forall|i: int, j: int| 0 <= i < j < whole.len() implies (#[trigger] whole[i]).path != (
            #[trigger] whole[j]).path by {
                assert(forall|i: int, j: int|
                    0 <= i < j < rest.len() ==> (#[trigger] rest[i]).path == pending[i].path && (
                    #[trigger] rest[j]).path == pending[j].path);
                if j < left.len() {
                    assert(whole[i] == left[i] && whole[j] == left[j]);
                } else {
                    assert(rest.contains(left[i]));
                    let k = choose|k: int| 0 <= k < rest.len() && rest[k] == left[i];
                    assert(pending[k].path != pending[pending.len() - 1].path);
                }
            }
        }
    }
}

// ── Push watcher ─────────────────────────────────────────────────────────────

/// What the push watcher waits for.
#[derive(Debug)]
pub enum WatchInput {
    /// A path changed, `now` nanoseconds after the fixed moment.
    Changed { path: String, now: u64 },
    /// The earliest deadline has passed.
    DeadlinePassed,
    /// No more changes will be seen.
    Closed,
}

/// What the push watcher does about it.
#[derive(Debug)]
pub enum WatchOutput {
    /// Wait on.
    Wait,
    /// Push these watched paths, by their positions, then wait on.
    Push(Vec<usize>),
    /// Stop watching.
    Stop,
}

/// One step of the push watcher over the given paths.
pub fn run_push_watcher(d: &mut Debouncer, locals: &Vec<String>, input: WatchInput) -> (r: WatchOutput)
    requires
        old(d).well_formed(),
    ensures
        final(d).well_formed(),
        match input {
            WatchInput::Changed { path, now } => r is Wait && final(d)@ == old(d)@.changed(path@, now as int),
            WatchInput::DeadlinePassed => if old(d)@.pending.len() == 0 {
                r is Wait && final(d)@ == old(d)@
            } else {
                exists|t: int| #[trigger]
                    is_earliest(old(d)@.pending, t) && final(d)@ == old(d)@.fired(t) && (r matches WatchOutput::Push(
                        indices,
                    ) && indices@.map_values(|k: usize| k as int) == owners(
                        due_paths(old(d)@.pending, t),
                        text::strs(locals@),
                    ))
            },
            WatchInput::Closed => r is Stop && final(d)@ == old(d)@,
        },
        r matches WatchOutput::Push(indices) ==> forall|i: int|
            0 <= i < indices@.len() ==> #[trigger] indices@[i] < locals@.len(),
{
    match input {
        WatchInput::Changed { path, now } => {
            d.reset_deadline(path, now);
            WatchOutput::Wait
        },
        WatchInput::DeadlinePassed => match d.next_deadline() {
            Some(t) => {
                assert(is_earliest(d@.pending, t as int));
                WatchOutput::Push(d.fire_due(t, locals))
            },
            None => WatchOutput::Wait,
        },
        WatchInput::Closed => WatchOutput::Stop,
    }
}

/// The error for a watcher that could not be set up.
pub fn init_error(cause: &str) -> (r: Error)
    ensures
        r@ == ErrorView::Config("inotify init failed: "@ + cause@),
{
    Error::Config("inotify init failed: ".to_string().concat(cause))
}

/// The error for a path that could not be watched.
pub fn watch_error(local: &str, cause: &str) -> (r: Error)
    ensures
        r@ == ErrorView::Config("cannot watch "@ + local@ + ": "@ + cause@),
{
    Error::Config("cannot watch ".to_string().concat(local).concat(": ").concat(cause))
}

// ── Pull poller ──────────────────────────────────────────────────────────────

/// A poller: it pulls every path, waits, and begins again.
#[derive(Debug)]
pub struct PullPoller {
    paths: Vec<SyncPath>,
    run: SyncRun,
    poll_secs: u64,
}

/// What a poller does next.
#[derive(Debug)]
pub enum PollStep {
    /// Pull this path, and call [`PullPoller::next`] with the outcome.
    Pull(SyncPath),
    /// Wait for this many seconds, and call [`PullPoller::next`].
    Wait(u64),
}

/// The mathematical content of a [`PullPoller`].
pub ghost struct PollerView {
    pub paths: Seq<SyncPathView>,
    pub run: RunView,
    pub poll_secs: u64,
}

/// The mathematical content of a [`PollStep`].
pub ghost enum PollStepView {
    Pull(SyncPathView),
    Wait(u64),
}

impl View for PullPoller {
    type V = PollerView;

    closed spec fn view(&self) -> PollerView {
        PollerView { paths: config::paths_view(self.paths@), run: self.run@, poll_secs: self.poll_secs }
    }
}

impl View for PollStep {
    type V = PollStepView;

    open spec fn view(&self) -> PollStepView {
        match self {
            PollStep::Pull(sp) => PollStepView::Pull(sp@),
            PollStep::Wait(secs) => PollStepView::Wait(*secs),
        }
    }
}

impl PollerView {
    /// A poller of these paths, before it begins.
    pub open spec fn of(paths: Seq<SyncPathView>, poll_secs: u64) -> PollerView {
        PollerView { paths, run: RunView::of(paths), poll_secs }
    }

    /// What comes next; `failed` says whether the path pulled last has failed.
    pub open spec fn step(self, failed: bool) -> PollStepView {
        match self.run.step(failed) {
            RunStepView::Sync(sp) => PollStepView::Pull(sp),
            RunStepView::Finished(_) => PollStepView::Wait(self.poll_secs),
        }
    }

    /// The poller once it has said what comes next: after the wait the next round
    /// begins.
    pub open spec fn after(self, failed: bool) -> PollerView {
        PollerView {
            run: match self.run.step(failed) {
                RunStepView::Sync(_) => self.run.after(failed),
                RunStepView::Finished(_) => RunView::of(self.paths),
            },
            ..self
        }
    }
}

impl PullPoller {
    /// A poller of all configured paths.
    pub fn new(syncer: &Syncer, poll_secs: u64) -> (r: PullPoller)
        ensures
            r@ == PollerView::of(syncer@.cfg.paths, poll_secs),
    {
        PullPoller { paths: syncer.clone().cfg.paths, run: syncer.run(), poll_secs }
    }

    /// What comes next, given the outcome of the path pulled last.
    pub fn next(&mut self, outcome: Option<Result<(), Error>>) -> (r: PollStep)
        ensures
            r@ == old(self)@.step(run::is_failure(outcome)),
            final(self)@ == old(self)@.after(run::is_failure(outcome)),
    {
        match self.run.next(outcome) {
            SyncRunStep::Sync(sp) => PollStep::Pull(sp),
            SyncRunStep::Finished(_) => {
                self.run = SyncRun::new(&self.paths);
                PollStep::Wait(self.poll_secs)
            },
        }
    }
}

/// A poller of these paths after `j` calls of [`PullPoller::next`] in a round.
pub open spec fn poller_after(p: PollerView, failures: Seq<bool>, j: nat) -> PollerView
    decreases j,
{
    if j == 0 {
        p
    } else {
        poller_after(p, failures, (j - 1) as nat).after(run::told(failures, (j - 1) as nat))
    }
}

// ── Laws ─────────────────────────────────────────────────────────────────────

/// In each round a poller pulls every path, in order, whichever of them fail, then
/// waits, and then begins the same round again.
pub proof fn law_every_round_pulls_every_path(
    paths: Seq<SyncPathView>,
    poll_secs: u64,
    failures: Seq<bool>,
    j: nat,
)
    requires
        failures.len() == paths.len(),
        j <= paths.len(),
    ensures
        ({
            let p = PollerView::of(paths, poll_secs);
            let next = poller_after(p, failures, j).step(run::told(failures, j));
            if j < paths.len() {
                next == PollStepView::Pull(paths[j as int])
            } else {
                next == PollStepView::Wait(poll_secs) && poller_after(p, failures, j + 1) == p
            }
        }),
{
    let p = PollerView::of(paths, poll_secs);
    lemma_poller_after(p, failures, j);
    run::law_every_path_is_tried(paths, failures, j);
}

proof fn lemma_poller_after(p: PollerView, failures: Seq<bool>, j: nat)
    requires
        p == PollerView::of(p.paths, p.poll_secs),
        failures.len() == p.paths.len(),
        j <= p.paths.len(),
    ensures
        poller_after(p, failures, j) == (PollerView { run: run::run_after(p.paths, failures, j), ..p }),
    decreases j,
{
    if j > 0 {
        let i = (j - 1) as nat;
        lemma_poller_after(p, failures, i);
        run::law_every_path_is_tried(p.paths, failures, i);
    }
}

/// A path whose change was just seen is due exactly one window later, whatever
/// was seen of it before; every other path stays due when it was.
pub proof fn law_debounce_restarts_with_every_change(d: DebouncerView, p: Seq<char>, q: Seq<char>, now: int)
    requires
        d.is_valid(),
    ensures
        d.changed(p, now).is_valid(),
        d.changed(p, now).due_time(p) == Some(now + d.window),
        q != p ==> d.changed(p, now).due_time(q) == d.due_time(q),
{
    let k = position(d.pending, p);
    let after = d.changed(p, now).pending;
    lemma_position(d.pending, p);
    lemma_position_unique(after, p, k);
    if q != p {
        lemma_position(d.pending, q);
        lemma_position(after, q);
        let i = position(d.pending, q);
        let j = position(after, q);
        if i < d.pending.len() {
            assert(after[i] == d.pending[i]);
            lemma_position_unique(after, q, i);
        } else {
            assert forall|x: int| 0 <= x < after.len() implies (#[trigger] after[x]).path != q by {
                if x < d.pending.len() && x != k {
                    assert(after[x] == d.pending[x]);
                }
            }
            assert(j == after.len());
        }
    }
    assert forall|i: int, j: int| 0 <= i < j < after.len() implies (#[trigger] after[i]).path != (
    #[trigger] after[j]).path by {
        if i < d.pending.len() {
            assert(after[i].path == d.pending[i].path);
        }
        if j < d.pending.len() {
            assert(after[j].path == d.pending[j].path);
        }
    }
}

/// When the earliest deadline has passed, at least one change fires.
pub proof fn law_a_deadline_fires_something(d: DebouncerView, t: int)
    requires
        d.is_valid(),
        is_earliest(d.pending, t),
    ensures
        due_paths(d.pending, t).len() > 0,
        d.fired(t).pending.len() < d.pending.len(),
{
    let i = choose|i: int| 0 <= i < d.pending.len() && (#[trigger] d.pending[i]).due == t;
    let p = d.pending[i].path;
    assert forall|j: int| 0 <= j < i implies (#[trigger] d.pending[j]).path != p by {}
    lemma_position_unique(d.pending, p, i);
    law_exactly_what_is_due_fires(d, p, t);
    lemma_due_counts(d.pending, t);
}

proof fn lemma_due_counts(pending: Seq<PendingView>, now: int)
    ensures
        due_paths(pending, now).len() + not_due(pending, now).len() == pending.len(),
    decreases pending.len(),
{
    if pending.len() > 0 {
        lemma_due_counts(pending.drop_last(), now);
    }
}

/// No change is lost or pushed early: what fires at a moment is exactly what is
/// due then, and everything else stays pending, due when it was.
pub proof fn law_exactly_what_is_due_fires(d: DebouncerView, p: Seq<char>, now: int)
    requires
        d.is_valid(),
    ensures
        d.fired(now).is_valid(),
        match d.due_time(p) {
            Some(t) if t <= now => due_paths(d.pending, now).contains(p) && d.fired(now).due_time(p) is None,
            Some(t) => !due_paths(d.pending, now).contains(p) && d.fired(now).due_time(p) == Some(t),
            None => !due_paths(d.pending, now).contains(p) && d.fired(now).due_time(p) is None,
        },
{
    lemma_not_due_subsequence(d.pending, now);
    lemma_due_split(d.pending, p, now);
    lemma_position(d.pending, p);
    let left = not_due(d.pending, now);
    lemma_position(left, p);
    let k = position(d.pending, p);
    let j = position(left, p);
    if k < d.pending.len() {
        if d.pending[k].due > now {
            assert(left.contains(d.pending[k]));
            let x = choose|x: int| 0 <= x < left.len() && left[x] == d.pending[k];
            if j < left.len() && j != x {
                assert(left[j].path == left[x].path);
                if j < x {
                    assert(left[j].path != left[x].path);
                } else {
                    assert(left[x].path != left[j].path);
                }
            }
        } else if j < left.len() {
            assert(d.pending.contains(left[j]));
            let y = choose|y: int| 0 <= y < d.pending.len() && d.pending[y] == left[j];
            if y < k {
                assert(d.pending[y].path != d.pending[k].path);
            } else if y > k {
                assert(d.pending[k].path != d.pending[y].path);
            }
            lemma_left_is_not_due(d.pending, now, j);
        }
    } else if j < left.len() {
        assert(d.pending.contains(left[j]));
        let y = choose|y: int| 0 <= y < d.pending.len() && d.pending[y] == left[j];
        assert(d.pending[y].path == p);
    }
}

/// Every change that is pending is either due or left, and only due changes are
/// among the due paths.
proof fn lemma_due_split(pending: Seq<PendingView>, p: Seq<char>, now: int)
    ensures
        due_paths(pending, now).contains(p) <==> exists|i: int|
            0 <= i < pending.len() && (#[trigger] pending[i]).path == p && pending[i].due <= now,
        forall|i: int|
            0 <= i < pending.len() && (#[trigger] pending[i]).due > now ==> not_due(pending, now).contains(pending[i]),
    decreases pending.len(),
{
    if pending.len() > 0 {
        let rest = pending.drop_last();
        let last = pending.last();
        lemma_due_split(rest, p, now);
        let paths = due_paths(pending, now);
        let left = not_due(pending, now);
        if paths.contains(p) {
            let x = choose|x: int| 0 <= x < paths.len() && paths[x] == p;
            if x < due_paths(rest, now).len() {
                assert(due_paths(rest, now)[x] == p);
                let i = choose|i: int| 0 <= i < rest.len() && (#[trigger] rest[i]).path == p && rest[i].due <= now;
                assert(pending[i] == rest[i]);
            } else {
                assert(pending[pending.len() - 1].path == p);
            }
        }
        if exists|i: int| 0 <= i < pending.len() && (#[trigger] pending[i]).path == p && pending[i].due <= now {
            let i = choose|i: int|
                0 <= i < pending.len() && (#[trigger] pending[i]).path == p && pending[i].due <= now;
            if i < rest.len() {
                assert(rest[i] == pending[i]);
                let x = choose|x: int| 0 <= x < due_paths(rest, now).len() && due_paths(rest, now)[x] == p;
                assert(paths[x] == p);
            } else {
                assert(paths[paths.len() - 1] == p);
            }
        }
        assert forall|i: int| 0 <= i < pending.len() && (#[trigger] pending[i]).due > now implies left.contains(
            pending[i],
        ) by {
            if i < rest.len() {
                assert(rest[i] == pending[i]);
                let x = choose|x: int| 0 <= x < not_due(rest, now).len() && not_due(rest, now)[x] == rest[i];
                assert(left[x] == pending[i]);
            } else {
                assert(left[left.len() - 1] == last);
            }
        }
    }
}

proof fn lemma_left_is_not_due(pending: Seq<PendingView>, now: int, j: int)
    requires
        0 <= j < not_due(pending, now).len(),
    ensures
        not_due(pending, now)[j].due > now,
    decreases pending.len(),
{
    if pending.len() > 0 {
        let earlier = not_due(pending.drop_last(), now);
        if j < earlier.len() {
            lemma_left_is_not_due(pending.drop_last(), now, j);
        }
    }
}

} // verus!
