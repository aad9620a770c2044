//! Laws on watching: which changes are pushed, and when.

use vstd::prelude::*;
use vstd::string::*;
use crate::config::SyncPathView;
use crate::laws::paths;
use crate::path;
use crate::sync::profile;
use crate::sync::watcher;
use crate::sync::watcher::{DebouncerView, PendingView, PollStep, PollStepView, PollerView, WatchDirection};

verus! {

/// Every change inside a watched directory, at any depth and under any name, belongs
/// to a watched path that it lies under, at least as deep as that directory.
pub proof fn law_every_change_inside_has_an_owner(locals: Seq<Seq<char>>, j: int, rest: Seq<char>)
    requires
        0 <= j < locals.len(),
    ensures
        ({
            let changed = path::inside(locals[j], rest);
            let found = watcher::owner(changed, locals, locals.len() as int);
            &&& found is Some
            &&& 0 <= found->Some_0 < locals.len()
            &&& path::is_under(changed, locals[found->Some_0])
            &&& watcher::depth(locals[j]) <= watcher::depth(locals[found->Some_0])
        }),
{
    let changed = path::inside(locals[j], rest);
    paths::law_what_is_inside_lies_under(locals[j], rest);
    watcher::law_owner_is_deepest(changed, locals, locals.len() as int);
    assert(path::is_under(changed, locals[j]));
}

/// A change of a watched path itself belongs to it, or to one just as deep.
pub proof fn law_a_watched_path_owns_itself(locals: Seq<Seq<char>>, j: int)
    requires
        0 <= j < locals.len(),
    ensures
        watcher::owner(locals[j], locals, locals.len() as int) matches Some(k) && watcher::depth(locals[k])
            >= watcher::depth(locals[j]),
{
    path::law_every_path_lies_under_itself(locals[j]);
    watcher::law_owner_is_deepest(locals[j], locals, locals.len() as int);
    assert(path::is_under(locals[j], locals[j]));
}

/// With one watched directory, exactly what lies under it belongs to it.
pub proof fn law_one_watched_path(changed: Seq<char>, local: Seq<char>)
    ensures
        watcher::owner(changed, seq![local], 1) == (if path::is_under(changed, local) {
            Some(0int)
        } else {
            None
        }),
{
    reveal_with_fuel(watcher::owner, 2);
}

/// Of two watched paths of which one lies in the other, a change in the inner one
/// belongs to the inner one, whichever is listed first.
pub proof fn law_the_inner_path_owns(outer: Seq<char>, name: Seq<char>, rest: Seq<char>)
    requires
        outer.len() > 0,
        paths::is_name(name),
    ensures
        ({
            let inner = path::inside(outer, name);
            let changed = path::inside(inner, rest);
            &&& watcher::owner(changed, seq![outer, inner], 2) == Some(1int)
            &&& watcher::owner(changed, seq![inner, outer], 2) == Some(0int)
            &&& watcher::depth(inner) == watcher::depth(outer) + 1
        }),
{
    reveal_with_fuel(watcher::owner, 3);
    let inner = path::inside(outer, name);
    let changed = path::inside(inner, rest);
    paths::law_neighbours_lie_apart(outer, name, name);
    paths::law_what_is_inside_lies_under(outer, name);
    paths::law_what_is_inside_lies_under(inner, rest);
    path::law_lying_under_is_transitive(changed, inner, outer);
}

/// Among watched paths that are equally deep, the last one owns a change.
pub proof fn law_the_last_of_equals_owns(changed: Seq<char>, locals: Seq<Seq<char>>, n: int, j: int)
    requires
        0 <= n <= locals.len(),
        watcher::owner(changed, locals, n) matches Some(k) && k < j < n,
        path::is_under(changed, locals[j]),
    ensures
        watcher::depth(locals[j]) < watcher::depth(locals[watcher::owner(changed, locals, n)->Some_0]),
    decreases n,
{
    if n > 0 {
        let k = watcher::owner(changed, locals, n)->Some_0;
        if j < n - 1 {
            watcher::law_owner_is_deepest(changed, locals, n - 1);
            law_the_last_of_equals_owns(changed, locals, n - 1, j);
        }
    }
}

/// Changes are taken one by one: of each, the path that it belongs to is pushed;
/// what belongs to none is not.
pub proof fn law_each_change_pushes_its_owner(
    a: Seq<Seq<char>>,
    b: Seq<Seq<char>>,
    p: Seq<char>,
    locals: Seq<Seq<char>>,
)
    ensures
        watcher::owners(a + b, locals) == watcher::owners(a, locals) + watcher::owners(b, locals),
        watcher::owners(seq![p], locals) == (match watcher::owner(p, locals, locals.len() as int) {
            Some(k) => seq![k],
            None => seq![],
        }),
    decreases b.len(),
{
    reveal_with_fuel(watcher::owners, 2);
    assert(seq![p].drop_last() =~= seq![]);
    assert(watcher::owners(seq![p], locals) =~= (match watcher::owner(p, locals, locals.len() as int) {
        Some(k) => seq![k],
        None => seq![],
    }));
    if b.len() == 0 {
        assert(a + b =~= a);
        assert(watcher::owners(a, locals) + watcher::owners(b, locals) =~= watcher::owners(a, locals));
    } else {
        assert((a + b).drop_last() =~= a + b.drop_last());
        assert((a + b).last() == b.last());
        law_each_change_pushes_its_owner(a, b.drop_last(), p, locals);
        assert(watcher::owners(a + b, locals) =~= watcher::owners(a, locals) + watcher::owners(b, locals));
    }
}

/// What is due is taken out, in order, and what is not stays, in order.
pub proof fn law_due_changes_are_taken_in_order(
    a: Seq<PendingView>,
    b: Seq<PendingView>,
    p: PendingView,
    now: int,
)
    ensures
        watcher::due_paths(a + b, now) == watcher::due_paths(a, now) + watcher::due_paths(b, now),
        watcher::due_paths(seq![p], now) == (if p.due <= now {
            seq![p.path]
        } else {
            seq![]
        }),
        watcher::not_due(a + b, now) == watcher::not_due(a, now) + watcher::not_due(b, now),
        watcher::not_due(seq![p], now) == (if p.due <= now {
            seq![]
        } else {
            seq![p]
        }),
    decreases b.len(),
{
    reveal_with_fuel(watcher::due_paths, 2);
    reveal_with_fuel(watcher::not_due, 2);
    assert(seq![p].drop_last() =~= seq![]);
    assert(watcher::due_paths(seq![p], now) =~= (if p.due <= now {
        seq![p.path]
    } else {
        seq![]
    }));
    assert(watcher::not_due(seq![p], now) =~= (if p.due <= now {
        seq![]
    } else {
        seq![p]
    }));
    if b.len() == 0 {
        assert(a + b =~= a);
        assert(watcher::due_paths(a, now) + watcher::due_paths(b, now) =~= watcher::due_paths(a, now));
        assert(watcher::not_due(a, now) + watcher::not_due(b, now) =~= watcher::not_due(a, now));
    } else {
        assert((a + b).drop_last() =~= a + b.drop_last());
        assert((a + b).last() == b.last());
        law_due_changes_are_taken_in_order(a, b.drop_last(), p, now);
        assert(watcher::due_paths(a + b, now) =~= watcher::due_paths(a, now) + watcher::due_paths(b, now));
        assert(watcher::not_due(a + b, now) =~= watcher::not_due(a, now) + watcher::not_due(b, now));
    }
}

/// A change inside a watched directory, once its time has come, pushes a watched path
/// that it lies under: nothing that was changed is forgotten.
pub proof fn law_no_change_is_forgotten(
    d: DebouncerView,
    locals: Seq<Seq<char>>,
    j: int,
    rest: Seq<char>,
    now: int,
    t: int,
)
    requires
        d.is_valid(),
        0 <= j < locals.len(),
        now + d.window <= t,
    ensures
        ({
            let changed = path::inside(locals[j], rest);
            let after = d.changed(changed, now);
            let k = watcher::owner(changed, locals, locals.len() as int);
            &&& k is Some
            &&& watcher::due_paths(after.pending, t).contains(changed)
            &&& watcher::owners(watcher::due_paths(after.pending, t), locals).contains(k->Some_0)
        }),
{
    let changed = path::inside(locals[j], rest);
    let after = d.changed(changed, now);
    law_every_change_inside_has_an_owner(locals, j, rest);
    watcher::law_debounce_restarts_with_every_change(d, changed, changed, now);
    watcher::law_exactly_what_is_due_fires(after, changed, t);
    lemma_owner_among(watcher::due_paths(after.pending, t), changed, locals);
}

proof fn lemma_owner_among(changes: Seq<Seq<char>>, p: Seq<char>, locals: Seq<Seq<char>>)
    requires
        changes.contains(p),
        watcher::owner(p, locals, locals.len() as int) is Some,
    ensures
        watcher::owners(changes, locals).contains(watcher::owner(p, locals, locals.len() as int)->Some_0),
    decreases changes.len(),
{
    let k = watcher::owner(p, locals, locals.len() as int)->Some_0;
    let i = choose|i: int| 0 <= i < changes.len() && changes[i] == p;
    let fewer = changes.drop_last();
    let all = watcher::owners(changes, locals);
    if i < fewer.len() {
        assert(fewer[i] == p);
        lemma_owner_among(fewer, p, locals);
        let earlier = watcher::owners(fewer, locals);
        let x = choose|x: int| 0 <= x < earlier.len() && earlier[x] == k;
        assert(all[x] == k);
    } else {
        assert(all[all.len() - 1] == k);
    }
}

/// Every configured path is watched at its place on this machine.
pub proof fn law_every_path_is_watched(configured: Seq<SyncPathView>, home: Option<Seq<char>>, i: int)
    ensures
        watcher::locals(configured, home).len() == configured.len(),
        0 <= i < configured.len() ==> watcher::locals(configured, home)[i] == profile::expanded(configured[i].local, home),
{
}

/// Pending changes are as they should be exactly if no path is pending twice.
pub proof fn law_no_path_is_pending_twice(d: DebouncerView)
    ensures
        d.is_valid() <==> d.pending.map_values(|e: PendingView| e.path).no_duplicates(),
{
    let paths = d.pending.map_values(|e: PendingView| e.path);
    if paths.no_duplicates() {
        assert forall|i: int, j: int| 0 <= i < j < d.pending.len() implies (#[trigger] d.pending[i]).path != (
        #[trigger] d.pending[j]).path by {
            assert(paths[i] != paths[j]);
        }
    }
    if d.is_valid() {
        assert forall|i: int, j: int| 0 <= i < paths.len() && 0 <= j < paths.len() && i != j implies paths[i]
            != paths[j] by {
            if i < j {
                assert(d.pending[i].path != d.pending[j].path);
            } else {
                assert(d.pending[j].path != d.pending[i].path);
            }
        }
    }
}

/// What is due leaves, and nothing else does; the window stays.
pub proof fn law_what_is_due_leaves(d: DebouncerView, now: int)
    ensures
        d.fired(now).pending == watcher::not_due(d.pending, now),
        d.fired(now).window == d.window,
{
}

/// A change that is pending is due a whole window after it came; every other pending
/// change stays as it is, and a change that was not pending comes last.
pub proof fn law_changes_restart_the_window(d: DebouncerView, p: Seq<char>, now: int, i: int)
    requires
        d.is_valid(),
    ensures
        ({
            let after = d.changed(p, now).pending;
            &&& d.changed(p, now).window == d.window
            &&& 0 <= i < d.pending.len() && d.pending[i].path == p ==> after.len() == d.pending.len() && after[i]
                == PendingView { path: p, due: now + d.window }
            &&& 0 <= i < d.pending.len() && d.pending[i].path != p ==> after[i] == d.pending[i]
            &&& (forall|k: int| 0 <= k < d.pending.len() ==> (#[trigger] d.pending[k]).path != p) ==> after
                == d.pending.push(PendingView { path: p, due: now + d.window })
        }),
{
    lemma_position(d.pending, p);
    let k = watcher::position(d.pending, p);
    if 0 <= i < d.pending.len() && d.pending[i].path == p {
        assert(k == i) by {
            if k < i {
                assert(d.pending[k].path != d.pending[i].path);
            }
        }
    }
}

proof fn lemma_position(pending: Seq<PendingView>, p: Seq<char>)
    ensures
        0 <= watcher::position(pending, p) <= pending.len(),
        watcher::position(pending, p) < pending.len() ==> pending[watcher::position(pending, p)].path == p,
        forall|i: int| 0 <= i < watcher::position(pending, p) ==> (#[trigger] pending[i]).path != p,
    decreases pending.len(),
{
    if pending.len() > 0 && pending[0].path != p {
        let rest = pending.skip(1);
        lemma_position(rest, p);
        let k = watcher::position(pending, p);
        assert forall|i: int| 0 <= i < k implies (#[trigger] pending[i]).path != p by {
            if i > 0 {
                assert(rest[i - 1] == pending[i]);
            }
        }
    }
}

/// The earliest time at which something is due is one at which something is, and
/// before which nothing is.
pub proof fn law_the_earliest_is_waited_for(pending: Seq<PendingView>, t: int, now: int)
    ensures
        watcher::is_earliest(pending, t) && now < t ==> watcher::due_paths(pending, now).len() == 0,
        watcher::is_earliest(pending, t) && now >= t ==> watcher::due_paths(pending, now).len() > 0,
        watcher::is_earliest(pending, t) ==> pending.len() > 0,
        watcher::is_earliest(pending, t) && watcher::is_earliest(pending, now) ==> t == now,
{
    if watcher::is_earliest(pending, t) {
        let k = choose|k: int| 0 <= k < pending.len() && (#[trigger] pending[k]).due == t;
        assert(pending[k].due == t);
        lemma_due(pending, k, now);
        if watcher::is_earliest(pending, now) {
            let j = choose|j: int| 0 <= j < pending.len() && (#[trigger] pending[j]).due == now;
            assert(pending[j].due == now);
        }
    }
}

proof fn lemma_due(pending: Seq<PendingView>, k: int, now: int)
    requires
        0 <= k < pending.len(),
    ensures
        pending[k].due <= now ==> watcher::due_paths(pending, now).len() > 0,
        (forall|i: int| 0 <= i < pending.len() ==> now < (#[trigger] pending[i]).due) ==> watcher::due_paths(
            pending,
            now,
        ).len() == 0,
    decreases pending.len(),
{
    let fewer = pending.drop_last();
    assert(pending.last() == pending[pending.len() - 1]);
    if fewer.len() > 0 {
        lemma_due(
            fewer,
            if k < fewer.len() {
                k
            } else {
                0
            },
            now,
        );
        if forall|i: int| 0 <= i < pending.len() ==> now < (#[trigger] pending[i]).due {
            assert forall|i: int| 0 <= i < fewer.len() implies now < (#[trigger] fewer[i]).due by {
                assert(fewer[i] == pending[i]);
            }
        }
    }
}

/// Polling pulls every path in order, whatever became of the one before, then waits
/// for the configured time, and begins again.
pub proof fn law_polling_goes_round(p: PollerView, failed: bool, paths: Seq<SyncPathView>, secs: u64)
    ensures
        p.run.taken < p.run.paths.len() ==> p.step(failed) == PollStepView::Pull(p.run.paths[p.run.taken as int])
            && p.after(failed).run.taken == p.run.taken + 1 && p.after(failed).run.paths == p.run.paths,
        p.run.taken >= p.run.paths.len() ==> p.step(failed) == PollStepView::Wait(p.poll_secs) && p.after(
            failed,
        ).run.taken == 0 && p.after(failed).run.paths == p.paths && !p.after(failed).run.failed,
        p.after(failed).paths == p.paths && p.after(failed).poll_secs == p.poll_secs,
        PollerView::of(paths, secs).paths == paths && PollerView::of(paths, secs).poll_secs == secs,
        PollerView::of(paths, secs).run.paths == paths && PollerView::of(paths, secs).run.taken == 0,
{
}

/// Counting goes entry by entry.
pub proof fn law_counting(a: Seq<bool>, b: bool)
    ensures
        watcher::count_true(a.push(b)) == watcher::count_true(a) + if b {
            1nat
        } else {
            0nat
        },
        watcher::count_true(seq![]) == 0,
{
    assert(a.push(b).drop_last() =~= a);
}

/// A direction is named by its own word and by no other.
pub proof fn law_directions_have_their_words(s: Seq<char>)
    ensures
        watcher::direction_named(s) == Some(WatchDirection::Push) <==> s == "push"@,
        watcher::direction_named(s) == Some(WatchDirection::Pull) <==> s == "pull"@,
        watcher::direction_named(s) == Some(WatchDirection::Both) <==> s == "both"@,
{
    reveal_strlit("push");
    reveal_strlit("pull");
    reveal_strlit("both");
    assert("push"@[2] == 's' && "pull"@[2] == 'l' && "both"@[0] == 'b' && "push"@[0] == 'p' && "pull"@[0] == 'p');
}

/// A step of a poller is seen as it is.
pub proof fn law_poll_steps_are_seen_whole(s: PollStep)
    ensures
        match (s, s@) {
            (PollStep::Pull(sp), PollStepView::Pull(v)) => sp@ == v,
            (PollStep::Wait(a), PollStepView::Wait(b)) => a == b,
            _ => false,
        },
{
}

} // verus!
