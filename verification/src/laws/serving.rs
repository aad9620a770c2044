//! Laws on the daemon, its messages and the commands.

use vstd::prelude::*;
use vstd::string::*;
use crate::cli;
use crate::cli::{Commands, Job};
use crate::commands;
use crate::commands::{DestroyStep, Setup, SetupAction, SetupActionView, SetupEvent, SetupEventView, SetupStep, SetupView};
use crate::config::{ConfigView, SyncPathView};
use crate::daemon;
use crate::daemon::{Action, ActionView, DaemonState, JobView, StateView};
use crate::error::{Error, ErrorView};
use crate::ipc;
use crate::ipc::{DaemonEvent, DaemonRequest, DaemonResponse, DaemonStatus, EventView, ResponseView, StatusView, SyncDir, WatchDir};
use crate::number;
use crate::path;
use crate::sync::profile::Direction;
use crate::sync::run;
use crate::sync::run::{RunStepView, RunView, SyncRunStep};
use crate::text;

verus! {

// ── Watchers ─────────────────────────────────────────────────────────────────

/// The tasks that the state says are held are those that the actions started, after
/// the old ones were stopped: a push watcher for every direction but pull, a pull
/// poller for every direction but push.
pub proof fn law_what_is_held_was_started(s: StateView, direction: WatchDir, debounce_ms: u64, poll_secs: u64)
    ensures
        ({
            let all = s.start_actions(direction, debounce_ms, poll_secs);
            let stopped = s.stop_actions();
            let after = s.after_start(direction);
            let begun = all.skip(stopped.len() as int);
            &&& stopped.is_prefix_of(all)
            &&& begun.contains(ActionView::SpawnPush { debounce_ms }) <==> after.has_push
            &&& begun.contains(ActionView::SpawnPull { poll_secs }) <==> after.has_pull
            &&& all.contains(ActionView::SpawnPush { debounce_ms }) <==> after.has_push
            &&& all.contains(ActionView::SpawnPull { poll_secs }) <==> after.has_pull
            &&& after.has_push <==> direction == WatchDir::Push || direction == WatchDir::Both
            &&& after.has_pull <==> direction == WatchDir::Pull || direction == WatchDir::Both
            &&& begun.len() == 1 + (if after.has_push {
                1int
            } else {
                0int
            }) + (if after.has_pull {
                1int
            } else {
                0int
            })
            &&& all.last() == ActionView::Broadcast(EventView::Status(after.status))
            &&& after.status.watch_running && after.status.watch_direction == Some(direction)
        }),
{
    let all = s.start_actions(direction, debounce_ms, poll_secs);
    let stopped = s.stop_actions();
    let after = s.after_start(direction);
    let begun = all.skip(stopped.len() as int);
    let push = ActionView::SpawnPush { debounce_ms };
    let pull = ActionView::SpawnPull { poll_secs };
    assert(stopped =~= all.take(stopped.len() as int));
    assert(all.last() == begun.last());
    if after.has_push {
        assert(begun[0] == push);
        assert(all[stopped.len() as int] == push);
    }
    if after.has_pull {
        let i: int = if after.has_push {
            1
        } else {
            0
        };
        assert(begun[i] == pull);
        assert(all[stopped.len() + i] == pull);
    }
    assert forall|i: int| 0 <= i < stopped.len() implies stopped[i] != push && stopped[i] != pull by {}
    if all.contains(push) {
        let i = choose|i: int| 0 <= i < all.len() && all[i] == push;
        if i < stopped.len() {
            assert(stopped[i] == all[i]);
        }
    }
    if all.contains(pull) {
        let i = choose|i: int| 0 <= i < all.len() && all[i] == pull;
        if i < stopped.len() {
            assert(stopped[i] == all[i]);
        }
    }
}

/// Stopping stops exactly the tasks that are held, and says so to every client;
/// without any nothing is done.
pub proof fn law_stopping_stops_what_is_held(s: StateView)
    ensures
        s.stop_actions().contains(ActionView::AbortPush) <==> s.has_push,
        s.stop_actions().contains(ActionView::AbortPull) <==> s.has_pull,
        !s.after_stop().has_push && !s.after_stop().has_pull,
        s.has_push || s.has_pull ==> !s.after_stop().status.watch_running
            && s.after_stop().status.watch_direction is None && s.stop_actions().last() == ActionView::Broadcast(
            EventView::Status(s.after_stop().status),
        ),
        !s.has_push && !s.has_pull ==> s.after_stop() == s && s.stop_actions().len() == 0,
        s.stop_actions().len() <= 3,
{
    let all = s.stop_actions();
    if s.has_push {
        assert(all[0] == ActionView::AbortPush);
    }
    if s.has_pull {
        let i: int = if s.has_push {
            1
        } else {
            0
        };
        assert(all[i] == ActionView::AbortPull);
    }
}

/// Whether two reports say the same of the container and of the daemon.
pub open spec fn same_container(a: StatusView, b: StatusView) -> bool {
    &&& a.container_status == b.container_status
    &&& a.container_ip == b.container_ip
    &&& a.tailscale_ip == b.tailscale_ip
    &&& a.daemon_pid == b.daemon_pid
}

/// Starting, stopping and syncing change of the state only what they are about.
pub proof fn law_the_rest_of_the_state_stays(s: StateView, direction: WatchDir, ok: bool, secs: u64)
    ensures
        s.after_start(direction).can_sync == s.can_sync && s.after_stop().can_sync == s.can_sync,
        s.after_sync(ok, secs).can_sync == s.can_sync && s.after_sync(ok, secs).has_push == s.has_push && s.after_sync(
            ok,
            secs,
        ).has_pull == s.has_pull,
        s.after_sync(ok, secs).status.last_sync_ok == Some(ok),
        s.after_sync(ok, secs).status.last_sync_time == Some(number::clock(secs as int)),
        ({
            let (begun, ended) = (s.after_start(direction).status, s.after_stop().status);
            &&& begun.last_sync_ok == s.status.last_sync_ok && begun.last_sync_time == s.status.last_sync_time
            &&& ended.last_sync_ok == s.status.last_sync_ok && ended.last_sync_time == s.status.last_sync_time
            &&& same_container(begun, s.status) && same_container(ended, s.status)
        }),
        same_container(s.after_sync(ok, secs).status, s.status),
        s.after_sync(ok, secs).status.watch_running == s.status.watch_running,
        s.after_sync(ok, secs).status.watch_direction == s.status.watch_direction,
{
}

/// Every request gets what it asks for, or is refused where that cannot be had.
pub proof fn law_requests_get_what_they_ask_for(
    s: StateView,
    proxmox: bool,
    d: SyncDir,
    w: WatchDir,
    debounce_ms: u64,
    poll_secs: u64,
)
    ensures
        ({
            let done = ActionView::Respond(ResponseView::Done);
            let sync = s.request_actions(DaemonRequest::SyncNow { direction: d }, proxmox);
            let request = DaemonRequest::StartWatch { direction: w, debounce_ms, poll_secs };
            let watch = s.request_actions(request, proxmox);
            let stop = s.request_actions(DaemonRequest::StopWatch, proxmox);
            &&& s.request_actions(DaemonRequest::GetStatus, proxmox) == seq![
                ActionView::Respond(ResponseView::Status(s.status)),
            ]
            &&& s.can_sync ==> sync == seq![ActionView::Sync(d), done]
            &&& !s.can_sync ==> sync == seq![
                ActionView::Respond(
                    ResponseView::Error { message: "container IP not known — run `dps setup` first"@ },
                ),
            ]
            &&& s.can_sync ==> watch == s.start_actions(w, debounce_ms, poll_secs).push(done) && s.after_request(
                request,
            ) == s.after_start(w)
            &&& !s.can_sync ==> watch == seq![
                ActionView::Respond(ResponseView::Error { message: "no syncer available"@ }),
            ] && s.after_request(request) == s
            &&& stop == s.stop_actions().push(done) && s.after_request(DaemonRequest::StopWatch) == s.after_stop()
            &&& s.request_actions(DaemonRequest::StartContainer, true) == seq![ActionView::StartContainer]
            &&& s.request_actions(DaemonRequest::StopContainer, true) == seq![ActionView::StopContainer]
            &&& s.request_actions(DaemonRequest::StartContainer, false) == seq![
                ActionView::Respond(ResponseView::Error { message: "Proxmox client unavailable"@ }),
            ]
            &&& s.request_actions(DaemonRequest::StopContainer, false) == s.request_actions(
                DaemonRequest::StartContainer,
                false,
            )
            &&& s.request_actions(DaemonRequest::Shutdown, proxmox) == seq![
                ActionView::Broadcast(EventView::Shutdown),
                done,
                ActionView::Exit,
            ]
            &&& s.request_actions(DaemonRequest::Subscribe, proxmox) == seq![
                ActionView::Subscribe,
                ActionView::Send(EventView::Status(s.status)),
            ]
        }),
        forall|r: DaemonRequest|
            !(r is StartWatch) && !(r is StopWatch) ==> #[trigger] s.after_request(r) == s,
{
}

/// The status is true exactly if it names the direction whose tasks are held.
pub proof fn law_when_the_status_is_true(s: StateView)
    ensures
        s.is_valid() <==> {
            &&& s.status.watch_running <==> s.status.watch_direction is Some
            &&& s.has_push <==> s.status.watch_direction == Some(WatchDir::Push) || s.status.watch_direction == Some(
                WatchDir::Both,
            )
            &&& s.has_pull <==> s.status.watch_direction == Some(WatchDir::Pull) || s.status.watch_direction == Some(
                WatchDir::Both,
            )
        },
{
}

/// A configured direction is taken at its word; any other word means both.
pub proof fn law_configured_directions(word: Seq<char>)
    ensures
        daemon::configured_direction(word) == WatchDir::Push <==> word == "push"@,
        daemon::configured_direction(word) == WatchDir::Pull <==> word == "pull"@,
{
    reveal_strlit("push");
    reveal_strlit("pull");
    assert("push"@[2] == 's' && "pull"@[2] == 'l');
}

/// A path that was synced is reported as completed, with its direction and name; one
/// that failed as failed, with the words of the error.
pub proof fn law_outcomes_are_reported(direction: SyncDir, path: Seq<char>, e: Error, error: Seq<char>)
    ensures
        daemon::finished_event(direction, path, None) == (EventView::SyncCompleted { direction, path }),
        daemon::finished_event(direction, path, Some(error)) == (EventView::SyncFailed { direction, path, error }),
        daemon::error_text(Ok(())) is None,
        daemon::error_text(Err(e)) == Some(e@.text()),
        daemon::outcome_text(None) is None,
        daemon::outcome_text(Some(Ok(()))) == Some(None::<Seq<char>>),
        daemon::outcome_text(Some(Err(e))) == Some(Some(e@.text())),
{
}

/// What is done and what is known is seen as it is.
pub proof fn law_the_daemon_is_seen_whole(s: DaemonState, a: Action, st: DaemonStatus, r: DaemonResponse, e: DaemonEvent)
    ensures
        s@.status == s.status@ && s@.can_sync == s.can_sync && s@.has_push == s.has_push && s@.has_pull == s.has_pull,
        match (a, a@) {
            (Action::Respond(x), ActionView::Respond(y)) => x@ == y,
            (Action::Send(x), ActionView::Send(y)) => x@ == y,
            (Action::Subscribe, ActionView::Subscribe) => true,
            (Action::Broadcast(x), ActionView::Broadcast(y)) => x@ == y,
            (Action::Sync(x), ActionView::Sync(y)) => x == y,
            (Action::AbortPush, ActionView::AbortPush) => true,
            (Action::AbortPull, ActionView::AbortPull) => true,
            (Action::SpawnPush { debounce_ms: x }, ActionView::SpawnPush { debounce_ms: y }) => x == y,
            (Action::SpawnPull { poll_secs: x }, ActionView::SpawnPull { poll_secs: y }) => x == y,
            (Action::StartContainer, ActionView::StartContainer) => true,
            (Action::StopContainer, ActionView::StopContainer) => true,
            (Action::Exit, ActionView::Exit) => true,
            _ => false,
        },
        st@.container_status == st.container_status@ && st@.container_ip == text::opt(st.container_ip)
            && st@.tailscale_ip == text::opt(st.tailscale_ip),
        st@.watch_running == st.watch_running && st@.watch_direction == st.watch_direction && st@.last_sync_time
            == text::opt(st.last_sync_time) && st@.last_sync_ok == st.last_sync_ok && st@.daemon_pid == st.daemon_pid,
        match (r, r@) {
            (DaemonResponse::Done, ResponseView::Done) => true,
            (DaemonResponse::Error { message: x }, ResponseView::Error { message: y }) => x@ == y,
            (DaemonResponse::Status(x), ResponseView::Status(y)) => x@ == y,
            _ => false,
        },
        match (e, e@) {
            (DaemonEvent::Status(x), EventView::Status(y)) => x@ == y,
            (
                DaemonEvent::SyncStarted { direction: d, path: p },
                EventView::SyncStarted { direction: c, path: q },
            ) => d == c && p@ == q,
            (
                DaemonEvent::SyncCompleted { direction: d, path: p },
                EventView::SyncCompleted { direction: c, path: q },
            ) => d == c && p@ == q,
            (
                DaemonEvent::SyncFailed { direction: d, path: p, error: x },
                EventView::SyncFailed { direction: c, path: q, error: y },
            ) => d == c && p@ == q && x@ == y,
            (DaemonEvent::Shutdown, EventView::Shutdown) => true,
            _ => false,
        },
{
}

/// A daemon that has just started knows nothing yet.
pub proof fn law_nothing_is_known_at_first()
    ensures
        ({
            let u = StatusView::unknown();
            &&& u.container_status.len() == 0 && u.container_ip is None && u.tailscale_ip is None
            &&& !u.watch_running && u.watch_direction is None && u.last_sync_time is None && u.last_sync_ok is None
            &&& u.daemon_pid == 0
        }),
{
}

// ── Syncing ──────────────────────────────────────────────────────────────────

/// A transfer of several paths hands out the next path, whatever became of the one
/// before; when none is left it is over, and it has failed if any path has.
pub proof fn law_paths_are_handed_out(r: RunView, failed: bool)
    ensures
        r.taken < r.paths.len() ==> r.step(failed) == RunStepView::Sync(r.paths[r.taken as int]) && r.after(
            failed,
        ).taken == r.taken + 1,
        r.taken >= r.paths.len() ==> r.step(failed) == RunStepView::Finished(
            if r.failed || failed {
                Some(ErrorView::SyncCommand((-1) as i32))
            } else {
                None
            },
        ) && r.after(failed).taken == r.taken,
        r.after(failed).failed <==> r.failed || failed,
        r.after(failed).paths == r.paths,
{
}

/// A transfer of several paths begins with the first, and without a failure.
pub proof fn law_transfers_begin_at_the_beginning(paths: Seq<SyncPathView>, direction: SyncDir)
    ensures
        RunView::of(paths).paths == paths && RunView::of(paths).taken == 0 && !RunView::of(paths).failed,
        JobView::of(direction, paths).direction == direction && JobView::of(direction, paths).run == RunView::of(paths)
            && JobView::of(direction, paths).current is None,
{
}

/// While paths are synced, every client is told of the end of the one and of the
/// beginning of the next; at the end, of the status with the time.
pub proof fn law_progress_is_told(
    s: StateView,
    job: JobView,
    done: SyncPathView,
    error: Option<Seq<char>>,
    secs: u64,
)
    requires
        job.current == Some(done),
    ensures
        ({
            let told = s.sync_actions(job, Some(error), secs);
            let next = job.run.taken < job.run.paths.len();
            &&& told.len() == 2
            &&& told[0] == ActionView::Broadcast(
                match error {
                    None => EventView::SyncCompleted { direction: job.direction, path: done.local },
                    Some(error) => EventView::SyncFailed { direction: job.direction, path: done.local, error },
                },
            )
            &&& next ==> told[1] == ActionView::Broadcast(
                EventView::SyncStarted {
                    direction: job.direction,
                    path: job.run.paths[job.run.taken as int].local,
                },
            ) && s.after_path(job, Some(error), secs) == s && job.after(Some(error)).current == Some(
                job.run.paths[job.run.taken as int],
            ) && job.after(Some(error)).run.taken == job.run.taken + 1
            &&& !next ==> {
                let after = s.after_path(job, Some(error), secs);
                &&& told[1] == ActionView::Broadcast(EventView::Status(after.status))
                &&& after.status.last_sync_ok == Some(true)
                &&& after.status.last_sync_time == Some(number::clock(secs as int))
            }
            &&& job.after(Some(error)).direction == job.direction
        }),
{
}

/// Nothing is told of a path that was not begun, or of one that has not ended.
pub proof fn law_only_what_ended_is_told(
    s: StateView,
    job: JobView,
    outcome: Option<Option<Seq<char>>>,
    secs: u64,
)
    requires
        job.current is None || outcome is None,
    ensures
        ({
            let told = s.sync_actions(job, outcome, secs);
            let next = job.run.taken < job.run.paths.len();
            &&& told.len() == 1
            &&& next ==> told[0] == ActionView::Broadcast(
                EventView::SyncStarted {
                    direction: job.direction,
                    path: job.run.paths[job.run.taken as int].local,
                },
            ) && s.after_path(job, outcome, secs) == s
            &&& !next ==> told[0] == ActionView::Broadcast(
                EventView::Status(s.after_path(job, outcome, secs).status),
            ) && s.after_path(job, outcome, secs) == s.after_sync(true, secs)
        }),
{
}

/// When a sync begins, nothing has ended yet, and every client is told of the first
/// path, or of the status if there is none.
pub proof fn law_syncs_are_opened(s: StateView, direction: SyncDir, paths: Seq<SyncPathView>, secs: u64)
    ensures
        ({
            let told = s.sync_actions(JobView::of(direction, paths), None, secs);
            let after = JobView::of(direction, paths).after(None);
            &&& told.len() == 1
            &&& paths.len() > 0 ==> told[0] == ActionView::Broadcast(
                EventView::SyncStarted { direction, path: paths[0].local },
            ) && after.current == Some(paths[0]) && after.run.taken == 1 && s.after_path(
                JobView::of(direction, paths),
                None,
                secs,
            ) == s
            &&& paths.len() == 0 ==> {
                let done = s.after_path(JobView::of(direction, paths), None, secs);
                &&& told[0] == ActionView::Broadcast(EventView::Status(done.status))
                &&& done.status.last_sync_ok == Some(true)
                &&& done.status.last_sync_time == Some(number::clock(secs as int))
            }
            &&& after.direction == direction
        }),
{
}

/// A failure counts as one, and nothing else does.
pub proof fn law_failures_count(e: Error)
    ensures
        run::is_failure(Some(Err(e))),
        !run::is_failure(Some(Ok(()))) && !run::is_failure(None),
{
}

/// The path that is handed out is the one of the step.
pub proof fn law_the_path_of_a_step(job: JobView, outcome: Option<Option<Seq<char>>>)
    ensures
        ({
            let next = job.run.taken < job.run.paths.len();
            &&& next ==> job.path(outcome) == Some(job.run.paths[job.run.taken as int]) && job.step(outcome)
                == RunStepView::Sync(job.run.paths[job.run.taken as int])
            &&& !next ==> job.path(outcome) is None && job.step(outcome) == RunStepView::Finished(
                if job.run.failed || (outcome matches Some(Some(_))) {
                    Some(ErrorView::SyncCommand((-1) as i32))
                } else {
                    None
                },
            )
            &&& job.after(outcome).run.failed <==> job.run.failed || (outcome matches Some(Some(_)))
        }),
{
}

/// A step of such a transfer is seen as it is.
pub proof fn law_run_steps_are_seen_whole(s: SyncRunStep)
    ensures
        match (s, s@) {
            (SyncRunStep::Sync(sp), RunStepView::Sync(v)) => sp@ == v,
            (SyncRunStep::Finished(Ok(_)), RunStepView::Finished(None)) => true,
            (SyncRunStep::Finished(Err(e)), RunStepView::Finished(Some(v))) => e@ == v,
            _ => false,
        },
{
}

// ── Messages ─────────────────────────────────────────────────────────────────

/// Messages are lines: each ends with a line feed, and they follow one another.
pub proof fn law_messages_are_lines(message: Seq<char>, rest: Seq<Seq<char>>)
    ensures
        ipc::framed(message) == message + seq!['\n'],
        ipc::stream(seq![message] + rest) == message + seq!['\n'] + ipc::stream(rest),
        ipc::stream(seq![]) == Seq::<char>::empty(),
{
    assert((seq![message] + rest).skip(1) =~= rest);
    assert(ipc::framed(message) =~= message + seq!['\n']);
}

/// The socket is in the runtime directory if there is one, else in that of the user
/// by number, else below the home directory, else in the directory for temporary
/// files.
pub proof fn law_the_socket_has_its_place(
    dir: Seq<char>,
    status: Option<Seq<char>>,
    home: Option<Seq<char>>,
    s: Seq<char>,
    uid: Seq<char>,
    h: Seq<char>,
)
    requires
        dir.len() > 0 && dir.last() != '/',
        h.len() > 0 && h.last() != '/',
    ensures
        ipc::socket(Some(dir), status, home) == dir + "/"@ + "dps.sock"@,
        ipc::uid_in(s) == Some(uid) ==> ipc::socket(None, Some(s), home) == "/run/user/"@ + uid + "/dps.sock"@,
        ipc::uid_in(s) is None ==> ipc::socket(None, Some(s), home) == ipc::socket(None, None, home),
        ipc::socket(None, None, Some(h)) == h + "/"@ + ".local/share/dps/daemon.sock"@,
        ipc::socket(None, None, None) == "/tmp/dps-daemon.sock"@,
{
    reveal_strlit("dps.sock");
    reveal_strlit(".local/share/dps/daemon.sock");
    assert("dps.sock"@[0] == 'd' && ".local/share/dps/daemon.sock"@[0] == '.');
}

/// Wherever these directories are, the socket is joined to them.
pub proof fn law_the_socket_is_in_its_directory(dir: Seq<char>, status: Option<Seq<char>>, home: Option<Seq<char>>)
    ensures
        ipc::socket(Some(dir), status, home) == path::joined(dir, "dps.sock"@),
        ipc::socket(None, None, Some(dir)) == path::joined(dir, ".local/share/dps/daemon.sock"@),
{
}

/// The number of the user is the second word of the first line that begins with
/// `Uid:`.
pub proof fn law_user_numbers_are_found(before: Seq<Seq<char>>, line: Seq<char>, after: Seq<Seq<char>>)
    requires
        forall|i: int| 0 <= i < before.len() ==> !"Uid:"@.is_prefix_of(#[trigger] before[i]),
    ensures
        "Uid:"@.is_prefix_of(line) ==> ipc::first_with_prefix(before + seq![line] + after, "Uid:"@) == Some(line),
        ipc::first_with_prefix(before, "Uid:"@) is None,
    decreases before.len(),
{
    let all = before + seq![line] + after;
    if before.len() > 0 {
        let rest = before.skip(1);
        assert(!"Uid:"@.is_prefix_of(before[0]));
        if text::has_prefix(before[0], "Uid:"@) {
            assert("Uid:"@.is_prefix_of(before[0]));
        }
        assert forall|i: int| 0 <= i < rest.len() implies !"Uid:"@.is_prefix_of(#[trigger] rest[i]) by {
            assert(rest[i] == before[i + 1]);
        }
        law_user_numbers_are_found(rest, line, after);
        assert(all[0] == before[0]);
        assert(all.skip(1) =~= rest + seq![line] + after);
    } else {
        assert(all[0] == line);
        if "Uid:"@.is_prefix_of(line) {
            assert(line.take("Uid:"@.len() as int) =~= "Uid:"@);
        }
    }
}

/// From such a line the second word is taken.
pub proof fn law_user_numbers_are_second_words(status: Seq<char>, line: Seq<char>)
    ensures
        ipc::first_with_prefix(text::lines_of(status), "Uid:"@) == Some(line) ==> ipc::uid_in(status)
            == text::word_at(line, 1),
        ipc::first_with_prefix(text::lines_of(status), "Uid:"@) is None ==> ipc::uid_in(status) is None,
{
}

/// Directions are shown by their names.
pub proof fn law_directions_are_shown()
    ensures
        SyncDir::Push.label() == "Push"@ && SyncDir::Pull.label() == "Pull"@,
        WatchDir::Push.label() == "push"@ && WatchDir::Pull.label() == "pull"@ && WatchDir::Both.label() == "both"@,
{
}

// ── Errors ───────────────────────────────────────────────────────────────────

/// Every error says what went wrong and with what.
pub proof fn law_errors_say_what_went_wrong(m: Seq<char>, status: u16, code: i32, vmid: u32)
    ensures
        ErrorView::Config(m).text() == "configuration error: "@ + m,
        (ErrorView::ProxmoxApi { status, message: m }).text() == "proxmox API error (HTTP "@ + number::decimal(
            status as nat,
        ) + "): "@ + m,
        ErrorView::TaskFailed(m).text() == "proxmox task failed: "@ + m,
        ErrorView::Http(m).text() == "HTTP request failed: "@ + m,
        ErrorView::Io(m).text() == "IO error: "@ + m,
        ErrorView::SyncCommand(code).text() == "sync failed: command exited with status "@ + number::signed(
            code as int,
        ),
        ErrorView::ContainerNotFound(vmid).text() == "container "@ + number::decimal(vmid as nat) + " not found"@,
        ErrorView::ContainerExists(vmid).text() == "container "@ + number::decimal(vmid as nat)
            + " already exists — use `dps destroy` first or choose a different vmid"@,
        ErrorView::Timeout(m).text() == "timed out waiting for "@ + m,
        ErrorView::NoContainerIp.text()
            == "could not determine container IP — check Proxmox interfaces or set sync.container_ip in config"@,
        ErrorView::Ssh(m).text() == "SSH command failed: "@ + m,
{
}

/// An error is seen as it is.
pub proof fn law_errors_are_seen_whole(e: Error)
    ensures
        match (e, e@) {
            (Error::Config(a), ErrorView::Config(b)) => a@ == b,
            (Error::ProxmoxApi { status: s, message: a }, ErrorView::ProxmoxApi { status: t, message: b }) => s == t
                && a@ == b,
            (Error::TaskFailed(a), ErrorView::TaskFailed(b)) => a@ == b,
            (Error::Http(a), ErrorView::Http(b)) => a@ == b,
            (Error::Io(a), ErrorView::Io(b)) => a@ == b,
            (Error::SyncCommand(a), ErrorView::SyncCommand(b)) => a == b,
            (Error::ContainerNotFound(a), ErrorView::ContainerNotFound(b)) => a == b,
            (Error::ContainerExists(a), ErrorView::ContainerExists(b)) => a == b,
            (Error::Timeout(a), ErrorView::Timeout(b)) => a@ == b,
            (Error::NoContainerIp, ErrorView::NoContainerIp) => true,
            (Error::Ssh(a), ErrorView::Ssh(b)) => a@ == b,
            _ => false,
        },
{
}

// ── Commands ─────────────────────────────────────────────────────────────────

/// Pushing pushes and pulling pulls, for the user that is named; with `--dry-run`
/// that is only shown.  Every other command does what it is called, with what it is
/// given.
pub proof fn law_commands_do_what_they_are_called(command: Commands)
    ensures
        match (command, cli::job_of(command)) {
            (Commands::Setup { no_bootstrap: a, save_ip: b }, Job::Setup { no_bootstrap: c, save_ip: d }) => a == c
                && b == d,
            (Commands::Push { user: u, dry_run }, Job::DryRun { direction, user: v }) => dry_run && u == v
                && direction == Direction::Push,
            (Commands::Push { user: u, dry_run }, Job::Sync { direction, user: v }) => !dry_run && u == v && direction
                == Direction::Push,
            (Commands::Pull { user: u, dry_run }, Job::DryRun { direction, user: v }) => dry_run && u == v
                && direction == Direction::Pull,
            (Commands::Pull { user: u, dry_run }, Job::Sync { direction, user: v }) => !dry_run && u == v && direction
                == Direction::Pull,
            (Commands::Check { user: u }, Job::Check { user: v }) => u == v,
            (Commands::Status, Job::Status) => true,
            (Commands::Start, Job::Start) => true,
            (Commands::Stop, Job::Stop) => true,
            (Commands::Destroy { yes: a }, Job::Destroy { yes: b }) => a == b,
            (
                Commands::Watch { user: u, direction: d, debounce_ms: m, poll_secs: p },
                Job::Watch { user: v, direction: e, debounce_ms: n, poll_secs: q },
            ) => u == v && d == e && m == n && p == q,
            (Commands::Tailscale { action: a }, Job::Tailscale { action: b }) => a == b,
            _ => false,
        },
{
}

/// The user is the one asked for, else `$USER`, else `$LOGNAME`.
pub proof fn law_users_are_found(a: Seq<char>, user: Option<Seq<char>>, logname: Option<Seq<char>>)
    ensures
        commands::username(Some(a), user, logname) == Some(a),
        commands::username(None, Some(a), logname) == Some(a),
        commands::username(None, None, logname) == logname,
{
}

/// A container is destroyed once, and last; one that runs is stopped once before.
pub proof fn law_destroying(running: bool)
    ensures
        commands::steps_to_destroy(running).len() == if running {
            2int
        } else {
            1int
        },
        commands::steps_to_destroy(running).contains(DestroyStep::Stop) <==> running,
        commands::steps_to_destroy(running).last() == DestroyStep::Destroy,
{
    if running {
        assert(commands::steps_to_destroy(running)[0] == DestroyStep::Stop);
    }
}

/// What was found is put into the configuration, and nothing else of it changes.
pub proof fn law_found_addresses_are_put_in_place(cfg: ConfigView, ip: Seq<char>)
    ensures
        ({
            let lan = commands::with_container_ip(cfg, ip);
            let ts = commands::with_tailscale_ip(cfg, ip);
            &&& lan.sync.container_ip == Some(ip)
            &&& lan.sync.container_user == cfg.sync.container_user && lan.sync.ssh_port == cfg.sync.ssh_port
                && lan.sync.paths == cfg.sync.paths
            &&& lan.sync.ssh_public_key_file == cfg.sync.ssh_public_key_file && lan.sync.ssh_identity_file
                == cfg.sync.ssh_identity_file
            &&& lan.sync.exclude_patterns == cfg.sync.exclude_patterns && lan.sync.machine_specific_patterns
                == cfg.sync.machine_specific_patterns
            &&& lan.proxmox == cfg.proxmox && lan.container == cfg.container && lan.tailscale == cfg.tailscale
                && lan.daemon == cfg.daemon
            &&& ts.tailscale is Some <==> cfg.tailscale is Some
            &&& cfg.tailscale matches Some(t) ==> ts.tailscale->Some_0.container_ts_ip == Some(ip)
                && ts.tailscale->Some_0.auth_key == t.auth_key && ts.tailscale->Some_0.hostname == t.hostname
                && ts.tailscale->Some_0.tags == t.tags && ts.tailscale->Some_0.prefer_tailscale_ip
                == t.prefer_tailscale_ip
            &&& ts.proxmox == cfg.proxmox && ts.container == cfg.container && ts.sync == cfg.sync && ts.daemon
                == cfg.daemon
        }),
{
}

/// The set-up goes step by step: whether the container is there, its key, creating
/// and starting it, its address, and then, unless that is not wanted, waiting for SSH,
/// provisioning and the Tailscale address.  Each step begins only when the one before
/// has ended well.
pub proof fn law_the_set_up_goes_step_by_step(
    s: SetupView,
    key: Option<Seq<char>>,
    ip: Seq<char>,
    e: ErrorView,
)
    ensures
        ({
            let at = |step: SetupStep| SetupView { step, ..s };
            let ended = SetupEventView::Ended(Ok(()));
            let begun = at(SetupStep::List).advance(SetupEventView::Listed(Ok(false)));
            let found = at(SetupStep::FindKey).advance(SetupEventView::Key(key));
            let started = at(SetupStep::Start).advance(ended);
            let known = at(SetupStep::DetectAddress).advance(SetupEventView::Address(Ok(ip)));
            let there = at(SetupStep::List).advance(SetupEventView::Listed(Ok(true)));
            &&& begun.1 == SetupActionView::FindKey && begun.0.step == SetupStep::FindKey
            &&& there.1 == SetupActionView::Fail(ErrorView::ContainerExists(s.cfg.container.vmid)) && there.0.step
                == SetupStep::Over
            &&& found.1 == SetupActionView::Create && found.0.step == SetupStep::Create && found.0.key == key
            &&& at(SetupStep::Create).advance(ended).1 == SetupActionView::Start
            &&& at(SetupStep::Create).advance(ended).0.step == SetupStep::Start
            &&& s.cfg.sync.container_ip is None ==> started.1 == SetupActionView::DetectAddress && started.0.step
                == SetupStep::DetectAddress
            &&& s.cfg.sync.container_ip matches Some(a) ==> started.0.lan_ip == a
            &&& known.0.lan_ip == ip
            &&& s.save_ip ==> known.1 == SetupActionView::Save && known.0.step == SetupStep::SaveAddress
                && known.0.cfg == commands::with_container_ip(s.cfg, ip)
            &&& !s.save_ip ==> known.0.cfg == s.cfg && known.1 != SetupActionView::Save
            &&& at(SetupStep::WaitForSsh).advance(ended).1 == SetupActionView::Bootstrap
            &&& at(SetupStep::WaitForSsh).advance(ended).0.step == SetupStep::Bootstrap
            &&& at(SetupStep::List).advance(SetupEventView::Listed(Err(e))).1 == SetupActionView::Fail(e)
            &&& at(SetupStep::Create).advance(SetupEventView::Ended(Err(e))).1 == SetupActionView::Fail(e)
            &&& at(SetupStep::Bootstrap).advance(SetupEventView::Ended(Err(e))).1 == SetupActionView::Fail(e)
            &&& at(SetupStep::DetectAddress).advance(SetupEventView::Address(Err(e))).1 == SetupActionView::Fail(e)
        }),
{
}

/// Once the address is known: without provisioning the set-up is over; else a key is
/// needed, and SSH is waited for.
pub proof fn law_the_way_to_provisioning(s: SetupView)
    requires
        s.step == SetupStep::SaveAddress,
    ensures
        ({
            let next = s.advance(SetupEventView::Ended(Ok(())));
            &&& s.no_bootstrap ==> next.1 == SetupActionView::Ready(
                match commands::configured_ip(s.cfg) {
                    Some(a) => a,
                    None => s.lan_ip,
                },
            ) && next.0.step == SetupStep::Over
            &&& !s.no_bootstrap && s.key is None ==> next.1 == SetupActionView::Fail(
                ErrorView::Config("SSH public key is required for bootstrap"@),
            )
            &&& !s.no_bootstrap && s.key is Some ==> next.1 == SetupActionView::WaitForSsh && next.0.step
                == SetupStep::WaitForSsh
            &&& next.0.cfg == s.cfg && next.0.lan_ip == s.lan_ip && next.0.key == s.key
        }),
        ({
            let known = SetupView { step: SetupStep::Start, ..s };
            let next = known.advance(SetupEventView::Ended(Ok(())));
            let meant = s.advance(SetupEventView::Ended(Ok(())));
            s.cfg.sync.container_ip == Some(s.lan_ip) ==> next.1 == meant.1 && next.0.step == meant.0.step
        }),
        ({
            let found = SetupView { step: SetupStep::DetectAddress, save_ip: false, ..s };
            let next = found.advance(SetupEventView::Address(Ok(s.lan_ip)));
            let meant = s.advance(SetupEventView::Ended(Ok(())));
            next.1 == meant.1 && next.0.step == meant.0.step
        }),
{
}

/// After provisioning the Tailscale address is asked for exactly if it is preferred;
/// one that is found is saved; and the set-up ends with the address that transfers
/// will use.
pub proof fn law_the_set_up_ends_with_the_address(s: SetupView, ip: Seq<char>, e: ErrorView)
    ensures
        ({
            let ended = SetupEventView::Ended(Ok(()));
            let done = (SetupView { step: SetupStep::Bootstrap, ..s }).advance(ended);
            let asked = SetupView { step: SetupStep::QueryTailscale, ..s };
            let found = asked.advance(SetupEventView::Tailscale(Ok(Some(ip))));
            let address = match commands::configured_ip(s.cfg) {
                Some(a) => a,
                None => s.lan_ip,
            };
            let wanted = s.cfg.tailscale matches Some(t) && t.prefer_tailscale_ip;
            &&& wanted ==> done.1 == SetupActionView::QueryTailscale && done.0.step == SetupStep::QueryTailscale
            &&& !wanted ==> done.1 == SetupActionView::Ready(address) && done.0.step == SetupStep::Over
            &&& found.1 == SetupActionView::Save && found.0.step == SetupStep::SaveTailscale && found.0.cfg
                == commands::with_tailscale_ip(s.cfg, ip)
            &&& asked.advance(SetupEventView::Tailscale(Ok(None))).1 == SetupActionView::Ready(address)
            &&& asked.advance(SetupEventView::Tailscale(Err(e))).1 == SetupActionView::Ready(address)
            &&& (SetupView { step: SetupStep::SaveTailscale, ..s }).advance(ended).1 == SetupActionView::Ready(address)
            &&& (SetupView { step: SetupStep::SaveTailscale, ..s }).advance(ended).0.step == SetupStep::Over
            &&& asked.advance(SetupEventView::Tailscale(Ok(None))).0.step == SetupStep::Over
            &&& asked.advance(SetupEventView::Tailscale(Err(e))).0.step == SetupStep::Over
        }),
{
}

/// A step is told what it asked for: whether the container is listed, the key, the
/// address, the Tailscale address, or how it ended; the end is told nothing.
pub proof fn law_steps_are_told_what_they_asked_for(e: SetupEventView)
    ensures
        commands::follows(SetupStep::List, e) <==> e is Listed,
        commands::follows(SetupStep::FindKey, e) <==> e is Key,
        commands::follows(SetupStep::DetectAddress, e) <==> e is Address,
        commands::follows(SetupStep::QueryTailscale, e) <==> e is Tailscale,
        !commands::follows(SetupStep::Over, e),
        forall|step: SetupStep|
            step is Create || step is Start || step is SaveAddress || step is WaitForSsh || step is Bootstrap
                || step is SaveTailscale ==> (#[trigger] commands::follows(step, e) <==> e is Ended),
{
}

/// A step that fails ends the set-up with its error, whichever it is; only where no
/// Tailscale address can be had does the set-up go on without.
pub proof fn law_failures_end_the_set_up(s: SetupView, e: ErrorView)
    ensures
        forall|event: SetupEventView|
            event == SetupEventView::Listed(Err(e)) || event == SetupEventView::Ended(Err(e)) || event
                == SetupEventView::Address(Err(e)) ==> (#[trigger] s.advance(event)).1 == SetupActionView::Fail(e)
                && s.advance(event).0 == (SetupView { step: SetupStep::Over, ..s }),
        s.step is QueryTailscale ==> s.advance(SetupEventView::Tailscale(Err(e))).1 is Ready,
{
}

/// The set-up changes of its state only what a step has found out.
pub proof fn law_the_set_up_keeps_the_rest(s: SetupView, event: SetupEventView)
    requires
        commands::follows(s.step, event),
    ensures
        ({
            let after = s.advance(event).0;
            &&& after.no_bootstrap == s.no_bootstrap && after.save_ip == s.save_ip
            &&& !(s.step is FindKey) ==> after.key == s.key
            &&& !(s.step is Start) && !(s.step is DetectAddress) ==> after.lan_ip == s.lan_ip
            &&& !(s.step is DetectAddress) && !(s.step is QueryTailscale) ==> after.cfg == s.cfg
        }),
{
}

/// The address that transfers use is the Tailscale address where that is preferred and
/// known, else the one in the configuration.
pub proof fn law_the_configured_address(cfg: ConfigView, ip: Seq<char>)
    ensures
        (cfg.tailscale matches Some(t) && t.prefer_tailscale_ip && t.container_ts_ip == Some(ip))
            ==> commands::configured_ip(cfg) == Some(ip),
        (cfg.tailscale matches Some(t) ==> !t.prefer_tailscale_ip || t.container_ts_ip is None)
            ==> commands::configured_ip(cfg) == cfg.sync.container_ip,
{
}

/// What the set-up does and is told is seen as it is.
pub proof fn law_the_set_up_is_seen_whole(s: Setup, a: SetupAction, e: SetupEvent)
    ensures
        s@.cfg == s.cfg@ && s@.no_bootstrap == s.no_bootstrap && s@.save_ip == s.save_ip && s@.key == text::opt(s.key)
            && s@.lan_ip == s.lan_ip@,
        match (a, a@) {
            (SetupAction::Ready(x), SetupActionView::Ready(y)) => x@ == y,
            (SetupAction::Fail(x), SetupActionView::Fail(y)) => x@ == y,
            (SetupAction::List, SetupActionView::List) => true,
            (SetupAction::FindKey, SetupActionView::FindKey) => true,
            (SetupAction::Create, SetupActionView::Create) => true,
            (SetupAction::Start, SetupActionView::Start) => true,
            (SetupAction::DetectAddress, SetupActionView::DetectAddress) => true,
            (SetupAction::Save, SetupActionView::Save) => true,
            (SetupAction::WaitForSsh, SetupActionView::WaitForSsh) => true,
            (SetupAction::Bootstrap, SetupActionView::Bootstrap) => true,
            (SetupAction::QueryTailscale, SetupActionView::QueryTailscale) => true,
            _ => false,
        },
        match (e, e@) {
            (SetupEvent::Listed(Ok(x)), SetupEventView::Listed(Ok(y))) => x == y,
            (SetupEvent::Listed(Err(x)), SetupEventView::Listed(Err(y))) => x@ == y,
            (SetupEvent::Key(x), SetupEventView::Key(y)) => text::opt(x) == y,
            (SetupEvent::Ended(Ok(_)), SetupEventView::Ended(Ok(_))) => true,
            (SetupEvent::Ended(Err(x)), SetupEventView::Ended(Err(y))) => x@ == y,
            (SetupEvent::Address(Ok(x)), SetupEventView::Address(Ok(y))) => x@ == y,
            (SetupEvent::Address(Err(x)), SetupEventView::Address(Err(y))) => x@ == y,
            (SetupEvent::Tailscale(Ok(x)), SetupEventView::Tailscale(Ok(y))) => text::opt(x) == y,
            (SetupEvent::Tailscale(Err(x)), SetupEventView::Tailscale(Err(y))) => x@ == y,
            _ => false,
        },
{
}

} // verus!
