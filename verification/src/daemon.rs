//! The background daemon as a state machine.
//!
//! The daemon keeps a status, and may hold a push watcher and a pull poller.
//! Each request and each event yields the next state and the actions to perform,
//! in order.

use vstd::prelude::*;
use vstd::string::*;
use crate::commands;
use crate::config::{Config, ConfigView, SyncPath, SyncPathView};
use crate::error::Error;
use crate::ipc::{DaemonEvent, DaemonRequest, DaemonResponse, DaemonStatus, EventView, ResponseView, StatusView, SyncDir, WatchDir};
use crate::number;
use crate::proxmox::lxc::{ContainerStatus, ContainerStatusView};
use crate::sync::profile::Syncer;
use crate::sync::run::{RunStepView, RunView, SyncRun, SyncRunStep};
use crate::text;

verus! {

// ── State and actions ────────────────────────────────────────────────────────

/// The state of the daemon.
#[derive(Debug)]
pub struct DaemonState {
    pub status: DaemonStatus,
    /// Whether the address of the container is known, so that paths can be synced.
    pub can_sync: bool,
    /// Whether a push watcher is held.
    pub has_push: bool,
    /// Whether a pull poller is held.
    pub has_pull: bool,
}

/// The mathematical content of a [`DaemonState`].
pub ghost struct StateView {
    pub status: StatusView,
    pub can_sync: bool,
    pub has_push: bool,
    pub has_pull: bool,
}

impl View for DaemonState {
    type V = StateView;

    open spec fn view(&self) -> StateView {
        StateView {
            status: self.status@,
            can_sync: self.can_sync,
            has_push: self.has_push,
            has_pull: self.has_pull,
        }
    }
}

/// Something for the daemon to do.
#[derive(Debug)]
pub enum Action {
    /// Answer the client.
    Respond(DaemonResponse),
    /// Send an event to this client alone.
    Send(DaemonEvent),
    /// Subscribe the client to the events.
    Subscribe,
    /// Send an event to every subscribed client.
    Broadcast(DaemonEvent),
    /// Sync every path in the background, with a [`SyncJob`].
    Sync(SyncDir),
    /// Stop the push watcher.
    AbortPush,
    /// Stop the pull poller.
    AbortPull,
    /// Start a push watcher.
    SpawnPush { debounce_ms: u64 },
    /// Start a pull poller.
    SpawnPull { poll_secs: u64 },
    /// Ask Proxmox to start the container and answer with [`container_reply`].
    StartContainer,
    /// Ask Proxmox to stop the container and answer with [`container_reply`].
    StopContainer,
    /// End the process.
    Exit,
}

/// The mathematical content of an [`Action`].
pub ghost enum ActionView {
    Respond(ResponseView),
    Send(EventView),
    Subscribe,
    Broadcast(EventView),
    Sync(SyncDir),
    AbortPush,
    AbortPull,
    SpawnPush { debounce_ms: u64 },
    SpawnPull { poll_secs: u64 },
    StartContainer,
    StopContainer,
    Exit,
}

impl View for Action {
    type V = ActionView;

    open spec fn view(&self) -> ActionView {
        match self {
            Action::Respond(r) => ActionView::Respond(r@),
            Action::Send(e) => ActionView::Send(e@),
            Action::Subscribe => ActionView::Subscribe,
            Action::Broadcast(e) => ActionView::Broadcast(e@),
            Action::Sync(d) => ActionView::Sync(*d),
            Action::AbortPush => ActionView::AbortPush,
            Action::AbortPull => ActionView::AbortPull,
            Action::SpawnPush { debounce_ms } => ActionView::SpawnPush { debounce_ms: *debounce_ms },
            Action::SpawnPull { poll_secs } => ActionView::SpawnPull { poll_secs: *poll_secs },
            Action::StartContainer => ActionView::StartContainer,
            Action::StopContainer => ActionView::StopContainer,
            Action::Exit => ActionView::Exit,
        }
    }
}

/// The contents of a list of actions.
pub open spec fn actions(v: Seq<Action>) -> Seq<ActionView> {
    v.map_values(|a: Action| a@)
}

pub broadcast proof fn lemma_actions_push(v: Seq<Action>, a: Action)
    ensures
        #[trigger] actions(v.push(a)) == actions(v).push(a@),
{
    assert(actions(v.push(a)) =~= actions(v).push(a@));
}

/// An error response.
pub open spec fn refusal(message: Seq<char>) -> ActionView {
    ActionView::Respond(ResponseView::Error { message })
}

fn refuse(message: &str) -> (r: Action)
    ensures
        r@ == refusal(message@),
{
    Action::Respond(DaemonResponse::Error { message: message.to_string() })
}

// ── Transitions ──────────────────────────────────────────────────────────────

/// Whether a direction involves the push watcher.
pub open spec fn watches_push(d: WatchDir) -> bool {
    d != WatchDir::Pull
}

/// Whether a direction involves the pull poller.
pub open spec fn watches_pull(d: WatchDir) -> bool {
    d != WatchDir::Push
}

impl StateView {
    /// Whether the status tells truly which tasks are held.
    pub open spec fn is_valid(self) -> bool {
        &&& self.status.watch_running == self.status.watch_direction is Some
        &&& match self.status.watch_direction {
            Some(d) => self.has_push == watches_push(d) && self.has_pull == watches_pull(d),
            None => !self.has_push && !self.has_pull,
        }
    }

    /// The state with another watcher status.
    pub open spec fn watching(self, direction: Option<WatchDir>) -> StateView {
        StateView {
            status: StatusView {
                watch_running: direction is Some,
                watch_direction: direction,
                ..self.status
            },
            ..self
        }
    }

    /// The broadcast of the status.
    pub open spec fn announcement(self) -> ActionView {
        ActionView::Broadcast(EventView::Status(self.status))
    }

    /// The state after the watcher was stopped.
    pub open spec fn after_stop(self) -> StateView {
        if self.has_push || self.has_pull {
            StateView { has_push: false, has_pull: false, ..self.watching(None) }
        } else {
            self
        }
    }

    /// What stopping the watcher takes.
    pub open spec fn stop_actions(self) -> Seq<ActionView> {
        if self.has_push || self.has_pull {
            (if self.has_push {
                seq![ActionView::AbortPush]
            } else {
                seq![]
            }) + (if self.has_pull {
                seq![ActionView::AbortPull]
            } else {
                seq![]
            }) + seq![self.after_stop().announcement()]
        } else {
            seq![]
        }
    }

    /// The state after the watcher was started; a running one is replaced.
    pub open spec fn after_start(self, direction: WatchDir) -> StateView {
        StateView {
            has_push: watches_push(direction),
            has_pull: watches_pull(direction),
            ..self.watching(Some(direction))
        }
    }

    /// What starting the watcher takes.
    pub open spec fn start_actions(self, direction: WatchDir, debounce_ms: u64, poll_secs: u64) -> Seq<ActionView> {
        self.stop_actions() + (if watches_push(direction) {
            seq![ActionView::SpawnPush { debounce_ms }]
        } else {
            seq![]
        }) + (if watches_pull(direction) {
            seq![ActionView::SpawnPull { poll_secs }]
        } else {
            seq![]
        }) + seq![self.after_start(direction).announcement()]
    }

    /// The state after a request.
    pub open spec fn after_request(self, request: DaemonRequest) -> StateView {
        match request {
            DaemonRequest::StartWatch { direction, .. } => if self.can_sync {
                self.after_start(direction)
            } else {
                self
            },
            DaemonRequest::StopWatch => self.after_stop(),
            _ => self,
        }
    }

    /// What a request takes.  `proxmox` says whether the Proxmox API can be used.
    pub open spec fn request_actions(self, request: DaemonRequest, proxmox: bool) -> Seq<ActionView> {
        let done = ActionView::Respond(ResponseView::Done);
        match request {
            DaemonRequest::Subscribe => seq![ActionView::Subscribe, ActionView::Send(EventView::Status(self.status))],
            DaemonRequest::GetStatus => seq![ActionView::Respond(ResponseView::Status(self.status))],
            DaemonRequest::SyncNow { direction } => if self.can_sync {
                seq![ActionView::Sync(direction), done]
            } else {
                seq![refusal("container IP not known — run `dps setup` first"@)]
            },
            DaemonRequest::StartWatch { direction, debounce_ms, poll_secs } => if self.can_sync {
                self.start_actions(direction, debounce_ms, poll_secs).push(done)
            } else {
                seq![refusal("no syncer available"@)]
            },
            DaemonRequest::StopWatch => self.stop_actions().push(done),
            DaemonRequest::StartContainer => if proxmox {
                seq![ActionView::StartContainer]
            } else {
                seq![refusal("Proxmox client unavailable"@)]
            },
            DaemonRequest::StopContainer => if proxmox {
                seq![ActionView::StopContainer]
            } else {
                seq![refusal("Proxmox client unavailable"@)]
            },
            DaemonRequest::Shutdown => seq![ActionView::Broadcast(EventView::Shutdown), done, ActionView::Exit],
        }
    }

    /// The state after a sync that ended `secs` seconds after the epoch.
    pub open spec fn after_sync(self, ok: bool, secs: u64) -> StateView {
        StateView {
            status: StatusView {
                last_sync_time: Some(number::clock(secs as int)),
                last_sync_ok: Some(ok),
                ..self.status
            },
            ..self
        }
    }
}

impl DaemonState {
    fn broadcast_status(&self, out: &mut Vec<Action>)
        ensures
            actions(final(out)@) == actions(old(out)@).push(self@.announcement()),
    {
        broadcast use lemma_actions_push;

        out.push(Action::Broadcast(DaemonEvent::Status(self.status.clone())));
    }

    /// Records whether a watcher runs, and says so to every client.
    fn set_watch_running(&mut self, direction: Option<WatchDir>, out: &mut Vec<Action>)
        ensures
            final(self)@ == old(self)@.watching(direction),
            actions(final(out)@) == actions(old(out)@).push(final(self)@.announcement()),
    {
        self.status.watch_running = direction.is_some();
        self.status.watch_direction = direction;
        self.broadcast_status(out);
    }

    /// Stops the watcher, if one is held.
    pub fn stop_watch(&mut self) -> (r: Vec<Action>)
        ensures
            final(self)@ == old(self)@.after_stop(),
            actions(r@) == old(self)@.stop_actions(),
    {
        broadcast use lemma_actions_push;

        let ghost before = self@;
        let mut out: Vec<Action> = Vec::new();
        assert(actions(out@) =~= seq![]);
        if self.has_push || self.has_pull {
            if self.has_push {
                self.has_push = false;
                out.push(Action::AbortPush);
            }
            if self.has_pull {
                self.has_pull = false;
                out.push(Action::AbortPull);
            }
            self.set_watch_running(None, &mut out);
            assert(actions(out@) =~= before.stop_actions());
        }
        out
    }

    /// Starts a watcher in place of the one that is held, if any.
    pub fn start_watch(&mut self, direction: WatchDir, debounce_ms: u64, poll_secs: u64) -> (r: Vec<Action>)
        ensures
            final(self)@ == old(self)@.after_start(direction),
            actions(r@) == old(self)@.start_actions(direction, debounce_ms, poll_secs),
    {
        broadcast use lemma_actions_push;

        let ghost before = self@;
        let mut out = self.stop_watch();
        match direction {
            WatchDir::Push | WatchDir::Both => {
                self.has_push = true;
                out.push(Action::SpawnPush { debounce_ms });
            },
            WatchDir::Pull => {},
        }
        match direction {
            WatchDir::Pull | WatchDir::Both => {
                self.has_pull = true;
                out.push(Action::SpawnPull { poll_secs });
            },
            WatchDir::Push => {},
        }
        self.set_watch_running(Some(direction), &mut out);
        assert(actions(out@) =~= before.start_actions(direction, debounce_ms, poll_secs));
        out
    }

    /// Takes a request.  `proxmox` says whether the Proxmox API can be used.
    pub fn on_request(&mut self, request: &DaemonRequest, proxmox: bool) -> (r: Vec<Action>)
        ensures
            final(self)@ == old(self)@.after_request(*request),
            actions(r@) == old(self)@.request_actions(*request, proxmox),
    {
        broadcast use lemma_actions_push;

        let ghost before = self@;
        let mut out: Vec<Action> = Vec::new();
        assert(actions(out@) =~= seq![]);
        match request {
            DaemonRequest::Subscribe => {
                out.push(Action::Subscribe);
                out.push(Action::Send(DaemonEvent::Status(self.status.clone())));
            },
            DaemonRequest::GetStatus => {
                out.push(Action::Respond(DaemonResponse::Status(self.status.clone())));
            },
            DaemonRequest::SyncNow { direction } => {
                if self.can_sync {
                    out.push(Action::Sync(*direction));
                    out.push(Action::Respond(DaemonResponse::Done));
                } else {
                    out.push(refuse("container IP not known — run `dps setup` first"));
                }
            },
            DaemonRequest::StartWatch { direction, debounce_ms, poll_secs } => {
                if self.can_sync {
                    out = self.start_watch(*direction, *debounce_ms, *poll_secs);
                    out.push(Action::Respond(DaemonResponse::Done));
                } else {
                    out.push(refuse("no syncer available"));
                }
            },
            DaemonRequest::StopWatch => {
                out = self.stop_watch();
                out.push(Action::Respond(DaemonResponse::Done));
            },
            DaemonRequest::StartContainer => {
                if proxmox {
                    out.push(Action::StartContainer);
                } else {
                    out.push(refuse("Proxmox client unavailable"));
                }
            },
            DaemonRequest::StopContainer => {
                if proxmox {
                    out.push(Action::StopContainer);
                } else {
                    out.push(refuse("Proxmox client unavailable"));
                }
            },
            DaemonRequest::Shutdown => {
                out.push(Action::Broadcast(DaemonEvent::Shutdown));
                out.push(Action::Respond(DaemonResponse::Done));
                out.push(Action::Exit);
            },
        }
        assert(actions(out@) =~= before.request_actions(*request, proxmox));
        out
    }

    /// Records the end of a sync, `secs` seconds after the epoch.
    pub fn stamp_sync(&mut self, ok: bool, secs: u64) -> (r: Action)
        ensures
            final(self)@ == old(self)@.after_sync(ok, secs),
            r@ == final(self)@.announcement(),
    {
        self.status.last_sync_time = Some(number::clock_text(secs));
        self.status.last_sync_ok = Some(ok);
        Action::Broadcast(DaemonEvent::Status(self.status.clone()))
    }
}

/// The answer once Proxmox was asked to start or stop the container: `outcome`
/// holds the id of the task, or why there is none.
pub fn container_reply(outcome: &Result<String, Error>) -> (r: DaemonResponse)
    ensures
        r@ == (match *outcome {
            Ok(_) => ResponseView::Done,
            Err(e) => ResponseView::Error { message: e@.text() },
        }),
{
    match outcome {
        Ok(_) => DaemonResponse::Done,
        Err(e) => DaemonResponse::Error { message: e.to_string() },
    }
}

// ── Clients ──────────────────────────────────────────────────────────────────

/// What a connection with a client brings.
#[derive(Debug)]
pub enum Input {
    /// A request, or why a line is none.
    Line(Result<DaemonRequest, String>),
    /// An event to pass on; only for a subscribed client.
    Event(DaemonEvent),
    /// The client was too slow and missed events.
    Lagged,
    /// The client, or the source of events, is gone.
    Closed,
}

/// Takes what a connection brings.  The second result says whether the
/// connection stays open.
pub fn handle_client(state: &mut DaemonState, input: Input, proxmox: bool) -> (r: (Vec<Action>, bool))
    ensures
        match input {
            Input::Line(Ok(request)) => {
                &&& final(state)@ == old(state)@.after_request(request)
                &&& actions(r.0@) == old(state)@.request_actions(request, proxmox)
                &&& r.1
            },
            Input::Line(Err(cause)) => {
                &&& final(state)@ == old(state)@
                &&& actions(r.0@) == seq![refusal(cause@)]
                &&& r.1
            },
            Input::Event(event) => {
                &&& final(state)@ == old(state)@
                &&& actions(r.0@) == seq![ActionView::Send(event@)]
                &&& r.1 == !(event@ is Shutdown)
            },
            Input::Lagged => final(state)@ == old(state)@ && actions(r.0@) == Seq::<ActionView>::empty() && r.1,
            Input::Closed => final(state)@ == old(state)@ && actions(r.0@) == Seq::<ActionView>::empty() && !r.1,
        },
{
    broadcast use lemma_actions_push;

    let mut out: Vec<Action> = Vec::new();
    assert(actions(out@) =~= seq![]);
    match input {
        Input::Line(Ok(request)) => (state.on_request(&request, proxmox), true),
        Input::Line(Err(cause)) => {
            out.push(refuse(cause.as_str()));
            assert(actions(out@) =~= seq![refusal(cause@)]);
            (out, true)
        },
        Input::Event(event) => {
            let open = match &event {
                DaemonEvent::Shutdown => false,
                _ => true,
            };
            let ghost shown = event@;
            out.push(Action::Send(event));
            assert(actions(out@) =~= seq![ActionView::Send(shown)]);
            (out, open)
        },
        Input::Lagged => (out, true),
        Input::Closed => (out, false),
    }
}

/// What a termination signal takes.
pub fn terminate() -> (r: Vec<Action>)
    ensures
        actions(r@) == seq![ActionView::Broadcast(EventView::Shutdown), ActionView::Exit],
{
    broadcast use lemma_actions_push;

    let mut out: Vec<Action> = Vec::new();
    assert(actions(out@) =~= seq![]);
    out.push(Action::Broadcast(DaemonEvent::Shutdown));
    out.push(Action::Exit);
    assert(actions(out@) =~= seq![ActionView::Broadcast(EventView::Shutdown), ActionView::Exit]);
    out
}

// ── Syncing ──────────────────────────────────────────────────────────────────

/// The event that announces the sync of a path.
pub fn sync_started(direction: SyncDir, sp: &SyncPath) -> (r: DaemonEvent)
    ensures
        r@ == (EventView::SyncStarted { direction, path: sp@.local }),
{
    DaemonEvent::SyncStarted { direction, path: sp.local.clone() }
}

/// The event that reports the sync of a path, with the text of the error if it
/// failed.
pub open spec fn finished_event(direction: SyncDir, path: Seq<char>, error: Option<Seq<char>>) -> EventView {
    match error {
        None => EventView::SyncCompleted { direction, path },
        Some(error) => EventView::SyncFailed { direction, path, error },
    }
}

/// The text of the error, if there is one.
pub open spec fn error_text(outcome: Result<(), Error>) -> Option<Seq<char>> {
    match outcome {
        Ok(_) => None,
        Err(e) => Some(e@.text()),
    }
}

/// The event that reports the sync of a path.
pub fn sync_finished(direction: SyncDir, sp: &SyncPath, outcome: &Result<(), Error>) -> (r: DaemonEvent)
    ensures
        r@ == finished_event(direction, sp@.local, error_text(*outcome)),
{
    match outcome {
        Ok(_) => DaemonEvent::SyncCompleted { direction, path: sp.local.clone() },
        Err(e) => DaemonEvent::SyncFailed { direction, path: sp.local.clone(), error: e.to_string() },
    }
}

/// A sync of all paths in progress.
#[derive(Debug)]
pub struct SyncJob {
    direction: SyncDir,
    run: SyncRun,
    /// The path that is being synced.
    current: Option<SyncPath>,
}

/// The mathematical content of a [`SyncJob`].
pub ghost struct JobView {
    pub direction: SyncDir,
    pub run: RunView,
    pub current: Option<SyncPathView>,
}

impl View for SyncJob {
    type V = JobView;

    closed spec fn view(&self) -> JobView {
        JobView {
            direction: self.direction,
            run: self.run@,
            current: match self.current {
                Some(sp) => Some(sp@),
                None => None,
            },
        }
    }
}

/// How the path before ended, if there was one: `Some(None)` is a success.
pub open spec fn outcome_text(outcome: Option<Result<(), Error>>) -> Option<Option<Seq<char>>> {
    match outcome {
        Some(o) => Some(error_text(o)),
        None => None,
    }
}

impl JobView {
    /// The sync of these paths, before it begins.
    pub open spec fn of(direction: SyncDir, paths: Seq<SyncPathView>) -> JobView {
        JobView { direction, run: RunView::of(paths), current: None }
    }

    /// What comes next.
    pub open spec fn step(self, outcome: Option<Option<Seq<char>>>) -> RunStepView {
        self.run.step(outcome matches Some(Some(_)))
    }

    /// The path that comes next, if there is one.
    pub open spec fn path(self, outcome: Option<Option<Seq<char>>>) -> Option<SyncPathView> {
        match self.step(outcome) {
            RunStepView::Sync(sp) => Some(sp),
            RunStepView::Finished(_) => None,
        }
    }

    /// The sync once it has said what comes next.
    pub open spec fn after(self, outcome: Option<Option<Seq<char>>>) -> JobView {
        JobView {
            direction: self.direction,
            run: self.run.after(outcome matches Some(Some(_))),
            current: self.path(outcome),
        }
    }
}

impl StateView {
    /// What every client is told when the sync of a path has ended with `outcome`:
    /// the end of that path, then the beginning of the next or, at the end, the
    /// status with the time of the sync.
    pub open spec fn sync_actions(
        self,
        job: JobView,
        outcome: Option<Option<Seq<char>>>,
        secs: u64,
    ) -> Seq<ActionView> {
        (match (job.current, outcome) {
            (Some(sp), Some(error)) => seq![
                ActionView::Broadcast(finished_event(job.direction, sp.local, error)),
            ],
            _ => seq![],
        }) + seq![
            match job.path(outcome) {
                Some(sp) => ActionView::Broadcast(
                    EventView::SyncStarted { direction: job.direction, path: sp.local },
                ),
                None => self.after_sync(true, secs).announcement(),
            },
        ]
    }

    /// The state when the sync of a path has ended with `outcome`: only the end of
    /// the whole sync changes it.
    pub open spec fn after_path(self, job: JobView, outcome: Option<Option<Seq<char>>>, secs: u64) -> StateView {
        match job.path(outcome) {
            Some(_) => self,
            None => self.after_sync(true, secs),
        }
    }
}

impl SyncJob {
    /// The sync of all configured paths.
    pub fn new(direction: SyncDir, syncer: &Syncer) -> (r: SyncJob)
        ensures
            r@ == JobView::of(direction, syncer@.cfg.paths),
    {
        SyncJob { direction, run: syncer.run(), current: None }
    }
}

impl DaemonState {
    /// Goes on with a sync of all paths, given how the path before ended, `secs`
    /// seconds after the epoch.  The actions are to be performed, the path is to be
    /// synced next; without a path the sync is over.
    pub fn next_path(
        &mut self,
        job: &mut SyncJob,
        outcome: Option<Result<(), Error>>,
        secs: u64,
    ) -> (r: (Vec<Action>, Option<SyncPath>))
        ensures
            actions(r.0@) == old(self)@.sync_actions(old(job)@, outcome_text(outcome), secs),
            match r.1 {
                Some(sp) => old(job)@.path(outcome_text(outcome)) == Some(sp@),
                None => old(job)@.path(outcome_text(outcome)) is None,
            },
            final(job)@ == old(job)@.after(outcome_text(outcome)),
            final(self)@ == old(self)@.after_path(old(job)@, outcome_text(outcome), secs),
    {
        broadcast use lemma_actions_push;

        let ghost before = self@;
        let ghost was = job@;
        let mut out: Vec<Action> = Vec::new();
        assert(actions(out@) =~= seq![]);
        if let Some(sp) = &job.current {
            if let Some(o) = &outcome {
                out.push(Action::Broadcast(sync_finished(job.direction, sp, o)));
            }
        }
        match job.run.next(outcome) {
            SyncRunStep::Sync(sp) => {
                out.push(Action::Broadcast(sync_started(job.direction, &sp)));
                job.current = Some(sp.clone());
                assert(actions(out@) =~= before.sync_actions(was, outcome_text(outcome), secs));
                (out, Some(sp))
            },
            SyncRunStep::Finished(_) => {
                out.push(self.stamp_sync(true, secs));
                job.current = None;
                assert(actions(out@) =~= before.sync_actions(was, outcome_text(outcome), secs));
                (out, None)
            },
        }
    }
}

// ── Start-up ─────────────────────────────────────────────────────────────────

/// Whether the container is to be started, should it be stopped.
pub fn auto_start(cfg: &Config) -> (r: bool)
    ensures
        r == (cfg@.daemon matches Some(d) && d.auto_start_container),
{
    match &cfg.daemon {
        Some(d) => d.auto_start_container,
        None => false,
    }
}

/// Whether a container whose state is `status` can be started.
pub fn is_startable(status: &Result<ContainerStatus, Error>) -> (r: bool)
    ensures
        r == (*status matches Ok(s) && s@ is Stopped),
{
    match status {
        Ok(ContainerStatus::Stopped) => true,
        _ => false,
    }
}

/// The user whose profile the daemon syncs: the configured one, else `$USER`,
/// else root.
pub fn username(cfg: &Config, user: Option<String>) -> (r: String)
    ensures
        r@ == (match (cfg@.daemon, user) {
            (Some(d), _) if d.sync_user is Some => d.sync_user->Some_0,
            (_, Some(u)) => u@,
            (_, None) => "root"@,
        }),
{
    if let Some(d) = &cfg.daemon {
        if let Some(u) = &d.sync_user {
            return u.clone();
        }
    }
    match user {
        Some(u) => u,
        None => "root".to_string(),
    }
}

/// The state in which the daemon starts, given what Proxmox said of the
/// container.
pub fn initial_state(cfg: &Config, pid: u32, status: &Result<ContainerStatus, Error>) -> (r: DaemonState)
    ensures
        r@ == (StateView {
            status: StatusView {
                daemon_pid: pid,
                container_ip: commands::configured_ip(cfg@),
                container_status: match *status {
                    Ok(s) => s@.word(),
                    Err(_) => seq![],
                },
                ..StatusView::unknown()
            },
            can_sync: commands::configured_ip(cfg@) is Some,
            has_push: false,
            has_pull: false,
        }),
        r@.is_valid(),
{
    let mut first = DaemonStatus::default();
    first.daemon_pid = pid;
    first.container_ip = commands::effective_ip(cfg);
    if let Ok(s) = status {
        first.container_status = s.to_word();
    }
    let can_sync = first.container_ip.is_some();
    DaemonState { status: first, can_sync, has_push: false, has_pull: false }
}

/// The direction that the configuration names; both, unless it names one.
pub open spec fn configured_direction(word: Seq<char>) -> WatchDir {
    if word == "push"@ {
        WatchDir::Push
    } else if word == "pull"@ {
        WatchDir::Pull
    } else {
        WatchDir::Both
    }
}

/// The watcher to start with the daemon, if any.
pub fn auto_watch(cfg: &Config, can_sync: bool) -> (r: Option<(WatchDir, u64, u64)>)
    ensures
        r == (match cfg@.daemon {
            Some(d) if d.auto_watch && can_sync => Some(
                (configured_direction(d.watch_direction), d.debounce_ms, d.poll_secs),
            ),
            _ => None,
        }),
{
    if let Some(d) = &cfg.daemon {
        if d.auto_watch && can_sync {
            let direction = if text::str_eq(d.watch_direction.as_str(), "push") {
                WatchDir::Push
            } else if text::str_eq(d.watch_direction.as_str(), "pull") {
                WatchDir::Pull
            } else {
                WatchDir::Both
            };
            return Some((direction, d.debounce_ms, d.poll_secs));
        }
    }
    None
}

// ── Laws ─────────────────────────────────────────────────────────────────────

/// Whether an action answers the client, now or once Proxmox has been asked.
pub open spec fn is_reply(a: ActionView) -> bool {
    a is Respond || a is Send || a is StartContainer || a is StopContainer
}

/// How many actions answer the client.
pub open spec fn replies(s: Seq<ActionView>) -> nat
    decreases s.len(),
{
    if s.len() == 0 {
        0
    } else {
        replies(s.drop_last()) + if is_reply(s.last()) {
            1nat
        } else {
            0nat
        }
    }
}

proof fn lemma_replies_push(s: Seq<ActionView>, a: ActionView)
    ensures
        replies(s.push(a)) == replies(s) + if is_reply(a) {
            1nat
        } else {
            0nat
        },
{
    assert(s.push(a).drop_last() =~= s);
}

proof fn lemma_no_replies(s: Seq<ActionView>)
    requires
        forall|i: int| 0 <= i < s.len() ==> !is_reply(#[trigger] s[i]),
    ensures
        replies(s) == 0,
    decreases s.len(),
{
    if s.len() > 0 {
        lemma_no_replies(s.drop_last());
    }
}

/// Every request is answered exactly once.
pub proof fn law_one_reply_per_request(s: StateView, request: DaemonRequest, proxmox: bool)
    ensures
        replies(s.request_actions(request, proxmox)) == 1,
{
    let all = s.request_actions(request, proxmox);
    match request {
        DaemonRequest::StartWatch { direction, debounce_ms, poll_secs } if s.can_sync => {
            let head = s.start_actions(direction, debounce_ms, poll_secs);
            assert forall|i: int| 0 <= i < head.len() implies !is_reply(#[trigger] head[i]) by {}
            lemma_no_replies(head);
            lemma_replies_push(head, all.last());
        },
        DaemonRequest::StopWatch => {
            lemma_no_replies(s.stop_actions());
            lemma_replies_push(s.stop_actions(), all.last());
        },
        _ => {
            reveal_with_fuel(replies, 4);
            if all.len() == 3 {
                assert(all.drop_last().drop_last() =~= seq![all[0]]);
            }
        },
    }
}

/// A client that subscribes is sent the current status at once.
pub proof fn law_subscription_begins_with_the_status(s: StateView, proxmox: bool)
    ensures
        s.request_actions(DaemonRequest::Subscribe, proxmox) == seq![
            ActionView::Subscribe,
            ActionView::Send(EventView::Status(s.status)),
        ],
        s.after_request(DaemonRequest::Subscribe) == s,
{
}

/// The status always tells truly which tasks are held: it does at the start, and
/// every request and every sync keeps it so.
pub proof fn law_status_is_true(s: StateView, request: DaemonRequest, ok: bool, secs: u64)
    requires
        s.is_valid(),
    ensures
        s.after_request(request).is_valid(),
        s.after_stop().is_valid(),
        s.after_sync(ok, secs).is_valid(),
{
}

/// What call number `j` of [`DaemonState::next_path`] is told, if the paths end
/// with these outcomes.
pub open spec fn told(outcomes: Seq<Option<Seq<char>>>, j: nat) -> Option<Option<Seq<char>>> {
    if j == 0 {
        None
    } else {
        Some(outcomes[j - 1])
    }
}

/// A sync of these paths after `j` calls of [`DaemonState::next_path`].
pub open spec fn job_after(
    direction: SyncDir,
    paths: Seq<SyncPathView>,
    outcomes: Seq<Option<Seq<char>>>,
    j: nat,
) -> JobView
    decreases j,
{
    if j == 0 {
        JobView::of(direction, paths)
    } else {
        job_after(direction, paths, outcomes, (j - 1) as nat).after(told(outcomes, (j - 1) as nat))
    }
}

/// All that the first `j` calls of [`DaemonState::next_path`] announce.
pub open spec fn announced(
    s: StateView,
    direction: SyncDir,
    paths: Seq<SyncPathView>,
    outcomes: Seq<Option<Seq<char>>>,
    secs: u64,
    j: nat,
) -> Seq<ActionView>
    decreases j,
{
    if j == 0 {
        seq![]
    } else {
        let i = (j - 1) as nat;
        announced(s, direction, paths, outcomes, secs, i) + s.sync_actions(
            job_after(direction, paths, outcomes, i),
            told(outcomes, i),
            secs,
        )
    }
}

/// The events of the first `n` paths: each begins and ends.
pub open spec fn path_events(
    direction: SyncDir,
    paths: Seq<SyncPathView>,
    outcomes: Seq<Option<Seq<char>>>,
    n: nat,
) -> Seq<ActionView>
    decreases n,
{
    if n == 0 {
        seq![]
    } else {
        let sp = paths[n - 1];
        path_events(direction, paths, outcomes, (n - 1) as nat) + seq![
            ActionView::Broadcast(EventView::SyncStarted { direction, path: sp.local }),
            ActionView::Broadcast(finished_event(direction, sp.local, outcomes[n - 1])),
        ]
    }
}

/// A sync takes every path, in order, whichever of them fail: call number `j`
/// hands out path number `j`.  Every client is told when each path begins and how
/// it ended; when all are done, the status with the time of the sync, which until
/// then stays as it was.
pub proof fn law_a_sync_takes_every_path(
    s: StateView,
    direction: SyncDir,
    paths: Seq<SyncPathView>,
    outcomes: Seq<Option<Seq<char>>>,
    secs: u64,
)
    requires
        outcomes.len() == paths.len(),
    ensures
        announced(s, direction, paths, outcomes, secs, paths.len() + 1) == path_events(
            direction,
            paths,
            outcomes,
            paths.len(),
        ) + seq![s.after_sync(true, secs).announcement()],
        forall|j: nat|
            j < paths.len() ==> (#[trigger] job_after(direction, paths, outcomes, j)).path(told(outcomes, j)) == Some(
                paths[j as int],
            ) && s.after_path(job_after(direction, paths, outcomes, j), told(outcomes, j), secs) == s,
        job_after(direction, paths, outcomes, paths.len()).path(told(outcomes, paths.len())) is None,
        s.after_path(job_after(direction, paths, outcomes, paths.len()), told(outcomes, paths.len()), secs)
            == s.after_sync(true, secs),
{
    let n = paths.len();
    assert forall|j: nat| j < n implies (#[trigger] job_after(direction, paths, outcomes, j)).path(told(outcomes, j))
        == Some(paths[j as int]) && s.after_path(
        job_after(direction, paths, outcomes, j),
        told(outcomes, j),
        secs,
    ) == s by {
        lemma_job_after(direction, paths, outcomes, j);
    }
    lemma_job_after(direction, paths, outcomes, n);
    lemma_announced(s, direction, paths, outcomes, secs, n);
    let last = s.sync_actions(job_after(direction, paths, outcomes, n), told(outcomes, n), secs);
    assert(announced(s, direction, paths, outcomes, secs, n + 1) == announced(
        s,
        direction,
        paths,
        outcomes,
        secs,
        n,
    ) + last);
    assert(announced(s, direction, paths, outcomes, secs, n + 1) =~= path_events(direction, paths, outcomes, n)
        + seq![s.after_sync(true, secs).announcement()]);
}

proof fn lemma_job_after(direction: SyncDir, paths: Seq<SyncPathView>, outcomes: Seq<Option<Seq<char>>>, j: nat)
    requires
        outcomes.len() == paths.len(),
        j <= paths.len(),
    ensures
        job_after(direction, paths, outcomes, j).direction == direction,
        job_after(direction, paths, outcomes, j).run.paths == paths,
        job_after(direction, paths, outcomes, j).run.taken == j,
        job_after(direction, paths, outcomes, j).current == (if j == 0 {
            None
        } else {
            Some(paths[j - 1])
        }),
    decreases j,
{
    if j > 0 {
        lemma_job_after(direction, paths, outcomes, (j - 1) as nat);
    }
}

/// After `j` calls the events of all but the last path handed out have been
/// announced, and the beginning of that one.
proof fn lemma_announced(
    s: StateView,
    direction: SyncDir,
    paths: Seq<SyncPathView>,
    outcomes: Seq<Option<Seq<char>>>,
    secs: u64,
    j: nat,
)
    requires
        outcomes.len() == paths.len(),
        j <= paths.len(),
    ensures
        announced(s, direction, paths, outcomes, secs, j) == (if j == 0 {
            seq![]
        } else {
            path_events(direction, paths, outcomes, (j - 1) as nat).push(
                ActionView::Broadcast(EventView::SyncStarted { direction, path: paths[j - 1].local }),
            )
        }),
    decreases j,
{
    if j > 0 {
        let i = (j - 1) as nat;
        lemma_announced(s, direction, paths, outcomes, secs, i);
        lemma_job_after(direction, paths, outcomes, i);
        assert(announced(s, direction, paths, outcomes, secs, j) =~= path_events(direction, paths, outcomes, i).push(
            ActionView::Broadcast(EventView::SyncStarted { direction, path: paths[j - 1].local }),
        ));
    }
}

/// Whenever a request changes the status, every subscribed client is told the
/// new one, and nothing else is told after it.
pub proof fn law_changes_are_announced(s: StateView, request: DaemonRequest, proxmox: bool)
    requires
        s.after_request(request).status != s.status,
    ensures
        exists|i: int|
            0 <= i < s.request_actions(request, proxmox).len() && #[trigger] s.request_actions(request, proxmox)[i]
                == s.after_request(request).announcement() && forall|j: int|
                i < j < s.request_actions(request, proxmox).len() ==> !(#[trigger] s.request_actions(
                    request,
                    proxmox,
                )[j] is Broadcast),
{
    let all = s.request_actions(request, proxmox);
    let i = all.len() - 2;
    assert(all[i] == s.after_request(request).announcement());
}

/// Starting a watcher first stops the one that is held: every task that was held
/// is stopped before one is started, and afterwards exactly the tasks of the new
/// direction are held.
pub proof fn law_a_new_watcher_replaces_the_old(s: StateView, direction: WatchDir, debounce_ms: u64, poll_secs: u64)
    ensures
        s.stop_actions().is_prefix_of(s.start_actions(direction, debounce_ms, poll_secs)),
        s.has_push ==> s.stop_actions().contains(ActionView::AbortPush),
        s.has_pull ==> s.stop_actions().contains(ActionView::AbortPull),
        s.after_start(direction).has_push == watches_push(direction),
        s.after_start(direction).has_pull == watches_pull(direction),
        s.after_start(direction).status.watch_direction == Some(direction),
{
    let stop = s.stop_actions();
    assert(stop =~= s.start_actions(direction, debounce_ms, poll_secs).take(stop.len() as int));
    if s.has_push {
        assert(stop[0] == ActionView::AbortPush);
    }
    if s.has_pull {
        let i: int = if s.has_push {
            1
        } else {
            0
        };
        assert(stop[i] == ActionView::AbortPull);
    }
}

/// After a stop no task is held, and stopping again does nothing.
pub proof fn law_stopping_twice_is_stopping_once(s: StateView)
    ensures
        !s.after_stop().has_push,
        !s.after_stop().has_pull,
        s.after_stop().after_stop() == s.after_stop(),
        s.after_stop().stop_actions().len() == 0,
{
}

/// Without the address of the container nothing is synced and no watcher is
/// started: such a request is refused and changes nothing.
pub proof fn law_nothing_is_synced_without_an_address(s: StateView, request: DaemonRequest, proxmox: bool)
    requires
        !s.can_sync,
        request is SyncNow || request is StartWatch,
    ensures
        s.after_request(request) == s,
        s.request_actions(request, proxmox).len() == 1,
        s.request_actions(request, proxmox)[0] matches ActionView::Respond(ResponseView::Error { .. }),
{
}

} // verus!
