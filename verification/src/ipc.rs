//! The protocol between the daemon and its clients.
//!
//! Messages travel over a Unix domain socket as newline-delimited JSON, one
//! object per line.  A client that subscribes receives the current status at
//! once and then every event as it happens.

use vstd::prelude::*;
use vstd::string::*;
use crate::path;
use crate::text;

verus! {

// ── Directions ───────────────────────────────────────────────────────────────

/// The direction of a single sync.
#[derive(Debug, Clone, Copy, PartialEq, Eq, Structural)]
pub enum SyncDir {
    Push,
    Pull,
}

/// The direction of a watcher.
#[derive(Debug, Clone, Copy, PartialEq, Eq, Structural)]
pub enum WatchDir {
    Push,
    Pull,
    Both,
}

impl SyncDir {
    pub open spec fn label(self) -> Seq<char> {
        match self {
            SyncDir::Push => "Push"@,
            SyncDir::Pull => "Pull"@,
        }
    }

    /// The name of the direction, capitalised.
    pub fn to_label(&self) -> (r: String)
        ensures
            r@ == self.label(),
    {
        match self {
            SyncDir::Push => "Push".to_string(),
            SyncDir::Pull => "Pull".to_string(),
        }
    }
}

impl WatchDir {
    pub open spec fn label(self) -> Seq<char> {
        match self {
            WatchDir::Push => "push"@,
            WatchDir::Pull => "pull"@,
            WatchDir::Both => "both"@,
        }
    }

    /// The name of the direction.
    pub fn to_string(&self) -> (r: String)
        ensures
            r@ == self.label(),
    {
        match self {
            WatchDir::Push => "push".to_string(),
            WatchDir::Pull => "pull".to_string(),
            WatchDir::Both => "both".to_string(),
        }
    }
}

// ── Messages ─────────────────────────────────────────────────────────────────

/// From a client to the daemon.
#[derive(Debug, Clone, Copy, PartialEq, Eq, Structural)]
#[allow(inconsistent_fields)]
pub enum DaemonRequest {
    /// Receive the status now and every event from now on.
    Subscribe,
    /// Receive the status once.
    GetStatus,
    /// Sync every path now.
    SyncNow { direction: SyncDir },
    /// Start the background watcher.
    StartWatch { direction: WatchDir, debounce_ms: u64, poll_secs: u64 },
    /// Stop the background watcher.
    StopWatch,
    /// Start the container.
    StartContainer,
    /// Stop the container.
    StopContainer,
    /// Ask the daemon to exit.
    Shutdown,
}

/// From the daemon to a client, in answer to a request.
#[derive(Debug)]
pub enum DaemonResponse {
    /// The request was carried out.
    Done,
    Error { message: String },
    Status(DaemonStatus),
}

/// From the daemon to every subscribed client.
#[derive(Debug)]
pub enum DaemonEvent {
    /// The whole status: sent on subscription and on any change.
    Status(DaemonStatus),
    /// A sync started.
    SyncStarted { direction: SyncDir, path: String },
    /// A sync completed.
    SyncCompleted { direction: SyncDir, path: String },
    /// A sync failed.
    SyncFailed { direction: SyncDir, path: String, error: String },
    /// The daemon is shutting down.
    Shutdown,
}

/// A snapshot of what the daemon knows.
#[derive(Debug)]
pub struct DaemonStatus {
    pub container_status: String,
    pub container_ip: Option<String>,
    pub tailscale_ip: Option<String>,
    pub watch_running: bool,
    pub watch_direction: Option<WatchDir>,
    /// `HH:MM:SS`.
    pub last_sync_time: Option<String>,
    pub last_sync_ok: Option<bool>,
    pub daemon_pid: u32,
}

/// The mathematical content of a [`DaemonStatus`].
pub ghost struct StatusView {
    pub container_status: Seq<char>,
    pub container_ip: Option<Seq<char>>,
    pub tailscale_ip: Option<Seq<char>>,
    pub watch_running: bool,
    pub watch_direction: Option<WatchDir>,
    pub last_sync_time: Option<Seq<char>>,
    pub last_sync_ok: Option<bool>,
    pub daemon_pid: u32,
}

/// The mathematical content of a [`DaemonResponse`].
pub ghost enum ResponseView {
    Done,
    Error { message: Seq<char> },
    Status(StatusView),
}

/// The mathematical content of a [`DaemonEvent`].
pub ghost enum EventView {
    Status(StatusView),
    SyncStarted { direction: SyncDir, path: Seq<char> },
    SyncCompleted { direction: SyncDir, path: Seq<char> },
    SyncFailed { direction: SyncDir, path: Seq<char>, error: Seq<char> },
    Shutdown,
}

impl View for DaemonStatus {
    type V = StatusView;

    open spec fn view(&self) -> StatusView {
        StatusView {
            container_status: self.container_status@,
            container_ip: text::opt(self.container_ip),
            tailscale_ip: text::opt(self.tailscale_ip),
            watch_running: self.watch_running,
            watch_direction: self.watch_direction,
            last_sync_time: text::opt(self.last_sync_time),
            last_sync_ok: self.last_sync_ok,
            daemon_pid: self.daemon_pid,
        }
    }
}

impl View for DaemonResponse {
    type V = ResponseView;

    open spec fn view(&self) -> ResponseView {
        match self {
            DaemonResponse::Done => ResponseView::Done,
            DaemonResponse::Error { message } => ResponseView::Error { message: message@ },
            DaemonResponse::Status(s) => ResponseView::Status(s@),
        }
    }
}

impl View for DaemonEvent {
    type V = EventView;

    open spec fn view(&self) -> EventView {
        match self {
            DaemonEvent::Status(s) => EventView::Status(s@),
            DaemonEvent::SyncStarted { direction, path } => EventView::SyncStarted {
                direction: *direction,
                path: path@,
            },
            DaemonEvent::SyncCompleted { direction, path } => EventView::SyncCompleted {
                direction: *direction,
                path: path@,
            },
            DaemonEvent::SyncFailed { direction, path, error } => EventView::SyncFailed {
                direction: *direction,
                path: path@,
                error: error@,
            },
            DaemonEvent::Shutdown => EventView::Shutdown,
        }
    }
}

impl Clone for DaemonStatus {
    fn clone(&self) -> (r: Self)
        ensures
            r == *self,
    {
        DaemonStatus {
            container_status: self.container_status.clone(),
            container_ip: text::copy_opt(&self.container_ip),
            tailscale_ip: text::copy_opt(&self.tailscale_ip),
            watch_running: self.watch_running,
            watch_direction: self.watch_direction,
            last_sync_time: text::copy_opt(&self.last_sync_time),
            last_sync_ok: self.last_sync_ok,
            daemon_pid: self.daemon_pid,
        }
    }
}

impl Clone for DaemonResponse {
    fn clone(&self) -> (r: Self)
        ensures
            r == *self,
    {
        match self {
            DaemonResponse::Done => DaemonResponse::Done,
            DaemonResponse::Error { message } => DaemonResponse::Error { message: message.clone() },
            DaemonResponse::Status(s) => DaemonResponse::Status(s.clone()),
        }
    }
}

impl Clone for DaemonEvent {
    fn clone(&self) -> (r: Self)
        ensures
            r == *self,
    {
        match self {
            DaemonEvent::Status(s) => DaemonEvent::Status(s.clone()),
            DaemonEvent::SyncStarted { direction, path } => DaemonEvent::SyncStarted {
                direction: *direction,
                path: path.clone(),
            },
            DaemonEvent::SyncCompleted { direction, path } => DaemonEvent::SyncCompleted {
                direction: *direction,
                path: path.clone(),
            },
            DaemonEvent::SyncFailed { direction, path, error } => DaemonEvent::SyncFailed {
                direction: *direction,
                path: path.clone(),
                error: error.clone(),
            },
            DaemonEvent::Shutdown => DaemonEvent::Shutdown,
        }
    }
}

impl StatusView {
    /// The status before anything is known.
    pub open spec fn unknown() -> StatusView {
        StatusView {
            container_status: seq![],
            container_ip: None,
            tailscale_ip: None,
            watch_running: false,
            watch_direction: None,
            last_sync_time: None,
            last_sync_ok: None,
            daemon_pid: 0,
        }
    }
}

impl Default for DaemonStatus {
    fn default() -> (r: Self)
        ensures
            r@ == StatusView::unknown(),
    {
        DaemonStatus {
            container_status: String::new(),
            container_ip: None,
            tailscale_ip: None,
            watch_running: false,
            watch_direction: None,
            last_sync_time: None,
            last_sync_ok: None,
            daemon_pid: 0,
        }
    }
}

// ── Socket path ──────────────────────────────────────────────────────────────

/// The first of `lines` that begins with `p`.
pub open spec fn first_with_prefix(lines: Seq<Seq<char>>, p: Seq<char>) -> Option<Seq<char>>
    decreases lines.len(),
{
    if lines.len() == 0 {
        None
    } else if text::has_prefix(lines[0], p) {
        Some(lines[0])
    } else {
        first_with_prefix(lines.skip(1), p)
    }
}

/// The user id in the text of a process status: the word after `Uid:` in the
/// first line that begins so.
pub open spec fn uid_in(status: Seq<char>) -> Option<Seq<char>> {
    match first_with_prefix(text::lines_of(status), "Uid:"@) {
        Some(line) => text::word_at(line, 1),
        None => None,
    }
}

/// The user id in the text of a process status.
pub fn parse_uid(status: &str) -> (r: Option<String>)
    ensures
        text::opt(r) == uid_in(status@),
{
    let lines = text::lines(status);
    let ghost all = text::strs(lines@);
    let mut i: usize = 0;
    assert(all.skip(0) =~= all);
    while i < lines.len()
        invariant
            i <= lines@.len(),
            all == text::strs(lines@),
            first_with_prefix(all, "Uid:"@) == first_with_prefix(all.skip(i as int), "Uid:"@),
            all == text::lines_of(status@),
        decreases lines@.len() - i,
    {
        if text::starts_with(lines[i].as_str(), "Uid:") {
            return text::word(lines[i].as_str(), 1);
        }
        assert(all.skip(i as int).skip(1) =~= all.skip(i + 1));
        i += 1;
    }
    None
}

/// Where the daemon listens: in the runtime directory if there is one, else in
/// the runtime directory of the user id in `status`, else under the home
/// directory, else in `/tmp`.
pub open spec fn socket(
    runtime_dir: Option<Seq<char>>,
    status: Option<Seq<char>>,
    home: Option<Seq<char>>,
) -> Seq<char> {
    let uid = match status {
        Some(s) => uid_in(s),
        None => None,
    };
    match (runtime_dir, uid, home) {
        (Some(dir), _, _) => path::joined(dir, "dps.sock"@),
        (None, Some(uid), _) => "/run/user/"@ + uid + "/dps.sock"@,
        (None, None, Some(home)) => path::joined(home, ".local/share/dps/daemon.sock"@),
        (None, None, None) => "/tmp/dps-daemon.sock"@,
    }
}

/// Where the daemon listens, given the runtime directory, the text of
/// `/proc/self/status` and the home directory.
pub fn socket_path_in(runtime_dir: Option<&str>, status: Option<&str>, home: Option<&str>) -> (r: String)
    ensures
        r@ == socket(
            text::opt_ref(runtime_dir),
            text::opt_ref(status),
            text::opt_ref(home),
        ),
{
    if let Some(dir) = runtime_dir {
        return path::join(dir, "dps.sock");
    }
    if let Some(s) = status {
        if let Some(uid) = parse_uid(s) {
            return "/run/user/".to_string().concat(uid.as_str()).concat("/dps.sock");
        }
    }
    match home {
        Some(h) => path::join(h, ".local/share/dps/daemon.sock"),
        None => "/tmp/dps-daemon.sock".to_string(),
    }
}

/// Where the daemon listens, given the runtime directory and the text of
/// `/proc/self/status`.
pub fn socket_path(runtime_dir: Option<&str>, status: Option<&str>) -> (r: String)
    ensures
        exists|home: Option<Seq<char>>|
            path::is_home(home) && r@ == #[trigger] socket(
                text::opt_ref(runtime_dir),
                text::opt_ref(status),
                home,
            ),
{
    match path::home_dir() {
        Some(home) => socket_path_in(runtime_dir, status, Some(home.as_str())),
        None => socket_path_in(runtime_dir, status, None),
    }
}

// ── Framing ──────────────────────────────────────────────────────────────────

/// A message as it goes over the socket.
pub open spec fn framed(message: Seq<char>) -> Seq<char> {
    message.push('\n')
}

/// A message as it goes over the socket: its JSON text and a line feed.
pub fn frame(message: String) -> (r: String)
    ensures
        r@ == framed(message@),
{
    let mut s = message;
    s.push('\n');
    s
}

/// What goes over the socket for a list of messages.
pub open spec fn stream(messages: Seq<Seq<char>>) -> Seq<char>
    decreases messages.len(),
{
    if messages.len() == 0 {
        seq![]
    } else {
        framed(messages[0]) + stream(messages.skip(1))
    }
}

/// Reading the stream line by line gives back the messages that were sent, for
/// messages without line feeds that do not end in a carriage return, as every
/// JSON object on one line is.
pub proof fn law_messages_are_read_back(messages: Seq<Seq<char>>)
    requires
        forall|i: int, j: int|
            0 <= i < messages.len() && 0 <= j < messages[i].len() ==> #[trigger] messages[i][j] != '\n',
        forall|i: int|
            0 <= i < messages.len() && messages[i].len() > 0 ==> (#[trigger] messages[i]).last() != '\r',
    ensures
        text::lines_of(stream(messages)) == messages,
    decreases messages.len(),
{
    if messages.len() > 0 {
        let m = messages[0];
        let rest = messages.skip(1);
        let s = stream(messages);
        assert(s =~= m + seq!['\n'] + stream(rest));
        assert(s[m.len() as int] == '\n');
        assert forall|i: int| 0 <= i < m.len() implies s[i] != '\n' by {
            assert(s[i] == messages[0][i]);
        }
        text::lemma_first_index_unique(s, '\n', m.len() as int);
        assert(s.take(m.len() as int) =~= m);
        assert(s.skip(m.len() as int + 1) =~= stream(rest));
        assert forall|i: int, j: int| 0 <= i < rest.len() && 0 <= j < rest[i].len() implies #[trigger] rest[i][j]
            != '\n' by {
            assert(rest[i] == messages[i + 1]);
            assert(messages[i + 1][j] != '\n');
        }
        assert forall|i: int| 0 <= i < rest.len() && rest[i].len() > 0 implies (#[trigger] rest[i]).last()
            != '\r' by {
            assert(rest[i] == messages[i + 1]);
        }
        law_messages_are_read_back(rest);
        assert(messages =~= seq![m] + rest);
    }
}

} // verus!
