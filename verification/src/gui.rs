//! The control panel: its state, what it shows, and what its controls ask for.

use std::collections::VecDeque;
use vstd::prelude::*;
use vstd::string::*;
use crate::ipc::{DaemonEvent, DaemonRequest, DaemonStatus, EventView, StatusView, SyncDir, WatchDir};
use crate::number;
use crate::text;

verus! {

// ── State ────────────────────────────────────────────────────────────────────

/// What the panel knows.
#[derive(Debug)]
pub struct GuiState {
    pub connected: bool,
    pub status: DaemonStatus,
    /// Newest first.
    pub log: VecDeque<LogEntry>,
    pub error: Option<String>,
}

/// One entry of the activity log.
#[derive(Debug)]
pub struct LogEntry {
    /// `HH:MM:SS`.
    pub time: String,
    pub msg: String,
    pub ok: bool,
}

/// The mathematical content of a [`LogEntry`].
pub ghost struct LogEntryView {
    pub time: Seq<char>,
    pub msg: Seq<char>,
    pub ok: bool,
}

/// The mathematical content of a [`GuiState`].
pub ghost struct GuiView {
    pub connected: bool,
    pub status: StatusView,
    pub log: Seq<LogEntryView>,
    pub error: Option<Seq<char>>,
}

impl View for LogEntry {
    type V = LogEntryView;

    open spec fn view(&self) -> LogEntryView {
        LogEntryView { time: self.time@, msg: self.msg@, ok: self.ok }
    }
}

impl Clone for LogEntry {
    fn clone(&self) -> (r: Self)
        ensures
            r == *self,
    {
        LogEntry { time: self.time.clone(), msg: self.msg.clone(), ok: self.ok }
    }
}

impl View for GuiState {
    type V = GuiView;

    open spec fn view(&self) -> GuiView {
        GuiView {
            connected: self.connected,
            status: self.status@,
            log: entries(self.log@),
            error: text::opt(self.error),
        }
    }
}

/// The contents of a list of log entries.
pub open spec fn entries(log: Seq<LogEntry>) -> Seq<LogEntryView> {
    log.map_values(|e: LogEntry| e@)
}

impl Default for GuiState {
    fn default() -> (r: Self)
        ensures
            r@ == (GuiView { connected: false, status: StatusView::unknown(), log: seq![], error: None }),
    {
        let r = GuiState { connected: false, status: DaemonStatus::default(), log: VecDeque::new(), error: None };
        assert(r@.log =~= seq![]);
        r
    }
}

/// The log keeps at most this many entries.
pub const MAX_LOG: usize = 200;

/// A log with a new entry: it comes first, and the oldest one goes where there
/// are too many.
pub open spec fn logged(log: Seq<LogEntryView>, e: LogEntryView) -> Seq<LogEntryView> {
    let all = seq![e] + log;
    if all.len() > MAX_LOG {
        all.drop_last()
    } else {
        all
    }
}

impl GuiView {
    /// The state with one more log entry, made `secs` seconds after the epoch.
    pub open spec fn noting(self, msg: Seq<char>, ok: bool, secs: u64) -> GuiView {
        GuiView { log: logged(self.log, LogEntryView { time: number::clock(secs as int), msg, ok }), ..self }
    }

    /// The state after an event that arrived `secs` seconds after the epoch.
    pub open spec fn after_event(self, event: EventView, secs: u64) -> GuiView {
        match event {
            EventView::Status(status) => GuiView { status, ..self },
            EventView::SyncStarted { direction, path } => self.noting(
                direction.label() + " started: "@ + path,
                true,
                secs,
            ),
            EventView::SyncCompleted { direction, path } => self.noting(
                direction.label() + " OK: "@ + path,
                true,
                secs,
            ),
            EventView::SyncFailed { direction, path, error } => self.noting(
                direction.label() + " FAILED "@ + path + ": "@ + error,
                false,
                secs,
            ),
            EventView::Shutdown => (GuiView { connected: false, ..self }).noting("daemon shut down"@, false, secs),
        }
    }
}

impl GuiState {
    /// Adds an entry to the log, `secs` seconds after the epoch.
    pub fn push_log(&mut self, msg: String, ok: bool, secs: u64)
        ensures
            final(self)@ == old(self)@.noting(msg@, ok, secs),
    {
        let ghost before = self.log@;
        let entry = LogEntry { time: number::clock_text(secs), msg, ok };
        let ghost added = entry@;
        self.log.push_front(entry);
        let ghost all = self.log@;
        assert(entries(all) =~= seq![added] + entries(before));
        if self.log.len() > MAX_LOG {
            let _ = self.log.pop_back();
            assert(entries(self.log@) =~= entries(all).drop_last());
        }
    }

    /// Takes an event that arrived `secs` seconds after the epoch.
    pub fn handle_event(&mut self, event: DaemonEvent, secs: u64)
        ensures
            final(self)@ == old(self)@.after_event(event@, secs),
    {
        match event {
            DaemonEvent::Status(status) => {
                self.status = status;
            },
            DaemonEvent::SyncStarted { direction, path } => {
                self.push_log(direction.to_label().concat(" started: ").concat(path.as_str()), true, secs);
            },
            DaemonEvent::SyncCompleted { direction, path } => {
                self.push_log(direction.to_label().concat(" OK: ").concat(path.as_str()), true, secs);
            },
            DaemonEvent::SyncFailed { direction, path, error } => {
                let msg = direction.to_label().concat(" FAILED ").concat(path.as_str()).concat(": ").concat(
                    error.as_str(),
                );
                self.push_log(msg, false, secs);
            },
            DaemonEvent::Shutdown => {
                self.connected = false;
                self.push_log("daemon shut down".to_string(), false, secs);
            },
        }
    }
}

// ── Connection ───────────────────────────────────────────────────────────────

/// Something that happened on the way to the daemon.
#[derive(Debug)]
pub enum LinkEvent {
    /// The daemon could not be reached.
    Refused,
    /// The daemon was reached.
    Connected,
    /// The subscription could not be sent.
    NotSubscribed,
    /// A line came; it holds an event, or nothing that can be read.
    Line(Option<DaemonEvent>),
    /// Nothing came for a while.
    Quiet,
    /// The connection is gone.
    Closed,
}

/// What to do about it.
#[derive(Debug, Clone, Copy, PartialEq, Eq, Structural)]
pub struct LinkAction {
    /// Whether the panel must be drawn again.
    pub repaint: bool,
    /// Seconds after which to connect again; `None` to go on listening.
    pub reconnect: Option<u64>,
    /// What to ask of the daemon at once.
    pub send: Option<DaemonRequest>,
}

impl GuiView {
    /// The state after something happened on the way to the daemon.
    pub open spec fn after_link(self, event: LinkEvent, secs: u64) -> GuiView {
        match event {
            LinkEvent::Refused => GuiView { connected: false, error: Some("daemon not running"@), ..self },
            LinkEvent::Connected => GuiView { connected: true, error: None, ..self },
            LinkEvent::Line(Some(e)) => self.after_event(e@, secs),
            LinkEvent::Closed => GuiView { connected: false, ..self },
            LinkEvent::NotSubscribed | LinkEvent::Line(None) | LinkEvent::Quiet => self,
        }
    }
}

/// What to do about something that happened on the way to the daemon.
pub open spec fn link_action(event: LinkEvent) -> LinkAction {
    match event {
        LinkEvent::Refused => LinkAction { repaint: true, reconnect: Some(3), send: None },
        LinkEvent::Connected => LinkAction { repaint: true, reconnect: None, send: Some(DaemonRequest::Subscribe) },
        LinkEvent::NotSubscribed => LinkAction { repaint: false, reconnect: Some(0), send: None },
        LinkEvent::Line(e) => LinkAction { repaint: e is Some, reconnect: None, send: None },
        LinkEvent::Quiet => LinkAction { repaint: false, reconnect: None, send: None },
        LinkEvent::Closed => LinkAction { repaint: true, reconnect: Some(2), send: None },
    }
}

impl GuiState {
    /// Takes what happened on the way to the daemon, `secs` seconds after the
    /// epoch.
    pub fn on_link(&mut self, event: LinkEvent, secs: u64) -> (r: LinkAction)
        ensures
            final(self)@ == old(self)@.after_link(event, secs),
            r == link_action(event),
    {
        match event {
            LinkEvent::Refused => {
                self.connected = false;
                self.error = Some("daemon not running".to_string());
                LinkAction { repaint: true, reconnect: Some(3), send: None }
            },
            LinkEvent::Connected => {
                self.connected = true;
                self.error = None;
                LinkAction { repaint: true, reconnect: None, send: Some(DaemonRequest::Subscribe) }
            },
            LinkEvent::NotSubscribed => LinkAction { repaint: false, reconnect: Some(0), send: None },
            LinkEvent::Line(Some(e)) => {
                self.handle_event(e, secs);
                LinkAction { repaint: true, reconnect: None, send: None }
            },
            LinkEvent::Line(None) | LinkEvent::Quiet => LinkAction { repaint: false, reconnect: None, send: None },
            LinkEvent::Closed => {
                self.connected = false;
                LinkAction { repaint: true, reconnect: Some(2), send: None }
            },
        }
    }
}

// ── Panel ────────────────────────────────────────────────────────────────────

/// A colour of the panel.
#[derive(Debug, Clone, Copy, PartialEq, Eq, Structural)]
pub enum Colour {
    /// That of ordinary text.
    Plain,
    Green,
    Red,
    Yellow,
    Gray,
    LightGreen,
    LightRed,
}

/// A piece of text in a colour.
#[derive(Debug)]
pub struct Label {
    pub text: String,
    pub colour: Colour,
}

/// The mathematical content of a [`Label`].
pub ghost struct LabelView {
    pub text: Seq<char>,
    pub colour: Colour,
}

impl View for Label {
    type V = LabelView;

    open spec fn view(&self) -> LabelView {
        LabelView { text: self.text@, colour: self.colour }
    }
}

fn label(text: String, colour: Colour) -> (r: Label)
    ensures
        r@ == (LabelView { text: text@, colour }),
{
    Label { text, colour }
}

impl GuiView {
    /// The label on the connection to the daemon.
    pub open spec fn daemon_label(self) -> LabelView {
        if self.connected {
            LabelView { text: "● connected"@, colour: Colour::Green }
        } else {
            LabelView { text: "● not running"@, colour: Colour::Red }
        }
    }

    /// The label on the warning, if there is one.
    pub open spec fn error_label(self) -> Option<LabelView> {
        match self.error {
            Some(e) => Some(LabelView { text: "⚠ "@ + e, colour: Colour::Red }),
            None => None,
        }
    }
}

/// The label on a log entry.
pub open spec fn entry_label(e: LogEntryView) -> LabelView {
    LabelView {
        text: e.time + " "@ + e.msg,
        colour: if e.ok {
            Colour::LightGreen
        } else {
            Colour::LightRed
        },
    }
}

/// The label on the container.
pub open spec fn container_label(status: StatusView) -> LabelView {
    if status.container_status == "running"@ {
        LabelView { text: "● running"@, colour: Colour::Green }
    } else if status.container_status == "stopped"@ {
        LabelView { text: "● stopped"@, colour: Colour::Red }
    } else {
        LabelView { text: "● unknown"@, colour: Colour::Yellow }
    }
}

/// The address that is shown: the Tailscale address, else the container's own.
pub open spec fn shown_ip(status: StatusView) -> Seq<char> {
    match (status.tailscale_ip, status.container_ip) {
        (Some(ip), _) => ip,
        (None, Some(ip)) => ip,
        (None, None) => "—"@,
    }
}

/// The label on the watcher.
pub open spec fn watcher_label(status: StatusView) -> LabelView {
    if status.watch_running {
        LabelView {
            text: "● active ("@ + (match status.watch_direction {
                Some(d) => d.label(),
                None => seq![],
            }) + ")"@,
            colour: Colour::Green,
        }
    } else {
        LabelView { text: "○ stopped"@, colour: Colour::Gray }
    }
}

/// The label on the last sync.
pub open spec fn last_sync_label(status: StatusView) -> LabelView {
    match (status.last_sync_time, status.last_sync_ok) {
        (Some(t), Some(ok)) => if ok {
            LabelView { text: "✓ "@ + t, colour: Colour::Green }
        } else {
            LabelView { text: "✗ "@ + t, colour: Colour::Red }
        },
        _ => LabelView { text: "—"@, colour: Colour::Plain },
    }
}

impl GuiState {
    /// The label on the connection to the daemon.
    pub fn daemon_label(&self) -> (r: Label)
        ensures
            r@ == self@.daemon_label(),
    {
        if self.connected {
            label("● connected".to_string(), Colour::Green)
        } else {
            label("● not running".to_string(), Colour::Red)
        }
    }

    /// The label on the container.
    pub fn container_label(&self) -> (r: Label)
        ensures
            r@ == container_label(self@.status),
    {
        if text::str_eq(self.status.container_status.as_str(), "running") {
            label("● running".to_string(), Colour::Green)
        } else if text::str_eq(self.status.container_status.as_str(), "stopped") {
            label("● stopped".to_string(), Colour::Red)
        } else {
            label("● unknown".to_string(), Colour::Yellow)
        }
    }

    /// The address that is shown.
    pub fn shown_ip(&self) -> (r: String)
        ensures
            r@ == shown_ip(self@.status),
    {
        match (&self.status.tailscale_ip, &self.status.container_ip) {
            (Some(ip), _) => ip.clone(),
            (None, Some(ip)) => ip.clone(),
            (None, None) => "—".to_string(),
        }
    }

    /// The label on the watcher.
    pub fn watcher_label(&self) -> (r: Label)
        ensures
            r@ == watcher_label(self@.status),
    {
        if self.status.watch_running {
            let direction = match &self.status.watch_direction {
                Some(d) => d.to_string(),
                None => String::new(),
            };
            label("● active (".to_string().concat(direction.as_str()).concat(")"), Colour::Green)
        } else {
            label("○ stopped".to_string(), Colour::Gray)
        }
    }

    /// The label on the last sync.
    pub fn last_sync_label(&self) -> (r: Label)
        ensures
            r@ == last_sync_label(self@.status),
    {
        match (&self.status.last_sync_time, &self.status.last_sync_ok) {
            (Some(t), Some(ok)) => if *ok {
                label("✓ ".to_string().concat(t.as_str()), Colour::Green)
            } else {
                label("✗ ".to_string().concat(t.as_str()), Colour::Red)
            },
            _ => label("—".to_string(), Colour::Plain),
        }
    }

    /// The label on the warning, if there is one.
    pub fn error_label(&self) -> (r: Option<Label>)
        ensures
            match (r, self@.error_label()) {
                (Some(l), Some(x)) => l@ == x,
                (None, None) => true,
                _ => false,
            },
    {
        match &self.error {
            Some(e) => Some(label("⚠ ".to_string().concat(e.as_str()), Colour::Red)),
            None => None,
        }
    }

    /// The labels on the log, newest first.
    pub fn log_labels(&self) -> (r: Vec<Label>)
        ensures
            r@.map_values(|l: Label| l@) == self@.log.map_values(|e: LogEntryView| entry_label(e)),
    {
        let ghost all = self@.log.map_values(|e: LogEntryView| entry_label(e));
        let mut out: Vec<Label> = Vec::new();
        let mut i: usize = 0;
        while i < self.log.len()
            invariant
                i <= self.log@.len(),
                out@.len() == i,
                all == self@.log.map_values(|e: LogEntryView| entry_label(e)),
                all.len() == self.log@.len(),
                forall|j: int| 0 <= j < i ==> (#[trigger] out@[j])@ == all[j],
            decreases self.log@.len() - i,
        {
            let e = &self.log[i];
            let colour = if e.ok {
                Colour::LightGreen
            } else {
                Colour::LightRed
            };
            let l = label(e.time.clone().concat(" ").concat(e.msg.as_str()), colour);
            assert(l@ == all[i as int]);
            out.push(l);
            i += 1;
        }
        assert(out@.map_values(|l: Label| l@) =~= all);
        out
    }
}

// ── Controls ─────────────────────────────────────────────────────────────────

/// A control of the panel or of the tray menu.
#[derive(Debug, Clone, Copy, PartialEq, Eq, Structural)]
pub enum Control {
    PushNow,
    PullNow,
    ToggleWatch,
    ToggleContainer,
}

/// What a control asks of the daemon, given what it says of itself.
pub open spec fn requested(control: Control, status: StatusView) -> DaemonRequest {
    match control {
        Control::PushNow => DaemonRequest::SyncNow { direction: SyncDir::Push },
        Control::PullNow => DaemonRequest::SyncNow { direction: SyncDir::Pull },
        Control::ToggleWatch => if status.watch_running {
            DaemonRequest::StopWatch
        } else {
            DaemonRequest::StartWatch { direction: WatchDir::Both, debounce_ms: 500, poll_secs: 30 }
        },
        Control::ToggleContainer => if status.container_status == "stopped"@ {
            DaemonRequest::StartContainer
        } else {
            DaemonRequest::StopContainer
        },
    }
}

/// The text on a control.
pub open spec fn caption(control: Control, status: StatusView) -> Seq<char> {
    match requested(control, status) {
        DaemonRequest::SyncNow { direction: SyncDir::Push } => "⬆  Push Now"@,
        DaemonRequest::SyncNow { direction: SyncDir::Pull } => "⬇  Pull Now"@,
        DaemonRequest::StopWatch => "■  Stop Watch"@,
        DaemonRequest::StartWatch { .. } => "▶  Start Watch"@,
        DaemonRequest::StartContainer => "▶  Start Container"@,
        _ => "■  Stop Container"@,
    }
}

impl GuiState {
    /// What a control asks of the daemon.
    pub fn request(&self, control: Control) -> (r: DaemonRequest)
        ensures
            r == requested(control, self@.status),
    {
        match control {
            Control::PushNow => DaemonRequest::SyncNow { direction: SyncDir::Push },
            Control::PullNow => DaemonRequest::SyncNow { direction: SyncDir::Pull },
            Control::ToggleWatch => if self.status.watch_running {
                DaemonRequest::StopWatch
            } else {
                DaemonRequest::StartWatch { direction: WatchDir::Both, debounce_ms: 500, poll_secs: 30 }
            },
            Control::ToggleContainer => if text::str_eq(self.status.container_status.as_str(), "stopped") {
                DaemonRequest::StartContainer
            } else {
                DaemonRequest::StopContainer
            },
        }
    }

    /// The text on a control.
    pub fn caption(&self, control: Control) -> (r: String)
        ensures
            r@ == caption(control, self@.status),
    {
        match self.request(control) {
            DaemonRequest::SyncNow { direction: SyncDir::Push } => "⬆  Push Now".to_string(),
            DaemonRequest::SyncNow { direction: SyncDir::Pull } => "⬇  Pull Now".to_string(),
            DaemonRequest::StopWatch => "■  Stop Watch".to_string(),
            DaemonRequest::StartWatch { .. } => "▶  Start Watch".to_string(),
            DaemonRequest::StartContainer => "▶  Start Container".to_string(),
            _ => "■  Stop Container".to_string(),
        }
    }

    /// Milliseconds after which the panel is drawn again by itself: only while a
    /// watcher runs.
    pub fn repaint_after(&self) -> (r: Option<u64>)
        ensures
            r == (if self@.status.watch_running {
                Some(500u64)
            } else {
                None
            }),
    {
        if self.status.watch_running {
            Some(500)
        } else {
            None
        }
    }
}

/// An entry of the tray menu, a click on the tray icon, or the close button of
/// the window.
#[derive(Debug, Clone, Copy, PartialEq, Eq, Structural)]
pub enum WindowEvent {
    CloseButton,
    /// A left click on the tray icon.
    TrayClick,
    MenuPush,
    MenuPull,
    MenuWatch,
    MenuShowHide,
    MenuQuit,
}

/// What to do about it.
#[derive(Debug)]
pub enum WindowAction {
    /// Keep the window from being closed, and hide it.
    HideInstead,
    /// Show or hide the window.
    SetVisible(bool),
    /// Ask something of the daemon.
    Send(DaemonRequest),
    /// Close the window.
    Close,
}

/// Whether the window is shown after an event: the close button hides it, a click
/// on the icon and the menu entry for it toggle it.
pub open spec fn visible_after(visible: bool, event: WindowEvent) -> bool {
    match event {
        WindowEvent::CloseButton => false,
        WindowEvent::TrayClick | WindowEvent::MenuShowHide => !visible,
        _ => visible,
    }
}

/// What to do about an event.
pub open spec fn window_action(visible: bool, event: WindowEvent, status: StatusView) -> WindowAction {
    match event {
        WindowEvent::CloseButton => WindowAction::HideInstead,
        WindowEvent::TrayClick | WindowEvent::MenuShowHide => WindowAction::SetVisible(!visible),
        WindowEvent::MenuPush => WindowAction::Send(requested(Control::PushNow, status)),
        WindowEvent::MenuPull => WindowAction::Send(requested(Control::PullNow, status)),
        WindowEvent::MenuWatch => WindowAction::Send(requested(Control::ToggleWatch, status)),
        WindowEvent::MenuQuit => WindowAction::Close,
    }
}

impl GuiState {
    /// Takes an event of the window or the tray.  `visible` says whether the window
    /// is shown.
    pub fn on_window(&self, visible: &mut bool, event: WindowEvent) -> (r: WindowAction)
        ensures
            *final(visible) == visible_after(*old(visible), event),
            r == window_action(*old(visible), event, self@.status),
    {
        match event {
            WindowEvent::CloseButton => {
                *visible = false;
                WindowAction::HideInstead
            },
            WindowEvent::TrayClick | WindowEvent::MenuShowHide => {
                *visible = !*visible;
                WindowAction::SetVisible(*visible)
            },
            WindowEvent::MenuPush => WindowAction::Send(self.request(Control::PushNow)),
            WindowEvent::MenuPull => WindowAction::Send(self.request(Control::PullNow)),
            WindowEvent::MenuWatch => WindowAction::Send(self.request(Control::ToggleWatch)),
            WindowEvent::MenuQuit => WindowAction::Close,
        }
    }
}

// ── Tray icon ────────────────────────────────────────────────────────────────

/// The width and height of the tray icon.
pub const ICON_SIZE: u32 = 32;

/// The colour of the tray icon: green while the daemon is connected, else gray.
pub fn icon_colour(connected: bool) -> (r: (u8, u8, u8, u8))
    ensures
        r == (if connected {
            (52u8, 199u8, 89u8, 255u8)
        } else {
            (160u8, 160u8, 160u8, 255u8)
        }),
{
    if connected {
        (52, 199, 89, 255)
    } else {
        (160, 160, 160, 255)
    }
}

/// Whether the pixel in column `x` and row `y` lies on the disc of the icon.
pub open spec fn on_disc(x: int, y: int) -> bool {
    (x - 16) * (x - 16) + (y - 16) * (y - 16) <= 15 * 15
}

/// The four bytes of a pixel of the icon.
pub open spec fn pixel(x: int, y: int, colour: (u8, u8, u8, u8)) -> Seq<u8> {
    if on_disc(x, y) {
        seq![colour.0, colour.1, colour.2, colour.3]
    } else {
        seq![0u8, 0u8, 0u8, 0u8]
    }
}

fn is_on_disc(x: u32, y: u32) -> (r: bool)
    requires
        x < ICON_SIZE,
        y < ICON_SIZE,
    ensures
        r == on_disc(x as int, y as int),
{
    let dx: i32 = x as i32 - 16;
    let dy: i32 = y as i32 - 16;
    assert(0 <= dx * dx <= 256) by (nonlinear_arith)
        requires
            -16 <= dx <= 16,
    ;
    assert(0 <= dy * dy <= 256) by (nonlinear_arith)
        requires
            -16 <= dy <= 16,
    ;
    dx * dx + dy * dy <= 225
}

/// The icon, a disc on a transparent ground: four bytes for each pixel, row by
/// row.
pub fn build_icon(colour: (u8, u8, u8, u8)) -> (r: Vec<u8>)
    ensures
        r@.len() == 4096,
        forall|x: int, y: int|
            0 <= x < 32 && 0 <= y < 32 ==> r@.subrange(4 * (32 * y + x), 4 * (32 * y + x) + 4) == #[trigger] pixel(
                x,
                y,
                colour,
            ),
{
    let mut out: Vec<u8> = Vec::new();
    let mut n: u32 = 0;
    while n < 1024
        invariant
            n <= 1024,
            out@.len() == 4 * n,
            forall|k: int|
                0 <= k < n ==> out@.subrange(4 * k, 4 * k + 4) == #[trigger] pixel(k % 32, k / 32, colour),
        decreases 1024 - n,
    {
        let ghost before = out@;
        if is_on_disc(n % 32, n / 32) {
            out.push(colour.0);
            out.push(colour.1);
            out.push(colour.2);
            out.push(colour.3);
        } else {
            out.push(0);
            out.push(0);
            out.push(0);
            out.push(0);
        }
        assert forall|k: int| 0 <= k < n + 1 implies out@.subrange(4 * k, 4 * k + 4) == #[trigger] pixel(
            k % 32,
            k / 32,
            colour,
        ) by {
            if k < n {
                assert(out@.subrange(4 * k, 4 * k + 4) =~= before.subrange(4 * k, 4 * k + 4));
            } else {
                assert(out@.subrange(4 * k, 4 * k + 4) =~= pixel(k % 32, k / 32, colour));
            }
        }
        n += 1;
    }
    assert forall|x: int, y: int| 0 <= x < 32 && 0 <= y < 32 implies out@.subrange(
        4 * (32 * y + x),
        4 * (32 * y + x) + 4,
    ) == #[trigger] pixel(x, y, colour) by {
        let k = 32 * y + x;
        assert(k % 32 == x && k / 32 == y);
        assert(pixel(k % 32, k / 32, colour) == pixel(x, y, colour));
    }
    out
}

// ── Laws ─────────────────────────────────────────────────────────────────────

/// The log never grows beyond its limit, and the newest entry comes first.
pub proof fn law_log_is_bounded(g: GuiView, event: LinkEvent, secs: u64)
    requires
        g.log.len() <= MAX_LOG,
    ensures
        g.after_link(event, secs).log.len() <= MAX_LOG,
        event matches LinkEvent::Line(Some(e)) ==> (e@ is Status || g.after_link(event, secs).log[0].time
            == number::clock(secs as int)),
{
}

/// Older entries keep their order; only the oldest one is ever dropped.
pub proof fn law_older_entries_stay(log: Seq<LogEntryView>, e: LogEntryView, i: int)
    requires
        log.len() <= MAX_LOG,
        0 <= i < log.len(),
        i < MAX_LOG - 1,
    ensures
        logged(log, e).len() > i + 1,
        logged(log, e)[i + 1] == log[i],
{
}

/// Every connection begins with a subscription, and nothing else is sent because
/// of what comes over it.
pub proof fn law_connections_begin_with_a_subscription(event: LinkEvent)
    ensures
        link_action(event).send == (if event is Connected {
            Some(DaemonRequest::Subscribe)
        } else {
            None
        }),
{
}

/// The panel says that it is connected exactly from the moment the daemon is
/// reached until the connection is refused or closed, or the daemon says that it
/// shuts down.
pub proof fn law_connection_is_shown(g: GuiView, event: LinkEvent, secs: u64)
    ensures
        g.after_link(event, secs).connected == (match event {
            LinkEvent::Connected => true,
            LinkEvent::Refused | LinkEvent::Closed => false,
            LinkEvent::Line(Some(DaemonEvent::Shutdown)) => false,
            _ => g.connected,
        }),
{
}

/// Closing the window only hides it, and hiding it and showing it again leaves it
/// as it was.
pub proof fn law_closing_hides(visible: bool, status: StatusView)
    ensures
        window_action(visible, WindowEvent::CloseButton, status) is HideInstead,
        !visible_after(visible, WindowEvent::CloseButton),
        visible_after(visible_after(visible, WindowEvent::TrayClick), WindowEvent::TrayClick) == visible,
{
}

/// The control for the watcher starts it when it is stopped, and stops it when it
/// runs.
pub proof fn law_watch_control_toggles(status: StatusView)
    ensures
        requested(Control::ToggleWatch, status) is StopWatch <==> status.watch_running,
        requested(Control::ToggleWatch, status) is StartWatch <==> !status.watch_running,
{
}

} // verus!
