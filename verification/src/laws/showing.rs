//! Laws on what is shown: reports, the panel, its window and its icon.

use vstd::prelude::*;
use vstd::string::*;
use crate::config::ConfigView;
use crate::error::Error;
use crate::gui;
use crate::gui::{Colour, Control, GuiState, GuiView, Label, LabelView, LinkEvent, LogEntry, LogEntryView, WindowAction, WindowEvent};
use crate::ipc::{DaemonEvent, DaemonRequest, EventView, StatusView, SyncDir, WatchDir};
use crate::number;
use crate::path;
use crate::proxmox::lxc::ContainerStatusView;
use crate::report;
use crate::text;

verus! {

// ── Reports ──────────────────────────────────────────────────────────────────

/// Every line is indented, and none is left out.
pub proof fn law_every_line_is_indented(lines: Seq<Seq<char>>, p: Seq<char>, i: int)
    ensures
        report::indented(lines, p).len() == lines.len(),
        0 <= i < lines.len() ==> report::indented(lines, p)[i] == p + lines[i],
{
}

/// The report of a container says what state it is in and which address it has.
pub proof fn law_containers_are_reported(word: Seq<char>, ip: String, e: Error)
    ensures
        report::state_line(ContainerStatusView::Running) == "Status       : running ✓"@,
        report::state_line(ContainerStatusView::Stopped) == "Status       : stopped"@,
        report::state_line(ContainerStatusView::Unknown(word)) == "Status       : unknown"@,
        report::address_line(Ok(Some(ip))) == "LAN IP       : "@ + ip@,
        report::address_line(Ok(None)) == "LAN IP       : (not yet assigned)"@,
        report::address_line(Err(e)) == "LAN IP       : error ("@ + e@.text() + ")"@,
{
}

/// The summary says what is configured of Tailscale, and then names every path with
/// its place in the container, in order.
pub proof fn law_the_summary_names_every_path(cfg: ConfigView, i: int)
    ensures
        ({
            let all = report::summary(cfg);
            let first: int = match cfg.tailscale {
                Some(_) => 4,
                None => 3,
            };
            let sp = cfg.sync.paths[i];
            &&& all.len() == first + cfg.sync.paths.len()
            &&& all[first - 2].len() == 0
            &&& all[first - 1] == "Sync paths:"@
            &&& 0 <= i < cfg.sync.paths.len() ==> all[first + i] == "  "@ + sp.local + " → /profiles/<user>/"@ + sp.remote
            &&& cfg.tailscale matches Some(ts) ==> {
                &&& all[0] == "Tailscale IP : "@ + (match ts.container_ts_ip {
                    Some(ip) => ip,
                    None => "(not yet detected)"@,
                })
                &&& all[1] == "TS preferred : "@ + (if ts.prefer_tailscale_ip {
                    "true"@
                } else {
                    "false"@
                })
            }
            &&& cfg.tailscale is None ==> all[0]
                == "Tailscale    : disabled (add [tailscale] section to config to enable)"@
        }),
{
}

/// A path whose transfer has nothing to say is reported as the same; any other as
/// different, with every line of what was said.
pub proof fn law_differences_are_reported(
    local: Seq<char>,
    output: Seq<char>,
    same: Seq<char>,
    differs: Seq<char>,
    i: int,
)
    ensures
        ({
            let all = report::changes(local, output, same, differs);
            let said = text::lines_of(output);
            &&& text::trimmed(output).len() == 0 ==> all == seq!["  "@ + local + same]
            &&& text::trimmed(output).len() > 0 ==> all.len() == 1 + said.len() && all[0] == "  "@ + local + differs
                && (0 <= i < said.len() ==> all[1 + i] == "    "@ + said[i])
        }),
{
}

/// What lies below a root is named from there; anything else by its whole path.
pub proof fn law_paths_are_named_from_the_root(p: Seq<char>, root: Seq<char>, below: Seq<Seq<char>>)
    ensures
        below.len() > 0 && path::components(p) == path::components(root) + below ==> report::relative(p, root)
            == text::joined(below, "/"@),
        !path::is_under(p, root) || path::components(p) == path::components(root) ==> report::relative(p, root) == p,
{
    if below.len() > 0 && path::components(p) == path::components(root) + below {
        let n = path::components(root).len() as int;
        assert((path::components(root) + below).skip(n) =~= below);
        assert((path::components(root) + below).take(n) =~= path::components(root));
        assert(path::components(root).is_prefix_of(path::components(p)));
    }
}

/// What was found below a path is reported file by file, between a warning and the
/// advice; where nothing was found, nothing is said.
pub proof fn law_findings_are_reported(local: Seq<char>, root: Seq<char>, found: Seq<Seq<char>>, i: int)
    ensures
        ({
            let all = report::flagged(local, root, found);
            &&& found.len() == 0 ==> all.len() == 0
            &&& found.len() > 0 ==> {
                &&& all.len() == found.len() + 3
                &&& all[0] == "⚠  Machine-specific content in '"@ + local + "':"@
                &&& 0 <= i < found.len() ==> all[1 + i] == "     "@ + report::relative(found[i], root)
                &&& all[1int + found.len()] == "   → Add these to "@ + local
                    + "/.syncignore to suppress this warning."@
                &&& all[2int + found.len()].len() == 0
            }
        }),
{
}

/// Something was found exactly if something was found below one of the paths.
pub proof fn law_any_finding_counts(found: Seq<Vec<String>>, i: int)
    ensures
        0 <= i < found.len() && found[i]@.len() > 0 ==> report::is_any_flagged(found),
        report::is_any_flagged(found) ==> exists|k: int| 0 <= k < found.len() && (#[trigger] found[k])@.len() > 0,
{
}

// ── The log of the panel ─────────────────────────────────────────────────────

/// Whatever is noted is the newest entry, with its time; of the older ones only the
/// last goes, and only when there are too many.
pub proof fn law_the_newest_entry_is_first(g: GuiView, msg: Seq<char>, ok: bool, secs: u64, i: int)
    ensures
        ({
            let after = g.noting(msg, ok, secs);
            &&& after.log[0].msg == msg && after.log[0].ok == ok && after.log[0].time == number::clock(secs as int)
            &&& after.log.len() > 0
            &&& g.log.len() < 200 ==> after.log.len() == g.log.len() + 1
            &&& g.log.len() == 200 ==> after.log.len() == 200
            &&& 0 <= i < g.log.len() && i + 1 < after.log.len() ==> after.log[i + 1] == g.log[i]
            &&& after.status == g.status && after.connected == g.connected && after.error == g.error
        }),
{
}

/// Every event is noted with its direction, its path and what went wrong, well or
/// badly; a status replaces the one before and is not noted.
pub proof fn law_events_are_noted(
    g: GuiView,
    direction: SyncDir,
    path: Seq<char>,
    error: Seq<char>,
    status: StatusView,
    secs: u64,
)
    ensures
        ({
            let word = if direction == SyncDir::Push {
                "Push"@
            } else {
                "Pull"@
            };
            let noted = |e: EventView, msg: Seq<char>, ok: bool|
                {
                    let after = g.after_event(e, secs);
                    &&& after.log == gui::logged(g.log, LogEntryView { time: number::clock(secs as int), msg, ok })
                    &&& after.status == g.status && after.error == g.error
                };
            &&& noted(EventView::SyncStarted { direction, path }, word + " started: "@ + path, true)
            &&& noted(EventView::SyncCompleted { direction, path }, word + " OK: "@ + path, true)
            &&& noted(
                EventView::SyncFailed { direction, path, error },
                word + " FAILED "@ + path + ": "@ + error,
                false,
            )
            &&& noted(EventView::Shutdown, "daemon shut down"@, false)
            &&& !g.after_event(EventView::Shutdown, secs).connected
            &&& g.after_event(EventView::SyncStarted { direction, path }, secs).connected == g.connected
            &&& g.after_event(EventView::SyncCompleted { direction, path }, secs).connected == g.connected
            &&& g.after_event(EventView::SyncFailed { direction, path, error }, secs).connected == g.connected
            &&& g.after_event(EventView::Status(status), secs) == GuiView { status, ..g }
        }),
{
}

/// The panel follows its connection: it says when the daemon cannot be reached, asks
/// for every event when it is, and tries again when it is gone.
pub proof fn law_the_panel_follows_its_connection(g: GuiView, e: DaemonEvent, secs: u64)
    ensures
        g.after_link(LinkEvent::Refused, secs) == (GuiView {
            connected: false,
            error: Some("daemon not running"@),
            ..g
        }),
        g.after_link(LinkEvent::Connected, secs) == (GuiView { connected: true, error: None, ..g }),
        g.after_link(LinkEvent::Closed, secs) == (GuiView { connected: false, ..g }),
        g.after_link(LinkEvent::Line(Some(e)), secs) == g.after_event(e@, secs),
        g.after_link(LinkEvent::Line(None), secs) == g,
        g.after_link(LinkEvent::Quiet, secs) == g,
        g.after_link(LinkEvent::NotSubscribed, secs) == g,
        gui::link_action(LinkEvent::Refused).reconnect == Some(3u64),
        gui::link_action(LinkEvent::NotSubscribed).reconnect == Some(0u64),
        gui::link_action(LinkEvent::Closed).reconnect == Some(2u64),
        forall|event: LinkEvent|
            {
                let action = #[trigger] gui::link_action(event);
                &&& action.send == (if event is Connected {
                    Some(DaemonRequest::Subscribe)
                } else {
                    None
                })
                &&& action.reconnect is Some <==> event is Refused || event is NotSubscribed || event is Closed
                &&& !action.repaint ==> g.after_link(event, secs) == g
                &&& action.repaint <==> event is Refused || event is Connected || event is Closed || (
                event matches LinkEvent::Line(Some(_)))
            },
{
}

// ── What the panel shows ─────────────────────────────────────────────────────

/// The panel shows whether it is connected, and the error if there is one.
pub proof fn law_the_connection_is_visible(g: GuiView, e: Seq<char>)
    ensures
        g.connected ==> g.daemon_label().text == "● connected"@ && g.daemon_label().colour == Colour::Green,
        !g.connected ==> g.daemon_label().text == "● not running"@ && g.daemon_label().colour == Colour::Red,
        g.error is None ==> g.error_label() is None,
        g.error == Some(e) ==> g.error_label() == Some(LabelView { text: "⚠ "@ + e, colour: Colour::Red }),
{
}

/// An entry of the log is shown with its time, in the colour of how it went.
pub proof fn law_entries_are_visible(e: LogEntryView)
    ensures
        gui::entry_label(e).text == e.time + " "@ + e.msg,
        e.ok ==> gui::entry_label(e).colour == Colour::LightGreen,
        !e.ok ==> gui::entry_label(e).colour == Colour::LightRed,
{
}

/// The state of the container is shown by its word; a state of any other word is
/// unknown.
pub proof fn law_the_container_is_visible(s: StatusView)
    ensures
        ({
            let label = gui::container_label(s);
            &&& s.container_status == "running"@ ==> label.text == "● running"@ && label.colour == Colour::Green
            &&& s.container_status == "stopped"@ ==> label.text == "● stopped"@ && label.colour == Colour::Red
            &&& s.container_status != "running"@ && s.container_status != "stopped"@ ==> label.text == "● unknown"@
                && label.colour == Colour::Yellow
        }),
{
    reveal_strlit("running");
    reveal_strlit("stopped");
    assert("running"@[0] == 'r' && "stopped"@[0] == 's');
}

/// The address that is shown is the Tailscale address, else that of the network at
/// home, else a dash.
pub proof fn law_the_address_is_visible(s: StatusView, ip: Seq<char>)
    ensures
        s.tailscale_ip == Some(ip) ==> gui::shown_ip(s) == ip,
        s.tailscale_ip is None && s.container_ip == Some(ip) ==> gui::shown_ip(s) == ip,
        s.tailscale_ip is None && s.container_ip is None ==> gui::shown_ip(s) == "—"@,
{
}

/// A watcher is shown with its direction, and the last sync with its time and how it
/// went.
pub proof fn law_watching_is_visible(s: StatusView, t: Seq<char>)
    ensures
        !s.watch_running ==> gui::watcher_label(s) == (LabelView { text: "○ stopped"@, colour: Colour::Gray }),
        s.watch_running ==> gui::watcher_label(s).colour == Colour::Green && gui::watcher_label(s).text
            == "● active ("@ + (match s.watch_direction {
            Some(WatchDir::Push) => "push"@,
            Some(WatchDir::Pull) => "pull"@,
            Some(WatchDir::Both) => "both"@,
            None => seq![],
        }) + ")"@,
        s.last_sync_time == Some(t) && s.last_sync_ok == Some(true) ==> gui::last_sync_label(s) == (LabelView {
            text: "✓ "@ + t,
            colour: Colour::Green,
        }),
        s.last_sync_time == Some(t) && s.last_sync_ok == Some(false) ==> gui::last_sync_label(s) == (LabelView {
            text: "✗ "@ + t,
            colour: Colour::Red,
        }),
        s.last_sync_time is None || s.last_sync_ok is None ==> gui::last_sync_label(s) == (LabelView {
            text: "—"@,
            colour: Colour::Plain,
        }),
{
}

/// Every control asks for what its caption says.
pub proof fn law_controls_do_what_they_say(s: StatusView)
    ensures
        gui::requested(Control::PushNow, s) == (DaemonRequest::SyncNow { direction: SyncDir::Push }),
        gui::requested(Control::PullNow, s) == (DaemonRequest::SyncNow { direction: SyncDir::Pull }),
        s.watch_running ==> gui::requested(Control::ToggleWatch, s) == DaemonRequest::StopWatch,
        !s.watch_running ==> gui::requested(Control::ToggleWatch, s) == (DaemonRequest::StartWatch {
            direction: WatchDir::Both,
            debounce_ms: 500,
            poll_secs: 30,
        }),
        s.container_status == "stopped"@ ==> gui::requested(Control::ToggleContainer, s)
            == DaemonRequest::StartContainer,
        s.container_status != "stopped"@ ==> gui::requested(Control::ToggleContainer, s) == DaemonRequest::StopContainer,
        forall|c: Control|
            match gui::requested(c, s) {
                DaemonRequest::SyncNow { direction: SyncDir::Push } => #[trigger] gui::caption(c, s) == "⬆  Push Now"@,
                DaemonRequest::SyncNow { direction: SyncDir::Pull } => gui::caption(c, s) == "⬇  Pull Now"@,
                DaemonRequest::StopWatch => gui::caption(c, s) == "■  Stop Watch"@,
                DaemonRequest::StartWatch { .. } => gui::caption(c, s) == "▶  Start Watch"@,
                DaemonRequest::StartContainer => gui::caption(c, s) == "▶  Start Container"@,
                DaemonRequest::StopContainer => gui::caption(c, s) == "■  Stop Container"@,
                _ => false,
            },
{
}

/// The window is hidden by its close button, shown and hidden in turn by the icon and
/// the menu, and left as it is by everything else.
pub proof fn law_the_window_is_shown_and_hidden(visible: bool, event: WindowEvent, s: StatusView)
    ensures
        ({
            let after = gui::visible_after(visible, event);
            &&& event is CloseButton ==> !after && gui::window_action(visible, event, s) == WindowAction::HideInstead
            &&& event is TrayClick || event is MenuShowHide ==> after == !visible && gui::window_action(
                visible,
                event,
                s,
            ) == WindowAction::SetVisible(after) && gui::visible_after(after, event) == visible
            &&& event is MenuPush || event is MenuPull || event is MenuWatch || event is MenuQuit ==> after == visible
        }),
{
}

/// The menu asks the daemon for the same as the controls; its last entry closes the
/// window.
pub proof fn law_the_menu_asks_for_the_same(visible: bool, s: StatusView)
    ensures
        gui::window_action(visible, WindowEvent::MenuPush, s) == WindowAction::Send(
            DaemonRequest::SyncNow { direction: SyncDir::Push },
        ),
        gui::window_action(visible, WindowEvent::MenuPull, s) == WindowAction::Send(
            DaemonRequest::SyncNow { direction: SyncDir::Pull },
        ),
        gui::window_action(visible, WindowEvent::MenuWatch, s) == WindowAction::Send(
            gui::requested(Control::ToggleWatch, s),
        ),
        gui::window_action(visible, WindowEvent::MenuQuit, s) == WindowAction::Close,
{
}

/// The icon is a disc about its middle: as many pixels to one side as to the other,
/// and none farther away than its radius.
pub proof fn law_the_icon_is_a_disc(dx: int, dy: int, colour: (u8, u8, u8, u8))
    ensures
        gui::on_disc(16 + dx, 16 + dy) <==> dx * dx + dy * dy <= 225,
        gui::on_disc(16 + dx, 16 + dy) ==> gui::pixel(16 + dx, 16 + dy, colour) == seq![
            colour.0,
            colour.1,
            colour.2,
            colour.3,
        ],
        !gui::on_disc(16 + dx, 16 + dy) ==> gui::pixel(16 + dx, 16 + dy, colour) == seq![0u8, 0u8, 0u8, 0u8],
{
    assert(16 + dx - 16 == dx && 16 + dy - 16 == dy);
}

/// What is shown is seen as it is.
pub proof fn law_the_panel_is_seen_whole(g: GuiState, l: Label, e: LogEntry, i: int)
    ensures
        g@.connected == g.connected && g@.status == g.status@ && g@.error == text::opt(g.error),
        g@.log.len() == g.log@.len(),
        0 <= i < g.log@.len() ==> g@.log[i] == g.log@[i]@,
        l@.text == l.text@ && l@.colour == l.colour,
        e@.time == e.time@ && e@.msg == e.msg@ && e@.ok == e.ok,
{
}

} // verus!
