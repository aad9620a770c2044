use dps::gui::{
    build_icon, icon_colour, Colour, Control, GuiState, LinkEvent, WindowAction, WindowEvent, ICON_SIZE, MAX_LOG,
};
use dps::ipc::{DaemonEvent, DaemonRequest, DaemonStatus, SyncDir, WatchDir};

#[test]
fn the_first_panel() {
    let g = GuiState::default();
    assert!(!g.connected && g.log.is_empty() && g.error.is_none());
    assert_eq!((g.daemon_label().text.as_str(), g.daemon_label().colour), ("● not running", Colour::Red));
    assert_eq!((g.container_label().text.as_str(), g.container_label().colour), ("● unknown", Colour::Yellow));
    assert_eq!(g.shown_ip(), "—");
    assert_eq!((g.watcher_label().text.as_str(), g.watcher_label().colour), ("○ stopped", Colour::Gray));
    assert_eq!((g.last_sync_label().text.as_str(), g.last_sync_label().colour), ("—", Colour::Plain));
    assert!(g.error_label().is_none());
    assert_eq!(g.repaint_after(), None);
}

#[test]
fn events_are_logged() {
    let mut g = GuiState::default();
    let path = || "~/.vim".to_string();
    g.handle_event(DaemonEvent::SyncStarted { direction: SyncDir::Push, path: path() }, 1);
    g.handle_event(DaemonEvent::SyncCompleted { direction: SyncDir::Pull, path: path() }, 2);
    g.handle_event(DaemonEvent::SyncFailed { direction: SyncDir::Push, path: path(), error: "no".to_string() }, 3);
    let labels: Vec<(String, Colour)> = g.log_labels().into_iter().map(|l| (l.text, l.colour)).collect();
    assert_eq!(
        labels,
        vec![
            ("00:00:03 Push FAILED ~/.vim: no".to_string(), Colour::LightRed),
            ("00:00:02 Pull OK: ~/.vim".to_string(), Colour::LightGreen),
            ("00:00:01 Push started: ~/.vim".to_string(), Colour::LightGreen),
        ]
    );
}

#[test]
fn the_log_is_bounded() {
    let mut g = GuiState::default();
    for i in 0..MAX_LOG + 5 {
        g.push_log(format!("{}", i), true, 0);
    }
    assert_eq!(g.log.len(), MAX_LOG);
    assert_eq!(g.log[0].msg, format!("{}", MAX_LOG + 4));
    assert_eq!(g.log[MAX_LOG - 1].msg, "5");
}

#[test]
fn a_status_is_shown() {
    let mut g = GuiState::default();
    let mut s = DaemonStatus::default();
    s.container_status = "running".to_string();
    s.container_ip = Some("10.0.0.5".to_string());
    s.watch_running = true;
    s.watch_direction = Some(WatchDir::Both);
    s.last_sync_time = Some("12:00:00".to_string());
    s.last_sync_ok = Some(true);
    g.handle_event(DaemonEvent::Status(s.clone()), 0);
    assert!(g.log.is_empty());
    assert_eq!((g.container_label().text.as_str(), g.container_label().colour), ("● running", Colour::Green));
    assert_eq!(g.shown_ip(), "10.0.0.5");
    assert_eq!(g.watcher_label().text, "● active (both)");
    assert_eq!((g.last_sync_label().text.as_str(), g.last_sync_label().colour), ("✓ 12:00:00", Colour::Green));
    assert_eq!(g.repaint_after(), Some(500));
    s.tailscale_ip = Some("100.64.0.7".to_string());
    s.last_sync_ok = Some(false);
    s.container_status = "stopped".to_string();
    s.watch_direction = None;
    g.handle_event(DaemonEvent::Status(s), 0);
    assert_eq!(g.shown_ip(), "100.64.0.7");
    assert_eq!((g.last_sync_label().text.as_str(), g.last_sync_label().colour), ("✗ 12:00:00", Colour::Red));
    assert_eq!((g.container_label().text.as_str(), g.container_label().colour), ("● stopped", Colour::Red));
    assert_eq!(g.watcher_label().text, "● active ()");
}

#[test]
fn the_connection_is_followed() {
    let mut g = GuiState::default();
    let a = g.on_link(LinkEvent::Refused, 0);
    assert_eq!((a.repaint, a.reconnect, g.connected), (true, Some(3), false));
    assert_eq!(a.send, None);
    assert_eq!(g.error_label().unwrap().text, "⚠ daemon not running");
    let a = g.on_link(LinkEvent::Connected, 0);
    assert_eq!((a.repaint, a.reconnect, g.connected), (true, None, true));
    assert_eq!(a.send, Some(DaemonRequest::Subscribe));
    assert!(g.error.is_none());
    assert_eq!((g.daemon_label().text.as_str(), g.daemon_label().colour), ("● connected", Colour::Green));
    let a = g.on_link(LinkEvent::NotSubscribed, 0);
    assert_eq!((a.repaint, a.reconnect, g.connected), (false, Some(0), true));
    let a = g.on_link(LinkEvent::Line(None), 0);
    assert_eq!((a.repaint, a.reconnect), (false, None));
    let a = g.on_link(LinkEvent::Quiet, 0);
    assert_eq!((a.repaint, a.reconnect, a.send), (false, None, None));
    let a = g.on_link(LinkEvent::Line(Some(DaemonEvent::Shutdown)), 5);
    assert_eq!((a.repaint, a.reconnect, g.connected), (true, None, false));
    assert_eq!((g.log[0].msg.as_str(), g.log[0].ok), ("daemon shut down", false));
    g.on_link(LinkEvent::Connected, 6);
    let a = g.on_link(LinkEvent::Closed, 7);
    assert_eq!((a.repaint, a.reconnect, g.connected), (true, Some(2), false));
}

#[test]
fn controls_ask_for_what_they_say() {
    let mut g = GuiState::default();
    assert!(matches!(g.request(Control::PushNow), DaemonRequest::SyncNow { direction: SyncDir::Push }));
    assert!(matches!(g.request(Control::PullNow), DaemonRequest::SyncNow { direction: SyncDir::Pull }));
    assert!(matches!(g.request(Control::ToggleWatch),
        DaemonRequest::StartWatch { direction: WatchDir::Both, debounce_ms: 500, poll_secs: 30 }));
    assert!(matches!(g.request(Control::ToggleContainer), DaemonRequest::StopContainer));
    assert_eq!(g.caption(Control::PushNow), "⬆  Push Now");
    assert_eq!(g.caption(Control::PullNow), "⬇  Pull Now");
    assert_eq!(g.caption(Control::ToggleWatch), "▶  Start Watch");
    assert_eq!(g.caption(Control::ToggleContainer), "■  Stop Container");
    g.status.watch_running = true;
    g.status.container_status = "stopped".to_string();
    assert!(matches!(g.request(Control::ToggleWatch), DaemonRequest::StopWatch));
    assert!(matches!(g.request(Control::ToggleContainer), DaemonRequest::StartContainer));
    assert_eq!(g.caption(Control::ToggleWatch), "■  Stop Watch");
    assert_eq!(g.caption(Control::ToggleContainer), "▶  Start Container");
}

#[test]
fn the_window_hides_in_the_tray() {
    let g = GuiState::default();
    let mut visible = true;
    assert!(matches!(g.on_window(&mut visible, WindowEvent::CloseButton), WindowAction::HideInstead));
    assert!(!visible);
    assert!(matches!(g.on_window(&mut visible, WindowEvent::TrayClick), WindowAction::SetVisible(true)));
    assert!(visible);
    assert!(matches!(g.on_window(&mut visible, WindowEvent::MenuShowHide), WindowAction::SetVisible(false)));
    assert!(matches!(g.on_window(&mut visible, WindowEvent::MenuPush), WindowAction::Send(DaemonRequest::SyncNow { .. })));
    assert!(matches!(g.on_window(&mut visible, WindowEvent::MenuPull),
        WindowAction::Send(DaemonRequest::SyncNow { direction: SyncDir::Pull })));
    assert!(matches!(g.on_window(&mut visible, WindowEvent::MenuWatch), WindowAction::Send(DaemonRequest::StartWatch { .. })));
    assert!(matches!(g.on_window(&mut visible, WindowEvent::MenuQuit), WindowAction::Close));
    assert!(!visible);
}

#[test]
fn the_icon_is_a_disc() {
    let icon = build_icon(icon_colour(true));
    assert_eq!(icon.len(), (ICON_SIZE * ICON_SIZE * 4) as usize);
    for y in 0..32u32 {
        for x in 0..32u32 {
            let (dx, dy) = (x as f32 - 16.0, y as f32 - 16.0);
            let inside = dx * dx + dy * dy <= 15.0 * 15.0;
            let i = ((y * 32 + x) * 4) as usize;
            let expected: [u8; 4] = if inside { [52, 199, 89, 255] } else { [0, 0, 0, 0] };
            assert_eq!(icon[i..i + 4], expected);
        }
    }
    assert_ne!(icon_colour(false), icon_colour(true));
}
