use dps::ipc::{
    frame, parse_uid, socket_path, socket_path_in, DaemonEvent, DaemonRequest, DaemonResponse, DaemonStatus, SyncDir,
    WatchDir,
};
use dps::text;

#[test]
fn socket_in_the_runtime_directory() {
    assert_eq!(socket_path_in(Some("/run/user/1000"), None, Some("/home/u")), "/run/user/1000/dps.sock");
    assert_eq!(socket_path(Some("/run/user/7"), None), "/run/user/7/dps.sock");
}

#[test]
fn socket_by_user_id() {
    let status = "Name:\tx\nUmask:\t0022\nUid:\t1001\t1001\t1001\t1001\nGid:\t5\n";
    assert_eq!(socket_path_in(None, Some(status), Some("/home/u")), "/run/user/1001/dps.sock");
    assert_eq!(parse_uid(status), Some("1001".to_string()));
    assert_eq!(parse_uid("Name:\tx\n"), None);
    assert_eq!(parse_uid("Uid:\n"), None);
}

#[test]
fn socket_fallbacks() {
    assert_eq!(socket_path_in(None, None, Some("/home/u")), "/home/u/.local/share/dps/daemon.sock");
    assert_eq!(socket_path_in(None, Some("Name:\tx\n"), None), "/tmp/dps-daemon.sock");
    match dirs::home_dir() {
        Some(h) => assert_eq!(socket_path(None, None), h.join(".local/share/dps/daemon.sock").to_str().unwrap()),
        None => assert_eq!(socket_path(None, None), "/tmp/dps-daemon.sock"),
    }
}

#[test]
fn messages_are_read_back_line_by_line() {
    let messages = vec!["{\"type\":\"subscribe\"}".to_string(), "{}".to_string(), "{\"a\":\"b\\n\"}".to_string()];
    let mut stream = String::new();
    for m in &messages {
        stream.push_str(&frame(m.clone()));
    }
    assert_eq!(stream, "{\"type\":\"subscribe\"}\n{}\n{\"a\":\"b\\n\"}\n");
    assert_eq!(text::lines(&stream), messages);
}

#[test]
fn directions_have_names() {
    assert_eq!(WatchDir::Push.to_string(), "push");
    assert_eq!(WatchDir::Pull.to_string(), "pull");
    assert_eq!(WatchDir::Both.to_string(), "both");
    assert_eq!(SyncDir::Push.to_label(), "Push");
    assert_eq!(SyncDir::Pull.to_label(), "Pull");
}

#[test]
fn an_unknown_status_is_empty() {
    let s = DaemonStatus::default();
    assert_eq!(s.container_status, "");
    assert_eq!(s.container_ip, None);
    assert_eq!(s.tailscale_ip, None);
    assert!(!s.watch_running);
    assert_eq!(s.watch_direction, None);
    assert_eq!(s.last_sync_time, None);
    assert_eq!(s.last_sync_ok, None);
    assert_eq!(s.daemon_pid, 0);
}

#[test]
fn messages_are_copied_whole() {
    let mut s = DaemonStatus::default();
    s.container_ip = Some("10.0.0.5".to_string());
    s.watch_direction = Some(WatchDir::Pull);
    let e = DaemonEvent::Status(s.clone());
    assert_eq!(format!("{:?}", e.clone()), format!("{:?}", e));
    let r = DaemonResponse::Error { message: "m".to_string() };
    assert_eq!(format!("{:?}", r.clone()), format!("{:?}", r));
    let q = DaemonRequest::StartWatch { direction: WatchDir::Both, debounce_ms: 1, poll_secs: 2 };
    assert_eq!(format!("{:?}", q.clone()), format!("{:?}", q));
}
