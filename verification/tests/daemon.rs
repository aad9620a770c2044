use dps::config::{
    AuthConfig, Config, ContainerConfig, DaemonConfig, NetworkConfig, ProxmoxConfig, SyncConfig, SyncPath,
    TailscaleConfig,
};
use dps::daemon;
use dps::daemon::{Action, DaemonState, Input, SyncJob};
use dps::error::Error;
use dps::ipc::{DaemonEvent, DaemonRequest, DaemonResponse, SyncDir, WatchDir};
use dps::proxmox::lxc::ContainerStatus;
use dps::sync::profile::Syncer;

fn config(ip: Option<&str>) -> Config {
    Config {
        proxmox: ProxmoxConfig {
            host: "h".to_string(),
            port: 8006,
            node: "pve".to_string(),
            auth: AuthConfig::Token { user: "u".to_string(), token_name: "n".to_string(), token_value: "v".to_string() },
            verify_ssl: false,
        },
        container: ContainerConfig {
            vmid: 200,
            hostname: "dps-sync".to_string(),
            template: "t".to_string(),
            storage: "s".to_string(),
            disk_size: "8G".to_string(),
            memory: 512,
            cores: 1,
            root_password: "pw".to_string(),
            network: NetworkConfig { bridge: "vmbr0".to_string(), ip: "dhcp".to_string(), gateway: None },
        },
        sync: SyncConfig {
            container_user: "root".to_string(),
            ssh_port: 22,
            container_ip: ip.map(String::from),
            ssh_public_key_file: None,
            ssh_identity_file: None,
            paths: vec![],
            exclude_patterns: vec![],
            machine_specific_patterns: vec![],
        },
        tailscale: None,
        daemon: None,
    }
}

fn state(ip: Option<&str>) -> DaemonState {
    daemon::initial_state(&config(ip), 42, &Ok(ContainerStatus::Running))
}

fn show(actions: &[Action]) -> Vec<String> {
    actions
        .iter()
        .map(|a| match a {
            Action::Respond(DaemonResponse::Done) => "done".to_string(),
            Action::Respond(DaemonResponse::Error { message }) => format!("error {}", message),
            Action::Respond(DaemonResponse::Status(s)) => format!("status {}", s.container_status),
            Action::Send(DaemonEvent::Status(s)) => format!("send status {}", s.container_status),
            Action::Send(e) => format!("send {:?}", e),
            Action::Subscribe => "subscribe".to_string(),
            Action::Broadcast(DaemonEvent::Status(s)) => format!("tell {:?}", s.watch_direction),
            Action::Broadcast(DaemonEvent::Shutdown) => "tell shutdown".to_string(),
            Action::Broadcast(e) => format!("tell {:?}", e),
            Action::Sync(d) => format!("sync {:?}", d),
            Action::AbortPush => "abort push".to_string(),
            Action::AbortPull => "abort pull".to_string(),
            Action::SpawnPush { debounce_ms } => format!("spawn push {}", debounce_ms),
            Action::SpawnPull { poll_secs } => format!("spawn pull {}", poll_secs),
            Action::StartContainer => "start container".to_string(),
            Action::StopContainer => "stop container".to_string(),
            Action::Exit => "exit".to_string(),
        })
        .collect()
}

#[test]
fn first_state() {
    let s = state(Some("10.0.0.5"));
    assert_eq!(s.status.daemon_pid, 42);
    assert_eq!(s.status.container_status, "running");
    assert_eq!(s.status.container_ip, Some("10.0.0.5".to_string()));
    assert!(s.can_sync && !s.has_push && !s.has_pull && !s.status.watch_running);
    let s = daemon::initial_state(&config(None), 1, &Err(Error::NoContainerIp));
    assert_eq!(s.status.container_status, "");
    assert!(!s.can_sync);
}

#[test]
fn the_preferred_tailscale_address_is_used() {
    let mut cfg = config(Some("10.0.0.5"));
    cfg.tailscale = Some(TailscaleConfig {
        auth_key: "k".to_string(),
        hostname: None,
        tags: vec![],
        prefer_tailscale_ip: true,
        container_ts_ip: Some("100.64.0.7".to_string()),
    });
    let s = daemon::initial_state(&cfg, 1, &Ok(ContainerStatus::Stopped));
    assert_eq!(s.status.container_ip, Some("100.64.0.7".to_string()));
}

#[test]
fn subscribers_get_the_status_at_once() {
    let mut s = state(Some("10.0.0.5"));
    assert_eq!(show(&s.on_request(&DaemonRequest::Subscribe, true)), ["subscribe", "send status running"]);
    assert_eq!(show(&s.on_request(&DaemonRequest::GetStatus, true)), ["status running"]);
}

#[test]
fn a_watcher_is_started_replaced_and_stopped() {
    let mut s = state(Some("10.0.0.5"));
    let start = DaemonRequest::StartWatch { direction: WatchDir::Both, debounce_ms: 500, poll_secs: 30 };
    assert_eq!(show(&s.on_request(&start, true)), ["spawn push 500", "spawn pull 30", "tell Some(Both)", "done"]);
    assert!(s.status.watch_running && s.has_push && s.has_pull);
    let start = DaemonRequest::StartWatch { direction: WatchDir::Pull, debounce_ms: 1, poll_secs: 5 };
    assert_eq!(
        show(&s.on_request(&start, true)),
        ["abort push", "abort pull", "tell None", "spawn pull 5", "tell Some(Pull)", "done"]
    );
    assert!(!s.has_push && s.has_pull);
    assert_eq!(s.status.watch_direction, Some(WatchDir::Pull));
    assert_eq!(show(&s.on_request(&DaemonRequest::StopWatch, true)), ["abort pull", "tell None", "done"]);
    assert!(!s.status.watch_running && !s.has_push && !s.has_pull);
    assert_eq!(show(&s.on_request(&DaemonRequest::StopWatch, true)), ["done"]);
}

#[test]
fn stopping_twice_does_nothing_more() {
    let mut s = state(Some("10.0.0.5"));
    s.start_watch(WatchDir::Push, 1, 1);
    assert_eq!(show(&s.stop_watch()), ["abort push", "tell None"]);
    assert_eq!(show(&s.stop_watch()), Vec::<String>::new());
}

#[test]
fn nothing_is_synced_without_an_address() {
    let mut s = state(None);
    let sync = DaemonRequest::SyncNow { direction: SyncDir::Push };
    assert_eq!(show(&s.on_request(&sync, true)), ["error container IP not known — run `dps setup` first"]);
    let start = DaemonRequest::StartWatch { direction: WatchDir::Both, debounce_ms: 1, poll_secs: 1 };
    assert_eq!(show(&s.on_request(&start, true)), ["error no syncer available"]);
    assert!(!s.status.watch_running);
    let mut s = state(Some("10.0.0.5"));
    assert_eq!(show(&s.on_request(&sync, true)), ["sync Push", "done"]);
}

#[test]
fn container_requests_need_proxmox() {
    let mut s = state(None);
    assert_eq!(show(&s.on_request(&DaemonRequest::StartContainer, true)), ["start container"]);
    assert_eq!(show(&s.on_request(&DaemonRequest::StopContainer, true)), ["stop container"]);
    assert_eq!(show(&s.on_request(&DaemonRequest::StartContainer, false)), ["error Proxmox client unavailable"]);
    assert_eq!(show(&s.on_request(&DaemonRequest::StopContainer, false)), ["error Proxmox client unavailable"]);
    assert!(matches!(daemon::container_reply(&Ok("UPID".to_string())), DaemonResponse::Done));
    match daemon::container_reply(&Err(Error::ContainerNotFound(200))) {
        DaemonResponse::Error { message } => assert_eq!(message, "container 200 not found"),
        other => panic!("unexpected {:?}", other),
    }
}

#[test]
fn shutting_down() {
    let mut s = state(None);
    assert_eq!(show(&s.on_request(&DaemonRequest::Shutdown, true)), ["tell shutdown", "done", "exit"]);
    assert_eq!(show(&daemon::terminate()), ["tell shutdown", "exit"]);
}

#[test]
fn connections_stay_open_until_they_end() {
    let mut s = state(None);
    let (a, open) = daemon::handle_client(&mut s, Input::Line(Ok(DaemonRequest::GetStatus)), true);
    assert_eq!((show(&a), open), (vec!["status running".to_string()], true));
    let (a, open) = daemon::handle_client(&mut s, Input::Line(Err("bad line".to_string())), true);
    assert_eq!((show(&a), open), (vec!["error bad line".to_string()], true));
    let event = DaemonEvent::SyncStarted { direction: SyncDir::Push, path: "~/a".to_string() };
    let (a, open) = daemon::handle_client(&mut s, Input::Event(event), true);
    assert!(matches!(&a[0], Action::Send(DaemonEvent::SyncStarted { .. })) && open);
    let (a, open) = daemon::handle_client(&mut s, Input::Event(DaemonEvent::Shutdown), true);
    assert!(matches!(&a[0], Action::Send(DaemonEvent::Shutdown)) && !open);
    let (a, open) = daemon::handle_client(&mut s, Input::Lagged, true);
    assert!(a.is_empty() && open);
    let (a, open) = daemon::handle_client(&mut s, Input::Closed, true);
    assert!(a.is_empty() && !open);
}

#[test]
fn syncs_are_reported() {
    let sp = SyncPath { local: "~/a".to_string(), remote: "a".to_string(), delete: false };
    assert!(matches!(daemon::sync_started(SyncDir::Pull, &sp),
        DaemonEvent::SyncStarted { direction: SyncDir::Pull, path } if path == "~/a"));
    assert!(matches!(daemon::sync_finished(SyncDir::Push, &sp, &Ok(())),
        DaemonEvent::SyncCompleted { direction: SyncDir::Push, path } if path == "~/a"));
    assert!(matches!(daemon::sync_finished(SyncDir::Push, &sp, &Err(Error::SyncCommand(23))),
        DaemonEvent::SyncFailed { error, .. } if error == "sync failed: command exited with status 23"));
    let mut s = state(None);
    let told = s.stamp_sync(true, 3_661);
    assert_eq!(s.status.last_sync_time, Some("01:01:01".to_string()));
    assert_eq!(s.status.last_sync_ok, Some(true));
    assert!(matches!(told, Action::Broadcast(DaemonEvent::Status(st)) if st.last_sync_time == Some("01:01:01".to_string())));
}

#[test]
fn a_sync_takes_every_path_and_is_stamped() {
    let path = |local: &str| SyncPath { local: local.to_string(), remote: "r".to_string(), delete: false };
    let mut cfg = config(Some("10.0.0.5"));
    cfg.sync.paths = vec![path("~/a"), path("~/b")];
    let syncer = Syncer::new(cfg.sync.clone(), "10.0.0.5".to_string(), "ann".to_string());
    let mut s = state(Some("10.0.0.5"));
    let mut job = SyncJob::new(SyncDir::Push, &syncer);
    let mut told = Vec::new();
    let (a, next) = s.next_path(&mut job, None, 1);
    told.extend(a);
    assert_eq!(next.unwrap().local, "~/a");
    let (a, next) = s.next_path(&mut job, Some(Err(Error::SyncCommand(23))), 2);
    told.extend(a);
    assert_eq!(next.unwrap().local, "~/b");
    assert_eq!(s.status.last_sync_time, None);
    let (a, next) = s.next_path(&mut job, Some(Ok(())), 3_661);
    told.extend(a);
    assert!(next.is_none());
    let told: Vec<String> = told
        .iter()
        .map(|a| match a {
            Action::Broadcast(DaemonEvent::SyncStarted { direction: SyncDir::Push, path }) => format!("begin {path}"),
            Action::Broadcast(DaemonEvent::SyncCompleted { direction: SyncDir::Push, path }) => format!("end {path}"),
            Action::Broadcast(DaemonEvent::SyncFailed { direction: SyncDir::Push, path, error }) => {
                format!("{path}: {error}")
            },
            Action::Broadcast(DaemonEvent::Status(st)) => format!("{:?} {:?}", st.last_sync_time, st.last_sync_ok),
            other => panic!("unexpected {:?}", other),
        })
        .collect();
    assert_eq!(
        told,
        [
            "begin ~/a",
            "~/a: sync failed: command exited with status 23",
            "begin ~/b",
            "end ~/b",
            "Some(\"01:01:01\") Some(true)",
        ]
    );
    assert_eq!(s.status.last_sync_time, Some("01:01:01".to_string()));
}

fn daemon_config() -> DaemonConfig {
    DaemonConfig {
        auto_start_container: true,
        auto_watch: true,
        watch_direction: "pull".to_string(),
        debounce_ms: 7,
        poll_secs: 9,
        sync_user: None,
    }
}

#[test]
fn start_up_decisions() {
    let mut cfg = config(Some("10.0.0.5"));
    assert!(!daemon::auto_start(&cfg));
    assert_eq!(daemon::auto_watch(&cfg, true), None);
    assert_eq!(daemon::username(&cfg, Some("ann".to_string())), "ann");
    assert_eq!(daemon::username(&cfg, None), "root");
    cfg.daemon = Some(daemon_config());
    assert!(daemon::auto_start(&cfg));
    assert_eq!(daemon::auto_watch(&cfg, true), Some((WatchDir::Pull, 7, 9)));
    assert_eq!(daemon::auto_watch(&cfg, false), None);
    cfg.daemon = Some(DaemonConfig { watch_direction: "sideways".to_string(), ..daemon_config() });
    assert_eq!(daemon::auto_watch(&cfg, true), Some((WatchDir::Both, 7, 9)));
    cfg.daemon = Some(DaemonConfig { sync_user: Some("bob".to_string()), auto_watch: false, ..daemon_config() });
    assert_eq!(daemon::auto_watch(&cfg, true), None);
    assert_eq!(daemon::username(&cfg, Some("ann".to_string())), "bob");
    assert!(daemon::is_startable(&Ok(ContainerStatus::Stopped)));
    assert!(!daemon::is_startable(&Ok(ContainerStatus::Running)));
    assert!(!daemon::is_startable(&Err(Error::NoContainerIp)));
}
