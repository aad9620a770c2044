use dps::config::{SyncConfig, SyncPath};
use dps::error::Error;
use dps::sync::profile::Syncer;
use dps::sync::watcher::{
    both_results, find_owner, init_error, is_change, local_paths, local_paths_in, run_push_watcher, watch_error,
    watched_count, Debouncer, EventClass, PollStep, PullPoller, WatchDirection, WatchInput, WatchOutput,
};

fn strings(v: &[&str]) -> Vec<String> {
    v.iter().map(|s| s.to_string()).collect()
}

const MS: u64 = 1_000_000;

#[test]
fn directions_are_parsed() {
    assert_eq!(WatchDirection::parse("push").unwrap(), WatchDirection::Push);
    assert_eq!(WatchDirection::parse("pull").unwrap(), WatchDirection::Pull);
    assert_eq!(WatchDirection::parse("both").unwrap(), WatchDirection::Both);
    match WatchDirection::parse("Both") {
        Err(e) => {
            assert_eq!(e.to_string(), "configuration error: unknown direction 'Both' — use push, pull, or both")
        },
        Ok(d) => panic!("unexpected {:?}", d),
    }
}

#[test]
fn directions_say_what_they_do() {
    assert!(WatchDirection::Push.pushes() && !WatchDirection::Push.pulls());
    assert!(!WatchDirection::Pull.pushes() && WatchDirection::Pull.pulls());
    assert!(WatchDirection::Both.pushes() && WatchDirection::Both.pulls());
}

#[test]
fn the_push_failure_comes_first() {
    assert!(both_results(Ok(()), Ok(())).is_ok());
    let r = both_results(Err(Error::SyncCommand(1)), Err(Error::SyncCommand(2)));
    assert!(matches!(r, Err(Error::SyncCommand(1))));
    assert!(matches!(both_results(Ok(()), Err(Error::SyncCommand(2))), Err(Error::SyncCommand(2))));
}

#[test]
fn only_changes_matter() {
    assert!(is_change(EventClass::Create) && is_change(EventClass::Modify) && is_change(EventClass::Remove));
    assert!(!is_change(EventClass::Access) && !is_change(EventClass::Other));
}

#[test]
fn watched_paths() {
    let paths = vec![
        SyncPath { local: "~/a".to_string(), remote: "a".to_string(), delete: false },
        SyncPath { local: "/b".to_string(), remote: "b".to_string(), delete: false },
    ];
    assert_eq!(local_paths_in(&paths, Some("/home/ann")), strings(&["/home/ann/a", "/b"]));
    let home = dirs::home_dir().map(|h| h.to_str().unwrap().to_string());
    assert_eq!(local_paths(&paths), local_paths_in(&paths, home.as_deref()));
    assert_eq!(watched_count(&vec![true, false, true]), 2);
    assert_eq!(watched_count(&vec![false]), 0);
}

#[test]
fn the_deepest_path_owns_a_change() {
    let locals = strings(&["/home/u/.config", "/home/u/.config/nvim", "/home/u/.bashrc"]);
    assert_eq!(find_owner("/home/u/.config/nvim/init.vim", &locals), Some(1));
    assert_eq!(find_owner("/home/u/.config/x", &locals), Some(0));
    assert_eq!(find_owner("/home/u/.configx", &locals), None);
    // Of equally deep paths the last one counts.
    assert_eq!(find_owner("/a/b", &strings(&["/a", "/a/"])), Some(1));
}

#[test]
fn every_change_restarts_the_window() {
    let mut d = Debouncer::new(500);
    assert_eq!(d.next_deadline(), None);
    d.reset_deadline("/a".to_string(), 0);
    d.reset_deadline("/b".to_string(), 100 * MS);
    assert_eq!(d.next_deadline(), Some(500 * MS as u128));
    d.reset_deadline("/a".to_string(), 300 * MS);
    assert_eq!(d.next_deadline(), Some(600 * MS as u128));
    assert_eq!(d.take_due(600 * MS as u128), strings(&["/b"]));
    assert_eq!(d.take_due(799 * MS as u128), strings(&[]));
    assert_eq!(d.take_due(800 * MS as u128), strings(&["/a"]));
    assert_eq!(d.next_deadline(), None);
}

#[test]
fn what_is_due_is_pushed_once() {
    let locals = strings(&["/a", "/b"]);
    let mut d = Debouncer::new(1);
    d.reset_deadline("/b/x".to_string(), 0);
    d.reset_deadline("/elsewhere".to_string(), 0);
    d.reset_deadline("/a/y".to_string(), 0);
    assert_eq!(d.fire_due(MS as u128, &locals), vec![1, 0]);
    assert!(d.fire_due(MS as u128, &locals).is_empty());
}

#[test]
fn steps_of_the_push_watcher() {
    let locals = strings(&["/a"]);
    let mut d = Debouncer::new(10);
    assert!(matches!(run_push_watcher(&mut d, &locals, WatchInput::DeadlinePassed), WatchOutput::Wait));
    let changed = WatchInput::Changed { path: "/a/x".to_string(), now: 0 };
    assert!(matches!(run_push_watcher(&mut d, &locals, changed), WatchOutput::Wait));
    let changed = WatchInput::Changed { path: "/a/y".to_string(), now: 5 * MS };
    assert!(matches!(run_push_watcher(&mut d, &locals, changed), WatchOutput::Wait));
    // Only the earlier of the two is due at the earliest deadline.
    assert!(matches!(run_push_watcher(&mut d, &locals, WatchInput::DeadlinePassed), WatchOutput::Push(v) if v == vec![0]));
    assert_eq!(d.next_deadline(), Some(15 * MS as u128));
    assert!(matches!(run_push_watcher(&mut d, &locals, WatchInput::Closed), WatchOutput::Stop));
}

#[test]
fn watcher_errors() {
    assert_eq!(init_error("limit").to_string(), "configuration error: inotify init failed: limit");
    assert_eq!(watch_error("/a", "limit").to_string(), "configuration error: cannot watch /a: limit");
}

#[test]
fn every_round_pulls_every_path() {
    let path = |local: &str| SyncPath { local: local.to_string(), remote: "r".to_string(), delete: false };
    let syncer = Syncer::new(
        SyncConfig {
            container_user: "root".to_string(),
            ssh_port: 22,
            container_ip: None,
            ssh_public_key_file: None,
            ssh_identity_file: None,
            paths: vec![path("~/a"), path("~/b")],
            exclude_patterns: vec![],
            machine_specific_patterns: vec![],
        },
        "10.0.0.5".to_string(),
        "ann".to_string(),
    );
    let mut poller = PullPoller::new(&syncer, 30);
    for _ in 0..3 {
        assert!(matches!(poller.next(None), PollStep::Pull(sp) if sp.local == "~/a"));
        assert!(matches!(poller.next(Some(Err(Error::NoContainerIp))), PollStep::Pull(sp) if sp.local == "~/b"));
        assert!(matches!(poller.next(Some(Ok(()))), PollStep::Wait(30)));
    }
}
