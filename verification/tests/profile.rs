use dps::config::{SyncConfig, SyncPath};
use dps::error::Error;
use dps::sync::contents::Contents;
use dps::sync::ignore::{is_excluded, IgnoreRules};
use dps::sync::profile::{
    command_result, detect_backend, expand_tilde, expand_tilde_in, launch_error, local_to_rsync_src,
    remote_is_dir, Backend, Direction, LocalState, SyncPlan, SyncStep, Syncer,
};
use dps::sync::run::SyncRunStep;

fn strings(v: &[&str]) -> Vec<String> {
    v.iter().map(|s| s.to_string()).collect()
}

fn syncer() -> Syncer {
    Syncer::new(
        SyncConfig {
            container_user: "root".to_string(),
            ssh_port: 2222,
            container_ip: None,
            ssh_public_key_file: None,
            ssh_identity_file: Some("~/.ssh/id".to_string()),
            paths: vec![path("~/.vim", "/.vim", true), path("~/.bashrc", ".bashrc", false)],
            exclude_patterns: strings(&[".git/"]),
            machine_specific_patterns: strings(&["own"]),
        },
        "10.0.0.5".to_string(),
        "ann".to_string(),
    )
}

fn path(local: &str, remote: &str, delete: bool) -> SyncPath {
    SyncPath { local: local.to_string(), remote: remote.to_string(), delete }
}

fn rules() -> IgnoreRules {
    IgnoreRules { patterns: strings(&["*.log"]) }
}

const STAGE: &str = "/tmp/stage";

fn nothing() -> Contents {
    contents(&[], &[])
}

fn contents(dirs: &[&str], files: &[&str]) -> Contents {
    Contents { dirs: strings(dirs), files: strings(files) }
}

fn dir() -> LocalState {
    LocalState { present: true, is_dir: true }
}

fn commands(plan: &SyncPlan) -> Vec<(String, Vec<String>)> {
    plan.steps
        .iter()
        .map(|s| match s {
            SyncStep::Run { program, args } => (program.clone(), args.clone()),
            SyncStep::CreateParent(p) => ("<parent>".to_string(), vec![p.clone()]),
            SyncStep::MakeDir(p) => ("<make>".to_string(), vec![p.clone()]),
            SyncStep::CopyDir { from, to } => ("<dir>".to_string(), vec![from.clone(), to.clone()]),
            SyncStep::CopyFile { from, to } => ("<file>".to_string(), vec![from.clone(), to.clone()]),
        })
        .collect()
}

#[test]
fn expands_the_home_directory() {
    assert_eq!(expand_tilde_in("~/x", Some("/home/ann")), "/home/ann/x");
    assert_eq!(expand_tilde_in("~/x", None), "~/x");
    assert_eq!(expand_tilde_in("~", Some("/home/ann")), "~");
    assert_eq!(expand_tilde_in("/etc/x", Some("/home/ann")), "/etc/x");
    match dirs::home_dir() {
        Some(h) => assert_eq!(expand_tilde("~/x"), h.join("x").to_str().unwrap()),
        None => assert_eq!(expand_tilde("~/x"), "~/x"),
    }
}

#[test]
fn rsync_sources_of_directories_end_in_a_slash() {
    assert_eq!(local_to_rsync_src("/a", true), "/a/");
    assert_eq!(local_to_rsync_src("/a/", true), "/a/");
    assert_eq!(local_to_rsync_src("/a", false), "/a");
}

#[test]
fn remote_paths_lie_in_the_profile() {
    let s = syncer();
    assert_eq!(s.remote_path(".bashrc"), "/profiles/ann/.bashrc");
    assert_eq!(s.remote_path("//.bashrc"), s.remote_path(".bashrc"));
}

#[test]
fn connection_options() {
    let s = syncer();
    assert_eq!(
        s.ssh_opt(Some("/home/ann")),
        "ssh -p 2222 -i /home/ann/.ssh/id -o StrictHostKeyChecking=no -o BatchMode=yes"
    );
    let rest = ["2222", "-o", "StrictHostKeyChecking=no", "-o", "BatchMode=yes", "-i", "/home/ann/.ssh/id"];
    let mut scp = strings(&["-P"]);
    scp.extend(strings(&rest));
    assert_eq!(s.scp_base_args(Some("/home/ann")), scp);
    let mut ssh = strings(&["-p"]);
    ssh.extend(strings(&rest));
    assert_eq!(s.ssh_base_args(Some("/home/ann")), ssh);
}

#[test]
fn an_rsync_push() {
    let s = syncer();
    let plan = s.plan_sync(&s.sync_paths()[0], Direction::Push, Backend::Rsync, dir(), false, &nothing(), STAGE, &rules(), Some("/home/ann"));
    assert!(plan.scan);
    let steps = commands(&plan);
    assert_eq!(steps.len(), 2);
    assert_eq!(steps[0].0, "ssh");
    assert_eq!(steps[0].1[8..], strings(&["root@10.0.0.5", "mkdir -p '/profiles/ann/.vim'"]));
    assert_eq!(steps[1].0, "rsync");
    assert_eq!(
        steps[1].1,
        strings(&[
            "-avz",
            "--checksum",
            "--progress",
            "-e",
            "ssh -p 2222 -i /home/ann/.ssh/id -o StrictHostKeyChecking=no -o BatchMode=yes",
            "--delete",
            "--exclude=*.log",
            "--exclude=.git/",
            "/home/ann/.vim/",
            "root@10.0.0.5:/profiles/ann/.vim",
        ])
    );
}

#[test]
fn an_rsync_pull() {
    let s = syncer();
    let home = Some("/home/ann");
    let sp = &s.sync_paths()[0];
    let plan = s.plan_sync(sp, Direction::Pull, Backend::Rsync, dir(), true, &nothing(), STAGE, &rules(), home);
    assert!(!plan.scan);
    let steps = commands(&plan);
    assert_eq!(steps[0], ("<parent>".to_string(), strings(&["/home/ann/.vim"])));
    let args = &steps[1].1;
    assert!(args.contains(&"--delete".to_string()));
    assert_eq!(args[args.len() - 2..], strings(&["root@10.0.0.5:/profiles/ann/.vim/", "/home/ann/.vim/"]));
}

#[test]
fn single_files_survive_push_and_pull() {
    let s = syncer();
    let home = Some("/home/ann");
    let sp = &s.sync_paths()[1];
    let file = LocalState { present: true, is_dir: false };
    let gone = LocalState { present: false, is_dir: false };
    let push = s.plan_sync(sp, Direction::Push, Backend::Rsync, file, false, &nothing(), STAGE, &rules(), home);
    assert!(push.scan);
    let push = commands(&push);
    assert_eq!(push[0].1[8..], strings(&["root@10.0.0.5", "mkdir -p '/profiles/ann'"]));
    let args = &push[1].1;
    assert_eq!(args[args.len() - 2..], strings(&["/home/ann/.bashrc", "root@10.0.0.5:/profiles/ann/.bashrc"]));
    let pull = commands(&s.plan_sync(sp, Direction::Pull, Backend::Rsync, gone, false, &nothing(), STAGE, &rules(), home));
    assert_eq!(pull[0], ("<parent>".to_string(), strings(&["/home/ann/.bashrc"])));
    let args = &pull[1].1;
    assert!(!args.contains(&"--delete".to_string()));
    assert_eq!(args[args.len() - 2..], strings(&["root@10.0.0.5:/profiles/ann/.bashrc", "/home/ann/.bashrc"]));
}

#[test]
fn single_files_by_scp() {
    let s = syncer();
    let home = Some("/home/ann");
    let sp = &s.sync_paths()[1];
    let file = LocalState { present: true, is_dir: false };
    let push = commands(&s.plan_sync(sp, Direction::Push, Backend::Scp, file, false, &nothing(), STAGE, &rules(), home));
    assert_eq!(push[0].1[8..], strings(&["root@10.0.0.5", "mkdir -p '/profiles/ann'"]));
    assert_eq!(push[1].1[8..], strings(&["/home/ann/.bashrc", "root@10.0.0.5:/profiles/ann/.bashrc"]));
    let pull = commands(&s.plan_sync(sp, Direction::Pull, Backend::Scp, file, false, &nothing(), STAGE, &rules(), home));
    assert_eq!(pull[1].1[8..], strings(&["-r", "root@10.0.0.5:/profiles/ann/.bashrc", "/home/ann/.bashrc"]));
    let log = path("~/x.log", "x.log", false);
    for dir in [Direction::Push, Direction::Pull] {
        let steps = s.plan_sync(&log, dir, Backend::Scp, file, false, &nothing(), STAGE, &rules(), home).steps;
        assert_eq!(steps.len(), 1);
    }
}

#[test]
fn scp_sends_a_directory_as_a_whole_where_nothing_is_excluded() {
    let s = syncer();
    let home = Some("/home/ann");
    let sp = &s.sync_paths()[0];
    let held = contents(&["a", "a/b", "empty"], &["vimrc", "a/b/one.vim", "my notes"]);
    let plan = s.plan_scp_push(sp, &held, STAGE, &rules(), home);
    assert!(plan.scan);
    let push = commands(&plan);
    assert_eq!(push.len(), 2);
    assert_eq!(push[0].1[8..], strings(&["root@10.0.0.5", "mkdir -p '/profiles/ann/.vim'"]));
    assert_eq!(push[1].0, "scp");
    assert_eq!(
        push[1].1[8..],
        strings(&[
            "-r",
            "/home/ann/.vim/a",
            "/home/ann/.vim/empty",
            "/home/ann/.vim/vimrc",
            "/home/ann/.vim/my notes",
            "root@10.0.0.5:/profiles/ann/.vim",
        ])
    );
    assert_eq!(commands(&s.plan_scp_push(sp, &nothing(), STAGE, &rules(), home)).len(), 1);
    let planned = s.plan_sync(sp, Direction::Push, Backend::Scp, dir(), false, &held, STAGE, &rules(), home);
    assert_eq!(commands(&planned), push);
}

#[test]
fn scp_sends_a_copy_without_what_is_excluded() {
    let s = syncer();
    let home = Some("/home/ann");
    let sp = &s.sync_paths()[0];
    let held = contents(&["a", ".git", "empty"], &["vimrc", "x.log", "a/t.log", ".git/config", "a/u v"]);
    let push = commands(&s.plan_scp_push(sp, &held, STAGE, &rules(), home));
    let copied: Vec<(&str, &str, &str)> =
        push[1..push.len() - 1].iter().map(|c| (c.0.as_str(), c.1[0].as_str(), c.1[1].as_str())).collect();
    assert_eq!(
        copied,
        [
            ("<dir>", "/home/ann/.vim", "/tmp/stage"),
            ("<dir>", "/home/ann/.vim/a", "/tmp/stage/a"),
            ("<dir>", "/home/ann/.vim/empty", "/tmp/stage/empty"),
            ("<file>", "/home/ann/.vim/vimrc", "/tmp/stage/vimrc"),
            ("<file>", "/home/ann/.vim/a/u v", "/tmp/stage/a/u v"),
        ]
    );
    assert_eq!(
        push[push.len() - 1].1[8..],
        strings(&[
            "-r",
            "/tmp/stage/a",
            "/tmp/stage/empty",
            "/tmp/stage/vimrc",
            "root@10.0.0.5:/profiles/ann/.vim",
        ])
    );
    let logs = contents(&[], &["x.log"]);
    assert_eq!(commands(&s.plan_scp_push(sp, &logs, STAGE, &rules(), home)).len(), 2);
}

#[test]
fn scp_fetches_a_directory_as_a_whole_where_nothing_is_excluded() {
    let s = syncer();
    let home = Some("/home/ann");
    let sp = &s.sync_paths()[0];
    let held = contents(&["a", "empty"], &["a/one.vim", "it's $x"]);
    let pull = commands(&s.plan_sync(sp, Direction::Pull, Backend::Scp, dir(), true, &held, STAGE, &rules(), home));
    assert_eq!(pull.len(), 3);
    assert_eq!(pull[0], ("<parent>".to_string(), strings(&["/home/ann/.vim"])));
    assert_eq!(pull[1], ("<make>".to_string(), strings(&["/home/ann/.vim"])));
    assert_eq!(
        pull[2].1[8..],
        strings(&[
            "-r",
            "root@10.0.0.5:/profiles/ann/.vim/a",
            "root@10.0.0.5:/profiles/ann/.vim/empty",
            "root@10.0.0.5:/profiles/ann/.vim/it\\'s\\ \\$x",
            "/home/ann/.vim",
        ])
    );
}

#[test]
fn scp_fetches_only_what_is_not_excluded() {
    let s = syncer();
    let home = Some("/home/ann");
    let sp = &s.sync_paths()[0];
    let held = contents(&["a", ".git"], &["x.log", "a/one two", ".git/config"]);
    let pull = commands(&s.plan_sync(sp, Direction::Pull, Backend::Scp, dir(), true, &held, STAGE, &rules(), home));
    assert_eq!(pull.len(), 4);
    assert_eq!(pull[1], ("<make>".to_string(), strings(&["/home/ann/.vim"])));
    assert_eq!(pull[2], ("<make>".to_string(), strings(&["/home/ann/.vim/a"])));
    assert_eq!(
        pull[3].1[8..],
        strings(&["root@10.0.0.5:/profiles/ann/.vim/a/one\\ two", "/home/ann/.vim/a/one two"])
    );
}

#[test]
fn every_rule_holds_for_both_programs() {
    let s = syncer();
    let home = Some("/home/ann");
    let rules = s.ignore_rules_for(Some("global.txt\n"), Some("/local.txt\n"));
    let held = contents(
        &[".git", "sub"],
        &["monitors.xml", "own", "global.txt", "local.txt", ".git/x", "sub/local.txt"],
    );
    let copied: Vec<String> = commands(&s.plan_scp_push(&s.sync_paths()[0], &held, STAGE, &rules, home))
        .into_iter()
        .filter(|c| c.0 == "<file>")
        .map(|c| c.1[0].clone())
        .collect();
    assert_eq!(copied, strings(&["/home/ann/.vim/sub/local.txt"]));
    let sp = &s.sync_paths()[0];
    let rsync = commands(&s.plan_sync(sp, Direction::Push, Backend::Rsync, dir(), false, &held, STAGE, &rules, home));
    for pattern in ["monitors.xml", "own", "global.txt", "/local.txt", ".git/"] {
        assert!(rsync[1].1.contains(&format!("--exclude={pattern}")));
        assert!(rules.patterns.contains(&pattern.to_string()) || pattern == ".git/");
    }
    assert!(is_excluded(&rules.patterns, "local.txt", false));
}

#[test]
fn what_the_container_holds() {
    let s = syncer();
    let home = Some("/home/ann");
    let odd = path("~/x", "it's", false);
    assert_eq!(
        s.plan_probe(&odd, home)[8..],
        strings(&["root@10.0.0.5", "test -d '/profiles/ann/it'\\''s'"])
    );
    assert_eq!(
        s.plan_listing(&odd, home)[8..],
        strings(&[
            "root@10.0.0.5",
            "cd '/profiles/ann/it'\\''s' && find -L . -mindepth 1 -type d -printf '%p/\\0' -o -type f -print0",
        ])
    );
    let user = dirs::home_dir().map(|h| h.to_str().unwrap().to_string());
    assert_eq!(s.probe(&odd), s.plan_probe(&odd, user.as_deref()));
    assert_eq!(s.listing(&odd), s.plan_listing(&odd, user.as_deref()));
    assert!(remote_is_dir(Ok(())).unwrap());
    assert!(!remote_is_dir(Err(Error::SyncCommand(1))).unwrap());
    assert!(matches!(remote_is_dir(Err(Error::SyncCommand(255))), Err(Error::SyncCommand(255))));
}

#[test]
fn missing_paths_are_not_pushed() {
    let s = syncer();
    let gone = LocalState { present: false, is_dir: false };
    let plan = s.plan_sync(&s.sync_paths()[0], Direction::Push, Backend::Rsync, gone, false, &nothing(), STAGE, &rules(), None);
    assert!(!plan.scan && plan.steps.is_empty());
    let plan = s.plan_sync(&s.sync_paths()[0], Direction::Pull, Backend::Rsync, gone, true, &nothing(), STAGE, &rules(), None);
    assert_eq!(plan.steps.len(), 2);
}

#[test]
fn a_dry_run_differs_from_the_transfer_only_in_its_mode() {
    let s = syncer();
    let sp = &s.sync_paths()[1];
    let home = Some("/home/ann");
    let real = commands(&s.plan_sync(sp, Direction::Push, Backend::Rsync, dir(), false, &nothing(), STAGE, &rules(), home))[1].1.clone();
    let dry = s.plan_dry_run(sp, Direction::Push, true, &rules(), home);
    assert_eq!(dry.len(), real.len());
    assert_eq!(dry[2], "--dry-run");
    for i in 0..dry.len() {
        assert!(i == 2 || dry[i] == real[i]);
    }
    let deleting = s.plan_dry_run(&s.sync_paths()[0], Direction::Push, true, &rules(), home);
    assert!(!deleting.contains(&"--delete".to_string()));
}

#[test]
fn plans_use_the_home_directory_of_the_user() {
    let s = syncer();
    let sp = &s.sync_paths()[0];
    let home = dirs::home_dir().map(|h| h.to_str().unwrap().to_string());
    let expected = s.plan_sync(sp, Direction::Push, Backend::Rsync, dir(), false, &nothing(), STAGE, &rules(), home.as_deref());
    let found = s.sync_one(sp, Direction::Push, Backend::Rsync, dir(), false, &nothing(), STAGE, &rules());
    assert_eq!(commands(&found), commands(&expected));
    assert_eq!(
        s.dry_run(sp, Direction::Pull, true, &rules()),
        s.plan_dry_run(sp, Direction::Pull, true, &rules(), home.as_deref())
    );
}

#[test]
fn rules_of_a_transfer() {
    let r = syncer().ignore_rules_for(Some("g\n"), Some("l\n"));
    assert_eq!(r.patterns[r.patterns.len() - 3..], strings(&["own", "g", "l"]));
}

#[test]
fn backends() {
    assert_eq!(detect_backend(true), Backend::Rsync);
    assert_eq!(detect_backend(false), Backend::Scp);
}

#[test]
fn every_path_is_tried_and_one_failure_fails_the_whole() {
    let s = syncer();
    for first in [true, false] {
        for second in [true, false] {
            let mut run = s.clone().run();
            let outcome = |ok: bool| Some(if ok { Ok(()) } else { Err(Error::SyncCommand(23)) });
            assert!(matches!(run.next(None), SyncRunStep::Sync(sp) if sp.local == "~/.vim" && sp.delete));
            assert!(matches!(run.next(outcome(first)), SyncRunStep::Sync(sp) if sp.local == "~/.bashrc"));
            match run.next(outcome(second)) {
                SyncRunStep::Finished(Ok(())) => assert!(first && second),
                SyncRunStep::Finished(Err(Error::SyncCommand(code))) => {
                    assert!(!(first && second));
                    assert_eq!(code, -1);
                }
                other => panic!("unexpected {:?}", other),
            }
        }
    }
    let mut none = s;
    none.cfg.paths = vec![];
    assert!(matches!(none.run().next(None), SyncRunStep::Finished(Ok(()))));
}

#[test]
fn clones_hold_the_same_paths() {
    let s = syncer();
    let copy = s.clone();
    assert_eq!(copy.container_ip, s.container_ip);
    assert_eq!(copy.username, s.username);
    assert_eq!(copy.sync_paths().len(), s.sync_paths().len());
    for (a, b) in copy.sync_paths().iter().zip(s.sync_paths()) {
        assert_eq!((&a.local, &a.remote, a.delete), (&b.local, &b.remote, b.delete));
    }
}

#[test]
fn exit_codes() {
    assert!(command_result(true, Some(0)).is_ok());
    assert!(matches!(command_result(false, Some(23)), Err(Error::SyncCommand(23))));
    assert!(matches!(command_result(false, None), Err(Error::SyncCommand(-1))));
    assert_eq!(launch_error("rsync", "gone").to_string(), "SSH command failed: failed to launch 'rsync': gone");
}
