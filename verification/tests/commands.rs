use dps::cli;
use dps::cli::{Commands, Job, TailscaleAction};
use dps::commands;
use dps::commands::{DestroyStep, Setup, SetupAction, SetupEvent, SetupStep};
use dps::config::{
    AuthConfig, Config, ContainerConfig, NetworkConfig, ProxmoxConfig, SyncConfig, SyncPath, TailscaleConfig,
};
use dps::error::Error;
use dps::proxmox::lxc::ContainerStatus;
use dps::report;
use dps::sync::profile::Direction;

fn strings(v: &[&str]) -> Vec<String> {
    v.iter().map(|s| s.to_string()).collect()
}

fn config() -> Config {
    Config {
        proxmox: ProxmoxConfig {
            host: "pve.lan".to_string(),
            port: 8006,
            node: "pve".to_string(),
            auth: AuthConfig::Token { user: "u".to_string(), token_name: "n".to_string(), token_value: "v".to_string() },
            verify_ssl: false,
        },
        container: ContainerConfig {
            vmid: 200,
            hostname: "dps-sync".to_string(),
            template: "t".to_string(),
            storage: "s".to_string(),
            disk_size: "8G".to_string(),
            memory: 512,
            cores: 1,
            root_password: "pw".to_string(),
            network: NetworkConfig { bridge: "vmbr0".to_string(), ip: "dhcp".to_string(), gateway: None },
        },
        sync: SyncConfig {
            container_user: "root".to_string(),
            ssh_port: 22,
            container_ip: None,
            ssh_public_key_file: None,
            ssh_identity_file: None,
            paths: vec![SyncPath { local: "~/.bashrc".to_string(), remote: ".bashrc".to_string(), delete: false }],
            exclude_patterns: vec![],
            machine_specific_patterns: vec![],
        },
        tailscale: None,
        daemon: None,
    }
}

fn tailscale(prefer: bool, ip: Option<&str>) -> TailscaleConfig {
    TailscaleConfig {
        auth_key: "key".to_string(),
        hostname: None,
        tags: vec![],
        prefer_tailscale_ip: prefer,
        container_ts_ip: ip.map(String::from),
    }
}

#[test]
fn usernames() {
    let s = |x: &str| Some(x.to_string());
    assert_eq!(commands::resolve_username(s("a"), s("b"), s("c")).unwrap(), "a");
    assert_eq!(commands::resolve_username(None, s("b"), s("c")).unwrap(), "b");
    assert_eq!(commands::resolve_username(None, None, s("c")).unwrap(), "c");
    assert_eq!(
        commands::resolve_username(None, None, None).unwrap_err().to_string(),
        "configuration error: cannot determine local username — use --user"
    );
}

#[test]
fn addresses() {
    let mut cfg = config();
    assert_eq!(commands::effective_ip(&cfg), None);
    assert_eq!(commands::resolve_sync_ip(&cfg, Ok(Some("10.0.0.9".to_string()))).unwrap(), "10.0.0.9");
    assert!(matches!(commands::resolve_sync_ip(&cfg, Ok(None)), Err(Error::NoContainerIp)));
    assert!(matches!(commands::resolve_sync_ip(&cfg, Err(Error::Http("x".to_string()))), Err(Error::Http(_))));
    cfg.sync.container_ip = Some("10.0.0.5".to_string());
    assert_eq!(commands::effective_ip(&cfg), Some("10.0.0.5".to_string()));
    cfg.tailscale = Some(tailscale(true, None));
    assert_eq!(commands::resolve_sync_ip(&cfg, Ok(None)).unwrap(), "10.0.0.5");
    cfg.tailscale = Some(tailscale(false, Some("100.64.0.7")));
    assert_eq!(commands::effective_ip(&cfg), Some("10.0.0.5".to_string()));
    cfg.tailscale = Some(tailscale(true, Some("100.64.0.7")));
    assert_eq!(commands::resolve_sync_ip(&cfg, Ok(None)).unwrap(), "100.64.0.7");
}

#[test]
fn transfers_need_a_container_that_is_not_stopped() {
    assert!(commands::check_running(200, &ContainerStatus::Running).is_ok());
    assert!(commands::check_running(200, &ContainerStatus::Unknown("paused".to_string())).is_ok());
    assert_eq!(
        commands::check_running(200, &ContainerStatus::Stopped).unwrap_err().to_string(),
        "configuration error: container 200 is stopped — run `dps start` first"
    );
}

#[test]
fn syncers_are_prepared() {
    let cfg = config();
    let s = commands::prepare_syncer(&cfg, Ok(Some("10.0.0.9".to_string())), None, Some("ann".to_string()), None).unwrap();
    assert_eq!((s.container_ip.as_str(), s.username.as_str()), ("10.0.0.9", "ann"));
    assert_eq!(s.sync_paths().len(), 1);
    assert!(matches!(commands::prepare_syncer(&cfg, Ok(None), None, None, None), Err(Error::NoContainerIp)));
    let r = commands::prepare_syncer(&cfg, Ok(Some("10.0.0.9".to_string())), None, None, None);
    assert!(matches!(r, Err(Error::Config(_))));
}

#[test]
fn destruction_is_confirmed() {
    assert!(commands::is_confirmed(true, None));
    assert!(commands::is_confirmed(false, Some(" yes \n")));
    assert!(!commands::is_confirmed(false, Some("YES")));
    assert!(!commands::is_confirmed(false, Some("")));
    assert!(!commands::is_confirmed(false, None));
    assert_eq!(
        commands::destroy_prompt(200),
        "This will permanently destroy container 200 and all stored profiles. Type 'yes' to confirm: "
    );
    assert!(commands::is_running(&Ok(ContainerStatus::Running)));
    assert!(!commands::is_running(&Ok(ContainerStatus::Stopped)));
    assert!(!commands::is_running(&Err(Error::NoContainerIp)));
    assert_eq!(
        commands::destroy_steps(&Ok(ContainerStatus::Running)),
        vec![DestroyStep::Stop, DestroyStep::Destroy]
    );
    assert_eq!(commands::destroy_steps(&Ok(ContainerStatus::Stopped)), vec![DestroyStep::Destroy]);
    assert_eq!(commands::destroy_steps(&Err(Error::ContainerNotFound(200))), vec![DestroyStep::Destroy]);
}

#[test]
fn tailscale_must_be_configured() {
    let mut cfg = config();
    assert_eq!(
        commands::tailscale_section(&cfg).unwrap_err().to_string(),
        "configuration error: Tailscale is not configured — add a [tailscale] section to config"
    );
    cfg.tailscale = Some(tailscale(true, None));
    let ts = commands::tailscale_section(&cfg).unwrap();
    assert_eq!(commands::auth_key(ts, None), "key");
    assert_eq!(commands::auth_key(ts, Some("new")), "new");
}

#[test]
fn a_whole_setup() {
    let mut cfg = config();
    cfg.tailscale = Some(tailscale(true, None));
    let (mut s, first) = Setup::new(cfg, false, true);
    assert!(matches!(first, SetupAction::List));
    assert!(matches!(s.advance(SetupEvent::Listed(Ok(false))), SetupAction::FindKey));
    assert!(matches!(s.advance(SetupEvent::Key(Some("k".to_string()))), SetupAction::Create));
    assert_eq!(s.key, Some("k".to_string()));
    assert!(matches!(s.advance(SetupEvent::Ended(Ok(()))), SetupAction::Start));
    assert!(matches!(s.advance(SetupEvent::Ended(Ok(()))), SetupAction::DetectAddress));
    assert!(matches!(s.advance(SetupEvent::Address(Ok("10.0.0.5".to_string()))), SetupAction::Save));
    assert_eq!(s.cfg.sync.container_ip, Some("10.0.0.5".to_string()));
    assert!(matches!(s.advance(SetupEvent::Ended(Ok(()))), SetupAction::WaitForSsh));
    assert!(matches!(s.advance(SetupEvent::Ended(Ok(()))), SetupAction::Bootstrap));
    assert!(matches!(s.advance(SetupEvent::Ended(Ok(()))), SetupAction::QueryTailscale));
    let found = SetupEvent::Tailscale(Ok(Some("100.64.0.7".to_string())));
    assert!(matches!(s.advance(found), SetupAction::Save));
    assert!(matches!(s.advance(SetupEvent::Ended(Ok(()))), SetupAction::Ready(ip) if ip == "100.64.0.7"));
    assert_eq!(s.step, SetupStep::Over);
}

#[test]
fn setup_leaves_an_existing_container_alone() {
    let (mut s, _) = Setup::new(config(), false, true);
    assert!(matches!(s.advance(SetupEvent::Listed(Ok(true))), SetupAction::Fail(Error::ContainerExists(200))));
    assert_eq!(s.step, SetupStep::Over);
}

#[test]
fn setup_ends_with_the_first_failure() {
    let (mut s, _) = Setup::new(config(), false, true);
    let failed = SetupEvent::Listed(Err(Error::Http("down".to_string())));
    assert!(matches!(s.advance(failed), SetupAction::Fail(Error::Http(_))));
    let (mut s, _) = Setup::new(config(), false, true);
    s.advance(SetupEvent::Listed(Ok(false)));
    s.advance(SetupEvent::Key(None));
    let failed = SetupEvent::Ended(Err(Error::TaskFailed("t".to_string())));
    assert!(matches!(s.advance(failed), SetupAction::Fail(Error::TaskFailed(_))));
}

#[test]
fn setup_without_a_key() {
    for no_bootstrap in [false, true] {
        let mut cfg = config();
        cfg.sync.container_ip = Some("10.0.0.5".to_string());
        let (mut s, _) = Setup::new(cfg, no_bootstrap, true);
        s.advance(SetupEvent::Listed(Ok(false)));
        s.advance(SetupEvent::Key(None));
        s.advance(SetupEvent::Ended(Ok(())));
        let last = s.advance(SetupEvent::Ended(Ok(())));
        if no_bootstrap {
            assert!(matches!(last, SetupAction::Ready(ip) if ip == "10.0.0.5"));
        } else {
            match last {
                SetupAction::Fail(e) => {
                    assert_eq!(e.to_string(), "configuration error: SSH public key is required for bootstrap")
                },
                other => panic!("unexpected {:?}", other),
            }
        }
    }
}

#[test]
fn setup_goes_on_without_a_tailscale_address() {
    for answer in [Ok(None), Err(Error::SyncCommand(255))] {
        let mut cfg = config();
        cfg.tailscale = Some(tailscale(true, None));
        let (mut s, _) = Setup::new(cfg, false, false);
        s.advance(SetupEvent::Listed(Ok(false)));
        s.advance(SetupEvent::Key(Some("k".to_string())));
        s.advance(SetupEvent::Ended(Ok(())));
        s.advance(SetupEvent::Ended(Ok(())));
        let next = s.advance(SetupEvent::Address(Ok("10.0.0.9".to_string())));
        assert!(matches!(next, SetupAction::WaitForSsh));
        assert_eq!(s.cfg.sync.container_ip, None);
        s.advance(SetupEvent::Ended(Ok(())));
        s.advance(SetupEvent::Ended(Ok(())));
        assert!(matches!(s.advance(SetupEvent::Tailscale(answer)), SetupAction::Ready(ip) if ip == "10.0.0.9"));
    }
}

#[test]
fn status_report() {
    let mut cfg = config();
    assert_eq!(
        report::status_header(&cfg),
        strings(&[
            "Proxmox host : pve.lan:8006",
            "Node         : pve",
            "Container ID : 200",
            "Hostname     : dps-sync",
        ])
    );
    assert_eq!(
        report::status_summary(&cfg),
        strings(&[
            "Tailscale    : disabled (add [tailscale] section to config to enable)",
            "",
            "Sync paths:",
            "  ~/.bashrc → /profiles/<user>/.bashrc",
        ])
    );
    cfg.tailscale = Some(tailscale(true, None));
    assert_eq!(
        report::status_summary(&cfg)[..2],
        strings(&["Tailscale IP : (not yet detected)", "TS preferred : true"])
    );
    cfg.tailscale = Some(tailscale(false, Some("100.64.0.7")));
    assert_eq!(report::status_summary(&cfg)[..2], strings(&["Tailscale IP : 100.64.0.7", "TS preferred : false"]));
}

#[test]
fn container_report() {
    let ip = |x: &str| Ok(Some(x.to_string()));
    let lines = |s, i| report::container_lines(s, i).unwrap();
    assert_eq!(
        lines(Ok(ContainerStatus::Running), ip("10.0.0.5")),
        strings(&["Status       : running ✓", "LAN IP       : 10.0.0.5"])
    );
    assert_eq!(lines(Ok(ContainerStatus::Running), Ok(None))[1], "LAN IP       : (not yet assigned)");
    assert_eq!(
        lines(Ok(ContainerStatus::Running), Err(Error::NoContainerIp))[1],
        format!("LAN IP       : error ({})", Error::NoContainerIp.to_string())
    );
    assert_eq!(lines(Ok(ContainerStatus::Stopped), ip("10.0.0.5")), strings(&["Status       : stopped"]));
    assert_eq!(lines(Ok(ContainerStatus::Unknown("x".to_string())), ip("1")), strings(&["Status       : unknown"]));
    assert_eq!(
        lines(Err(Error::ContainerNotFound(200)), Ok(None)),
        strings(&["Status       : not found — run `dps setup` to create it"])
    );
    assert!(matches!(report::container_lines(Err(Error::Http("x".to_string())), Ok(None)), Err(Error::Http(_))));
}

#[test]
fn dry_run_report() {
    assert_eq!(
        report::dry_run_header(Direction::Pull),
        strings(&["Dry run (Pull) — files that would be transferred:", ""])
    );
    assert_eq!(report::dry_run_lines("~/a", " \n"), strings(&["  ~/a — no changes"]));
    assert_eq!(report::dry_run_lines("~/a", "x\ny\n"), strings(&["  ~/a:", "    x", "    y"]));
}

#[test]
fn one_flagged_path_is_enough() {
    assert!(!report::any_flagged(&vec![]));
    assert!(!report::any_flagged(&vec![strings(&[]), strings(&[])]));
    assert!(report::any_flagged(&vec![strings(&[]), strings(&["x"]), strings(&[])]));
}

#[test]
fn check_report() {
    assert_eq!(
        report::fingerprint_lines("laptop", "abc"),
        strings(&["Machine fingerprint:", "  hostname:   laptop", "  machine-id: abc", ""])
    );
    let p = report::pattern_lines();
    assert_eq!(p[0], "Built-in excluded patterns (30):");
    assert_eq!(p[1], "  .cache/");
    assert_eq!((p.len(), p[31].as_str()), (32, ""));
    assert_eq!(
        report::flagged_lines("~/d", "/home/ann/d", &strings(&["/home/ann/d/x", "/home/ann/d/s/y"])),
        strings(&[
            "⚠  Machine-specific content in '~/d':",
            "     x",
            "     s/y",
            "   → Add these to ~/d/.syncignore to suppress this warning.",
            "",
        ])
    );
    assert_eq!(report::flagged_lines("~/d", "/home/ann/d", &strings(&[])), strings(&[]));
    assert_eq!(report::flagged_lines("~/d", "/r", &strings(&["/other/x"]))[1], "     /other/x");
    let file = report::flagged_lines("~/.bashrc", "/home/ann/.bashrc", &strings(&["/home/ann/.bashrc"]));
    assert_eq!(file[1], "     /home/ann/.bashrc");
    assert_eq!(
        report::verdict_lines(&vec![strings(&[]), strings(&[])]),
        strings(&[
            "✓ No machine-specific content detected in synced paths.",
            "Diff (what push would transfer):",
        ])
    );
    assert_eq!(report::verdict_lines(&vec![strings(&[]), strings(&["x"])]), strings(&["Diff (what push would transfer):"]));
    assert_eq!(report::check_lines("~/a", ""), strings(&["  ~/a — in sync"]));
    assert_eq!(report::check_lines("~/a", "x"), strings(&["  ~/a — changes:", "    x"]));
}

#[test]
fn subcommands_become_jobs() {
    let user = || Some("ann".to_string());
    assert!(matches!(cli::run(Commands::Push { user: user(), dry_run: true }),
        Job::DryRun { direction: Direction::Push, user: Some(_) }));
    assert!(matches!(cli::run(Commands::Pull { user: user(), dry_run: true }),
        Job::DryRun { direction: Direction::Pull, .. }));
    assert!(matches!(cli::run(Commands::Push { user: None, dry_run: false }),
        Job::Sync { direction: Direction::Push, user: None }));
    assert!(matches!(cli::run(Commands::Pull { user: None, dry_run: false }),
        Job::Sync { direction: Direction::Pull, .. }));
    assert!(matches!(cli::run(Commands::Setup { no_bootstrap: true, save_ip: false }),
        Job::Setup { no_bootstrap: true, save_ip: false }));
    assert!(matches!(cli::run(Commands::Check { user: user() }), Job::Check { user: Some(_) }));
    assert!(matches!(cli::run(Commands::Status), Job::Status));
    assert!(matches!(cli::run(Commands::Start), Job::Start));
    assert!(matches!(cli::run(Commands::Stop), Job::Stop));
    assert!(matches!(cli::run(Commands::Destroy { yes: true }), Job::Destroy { yes: true }));
    let watch = Commands::Watch { user: None, direction: "both".to_string(), debounce_ms: 500, poll_secs: 30 };
    assert!(matches!(cli::run(watch), Job::Watch { direction, debounce_ms: 500, poll_secs: 30, .. } if direction == "both"));
    let reauth = Commands::Tailscale { action: TailscaleAction::Reauth { key: user() } };
    assert!(matches!(cli::run(reauth), Job::Tailscale { action: TailscaleAction::Reauth { key: Some(_) } }));
    assert_eq!(cli::log_level(true), "debug");
    assert_eq!(cli::log_level(false), "info");
}
