use dps::config::{AuthConfig, Config};
use dps::wizard::{default_paths, default_remote, input_error, prompt_text, read_answer, section, Kind, Reply, Step, Wizard};

fn strings(v: &[&str]) -> Vec<String> {
    v.iter().map(|s| s.to_string()).collect()
}

fn run(answers: &[&str]) -> (Config, Vec<String>) {
    let (mut w, _) = Wizard::begin();
    let mut prompts: Vec<String> = Vec::new();
    for a in answers {
        let q = w.question().expect("a question is left");
        prompts.push(prompt_text(&q.label, &q.kind));
        w.answer(a);
    }
    assert!(w.question().is_none());
    (w.finish().expect("the dialogue is over"), prompts)
}

#[test]
fn the_default_dialogue() {
    let (cfg, prompts) = run(&[
        "pve.lan\n", "\n", "\n", "\n", // Proxmox
        "\n", "\n", "\n", "secret", // authentication
        "\n", "\n", "\n", "\n", "\n", "\n", "\n", "rootpw", "\n", "\n", // container
        "\n", "\n", "\n", // sync
        "\n", // Tailscale
        "\n", // daemon
    ]);
    assert_eq!(cfg.proxmox.host, "pve.lan");
    assert_eq!((cfg.proxmox.port, cfg.proxmox.node.as_str(), cfg.proxmox.verify_ssl), (8006, "pve", false));
    match &cfg.proxmox.auth {
        AuthConfig::Token { user, token_name, token_value } => {
            assert_eq!((user.as_str(), token_name.as_str(), token_value.as_str()), ("root@pam", "dps", "secret"))
        },
        other => panic!("unexpected {:?}", other),
    }
    assert_eq!((cfg.container.vmid, cfg.container.memory, cfg.container.cores), (200, 512, 1));
    assert_eq!(cfg.container.hostname, "dps-sync");
    assert_eq!(cfg.container.template, "local:vztmpl/debian-12-standard_12.7-1_amd64.tar.zst");
    assert_eq!((cfg.container.storage.as_str(), cfg.container.disk_size.as_str()), ("local-lvm", "8G"));
    assert_eq!(cfg.container.root_password, "rootpw");
    assert_eq!(cfg.container.network.net0_param(), "name=eth0,bridge=vmbr0,ip=dhcp");
    assert_eq!((cfg.sync.container_user.as_str(), cfg.sync.ssh_port), ("root", 22));
    assert_eq!(cfg.sync.exclude_patterns, strings(&[".git/", "__pycache__/", "*.pyc", "node_modules/"]));
    assert_eq!(cfg.sync.paths.len(), 4);
    assert_eq!(cfg.sync.paths[0].local, "~/.bashrc");
    assert!(cfg.tailscale.is_none() && cfg.daemon.is_none());
    assert_eq!(
        prompts,
        strings(&[
            "  Host (IP or hostname): ",
            "  Port [8006]: ",
            "  Node name [pve]: ",
            "  Verify SSL certificate [y/N]: ",
            "  Type (token/password) [token]: ",
            "  User [root@pam]: ",
            "  Token name [dps]: ",
            "  Token value: ",
            "  VMID [200]: ",
            "  Hostname [dps-sync]: ",
            "  Template [local:vztmpl/debian-12-standard_12.7-1_amd64.tar.zst]: ",
            "  Storage pool [local-lvm]: ",
            "  Disk size [8G]: ",
            "  Memory (MB) [512]: ",
            "  Cores [1]: ",
            "  Root password (used only during bootstrap): ",
            "  Network bridge [vmbr0]: ",
            "  IP  (\"dhcp\" or CIDR e.g. 192.168.1.50/24) [dhcp]: ",
            "  SSH public key file  (blank = auto-detect): ",
            "  SSH private key file (blank = auto-detect): ",
            "  Local path  [1/?]: ",
            "  Enable Tailscale integration [y/N]: ",
            "  Configure the dps-daemon background service [y/N]: ",
        ])
    );
}

#[test]
fn a_full_dialogue() {
    let (cfg, prompts) = run(&[
        "\n", "h\r\n", "65536\n", "8443\n", "n1\n", " YES \n", // a blank host and a large port are asked again
        "ldap\n", "password\n", "bob\n", "pve\n", "", "pw", // an unknown type and a blank password are asked again
        "300\n", "hub\n", "t\n", "s\n", "16G\n", "1024\n", "2\n", "rp", "vmbr1\n", "10.0.0.5/24\n", "10.0.0.1\n",
        "~/k.pub\n", "~/k\n", "~/.config/nvim\n", "\n", "y\n", "/etc/x\n", "etc-x\n", "\n", "\n", // two paths
        "y\n", "tskey", "n\n", // Tailscale
        "y\n", "n\n", "\n", "sideways\n", "push\n", // daemon
    ]);
    assert_eq!((cfg.proxmox.host.as_str(), cfg.proxmox.port, cfg.proxmox.verify_ssl), ("h", 8443, true));
    match &cfg.proxmox.auth {
        AuthConfig::Password { user, realm, password } => {
            assert_eq!((user.as_str(), realm.as_str(), password.as_str()), ("bob", "pve", "pw"))
        },
        other => panic!("unexpected {:?}", other),
    }
    assert_eq!(cfg.container.network.net0_param(), "name=eth0,bridge=vmbr1,ip=10.0.0.5/24,gw=10.0.0.1");
    assert_eq!(cfg.sync.ssh_public_key_file, Some("~/k.pub".to_string()));
    assert_eq!(cfg.sync.ssh_identity_file, Some("~/k".to_string()));
    let paths: Vec<(String, String, bool)> =
        cfg.sync.paths.iter().map(|p| (p.local.clone(), p.remote.clone(), p.delete)).collect();
    assert_eq!(
        paths,
        vec![
            ("~/.config/nvim".to_string(), ".config/nvim".to_string(), true),
            ("/etc/x".to_string(), "etc-x".to_string(), false),
        ]
    );
    let ts = cfg.tailscale.unwrap();
    assert_eq!((ts.auth_key.as_str(), ts.prefer_tailscale_ip), ("tskey", false));
    let d = cfg.daemon.unwrap();
    assert_eq!((d.auto_start_container, d.auto_watch, d.watch_direction.as_str()), (false, true, "push"));
    assert_eq!((d.debounce_ms, d.poll_secs), (500, 30));
    assert!(prompts.contains(&"  Local path  [2/...]: ".to_string()));
    assert!(prompts.contains(&"  Remote path (relative to /profiles/<user>/) [.config/nvim]: ".to_string()));
    assert!(prompts.contains(&"  Watch direction (both/push/pull) [both]: ".to_string()));
}

#[test]
fn answers_that_are_not_understood_change_nothing() {
    let (mut w, _) = Wizard::begin();
    assert_eq!(w.answer("\n"), strings(&["  (this field is required)"]));
    assert_eq!(w.step, Step::Host);
    w.answer("h\n");
    assert_eq!(w.answer("x\n"), strings(&["  invalid value: invalid digit found in string"]));
    assert_eq!(w.answer("70000\n"), strings(&["  invalid value: number too large to fit in target type"]));
    assert_eq!(w.step, Step::Port);
    w.answer("\n");
    w.answer("\n");
    w.answer("\n");
    assert_eq!(w.answer("ldap\n"), strings(&["  must be one of: token/password"]));
    assert_eq!(w.step, Step::AuthType);
    assert!(w.finish().is_none());
}

#[test]
fn remarks_between_the_questions() {
    let (mut w, welcome) = Wizard::begin();
    assert_eq!(
        welcome,
        strings(&[
            "",
            "╔══════════════════════════════════════╗",
            "║        dps — first-time setup        ║",
            "╚══════════════════════════════════════╝",
            "",
            "Answer each prompt (press Enter to accept the [default]).",
            "",
            "── Proxmox Connection ──────────────────────────────",
        ])
    );
    for a in ["h\n", "\n", "\n"] {
        assert_eq!(w.answer(a), strings(&[]));
    }
    assert_eq!(w.answer("\n"), vec![section("Authentication")]);
    for a in ["\n", "\n", "\n"] {
        w.answer(a);
    }
    assert_eq!(w.answer("s"), vec![section("LXC Container")]);
    for a in ["\n", "\n", "\n", "\n", "\n", "\n", "\n", "pw", "\n"] {
        w.answer(a);
    }
    assert_eq!(w.answer("\n"), vec![section("Profile Sync")]);
    assert_eq!(w.answer("\n"), strings(&[]));
    assert_eq!(
        w.answer("\n"),
        strings(&[
            "",
            "  Paths to sync between this machine and the container.",
            "  Press Enter with a blank local path when done.",
            "",
        ])
    );
    let mut expected = strings(&[
        "  No paths entered — using defaults:",
        "    ~/.bashrc → .bashrc",
        "    ~/.bash_profile → .bash_profile",
        "    ~/.profile → .profile",
        "    ~/.gitconfig → .gitconfig",
    ]);
    expected.push(section("Tailscale (optional)"));
    expected.extend(strings(&[
        "  When enabled, dps installs Tailscale in the container during setup",
        "  and uses the Tailscale IP for all transfers (works across networks).",
        "",
    ]));
    assert_eq!(w.answer("\n"), expected);
    assert_eq!(w.answer("\n"), vec![section("Daemon (optional)")]);
    assert_eq!(w.answer("\n"), strings(&[""]));
}

#[test]
fn headings_have_a_common_width() {
    assert_eq!(section("Authentication").chars().count(), 52);
    assert_eq!(section("x"), format!("── x {}", "─".repeat(47)));
    let long = "a title that is much longer than the rule that would follow it";
    assert_eq!(section(long), format!("── {} ", long));
}

#[test]
fn yes_and_no() {
    for (line, default, expected) in [
        ("y\n", false, true),
        ("Yes\r\n", false, true),
        ("N\n", true, false),
        ("  nO ", true, false),
        ("maybe\n", true, true),
        ("", false, false),
    ] {
        assert!(matches!(read_answer(&Kind::YesNo(default), line), Ok(Reply::Flag(b)) if b == expected));
    }
}

#[test]
fn secrets_are_taken_as_they_are() {
    assert!(matches!(read_answer(&Kind::Secret, " p\r"), Ok(Reply::Text(s)) if s == " p\r"));
    assert_eq!(read_answer(&Kind::Secret, "").unwrap_err(), "  (this field is required)");
    assert_eq!(input_error("eof").to_string(), "configuration error: failed to read input: eof");
}

#[test]
fn optional_answers() {
    assert!(matches!(read_answer(&Kind::Optional, "\n"), Ok(Reply::Nothing)));
    assert!(matches!(read_answer(&Kind::Optional, " \n"), Ok(Reply::Text(s)) if s == " "));
    assert!(matches!(read_answer(&Kind::Default("d".to_string()), "\n"), Ok(Reply::Text(s)) if s == "d"));
    assert!(matches!(read_answer(&Kind::Number { default: "5".to_string(), max: 9 }, "\n"), Ok(Reply::Number(5))));
}

#[test]
fn remote_paths_are_guessed() {
    assert_eq!(default_remote("~/.bashrc"), ".bashrc");
    assert_eq!(default_remote("~/~/x"), "x");
    assert_eq!(default_remote("~user/x"), "user/x");
    assert_eq!(default_remote("//etc/x"), "etc/x");
    assert_eq!(default_remote("~"), "");
}

#[test]
fn default_paths_are_four() {
    let p = default_paths();
    let locals: Vec<&str> = p.iter().map(|x| x.local.as_str()).collect();
    assert_eq!(locals, vec!["~/.bashrc", "~/.bash_profile", "~/.profile", "~/.gitconfig"]);
    assert!(p.iter().all(|x| !x.delete && x.local == format!("~/{}", x.remote)));
}
