use dps::config::{SyncConfig, TailscaleConfig};
use dps::error::Error;
use dps::sync::setup::{
    add_backslashes, bootstrap, build_tailscale_block, choose_key_file, escape_quotes, get_tailscale_ip, key_read_error,
    public_key_file, resolve_public_key, run_script_over_ssh, ssh_base_args, tailscale_ip_args, tailscale_reauth,
    tailscale_status, wait_for_ssh, KeyFile, SshWait,
};

fn strings(v: &[&str]) -> Vec<String> {
    v.iter().map(|s| s.to_string()).collect()
}

fn cfg(identity: Option<&str>, public_key: Option<&str>) -> SyncConfig {
    SyncConfig {
        container_user: "root".to_string(),
        ssh_port: 22,
        container_ip: None,
        ssh_public_key_file: public_key.map(String::from),
        ssh_identity_file: identity.map(String::from),
        paths: vec![],
        exclude_patterns: vec![],
        machine_specific_patterns: vec![],
    }
}

fn tailscale() -> TailscaleConfig {
    TailscaleConfig {
        auth_key: "tskey-'x'".to_string(),
        hostname: Some("hub".to_string()),
        tags: strings(&["tag:a", "tag:b"]),
        prefer_tailscale_ip: true,
        container_ts_ip: None,
    }
}

const BLOCK: &str = r#"
# ── Tailscale ──────────────────────────────────────────────────────────────────
curl -fsSL https://tailscale.com/install.sh | sh

# Start the daemon
systemctl enable tailscaled
systemctl start  tailscaled

# Join the tailnet
tailscale up \
  --authkey='tskey-'\''x'\''' \
  --accept-routes \
  --ssh --hostname=hub --advertise-tags=tag:a,tag:b

echo "Tailscale status:"
tailscale status
"#;

#[test]
fn tailscale_fragment() {
    assert_eq!(build_tailscale_block(Some(&tailscale())), BLOCK);
    assert_eq!(build_tailscale_block(None), "");
    let plain = TailscaleConfig { hostname: None, tags: vec![], ..tailscale() };
    assert!(build_tailscale_block(Some(&plain)).contains("  --ssh\n\necho"));
}

#[test]
fn provisioning_script() {
    let head = r#"set -e
export DEBIAN_FRONTEND=noninteractive

# ── Base packages ──────────────────────────────────────────────────────────────
apt-get update -qq
apt-get install -y -qq openssh-server rsync curl

# ── Profile storage ────────────────────────────────────────────────────────────
mkdir -p /profiles
chmod 700 /profiles

# ── SSH hardening ──────────────────────────────────────────────────────────────
mkdir -p /root/.ssh
chmod 700 /root/.ssh
echo 'ssh-ed25519 AAAA ann'\''s key' >> /root/.ssh/authorized_keys
chmod 600 /root/.ssh/authorized_keys

sed -i 's/^#*PermitRootLogin.*/PermitRootLogin prohibit-password/'   /etc/ssh/sshd_config
sed -i 's/^#*PasswordAuthentication.*/PasswordAuthentication no/'    /etc/ssh/sshd_config
sed -i 's/^#*PubkeyAuthentication.*/PubkeyAuthentication yes/'       /etc/ssh/sshd_config

systemctl enable ssh  2>/dev/null || systemctl enable sshd  2>/dev/null || true
systemctl restart ssh 2>/dev/null || systemctl restart sshd 2>/dev/null || true

"#;
    let tail = r#"

echo "dps bootstrap complete"
"#;
    let key = "ssh-ed25519 AAAA ann's key\n";
    assert_eq!(bootstrap(key, None), format!("{}{}", head, tail));
    assert_eq!(bootstrap(key, Some(&tailscale())), format!("{}{}{}", head, BLOCK, tail));
}

#[test]
fn quotes_are_escaped() {
    assert_eq!(escape_quotes("plain"), "plain");
    assert_eq!(escape_quotes("it's"), "it'\\''s");
    assert_eq!(escape_quotes("''"), "'\\'''\\''");
}

#[test]
fn ssh_options_during_provisioning() {
    let base = ["-p", "22", "-o", "StrictHostKeyChecking=no", "-o", "ConnectTimeout=15", "-o", "BatchMode=yes"];
    assert_eq!(ssh_base_args(&cfg(None, None)), strings(&base));
    let mut with_key = strings(&base);
    with_key.extend(strings(&["-i", "~/.ssh/id"]));
    assert_eq!(ssh_base_args(&cfg(Some("~/.ssh/id"), None)), with_key);
}

#[test]
fn script_with_and_without_sshpass() {
    let command = "bash -s <<'__DPS_EOF__'\necho hi\n__DPS_EOF__";
    let c = run_script_over_ssh("10.0.0.5", "pw", "echo hi", &cfg(Some("k"), None), true);
    assert_eq!(c.program, "sshpass");
    assert_eq!(
        c.args,
        strings(&[
            "-p",
            "pw",
            "ssh",
            "-p",
            "22",
            "-o",
            "StrictHostKeyChecking=no",
            "-o",
            "ConnectTimeout=15",
            "root@10.0.0.5",
            command,
        ])
    );
    let c = run_script_over_ssh("10.0.0.5", "pw", "echo hi", &cfg(Some("k"), None), false);
    assert_eq!(c.program, "ssh");
    assert!(!c.args.contains(&"pw".to_string()));
    assert_eq!(c.args[8..], strings(&["-i", "k", "root@10.0.0.5", command]));
}

#[test]
fn tailscale_commands() {
    let c = cfg(None, None);
    assert_eq!(tailscale_ip_args("h", &c)[8..], strings(&["root@h", "tailscale ip --4 2>/dev/null || true"]));
    assert_eq!(tailscale_status("h", &c)[8..], strings(&["root@h", "tailscale status"]));
    assert_eq!(
        tailscale_reauth("h", "k'1", &c)[8..],
        strings(&["root@h", "tailscale up --authkey='k'\\''1' --accept-routes --ssh"])
    );
}

#[test]
fn tailscale_address_is_trimmed() {
    assert_eq!(get_tailscale_ip("100.64.0.7\n"), Some("100.64.0.7".to_string()));
    assert_eq!(get_tailscale_ip(" \n"), None);
}

#[test]
fn waiting_for_ssh() {
    assert!(matches!(wait_for_ssh("h", 22, 120, true, 0), SshWait::Ready { settle_secs: 2 }));
    assert!(matches!(wait_for_ssh("h", 22, 120, false, 119_999_999_999), SshWait::Retry { delay_secs: 3 }));
    match wait_for_ssh("h", 22, 120, false, 120_000_000_000) {
        SshWait::GiveUp(e) => assert_eq!(e.to_string(), "timed out waiting for SSH on h:22"),
        other => panic!("unexpected {:?}", other),
    }
}

#[test]
fn configured_key_file() {
    let c = cfg(None, Some("~/keys/k.pub"));
    assert!(matches!(public_key_file(&c, Some("/home/ann")), Ok(KeyFile::Configured(p)) if p == "/home/ann/keys/k.pub"));
    match public_key_file(&c, None) {
        Err(e) => assert_eq!(e.to_string(), "configuration error: cannot determine home directory"),
        Ok(k) => panic!("unexpected {:?}", k),
    }
    let c = cfg(None, Some("/etc/k.pub"));
    assert!(matches!(public_key_file(&c, None), Ok(KeyFile::Configured(p)) if p == "/etc/k.pub"));
    assert!(matches!(resolve_public_key(&c), Ok(KeyFile::Configured(p)) if p == "/etc/k.pub"));
}

#[test]
fn usual_key_files() {
    let c = cfg(None, None);
    match public_key_file(&c, Some("/home/ann")) {
        Ok(KeyFile::FirstOf(files)) => assert_eq!(
            files,
            strings(&["/home/ann/.ssh/id_ed25519.pub", "/home/ann/.ssh/id_ecdsa.pub", "/home/ann/.ssh/id_rsa.pub"])
        ),
        other => panic!("unexpected {:?}", other),
    }
    let home = dirs::home_dir().map(|h| h.to_str().unwrap().to_string());
    let expected = public_key_file(&c, home.as_deref()).unwrap();
    assert_eq!(format!("{:?}", resolve_public_key(&c).unwrap()), format!("{:?}", expected));
}

#[test]
fn the_first_key_file_that_is_there_is_read() {
    let files = KeyFile::FirstOf(strings(&["a", "b", "c"]));
    assert_eq!(choose_key_file(&files, &vec![false, true, true]).unwrap(), "b");
    match choose_key_file(&files, &vec![false, false, false]) {
        Err(Error::Config(m)) => assert_eq!(
            m,
            "no SSH public key found — set sync.ssh_public_key_file in config or generate a key with `ssh-keygen`"
        ),
        other => panic!("unexpected {:?}", other),
    }
    let one = KeyFile::Configured("k".to_string());
    assert_eq!(choose_key_file(&one, &vec![]).unwrap(), "k");
    assert_eq!(key_read_error(&one, "k", "x").to_string(), "configuration error: cannot read SSH public key k: x");
    assert_eq!(key_read_error(&files, "a", "x").to_string(), "configuration error: cannot read a: x");
}

#[test]
fn backslashes_come_before_what_has_a_meaning() {
    assert_eq!(add_backslashes("/a-b_c.d/e+1,2:@%="), "/a-b_c.d/e+1,2:@%=");
    assert_eq!(add_backslashes("a b*\\'~é"), "a\\ b\\*\\\\\\'\\~é");
    assert_eq!(add_backslashes(""), "");
}
