//! Provisioning of the container over SSH.
//!
//! Once the container runs, a script installs the packages, creates the profile
//! storage, installs the user's public key, turns password logins off and joins
//! the tailnet if that is configured.

use vstd::prelude::*;
use vstd::string::*;
use crate::config::{SyncConfig, SyncView, TailscaleConfig, TailscaleView};
use crate::error::{Error, ErrorView};
use crate::number;
use crate::path;
use crate::text;

verus! {

// ── Waiting for SSH ──────────────────────────────────────────────────────────

/// What to do after an attempt to reach the SSH port.
#[derive(Debug)]
pub enum SshWait {
    /// Reachable: let sshd settle for this many seconds, then go on.
    Ready { settle_secs: u64 },
    /// Not yet: try again after this many seconds.
    Retry { delay_secs: u64 },
    /// Out of time.
    GiveUp(Error),
}

/// What to do after an attempt to reach the SSH port, `elapsed_ns` after the
/// first one began.
pub fn wait_for_ssh(ip: &str, port: u16, timeout_secs: u64, connected: bool, elapsed_ns: u64) -> (r: SshWait)
    ensures
        connected ==> r == (SshWait::Ready { settle_secs: 2 }),
        !connected && elapsed_ns < timeout_secs * 1_000_000_000 ==> r == (SshWait::Retry { delay_secs: 3 }),
        !connected && elapsed_ns >= timeout_secs * 1_000_000_000 ==> (r matches SshWait::GiveUp(e) && e@
            == ErrorView::Timeout("SSH on "@ + ip@ + ":"@ + number::decimal(port as nat))),
{
    if connected {
        SshWait::Ready { settle_secs: 2 }
    } else if elapsed_ns as u128 >= timeout_secs as u128 * 1_000_000_000 {
        SshWait::GiveUp(
            Error::Timeout(
                "SSH on ".to_string().concat(ip).concat(":").concat(number::to_decimal(port as u64).as_str()),
            ),
        )
    } else {
        SshWait::Retry { delay_secs: 3 }
    }
}

// ── Shell quoting ────────────────────────────────────────────────────────────

/// `s` for use inside single quotes: a quote in it closes the quotation, stands
/// escaped, and opens it again.
pub open spec fn escaped(s: Seq<char>) -> Seq<char> {
    text::replaced(s, '\'', "'\\''"@)
}

/// `s` for use inside single quotes.
pub fn escape_quotes(s: &str) -> (r: String)
    ensures
        r@ == escaped(s@),
{
    text::replace_char(s, '\'', "'\\''")
}

/// Whether no program takes a character of a path for anything but itself.
pub open spec fn is_bare(c: char) -> bool {
    ||| 'a' <= c <= 'z'
    ||| 'A' <= c <= 'Z'
    ||| '0' <= c <= '9'
    ||| c == '/' || c == '.' || c == '_' || c == '-' || c == '+' || c == ',' || c == ':' || c == '@' || c == '%' || c
        == '='
    ||| c as u32 > 127
}

/// `s` with a backslash before every character that a program might take for more
/// than itself.
pub open spec fn backslashed(s: Seq<char>) -> Seq<char>
    decreases s.len(),
{
    if s.len() == 0 {
        seq![]
    } else {
        backslashed(s.drop_last()) + (if is_bare(s.last()) {
            seq![s.last()]
        } else {
            seq!['\\', s.last()]
        })
    }
}

/// `s` with a backslash before every character that a program might take for more
/// than itself.
pub fn add_backslashes(s: &str) -> (r: String)
    ensures
        r@ == backslashed(s@),
{
    let cs = text::chars_of(s);
    let mut out = String::new();
    let mut i: usize = 0;
    assert(out@ =~= backslashed(cs@.take(0)));
    while i < cs.len()
        invariant
            i <= cs@.len(),
            out@ == backslashed(cs@.take(i as int)),
        decreases cs@.len() - i,
    {
        let c = cs[i];
        let ghost before = out@;
        assert(cs@.take(i + 1).drop_last() =~= cs@.take(i as int));
        let bare = ('a' <= c && c <= 'z') || ('A' <= c && c <= 'Z') || ('0' <= c && c <= '9') || c == '/' || c == '.'
            || c == '_' || c == '-' || c == '+' || c == ',' || c == ':' || c == '@' || c == '%' || c == '=' || c as u32
            > 127;
        if !bare {
            out.push('\\');
        }
        out.push(c);
        assert(out@ =~= before + (if is_bare(c) {
            seq![c]
        } else {
            seq!['\\', c]
        }));
        i += 1;
    }
    assert(cs@.take(cs@.len() as int) =~= cs@);
    out
}

/// What a shell reads from one word: between single quotes every character
/// stands for itself; outside them a backslash makes the next character stand
/// for itself.  `None` where the word is not complete.  `quoted` says whether
/// the reading begins inside quotes.
pub open spec fn shell_reads(s: Seq<char>, quoted: bool) -> Option<Seq<char>>
    decreases s.len(),
{
    if s.len() == 0 {
        if quoted {
            None
        } else {
            Some(seq![])
        }
    } else if s[0] == '\'' {
        shell_reads(s.skip(1), !quoted)
    } else if !quoted && s[0] == '\\' {
        if s.len() < 2 {
            None
        } else {
            prepend(s[1], shell_reads(s.skip(2), quoted))
        }
    } else {
        prepend(s[0], shell_reads(s.skip(1), quoted))
    }
}

pub open spec fn prepend(c: char, rest: Option<Seq<char>>) -> Option<Seq<char>> {
    match rest {
        Some(r) => Some(seq![c] + r),
        None => None,
    }
}

/// A shell reads a text with backslashes as the text itself.
pub proof fn law_backslashes_are_read_away(s: Seq<char>)
    ensures
        shell_reads(backslashed(s), false) == Some(s),
{
    lemma_reads_backslashed(s, seq![]);
    assert(backslashed(s) + seq![] =~= backslashed(s));
    assert(s + seq![] =~= s);
}

proof fn lemma_reads_backslashed(s: Seq<char>, tail: Seq<char>)
    ensures
        shell_reads(backslashed(s) + tail, false) == (match shell_reads(tail, false) {
            Some(r) => Some(s + r),
            None => None,
        }),
    decreases s.len(),
{
    if s.len() == 0 {
        assert(backslashed(s) + tail =~= tail);
        if let Some(r) = shell_reads(tail, false) {
            assert(s + r =~= r);
        }
    } else {
        let c = s.last();
        let piece = if is_bare(c) {
            seq![c]
        } else {
            seq!['\\', c]
        };
        let t = piece + tail;
        assert(backslashed(s) + tail =~= backslashed(s.drop_last()) + t);
        lemma_reads_backslashed(s.drop_last(), t);
        assert(shell_reads(t, false) == prepend(c, shell_reads(tail, false))) by {
            assert(t[0] == piece[0]);
            if is_bare(c) {
                assert(t.skip(1) =~= tail);
            } else {
                assert(t[1] == c);
                assert(t.skip(2) =~= tail);
            }
        }
        if let Some(r) = shell_reads(tail, false) {
            assert(s.drop_last() + (seq![c] + r) =~= s + r);
        }
    }
}

/// A shell reads an escaped text between single quotes as that text: no key or
/// token can break out of its quotes.
pub proof fn law_quoting_is_exact(s: Seq<char>)
    ensures
        shell_reads(seq!['\''] + escaped(s) + seq!['\''], false) == Some(s),
{
    let word = seq!['\''] + escaped(s) + seq!['\''];
    let tail = seq!['\''];
    assert(word.skip(1) =~= escaped(s) + tail);
    lemma_reads_escaped(s, tail);
    assert(tail.skip(1) =~= seq![]);
    assert(shell_reads(seq![], false) == Some(Seq::<char>::empty()));
    assert(shell_reads(tail, true) == Some(Seq::<char>::empty()));
    assert(s + seq![] =~= s);
}

proof fn lemma_reads_escaped(s: Seq<char>, tail: Seq<char>)
    ensures
        shell_reads(escaped(s) + tail, true) == (match shell_reads(tail, true) {
            Some(r) => Some(s + r),
            None => None,
        }),
    decreases s.len(),
{
    reveal_strlit("'\\''");
    let q = "'\\''"@;
    if s.len() == 0 {
        assert(escaped(s) + tail =~= tail);
        if let Some(r) = shell_reads(tail, true) {
            assert(s + r =~= r);
        }
    } else {
        let c = s.last();
        let piece = if c == '\'' {
            q
        } else {
            seq![c]
        };
        let t = piece + tail;
        assert(escaped(s) + tail =~= escaped(s.drop_last()) + t);
        lemma_reads_escaped(s.drop_last(), t);
        assert(shell_reads(t, true) == prepend(c, shell_reads(tail, true))) by {
            if c == '\'' {
                assert(t[0] == '\'' && t[1] == '\\' && t[2] == '\'' && t[3] == '\'');
                let t1 = t.skip(1);
                let t3 = t1.skip(2);
                assert(t1[0] == '\\' && t1[1] == '\'');
                assert(t3[0] == '\'');
                assert(t3.skip(1) =~= tail);
                assert(shell_reads(t3, false) == shell_reads(tail, true));
                assert(shell_reads(t1, false) == prepend('\'', shell_reads(t3, false)));
            } else {
                assert(t[0] == c);
                assert(t.skip(1) =~= tail);
            }
        }
        if let Some(r) = shell_reads(tail, true) {
            assert(s.drop_last() + (seq![c] + r) =~= s + r);
        }
    }
}

// ── Bootstrap script ─────────────────────────────────────────────────────────

/// The flag that names the node in the tailnet.
pub open spec fn hostname_flag(ts: TailscaleView) -> Seq<char> {
    match ts.hostname {
        Some(h) => " --hostname="@ + h,
        None => seq![],
    }
}

/// The flag that applies ACL tags.
pub open spec fn tags_flag(ts: TailscaleView) -> Seq<char> {
    if ts.tags.len() == 0 {
        seq![]
    } else {
        " --advertise-tags="@ + text::joined(ts.tags, ","@)
    }
}

/// The part of the script that installs Tailscale and joins the tailnet; empty
/// where Tailscale is not configured.
pub open spec fn tailscale_block(ts: Option<TailscaleView>) -> Seq<char> {
    match ts {
        Some(ts) =>
            "\n# ── Tailscale ──────────────────────────────────────────────────────────────────\ncurl -fsSL https://tailscale.com/install.sh | sh\n\n# Start the daemon\nsystemctl enable tailscaled\nsystemctl start  tailscaled\n\n# Join the tailnet\ntailscale up \\\n  --authkey='"@
            + escaped(ts.auth_key) + "' \\\n  --accept-routes \\\n  --ssh"@ + hostname_flag(ts) + tags_flag(ts)
            + "\n\necho \"Tailscale status:\"\ntailscale status\n"@,
        None => seq![],
    }
}

pub open spec fn tailscale_view(ts: Option<&TailscaleConfig>) -> Option<TailscaleView> {
    match ts {
        Some(t) => Some(t@),
        None => None,
    }
}

/// The part of the script that installs Tailscale and joins the tailnet.
pub fn build_tailscale_block(ts: Option<&TailscaleConfig>) -> (r: String)
    ensures
        r@ == tailscale_block(tailscale_view(ts)),
{
    let ts = match ts {
        Some(t) => t,
        None => {
            return String::new();
        },
    };
    let hostname = match &ts.hostname {
        Some(h) => " --hostname=".to_string().concat(h.as_str()),
        None => String::new(),
    };
    let tags = if ts.tags.len() == 0 {
        String::new()
    } else {
        " --advertise-tags=".to_string().concat(text::join(&ts.tags, ",").as_str())
    };
    "\n# ── Tailscale ──────────────────────────────────────────────────────────────────\ncurl -fsSL https://tailscale.com/install.sh | sh\n\n# Start the daemon\nsystemctl enable tailscaled\nsystemctl start  tailscaled\n\n# Join the tailnet\ntailscale up \\\n  --authkey='".to_string().concat(
        escape_quotes(ts.auth_key.as_str()).as_str(),
    ).concat("' \\\n  --accept-routes \\\n  --ssh").concat(hostname.as_str()).concat(tags.as_str()).concat(
        "\n\necho \"Tailscale status:\"\ntailscale status\n",
    )
}

/// The script that provisions the container.
pub open spec fn setup_script(public_key: Seq<char>, ts: Option<TailscaleView>) -> Seq<char> {
    "set -e\nexport DEBIAN_FRONTEND=noninteractive\n\n# ── Base packages ──────────────────────────────────────────────────────────────\napt-get update -qq\napt-get install -y -qq openssh-server rsync curl\n\n# ── Profile storage ────────────────────────────────────────────────────────────\nmkdir -p /profiles\nchmod 700 /profiles\n\n# ── SSH hardening ──────────────────────────────────────────────────────────────\nmkdir -p /root/.ssh\nchmod 700 /root/.ssh\necho '"@
        + escaped(text::trimmed(public_key))
        + "' >> /root/.ssh/authorized_keys\nchmod 600 /root/.ssh/authorized_keys\n\nsed -i 's/^#*PermitRootLogin.*/PermitRootLogin prohibit-password/'   /etc/ssh/sshd_config\nsed -i 's/^#*PasswordAuthentication.*/PasswordAuthentication no/'    /etc/ssh/sshd_config\nsed -i 's/^#*PubkeyAuthentication.*/PubkeyAuthentication yes/'       /etc/ssh/sshd_config\n\nsystemctl enable ssh  2>/dev/null || systemctl enable sshd  2>/dev/null || true\nsystemctl restart ssh 2>/dev/null || systemctl restart sshd 2>/dev/null || true\n\n"@
        + tailscale_block(ts) + "\n\necho \"dps bootstrap complete\"\n"@
}

/// The script that provisions the container.
pub fn bootstrap(ssh_public_key: &str, ts: Option<&TailscaleConfig>) -> (r: String)
    ensures
        r@ == setup_script(ssh_public_key@, tailscale_view(ts)),
{
    let key = escape_quotes(text::trim(ssh_public_key).as_str());
    let block = build_tailscale_block(ts);
    "set -e\nexport DEBIAN_FRONTEND=noninteractive\n\n# ── Base packages ──────────────────────────────────────────────────────────────\napt-get update -qq\napt-get install -y -qq openssh-server rsync curl\n\n# ── Profile storage ────────────────────────────────────────────────────────────\nmkdir -p /profiles\nchmod 700 /profiles\n\n# ── SSH hardening ──────────────────────────────────────────────────────────────\nmkdir -p /root/.ssh\nchmod 700 /root/.ssh\necho '".to_string().concat(
        key.as_str(),
    ).concat(
        "' >> /root/.ssh/authorized_keys\nchmod 600 /root/.ssh/authorized_keys\n\nsed -i 's/^#*PermitRootLogin.*/PermitRootLogin prohibit-password/'   /etc/ssh/sshd_config\nsed -i 's/^#*PasswordAuthentication.*/PasswordAuthentication no/'    /etc/ssh/sshd_config\nsed -i 's/^#*PubkeyAuthentication.*/PubkeyAuthentication yes/'       /etc/ssh/sshd_config\n\nsystemctl enable ssh  2>/dev/null || systemctl enable sshd  2>/dev/null || true\nsystemctl restart ssh 2>/dev/null || systemctl restart sshd 2>/dev/null || true\n\n",
    ).concat(block.as_str()).concat("\n\necho \"dps bootstrap complete\"\n")
}

/// The remote command that feeds a script to a shell.
pub open spec fn script_command(script: Seq<char>) -> Seq<char> {
    "bash -s <<'__DPS_EOF__'\n"@ + script + "\n__DPS_EOF__"@
}

/// The login that provisions the container.
pub open spec fn root_at(ip: Seq<char>) -> Seq<char> {
    "root@"@ + ip
}

/// The options of ssh during provisioning.
pub open spec fn base_args(cfg: SyncView) -> Seq<Seq<char>> {
    let fixed = seq![
        "-p"@,
        number::decimal(cfg.ssh_port as nat),
        "-o"@,
        "StrictHostKeyChecking=no"@,
        "-o"@,
        "ConnectTimeout=15"@,
        "-o"@,
        "BatchMode=yes"@,
    ];
    match cfg.ssh_identity_file {
        Some(id) => fixed + seq!["-i"@, id],
        None => fixed,
    }
}

/// The options of ssh during provisioning.
pub fn ssh_base_args(cfg: &SyncConfig) -> (r: Vec<String>)
    ensures
        text::strs(r@) == base_args(cfg@),
{
    broadcast use text::lemma_strs_push;

    let mut args: Vec<String> = Vec::new();
    args.push("-p".to_string());
    args.push(number::to_decimal(cfg.ssh_port as u64));
    args.push("-o".to_string());
    args.push("StrictHostKeyChecking=no".to_string());
    args.push("-o".to_string());
    args.push("ConnectTimeout=15".to_string());
    args.push("-o".to_string());
    args.push("BatchMode=yes".to_string());
    if let Some(id) = &cfg.ssh_identity_file {
        args.push("-i".to_string());
        args.push(id.clone());
    }
    assert(text::strs(args@) =~= base_args(cfg@));
    args
}

/// A program with its arguments.
#[derive(Debug)]
pub struct Command {
    pub program: String,
    pub args: Vec<String>,
}

/// The arguments of ssh that run one command as root on the container.
pub open spec fn remote_args(ip: Seq<char>, cfg: SyncView, command: Seq<char>) -> Seq<Seq<char>> {
    base_args(cfg) + seq![root_at(ip), command]
}

fn remote_command(ip: &str, cfg: &SyncConfig, command: String) -> (r: Vec<String>)
    ensures
        text::strs(r@) == remote_args(ip@, cfg@, command@),
{
    broadcast use text::lemma_strs_push;

    let mut args = ssh_base_args(cfg);
    args.push("root@".to_string().concat(ip));
    args.push(command);
    assert(text::strs(args@) =~= remote_args(ip@, cfg@, command@));
    args
}

/// The program that runs a script on the container: `sshpass` with the root
/// password where it is installed, else ssh with the user's key.
pub fn run_script_over_ssh(
    ip: &str,
    root_password: &str,
    script: &str,
    cfg: &SyncConfig,
    has_sshpass: bool,
) -> (r: Command)
    ensures
        has_sshpass ==> r.program@ == "sshpass"@ && text::strs(r.args@) == seq![
            "-p"@,
            root_password@,
            "ssh"@,
            "-p"@,
            number::decimal(cfg.ssh_port as nat),
            "-o"@,
            "StrictHostKeyChecking=no"@,
            "-o"@,
            "ConnectTimeout=15"@,
            root_at(ip@),
            script_command(script@),
        ],
        !has_sshpass ==> r.program@ == "ssh"@ && text::strs(r.args@) == remote_args(
            ip@,
            cfg@,
            script_command(script@),
        ),
{
    broadcast use text::lemma_strs_push;

    let command = "bash -s <<'__DPS_EOF__'\n".to_string().concat(script).concat("\n__DPS_EOF__");
    if has_sshpass {
        let mut args: Vec<String> = Vec::new();
        args.push("-p".to_string());
        args.push(root_password.to_string());
        args.push("ssh".to_string());
        args.push("-p".to_string());
        args.push(number::to_decimal(cfg.ssh_port as u64));
        args.push("-o".to_string());
        args.push("StrictHostKeyChecking=no".to_string());
        args.push("-o".to_string());
        args.push("ConnectTimeout=15".to_string());
        args.push("root@".to_string().concat(ip));
        args.push(command);
        assert(text::strs(args@) =~= seq![
            "-p"@,
            root_password@,
            "ssh"@,
            "-p"@,
            number::decimal(cfg.ssh_port as nat),
            "-o"@,
            "StrictHostKeyChecking=no"@,
            "-o"@,
            "ConnectTimeout=15"@,
            root_at(ip@),
            script_command(script@),
        ]);
        Command { program: "sshpass".to_string(), args }
    } else {
        Command { program: "ssh".to_string(), args: remote_command(ip, cfg, command) }
    }
}

// ── Tailscale ────────────────────────────────────────────────────────────────

/// The arguments of ssh that ask the container for its Tailscale IP.
pub fn tailscale_ip_args(ip: &str, cfg: &SyncConfig) -> (r: Vec<String>)
    ensures
        text::strs(r@) == remote_args(ip@, cfg@, "tailscale ip --4 2>/dev/null || true"@),
{
    remote_command(ip, cfg, "tailscale ip --4 2>/dev/null || true".to_string())
}

/// The Tailscale IP that the container answered with; `None` for a blank answer.
pub fn get_tailscale_ip(output: &str) -> (r: Option<String>)
    ensures
        text::opt(r) == (if text::trimmed(output@).len() == 0 {
            None
        } else {
            Some(text::trimmed(output@))
        }),
{
    let ip = text::trim(output);
    if ip.as_str().is_empty() {
        None
    } else {
        Some(ip)
    }
}

/// The arguments of ssh that authenticate the container with a new key.
pub fn tailscale_reauth(ip: &str, auth_key: &str, cfg: &SyncConfig) -> (r: Vec<String>)
    ensures
        text::strs(r@) == remote_args(
            ip@,
            cfg@,
            "tailscale up --authkey='"@ + escaped(auth_key@) + "' --accept-routes --ssh"@,
        ),
{
    let command = "tailscale up --authkey='".to_string().concat(escape_quotes(auth_key).as_str()).concat(
        "' --accept-routes --ssh",
    );
    remote_command(ip, cfg, command)
}

/// The arguments of ssh that show the Tailscale status of the container.
pub fn tailscale_status(ip: &str, cfg: &SyncConfig) -> (r: Vec<String>)
    ensures
        text::strs(r@) == remote_args(ip@, cfg@, "tailscale status"@),
{
    remote_command(ip, cfg, "tailscale status".to_string())
}

// ── Public key ───────────────────────────────────────────────────────────────

/// Where the user's public key may be.
#[derive(Debug)]
pub enum KeyFile {
    /// This file and no other.
    Configured(String),
    /// The first of these files that is there.
    FirstOf(Vec<String>),
}

/// The mathematical content of a [`KeyFile`].
pub ghost enum KeyFileView {
    Configured(Seq<char>),
    FirstOf(Seq<Seq<char>>),
}

impl View for KeyFile {
    type V = KeyFileView;

    open spec fn view(&self) -> KeyFileView {
        match self {
            KeyFile::Configured(p) => KeyFileView::Configured(p@),
            KeyFile::FirstOf(v) => KeyFileView::FirstOf(text::strs(v@)),
        }
    }
}

/// Where the user's public key may be: the configured file, else the usual
/// files in the home directory.  `None` where the configured file needs a home
/// directory and there is none.
pub open spec fn key_file(configured: Option<Seq<char>>, home: Option<Seq<char>>) -> Option<KeyFileView> {
    match (configured, home) {
        (Some(p), Some(h)) if text::has_prefix(p, "~/"@) => Some(
            KeyFileView::Configured(path::joined(h, p.skip(2))),
        ),
        (Some(p), None) if text::has_prefix(p, "~/"@) => None,
        (Some(p), _) => Some(KeyFileView::Configured(p)),
        (None, Some(h)) => {
            let dir = path::joined(h, ".ssh"@);
            Some(
                KeyFileView::FirstOf(
                    seq![
                        path::joined(dir, "id_ed25519.pub"@),
                        path::joined(dir, "id_ecdsa.pub"@),
                        path::joined(dir, "id_rsa.pub"@),
                    ],
                ),
            )
        },
        (None, None) => Some(KeyFileView::FirstOf(seq![])),
    }
}

pub open spec fn key_file_result(r: Result<KeyFile, Error>, expected: Option<KeyFileView>) -> bool {
    match (r, expected) {
        (Ok(k), Some(v)) => k@ == v,
        (Err(e), None) => e@ == ErrorView::Config("cannot determine home directory"@),
        _ => false,
    }
}

/// Where the user's public key may be, given the home directory.
pub fn public_key_file(cfg: &SyncConfig, home: Option<&str>) -> (r: Result<KeyFile, Error>)
    ensures
        key_file_result(r, key_file(cfg@.ssh_public_key_file, text::opt_ref(home))),
{
    broadcast use text::lemma_strs_push;

    proof {
        reveal_strlit("~/");
    }
    if let Some(p) = &cfg.ssh_public_key_file {
        if let Some(rest) = text::strip_prefix(p.as_str(), "~/") {
            return match home {
                Some(h) => Ok(KeyFile::Configured(path::join(h, rest.as_str()))),
                None => Err(Error::Config("cannot determine home directory".to_string())),
            };
        }
        return Ok(KeyFile::Configured(p.clone()));
    }
    let mut files: Vec<String> = Vec::new();
    if let Some(h) = home {
        let dir = path::join(h, ".ssh");
        files.push(path::join(dir.as_str(), "id_ed25519.pub"));
        files.push(path::join(dir.as_str(), "id_ecdsa.pub"));
        files.push(path::join(dir.as_str(), "id_rsa.pub"));
        assert(text::strs(files@) =~= seq![
            path::joined(dir@, "id_ed25519.pub"@),
            path::joined(dir@, "id_ecdsa.pub"@),
            path::joined(dir@, "id_rsa.pub"@),
        ]);
    } else {
        assert(text::strs(files@) =~= seq![]);
    }
    Ok(KeyFile::FirstOf(files))
}

/// Where the user's public key may be.
pub fn resolve_public_key(cfg: &SyncConfig) -> (r: Result<KeyFile, Error>)
    ensures
        exists|home: Option<Seq<char>>|
            path::is_home(home) && key_file_result(r, #[trigger] key_file(cfg@.ssh_public_key_file, home)),
{
    match path::home_dir() {
        Some(h) => public_key_file(cfg, Some(h.as_str())),
        None => public_key_file(cfg, None),
    }
}

/// The file to read the public key from, given which of the candidates are
/// there.
pub fn choose_key_file(file: &KeyFile, present: &Vec<bool>) -> (r: Result<String, Error>)
    requires
        file matches KeyFile::FirstOf(files) ==> files@.len() == present@.len(),
    ensures
        match *file {
            KeyFile::Configured(p) => r matches Ok(q) && q@ == p@,
            KeyFile::FirstOf(files) => match r {
                Ok(q) => exists|i: int|
                    0 <= i < files@.len() && #[trigger] present@[i] && q@ == files@[i]@ && forall|j: int|
                        0 <= j < i ==> !#[trigger] present@[j],
                Err(e) => e@ == ErrorView::Config(
                    "no SSH public key found — set sync.ssh_public_key_file in config or generate a key with `ssh-keygen`"@,
                ) && forall|j: int| 0 <= j < files@.len() ==> !#[trigger] present@[j],
            },
        },
{
    match file {
        KeyFile::Configured(p) => Ok(p.clone()),
        KeyFile::FirstOf(files) => {
            let mut i: usize = 0;
            while i < files.len()
                invariant
                    i <= files@.len(),
                    files@.len() == present@.len(),
                    *file == KeyFile::FirstOf(*files),
                    forall|j: int| 0 <= j < i ==> !#[trigger] present@[j],
                decreases files@.len() - i,
            {
                if present[i] {
                    return Ok(files[i].clone());
                }
                i += 1;
            }
            Err(
                Error::Config(
                    "no SSH public key found — set sync.ssh_public_key_file in config or generate a key with `ssh-keygen`".to_string(),
                ),
            )
        },
    }
}

/// The error for a public key that cannot be read.
pub fn key_read_error(file: &KeyFile, chosen: &str, cause: &str) -> (r: Error)
    ensures
        r@ == ErrorView::Config(
            (if file is Configured {
                "cannot read SSH public key "@
            } else {
                "cannot read "@
            }) + chosen@ + ": "@ + cause@,
        ),
{
    let what = match file {
        KeyFile::Configured(_) => "cannot read SSH public key ".to_string(),
        KeyFile::FirstOf(_) => "cannot read ".to_string(),
    };
    Error::Config(what.concat(chosen).concat(": ").concat(cause))
}

/// A configured key file wins over every other.
pub proof fn law_configured_key_wins(p: Seq<char>, home: Option<Seq<char>>)
    ensures
        match key_file(Some(p), home) {
            Some(k) => k is Configured,
            None => text::has_prefix(p, "~/"@) && home is None,
        },
{
}

} // verus!
