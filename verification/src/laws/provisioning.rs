//! Laws on provisioning the container.

use vstd::prelude::*;
use vstd::string::*;
use crate::config::{SyncView, TailscaleConfig, TailscaleView};
use crate::error::{Error, ErrorView};
use crate::laws::numbers;
use crate::laws::texts;
use crate::number;
use crate::number::NumberError;
use crate::path;
use crate::sync::setup;
use crate::sync::setup::{KeyFile, KeyFileView};
use crate::text;

verus! {

/// The tags are advertised whenever there are some, with commas between them,
/// whatever the other settings are, and only then.
pub proof fn law_tags_are_advertised(ts: TailscaleView)
    ensures
        ts.tags.len() > 0 ==> text::occurs(
            setup::tailscale_block(Some(ts)),
            " --advertise-tags="@ + text::joined(ts.tags, ","@),
        ),
        ts.tags.len() > 0 ==> setup::tags_flag(ts) == " --advertise-tags="@ + text::joined(ts.tags, ","@),
        ts.tags.len() == 0 ==> setup::tags_flag(ts) == Seq::<char>::empty(),
{
    if ts.tags.len() > 0 {
        let flag = " --advertise-tags="@ + text::joined(ts.tags, ","@);
        let all = setup::tailscale_block(Some(ts));
        let before = block_start(ts) + setup::hostname_flag(ts);
        let after = block_end();
        assert(all =~= before + flag + after);
        texts::law_occurring(before, flag, after, all);
    }
}

/// The name in the tailnet is set whenever one is configured, whatever the other
/// settings are, and only then.
pub proof fn law_tailnet_names_are_set(ts: TailscaleView)
    ensures
        ts.hostname matches Some(h) ==> text::occurs(setup::tailscale_block(Some(ts)), " --hostname="@ + h),
        ts.hostname matches Some(h) ==> setup::hostname_flag(ts) == " --hostname="@ + h,
        ts.hostname is None ==> setup::hostname_flag(ts) == Seq::<char>::empty(),
{
    if let Some(h) = ts.hostname {
        let flag = " --hostname="@ + h;
        let all = setup::tailscale_block(Some(ts));
        let before = block_start(ts);
        let after = setup::tags_flag(ts) + block_end();
        assert(all =~= before + flag + after);
        texts::law_occurring(before, flag, after, all);
    }
}

/// Tailscale is installed and started, and then joins the tailnet with the key, in
/// quotes that keep it whole, with subnet routes and SSH; in the end its state is
/// shown.  Two sections that differ only in the name differ only in the flag that sets
/// it; two that differ only in the tags differ only in the flag that advertises them.
pub proof fn law_flags_stand_alone(ts: TailscaleView, h: Option<Seq<char>>, tags: Seq<Seq<char>>)
    ensures
        ({
            let bare = TailscaleView { hostname: None, tags: seq![], ..ts };
            let named = TailscaleView { hostname: h, ..bare };
            let tagged = TailscaleView { tags, ..bare };
            let both = TailscaleView { hostname: h, tags, ..bare };
            let start = "\n# ── Tailscale ──────────────────────────────────────────────────────────────────\ncurl -fsSL https://tailscale.com/install.sh | sh\n\n# Start the daemon\nsystemctl enable tailscaled\nsystemctl start  tailscaled\n\n# Join the tailnet\ntailscale up \\\n  --authkey='"@
                + setup::escaped(ts.auth_key) + "' \\\n  --accept-routes \\\n  --ssh"@;
            let end = "\n\necho \"Tailscale status:\"\ntailscale status\n"@;
            &&& setup::tailscale_block(Some(bare)) == start + end
            &&& setup::tailscale_block(Some(named)) == start + (match h {
                Some(h) => " --hostname="@ + h,
                None => seq![],
            }) + end
            &&& setup::tailscale_block(Some(tagged)) == start + (if tags.len() > 0 {
                " --advertise-tags="@ + text::joined(tags, ","@)
            } else {
                seq![]
            }) + end
            &&& setup::tailscale_block(Some(both)) == start + (match h {
                Some(h) => " --hostname="@ + h,
                None => seq![],
            }) + (if tags.len() > 0 {
                " --advertise-tags="@ + text::joined(tags, ","@)
            } else {
                seq![]
            }) + end
        }),
        setup::tailscale_block(None) == Seq::<char>::empty(),
        setup::shell_reads(seq!['\''] + setup::escaped(ts.auth_key) + seq!['\''], false) == Some(ts.auth_key),
{
    setup::law_quoting_is_exact(ts.auth_key);
    let bare = TailscaleView { hostname: None, tags: seq![], ..ts };
    let named = TailscaleView { hostname: h, ..bare };
    let tagged = TailscaleView { tags, ..bare };
    assert(setup::tailscale_block(Some(bare)) =~= block_start(ts) + block_end());
    assert(setup::tailscale_block(Some(named)) =~= block_start(ts) + setup::hostname_flag(named) + block_end());
    assert(setup::tailscale_block(Some(tagged)) =~= block_start(ts) + setup::tags_flag(tagged) + block_end());
}

spec fn block_start(ts: TailscaleView) -> Seq<char> {
    "\n# ── Tailscale ──────────────────────────────────────────────────────────────────\ncurl -fsSL https://tailscale.com/install.sh | sh\n\n# Start the daemon\nsystemctl enable tailscaled\nsystemctl start  tailscaled\n\n# Join the tailnet\ntailscale up \\\n  --authkey='"@
        + setup::escaped(ts.auth_key) + "' \\\n  --accept-routes \\\n  --ssh"@
}

spec fn block_end() -> Seq<char> {
    "\n\necho \"Tailscale status:\"\ntailscale status\n"@
}

/// The script stops at the first failure, installs what is needed, makes the place
/// for the profiles, lets the key in and passwords out, joins the tailnet where that
/// is configured, and says when it is done.  The key is trimmed, and quoted so that a
/// shell reads it as it is.
pub proof fn law_the_script_provisions(key: Seq<char>, ts: Option<TailscaleView>)
    ensures
        setup::setup_script(key, ts) == "set -e\nexport DEBIAN_FRONTEND=noninteractive\n\n# ── Base packages ──────────────────────────────────────────────────────────────\napt-get update -qq\napt-get install -y -qq openssh-server rsync curl\n\n# ── Profile storage ────────────────────────────────────────────────────────────\nmkdir -p /profiles\nchmod 700 /profiles\n\n# ── SSH hardening ──────────────────────────────────────────────────────────────\nmkdir -p /root/.ssh\nchmod 700 /root/.ssh\necho '"@
            + setup::escaped(text::trimmed(key))
            + "' >> /root/.ssh/authorized_keys\nchmod 600 /root/.ssh/authorized_keys\n\nsed -i 's/^#*PermitRootLogin.*/PermitRootLogin prohibit-password/'   /etc/ssh/sshd_config\nsed -i 's/^#*PasswordAuthentication.*/PasswordAuthentication no/'    /etc/ssh/sshd_config\nsed -i 's/^#*PubkeyAuthentication.*/PubkeyAuthentication yes/'       /etc/ssh/sshd_config\n\nsystemctl enable ssh  2>/dev/null || systemctl enable sshd  2>/dev/null || true\nsystemctl restart ssh 2>/dev/null || systemctl restart sshd 2>/dev/null || true\n\n"@
            + setup::tailscale_block(ts) + "\n\necho \"dps bootstrap complete\"\n"@,
        setup::shell_reads(seq!['\''] + setup::escaped(text::trimmed(key)) + seq!['\''], false) == Some(
            text::trimmed(key),
        ),
{
    setup::law_quoting_is_exact(text::trimmed(key));
}

/// A script is handed to a shell between two marks, unchanged.
pub proof fn law_scripts_are_handed_over_whole(script: Seq<char>)
    ensures
        setup::script_command(script) == "bash -s <<'__DPS_EOF__'\n"@ + script + "\n__DPS_EOF__"@,
{
}

/// The container is provisioned as root at its address, over the configured port,
/// with the configured key, without questions; the command comes last.
pub proof fn law_provisioning_logs_in_as_root(ip: Seq<char>, cfg: SyncView, command: Seq<char>)
    ensures
        ({
            let args = setup::remote_args(ip, cfg, command);
            let n = args.len();
            &&& args[n - 1] == command
            &&& args[n - 2] == "root@"@ + ip
            &&& args[0] == "-p"@
            &&& number::read_number(args[1], u16::MAX as int) == Ok::<int, NumberError>(cfg.ssh_port as int)
            &&& args.subrange(2, 8) == seq![
                "-o"@,
                "StrictHostKeyChecking=no"@,
                "-o"@,
                "ConnectTimeout=15"@,
                "-o"@,
                "BatchMode=yes"@,
            ]
            &&& match cfg.ssh_identity_file {
                Some(id) => n == 12 && args[8] == "-i"@ && args[9] == id,
                None => n == 10,
            }
            &&& setup::base_args(cfg) == args.take(n - 2)
            &&& setup::root_at(ip) == args[n - 2]
        }),
{
    let args = setup::remote_args(ip, cfg, command);
    numbers::law_digits_are_read_back(cfg.ssh_port as nat, u16::MAX as int);
    assert(args.subrange(2, 8) =~= seq![
        "-o"@,
        "StrictHostKeyChecking=no"@,
        "-o"@,
        "ConnectTimeout=15"@,
        "-o"@,
        "BatchMode=yes"@,
    ]);
    assert(setup::base_args(cfg) =~= args.take(args.len() - 2));
}

/// A configured key is taken from where it is said to be, below the home directory
/// where it says so; else one of the usual keys in the home directory is, the modern
/// kind first.
pub proof fn law_keys_are_found(rest: Seq<char>, home: Seq<char>, p: Seq<char>, no_home: Option<Seq<char>>)
    requires
        home.len() > 0,
        home.last() != '/',
        !(rest.len() > 0 && rest[0] == '/'),
        !"~/"@.is_prefix_of(p),
    ensures
        setup::key_file(Some("~/"@ + rest), Some(home)) == Some(KeyFileView::Configured(home + "/"@ + rest)),
        setup::key_file(Some("~/"@ + rest), None) is None,
        setup::key_file(Some(p), no_home) == Some(KeyFileView::Configured(p)),
        setup::key_file(None, Some(home)) == Some(
            KeyFileView::FirstOf(
                seq![
                    home + "/"@ + ".ssh"@ + "/"@ + "id_ed25519.pub"@,
                    home + "/"@ + ".ssh"@ + "/"@ + "id_ecdsa.pub"@,
                    home + "/"@ + ".ssh"@ + "/"@ + "id_rsa.pub"@,
                ],
            ),
        ),
        setup::key_file(None, None) == Some(KeyFileView::FirstOf(seq![])),
{
    reveal_strlit("~/");
    reveal_strlit(".ssh");
    reveal_strlit("id_ed25519.pub");
    reveal_strlit("id_ecdsa.pub");
    reveal_strlit("id_rsa.pub");
    let under = "~/"@ + rest;
    assert(under.take(2) =~= "~/"@);
    assert(under.skip(2) =~= rest);
    if text::has_prefix(p, "~/"@) {
        assert("~/"@.is_prefix_of(p));
    }
    assert(".ssh"@[0] == '.' && "id_ed25519.pub"@[0] == 'i' && "id_ecdsa.pub"@[0] == 'i' && "id_rsa.pub"@[0] == 'i');
    assert((home + "/"@ + ".ssh"@).last() == ".ssh"@[3]);
}

/// A key below the home directory is looked for in it, wherever that is.
pub proof fn law_keys_lie_below_the_home_directory(rest: Seq<char>, home: Seq<char>)
    ensures
        setup::key_file(Some("~/"@ + rest), Some(home)) == Some(KeyFileView::Configured(path::joined(home, rest))),
        setup::key_file(None, Some(home)) == Some(
            KeyFileView::FirstOf(
                seq![
                    path::joined(path::joined(home, ".ssh"@), "id_ed25519.pub"@),
                    path::joined(path::joined(home, ".ssh"@), "id_ecdsa.pub"@),
                    path::joined(path::joined(home, ".ssh"@), "id_rsa.pub"@),
                ],
            ),
        ),
{
    reveal_strlit("~/");
    let under = "~/"@ + rest;
    assert(under.take(2) =~= "~/"@);
    assert(under.skip(2) =~= rest);
}

/// Where a key is looked for, or that there is no home directory, is told as it is.
pub proof fn law_places_of_keys_are_told(r: Result<KeyFile, Error>, expected: Option<KeyFileView>)
    ensures
        setup::key_file_result(r, expected) <==> (match expected {
            Some(v) => r matches Ok(k) && k@ == v,
            None => r matches Err(e) && e@ == ErrorView::Config("cannot determine home directory"@),
        }),
{
}

/// A section that is handed over by reference is seen as it is.
pub proof fn law_sections_are_seen_whole(ts: Option<&TailscaleConfig>)
    ensures
        setup::tailscale_view(ts) is Some <==> ts is Some,
        ts matches Some(t) ==> setup::tailscale_view(ts) == Some(t@),
{
}

/// A place for a key is seen as it is.
pub proof fn law_key_places_are_seen_whole(k: KeyFile)
    ensures
        match (k, k@) {
            (KeyFile::Configured(a), KeyFileView::Configured(b)) => a@ == b,
            (KeyFile::FirstOf(a), KeyFileView::FirstOf(b)) => b == text::strs(a@),
            _ => false,
        },
{
}

/// In quotes a single quote is written as the end of the quotes, a quote behind a
/// backslash, and the beginning of new quotes; every other character as itself.
pub proof fn law_quotes_are_escaped(a: Seq<char>, b: Seq<char>, c: char)
    ensures
        setup::escaped(a + b) == setup::escaped(a) + setup::escaped(b),
        setup::escaped(seq!['\'']) == seq!['\'', '\\', '\'', '\''],
        c != '\'' ==> setup::escaped(seq![c]) == seq![c],
{
    reveal_strlit("'\\''");
    texts::law_replacing_goes_by_characters(a, b, '\'', "'\\''"@, c);
    assert("'\\''"@ =~= seq!['\'', '\\', '\'', '\'']);
}

/// A shell reads a backslash and a character as the character, and every character in
/// single quotes as itself; a quote that is not closed and a backslash before nothing
/// it does not read.
pub proof fn law_how_a_shell_reads(c: char, rest: Seq<char>)
    ensures
        ({
            let then = setup::shell_reads(rest, false);
            let quoted = setup::shell_reads(rest, true);
            &&& setup::shell_reads(seq!['\\', c] + rest, false) == (match then {
                Some(r) => Some(seq![c] + r),
                None => None,
            })
            &&& c != '\'' && c != '\\' ==> setup::shell_reads(seq![c] + rest, false) == (match then {
                Some(r) => Some(seq![c] + r),
                None => None,
            })
            &&& c != '\'' ==> setup::shell_reads(seq![c] + rest, true) == (match quoted {
                Some(r) => Some(seq![c] + r),
                None => None,
            })
            &&& setup::shell_reads(seq!['\''] + rest, false) == quoted
            &&& setup::shell_reads(seq!['\''] + rest, true) == then
            &&& setup::shell_reads(seq![], false) == Some(Seq::<char>::empty())
            &&& setup::shell_reads(seq![], true) is None
            &&& setup::shell_reads(seq!['\\'], false) is None
        }),
{
    assert((seq!['\\', c] + rest).skip(2) =~= rest);
    assert((seq![c] + rest).skip(1) =~= rest);
    assert((seq!['\''] + rest).skip(1) =~= rest);
}

/// Backslashes are put in character by character: before every character but letters,
/// digits, what is not ASCII, and the ten signs that mean nothing to a shell.
pub proof fn law_backslashes_go_by_characters(a: Seq<char>, b: Seq<char>, c: char)
    ensures
        setup::backslashed(a + b) == setup::backslashed(a) + setup::backslashed(b),
        setup::backslashed(seq![c]) == (if 'a' <= c <= 'z' || 'A' <= c <= 'Z' || '0' <= c <= '9' || c as u32 > 127 || c
            == '/' || c == '.' || c == '_' || c == '-' || c == '+' || c == ',' || c == ':' || c == '@' || c == '%' || c
            == '=' {
            seq![c]
        } else {
            seq!['\\', c]
        }),
    decreases b.len(),
{
    law_meanings_are_taken_away(c);
    reveal_with_fuel(setup::backslashed, 2);
    assert(seq![c].drop_last() =~= seq![]);
    assert(setup::backslashed(seq![c]) =~= (if setup::is_bare(c) {
        seq![c]
    } else {
        seq!['\\', c]
    }));
    if b.len() == 0 {
        assert(a + b =~= a);
    } else {
        law_backslashes_go_by_characters(a, b.drop_last(), c);
        assert((a + b).drop_last() =~= a + b.drop_last());
        assert((a + b).last() == b.last());
    }
    assert(setup::backslashed(a + b) =~= setup::backslashed(a) + setup::backslashed(b));
}

/// Every character that a shell or a file name pattern gives a meaning gets a
/// backslash, and letters, digits and slashes get none.
pub proof fn law_meanings_are_taken_away(c: char)
    ensures
        c == ' ' || c == '\'' || c == '"' || c == '$' || c == '`' || c == '\\' || c == '*' || c == '?' || c == '['
            || c == ']' || c == '{' || c == '}' || c == '(' || c == ')' || c == '<' || c == '>' || c == '|' || c == '&'
            || c == ';' || c == '!' || c == '#' || c == '~' || c == '^' || c == '\n' || c == '\t'
            ==> setup::backslashed(seq![c]) == seq!['\\', c],
        'a' <= c <= 'z' || 'A' <= c <= 'Z' || '0' <= c <= '9' || c == '/' || c == '.' || c == '-' || c == '_'
            ==> setup::backslashed(seq![c]) == seq![c],
{
    reveal_with_fuel(setup::backslashed, 2);
    assert(seq![c].drop_last() =~= seq![]);
    assert(setup::backslashed(seq![c]) =~= (if setup::is_bare(c) {
        seq![c]
    } else {
        seq!['\\', c]
    }));
}

} // verus!
