//! Laws on the first-time setup.

use vstd::prelude::*;
use vstd::string::*;
use vstd::utf8::*;
use crate::config::{AuthView, ConfigView, ContainerView, DaemonView, NetworkView, ProxmoxView, SyncPathView, SyncView, TailscaleView};
use crate::laws::numbers;
use crate::laws::texts;
use crate::number;
use crate::text;
use crate::wizard;
use crate::wizard::{Kind, KindView, Reply, ReplyView, Step, Wizard, WizardView};

verus! {

// ── How questions are put and answers read ───────────────────────────────────

/// A question is put with its label and, where there is a default, with that.
pub proof fn law_questions_show_their_default(label: Seq<char>, d: Seq<char>, max: u64, options: Seq<Seq<char>>)
    ensures
        wizard::prompt(label, KindView::Required) == label + ": "@,
        wizard::prompt(label, KindView::Optional) == label + ": "@,
        wizard::prompt(label, KindView::Secret) == label + ": "@,
        wizard::prompt(label, KindView::Default(d)) == label + " ["@ + d + "]: "@,
        wizard::prompt(label, KindView::Number { default: d, max }) == label + " ["@ + d + "]: "@,
        wizard::prompt(label, KindView::YesNo(true)) == label + " ["@ + "Y/n"@ + "]"@ + ": "@,
        wizard::prompt(label, KindView::YesNo(false)) == label + " ["@ + "y/N"@ + "]"@ + ": "@,
        wizard::prompt(label, KindView::Choice { options, default: d }) == label + " ("@ + text::joined(options, "/"@)
            + ")"@ + " ["@ + d + "]: "@,
{
}

/// Of a line only its end is taken away, and nothing of what was typed.
pub proof fn law_lines_are_taken_as_typed(s: Seq<char>, carriage: Seq<char>, feeds: Seq<char>)
    requires
        texts::only(carriage, '\r') && texts::only(feeds, '\n'),
        s.len() > 0 ==> s.last() != '\r' && s.last() != '\n',
    ensures
        wizard::typed(s + carriage + feeds) == s,
{
    let t = s + carriage;
    if t.len() > 0 {
        if carriage.len() > 0 {
            assert(carriage[carriage.len() - 1] == '\r');
            assert(t.last() == carriage.last());
        } else {
            assert(t =~= s);
        }
    }
    texts::law_stripping_takes_only_the_character(feeds, t, '\n');
    texts::law_stripping_takes_only_the_character(carriage, s, '\r');
}

/// What is typed is the answer; a blank stands for the default where there is one, for
/// nothing where an answer may be left out, and is refused where one is required.
pub proof fn law_answers_are_what_is_typed(s: Seq<char>, d: Seq<char>)
    requires
        s.len() > 0 && s.last() != '\r' && s.last() != '\n',
    ensures
        wizard::reading(KindView::Required, s) == Ok::<ReplyView, Seq<char>>(ReplyView::Text(s)),
        wizard::reading(KindView::Default(d), s) == Ok::<ReplyView, Seq<char>>(ReplyView::Text(s)),
        wizard::reading(KindView::Optional, s) == Ok::<ReplyView, Seq<char>>(ReplyView::Text(s)),
        wizard::reading(KindView::Secret, s) == Ok::<ReplyView, Seq<char>>(ReplyView::Text(s)),
        wizard::reading(KindView::Required, seq!['\n']) == Err::<ReplyView, Seq<char>>("  (this field is required)"@),
        wizard::reading(KindView::Default(d), seq!['\n']) == Ok::<ReplyView, Seq<char>>(ReplyView::Text(d)),
        wizard::reading(KindView::Optional, seq!['\n']) == Ok::<ReplyView, Seq<char>>(ReplyView::Nothing),
        wizard::reading(KindView::Secret, seq![]) == Err::<ReplyView, Seq<char>>("  (this field is required)"@),
{
    lemma_typed(s);
}

proof fn lemma_typed(s: Seq<char>)
    requires
        s.len() > 0 ==> s.last() != '\r' && s.last() != '\n',
    ensures
        wizard::typed(s) == s,
        wizard::typed(seq!['\n']) == Seq::<char>::empty(),
{
    law_lines_are_taken_as_typed(s, seq![], seq![]);
    assert(s + seq![] + seq![] =~= s);
    law_lines_are_taken_as_typed(seq![], seq![], seq!['\n']);
    assert(Seq::<char>::empty() + Seq::<char>::empty() + seq!['\n'] =~= seq!['\n']);
}

/// A secret is taken as it is, with whatever stands at its end.
pub proof fn law_secrets_are_kept_whole(line: Seq<char>)
    requires
        line.len() > 0,
    ensures
        wizard::reading(KindView::Secret, line) == Ok::<ReplyView, Seq<char>>(ReplyView::Text(line)),
{
}

/// A number is the answer exactly if it is no larger than allowed; what is no such
/// number is refused, with the reason.
pub proof fn law_numbers_are_read(n: nat, default: Seq<char>, max: u64, s: Seq<char>)
    requires
        s.len() > 0 && s.last() != '\r' && s.last() != '\n',
    ensures
        ({
            let kind = KindView::Number { default, max };
            &&& n <= max ==> wizard::reading(kind, number::decimal(n)) == Ok::<ReplyView, Seq<char>>(
                ReplyView::Number(n as u64),
            )
            &&& match number::read_number(s, max as int) {
                Ok(k) => wizard::reading(kind, s) == Ok::<ReplyView, Seq<char>>(ReplyView::Number(k as u64)),
                Err(e) => wizard::reading(kind, s) == Err::<ReplyView, Seq<char>>("  invalid value: "@ + e.text()),
            }
            &&& default.len() > 0 && default.last() != '\r' && default.last() != '\n' ==> wizard::reading(
                kind,
                seq!['\n'],
            ) == wizard::reading(kind, default)
        }),
{
    lemma_typed(s);
    if default.len() > 0 && default.last() != '\r' && default.last() != '\n' {
        lemma_typed(default);
    }
    if n <= max {
        numbers::law_digits_are_read_back(n, max as int);
        let t = number::decimal(n);
        let c = t[t.len() - 1];
        assert('0' <= c <= '9');
        lemma_typed(t);
    }
}

/// One of the options is the answer, and nothing else; a blank stands for the default.
pub proof fn law_only_options_can_be_chosen(options: Seq<Seq<char>>, default: Seq<char>, s: Seq<char>)
    requires
        s.len() > 0 && s.last() != '\r' && s.last() != '\n',
    ensures
        ({
            let kind = KindView::Choice { options, default };
            &&& options.contains(s) ==> wizard::reading(kind, s) == Ok::<ReplyView, Seq<char>>(ReplyView::Text(s))
            &&& !options.contains(s) ==> wizard::reading(kind, s) == Err::<ReplyView, Seq<char>>(
                "  must be one of: "@ + text::joined(options, "/"@),
            )
            &&& options.contains(default) ==> wizard::reading(kind, seq!['\n']) == Ok::<ReplyView, Seq<char>>(
                ReplyView::Text(default),
            )
        }),
{
    lemma_typed(s);
}

/// Whether `s` is the word `w` of small letters, in small or capital letters.
pub open spec fn spells(s: Seq<char>, w: Seq<char>) -> bool {
    s.len() == w.len() && forall|i: int|
        0 <= i < s.len() ==> (#[trigger] s[i]) == w[i] || ('A' <= s[i] <= 'Z' && s[i] as u32 + 32 == w[i] as u32)
}

/// `y` and `yes` mean yes, `n` and `no` no, in small or capital letters and whatever
/// white space stands round them; anything else means the default.
pub proof fn law_yes_and_no(before: Seq<char>, s: Seq<char>, after: Seq<char>, default: bool)
    requires
        texts::blank(before) && texts::blank(after),
        s.len() > 0 ==> !text::is_space(s[0]) && !text::is_space(s.last()),
    ensures
        ({
            let yes = spells(s, "y"@) || spells(s, "yes"@);
            let no = spells(s, "n"@) || spells(s, "no"@);
            &&& yes ==> wizard::yes_or_no(before + s + after, default)
            &&& no ==> !wizard::yes_or_no(before + s + after, default)
            &&& !yes && !no ==> wizard::yes_or_no(before + s + after, default) == default
        }),
{
    texts::law_trimming_takes_only_white_space(before, s, after);
    reveal_strlit("y");
    reveal_strlit("yes");
    reveal_strlit("n");
    reveal_strlit("no");
    lemma_says(s, "y"@);
    lemma_says(s, "yes"@);
    lemma_says(s, "n"@);
    lemma_says(s, "no"@);
    if s.len() > 0 {
        let c = wizard::lower(s[0]);
        assert("y"@[0] == 'y' && "yes"@[0] == 'y' && "n"@[0] == 'n' && "no"@[0] == 'n');
        assert(wizard::says(s, "n"@) || wizard::says(s, "no"@) ==> c == 'n');
        assert(wizard::says(s, "y"@) || wizard::says(s, "yes"@) ==> c == 'y');
    }
}

proof fn lemma_says(s: Seq<char>, w: Seq<char>)
    requires
        forall|i: int| 0 <= i < w.len() ==> 'a' <= (#[trigger] w[i]) <= 'z',
    ensures
        wizard::says(s, w) <==> spells(s, w),
{
    assert forall|i: int| 0 <= i < s.len() && s.len() == w.len() implies (wizard::lower(#[trigger] s[i]) == w[i])
        == (s[i] == w[i] || ('A' <= s[i] <= 'Z' && s[i] as u32 + 32 == w[i] as u32)) by {
        assert('a' <= w[i] <= 'z');
    }
}

/// A yes-or-no question is answered by what the line says.
pub proof fn law_yes_and_no_are_read(s: Seq<char>, default: bool)
    requires
        s.len() > 0 ==> s.last() != '\r' && s.last() != '\n',
    ensures
        wizard::reading(KindView::YesNo(default), s) == Ok::<ReplyView, Seq<char>>(
            ReplyView::Flag(wizard::yes_or_no(s, default)),
        ),
{
    lemma_typed(s);
}

/// However a line ends, it is read the same; only a secret is taken with its end.
pub proof fn law_the_end_of_a_line_is_not_read(kind: KindView, s: Seq<char>, carriage: Seq<char>, feeds: Seq<char>)
    requires
        texts::only(carriage, '\r') && texts::only(feeds, '\n'),
        s.len() > 0 ==> s.last() != '\r' && s.last() != '\n',
        !(kind is Secret),
    ensures
        wizard::reading(kind, s + carriage + feeds) == wizard::reading(kind, s),
{
    law_lines_are_taken_as_typed(s, carriage, feeds);
    lemma_typed(s);
}

/// A place in the container is proposed for every path: what is left of it without
/// the home directory and the slashes at its beginning.
pub proof fn law_places_are_proposed(rest: Seq<char>, tildes: Seq<char>, slashes: Seq<char>, local: Seq<char>)
    requires
        texts::only(slashes, '/') && texts::only(tildes, '~'),
        rest.len() > 0 ==> rest[0] != '~' && rest[0] != '/',
    ensures
        wizard::remote_default(rest) == rest,
        wizard::remote_default("~/"@ + rest) == rest,
        wizard::remote_default("~/"@ + local) == wizard::remote_default(local),
        wizard::remote_default(slashes + rest) == rest,
        tildes.len() != 1 ==> wizard::remote_default(tildes + slashes + rest) == rest,
{
    lemma_places(rest, slashes);
    reveal_strlit("~/");
    let home = "~/"@;
    texts::law_prefixes_are_taken_away(home, local);
    let all = tildes + slashes + rest;
    if tildes.len() == 0 {
        assert(all =~= slashes + rest);
    } else if tildes.len() > 1 {
        assert(tildes[1] == '~');
        assert(all[1] == '~' && home[1] == '/');
        assert(!home.is_prefix_of(all));
        texts::law_prefixes_are_taken_away(home, all);
        let behind = slashes + rest;
        assert(all =~= tildes + behind);
        if slashes.len() > 0 {
            assert(slashes[0] == '/');
            assert(behind[0] == '/');
        } else {
            assert(behind =~= rest);
        }
        texts::law_stripping_takes_only_the_character(tildes, behind, '~');
        texts::law_stripping_takes_only_the_character(slashes, rest, '/');
    }
}

proof fn lemma_places(rest: Seq<char>, slashes: Seq<char>)
    requires
        texts::only(slashes, '/'),
        rest.len() > 0 ==> rest[0] != '~' && rest[0] != '/',
    ensures
        wizard::remote_default(rest) == rest,
        wizard::remote_default("~/"@ + rest) == rest,
        wizard::remote_default(slashes + rest) == rest,
{
    reveal_strlit("~/");
    let home = "~/"@;
    assert(home[0] == '~');
    if rest.len() > 0 {
        assert(!home.is_prefix_of(rest));
    }
    texts::law_prefixes_are_taken_away(home, rest);
    let all = slashes + rest;
    if all.len() > 0 {
        if slashes.len() > 0 {
            assert(slashes[0] == '/');
            assert(all[0] == '/');
        } else {
            assert(all =~= rest);
        }
        assert(!home.is_prefix_of(all));
    }
    texts::law_prefixes_are_taken_away(home, all);
    texts::law_stripping_takes_only_the_character(slashes, rest, '/');
}

// ── What is asked ────────────────────────────────────────────────────────────

/// Whether at `step` it is `label` that is asked, for an answer of the kind `kind`.
pub open spec fn asks(w: WizardView, step: Step, label: Seq<char>, kind: KindView) -> bool {
    w.step == step ==> w.question() == (label, kind)
}

/// What is asked of the server and of the login, with the defaults.
pub proof fn law_what_is_asked_of_the_server(w: WizardView)
    ensures
        asks(w, Step::Host, "  Host (IP or hostname)"@, KindView::Required),
        asks(w, Step::Port, "  Port"@, KindView::Number { default: "8006"@, max: 65535 }),
        asks(w, Step::Node, "  Node name"@, KindView::Default("pve"@)),
        asks(w, Step::VerifySsl, "  Verify SSL certificate"@, KindView::YesNo(false)),
        asks(
            w,
            Step::AuthType,
            "  Type"@,
            KindView::Choice { options: seq!["token"@, "password"@], default: "token"@ },
        ),
        asks(w, Step::TokenUser, "  User"@, KindView::Default("root@pam"@)),
        asks(w, Step::TokenName, "  Token name"@, KindView::Default("dps"@)),
        asks(w, Step::TokenSecret, "  Token value"@, KindView::Secret),
        asks(w, Step::LoginUser, "  User"@, KindView::Default("root"@)),
        asks(w, Step::Realm, "  Realm"@, KindView::Default("pam"@)),
        asks(w, Step::Password, "  Password"@, KindView::Secret),
{
}

/// What is asked of the container, with the defaults.
pub proof fn law_what_is_asked_of_the_container(w: WizardView)
    ensures
        asks(w, Step::Vmid, "  VMID"@, KindView::Number { default: "200"@, max: 4294967295 }),
        asks(w, Step::Hostname, "  Hostname"@, KindView::Default("dps-sync"@)),
        asks(
            w,
            Step::Template,
            "  Template"@,
            KindView::Default("local:vztmpl/debian-12-standard_12.7-1_amd64.tar.zst"@),
        ),
        asks(w, Step::Storage, "  Storage pool"@, KindView::Default("local-lvm"@)),
        asks(w, Step::DiskSize, "  Disk size"@, KindView::Default("8G"@)),
        asks(w, Step::Memory, "  Memory (MB)"@, KindView::Number { default: "512"@, max: 4294967295 }),
        asks(w, Step::Cores, "  Cores"@, KindView::Number { default: "1"@, max: 4294967295 }),
        asks(w, Step::RootPassword, "  Root password (used only during bootstrap)"@, KindView::Secret),
        asks(w, Step::Bridge, "  Network bridge"@, KindView::Default("vmbr0"@)),
        asks(w, Step::Ip, "  IP  (\"dhcp\" or CIDR e.g. 192.168.1.50/24)"@, KindView::Default("dhcp"@)),
        asks(w, Step::Gateway, "  Gateway (leave blank if not needed)"@, KindView::Optional),
{
}

/// What is asked of the keys and the paths, with the defaults.
pub proof fn law_what_is_asked_of_the_paths(w: WizardView)
    ensures
        asks(w, Step::PublicKeyFile, "  SSH public key file  (blank = auto-detect)"@, KindView::Optional),
        asks(w, Step::IdentityFile, "  SSH private key file (blank = auto-detect)"@, KindView::Optional),
        asks(
            w,
            Step::LocalPath,
            "  Local path  ["@ + number::decimal(w.cfg.sync.paths.len() + 1) + "/"@ + (if w.cfg.sync.paths.len() == 0 {
                "?"@
            } else {
                "..."@
            }) + "]"@,
            KindView::Optional,
        ),
        asks(
            w,
            Step::RemotePath,
            "  Remote path (relative to /profiles/<user>/)"@,
            KindView::Default(wizard::remote_default(w.local)),
        ),
        asks(w, Step::DeletePath, "  Delete remote files that no longer exist locally"@, KindView::YesNo(false)),
{
}

/// What is asked of Tailscale and of the daemon, with the defaults.
pub proof fn law_what_is_asked_of_the_services(w: WizardView)
    ensures
        asks(w, Step::Tailscale, "  Enable Tailscale integration"@, KindView::YesNo(false)),
        asks(w, Step::AuthKey, "  Tailscale auth key (tskey-auth-...)"@, KindView::Secret),
        asks(w, Step::PreferTailscale, "  Prefer Tailscale IP for push/pull"@, KindView::YesNo(true)),
        asks(w, Step::Daemon, "  Configure the dps-daemon background service"@, KindView::YesNo(false)),
        asks(w, Step::AutoStart, "  Auto-start container when daemon starts"@, KindView::YesNo(true)),
        asks(w, Step::AutoWatch, "  Auto-start watcher when daemon starts"@, KindView::YesNo(true)),
        asks(
            w,
            Step::WatchDirection,
            "  Watch direction"@,
            KindView::Choice { options: seq!["both"@, "push"@, "pull"@], default: "both"@ },
        ),
{
}

/// Whether the question of `next` comes after that of `step`, whatever the answer.
pub open spec fn then_comes(step: Step, next: Step) -> bool {
    forall|w: WizardView, r: ReplyView| w.step == step ==> (#[trigger] w.next_step(r)) == next
}

/// Every question is asked, one after the other; only some depend on the answer.
pub proof fn law_the_order_of_the_questions(w: WizardView, s: Seq<char>, b: bool)
    ensures
        then_comes(Step::Host, Step::Port) && then_comes(Step::Port, Step::Node),
        then_comes(Step::Node, Step::VerifySsl) && then_comes(Step::VerifySsl, Step::AuthType),
        then_comes(Step::TokenUser, Step::TokenName) && then_comes(Step::TokenName, Step::TokenSecret),
        then_comes(Step::LoginUser, Step::Realm) && then_comes(Step::Realm, Step::Password),
        then_comes(Step::TokenSecret, Step::Vmid) && then_comes(Step::Password, Step::Vmid),
        then_comes(Step::Vmid, Step::Hostname) && then_comes(Step::Hostname, Step::Template),
        then_comes(Step::Template, Step::Storage) && then_comes(Step::Storage, Step::DiskSize),
        then_comes(Step::DiskSize, Step::Memory) && then_comes(Step::Memory, Step::Cores),
        then_comes(Step::Cores, Step::RootPassword) && then_comes(Step::RootPassword, Step::Bridge),
        then_comes(Step::Bridge, Step::Ip) && then_comes(Step::Gateway, Step::PublicKeyFile),
        then_comes(Step::PublicKeyFile, Step::IdentityFile) && then_comes(Step::IdentityFile, Step::LocalPath),
        then_comes(Step::RemotePath, Step::DeletePath) && then_comes(Step::DeletePath, Step::LocalPath),
        then_comes(Step::AuthKey, Step::PreferTailscale) && then_comes(Step::PreferTailscale, Step::Daemon),
        then_comes(Step::AutoStart, Step::AutoWatch) && then_comes(Step::AutoWatch, Step::WatchDirection),
        then_comes(Step::WatchDirection, Step::Done) && then_comes(Step::Done, Step::Done),
        ({
            let text = ReplyView::Text(s);
            let flag = ReplyView::Flag(b);
            &&& w.step is AuthType ==> (s == "token"@ ==> w.next_step(text) is TokenUser) && (s != "token"@
                ==> w.next_step(text) is LoginUser)
            &&& w.step is Ip ==> (s == "dhcp"@ ==> w.next_step(text) is PublicKeyFile) && (s != "dhcp"@ ==> w.next_step(
                text,
            ) is Gateway)
            &&& w.step is LocalPath ==> w.next_step(ReplyView::Nothing) is Tailscale && w.next_step(text) is RemotePath
            &&& w.step is Tailscale ==> (b ==> w.next_step(flag) is AuthKey) && (!b ==> w.next_step(flag) is Daemon)
            &&& w.step is Daemon ==> (b ==> w.next_step(flag) is AutoStart) && (!b ==> w.next_step(flag) is Done)
        }),
{
}

// ── What becomes of the answers ──────────────────────────────────────────────

/// The dialogue after an answer, if its configuration is then `cfg`.
pub open spec fn noted(w: WizardView, r: ReplyView, cfg: ConfigView) -> bool {
    w.answered(r) == WizardView { cfg, step: w.next_step(r), ..w }
}

/// An answer on the server is put in its place, and nothing else changes.
pub proof fn law_answers_on_the_server_are_kept(w: WizardView, s: Seq<char>, n: u64, b: bool)
    ensures
        ({
            let c = w.cfg;
            let p = c.proxmox;
            let text = ReplyView::Text(s);
            &&& w.step is Host ==> noted(w, text, ConfigView { proxmox: ProxmoxView { host: s, ..p }, ..c })
            &&& w.step is Port && n <= 65535 ==> noted(
                w,
                ReplyView::Number(n),
                ConfigView { proxmox: ProxmoxView { port: n as u16, ..p }, ..c },
            )
            &&& w.step is Node ==> noted(w, text, ConfigView { proxmox: ProxmoxView { node: s, ..p }, ..c })
            &&& w.step is VerifySsl ==> noted(
                w,
                ReplyView::Flag(b),
                ConfigView { proxmox: ProxmoxView { verify_ssl: b, ..p }, ..c },
            )
            &&& w.step is AuthType && s == "token"@ ==> w.answered(text).cfg.proxmox.auth is Token
            &&& w.step is AuthType && s != "token"@ ==> w.answered(text).cfg.proxmox.auth is Password
            &&& w.step is AuthType ==> noted(
                w,
                text,
                ConfigView { proxmox: ProxmoxView { auth: w.answered(text).cfg.proxmox.auth, ..p }, ..c },
            )
        }),
{
}

/// The dialogue after an answer, if the login is then `auth`.
pub open spec fn login_noted(w: WizardView, s: Seq<char>, auth: AuthView) -> bool {
    noted(w, ReplyView::Text(s), ConfigView { proxmox: ProxmoxView { auth, ..w.cfg.proxmox }, ..w.cfg })
}

/// An answer on the login is put in its place, and nothing else changes.
pub proof fn law_answers_on_the_login_are_kept(w: WizardView, a: Seq<char>, b: Seq<char>, c: Seq<char>, s: Seq<char>)
    ensures
        ({
            let auth = w.cfg.proxmox.auth;
            let token = |x: Seq<char>, y: Seq<char>, z: Seq<char>|
                AuthView::Token { user: x, token_name: y, token_value: z };
            let password = |x: Seq<char>, y: Seq<char>, z: Seq<char>|
                AuthView::Password { user: x, realm: y, password: z };
            &&& w.step is TokenUser && auth == token(a, b, c) ==> login_noted(w, s, token(s, b, c))
            &&& w.step is TokenName && auth == token(a, b, c) ==> login_noted(w, s, token(a, s, c))
            &&& w.step is TokenSecret && auth == token(a, b, c) ==> login_noted(w, s, token(a, b, s))
            &&& w.step is LoginUser && auth == password(a, b, c) ==> login_noted(w, s, password(s, b, c))
            &&& w.step is Realm && auth == password(a, b, c) ==> login_noted(w, s, password(a, s, c))
            &&& w.step is Password && auth == password(a, b, c) ==> login_noted(w, s, password(a, b, s))
        }),
{
}

/// The dialogue after an answer, if the container is then `container`.
pub open spec fn container_noted(w: WizardView, r: ReplyView, container: ContainerView) -> bool {
    noted(w, r, ConfigView { container, ..w.cfg })
}

/// An answer on the container is put in its place, and nothing else changes.
pub proof fn law_answers_on_the_container_are_kept(w: WizardView, s: Seq<char>, n: u32)
    ensures
        ({
            let c = w.cfg.container;
            let net = c.network;
            let text = ReplyView::Text(s);
            let number = ReplyView::Number(n as u64);
            &&& w.step is Vmid ==> container_noted(w, number, ContainerView { vmid: n, ..c })
            &&& w.step is Hostname ==> container_noted(w, text, ContainerView { hostname: s, ..c })
            &&& w.step is Template ==> container_noted(w, text, ContainerView { template: s, ..c })
            &&& w.step is Storage ==> container_noted(w, text, ContainerView { storage: s, ..c })
            &&& w.step is DiskSize ==> container_noted(w, text, ContainerView { disk_size: s, ..c })
            &&& w.step is Memory ==> container_noted(w, number, ContainerView { memory: n, ..c })
            &&& w.step is Cores ==> container_noted(w, number, ContainerView { cores: n, ..c })
            &&& w.step is RootPassword ==> container_noted(w, text, ContainerView { root_password: s, ..c })
            &&& w.step is Bridge ==> container_noted(
                w,
                text,
                ContainerView { network: NetworkView { bridge: s, ..net }, ..c },
            )
            &&& w.step is Ip ==> container_noted(w, text, ContainerView { network: NetworkView { ip: s, ..net }, ..c })
            &&& w.step is Gateway ==> container_noted(
                w,
                text,
                ContainerView { network: NetworkView { gateway: Some(s), ..net }, ..c },
            ) && container_noted(
                w,
                ReplyView::Nothing,
                ContainerView { network: NetworkView { gateway: None, ..net }, ..c },
            )
        }),
{
}

/// An answer on the keys and the paths is put in its place: every path that is
/// entered is added behind the others, with its place and whether to delete.
pub proof fn law_answers_on_the_paths_are_kept(w: WizardView, s: Seq<char>, b: bool)
    ensures
        ({
            let sync = w.cfg.sync;
            let text = ReplyView::Text(s);
            &&& w.step is PublicKeyFile ==> noted(
                w,
                text,
                ConfigView { sync: SyncView { ssh_public_key_file: Some(s), ..sync }, ..w.cfg },
            ) && w.answered(ReplyView::Nothing).cfg.sync.ssh_public_key_file is None
            &&& w.step is IdentityFile ==> noted(
                w,
                text,
                ConfigView { sync: SyncView { ssh_identity_file: Some(s), ..sync }, ..w.cfg },
            ) && w.answered(ReplyView::Nothing).cfg.sync.ssh_identity_file is None
            &&& w.step is LocalPath ==> w.answered(text) == WizardView { local: s, step: Step::RemotePath, ..w }
            &&& w.step is RemotePath ==> w.answered(text) == WizardView { remote: s, step: Step::DeletePath, ..w }
            &&& w.step is DeletePath ==> noted(
                w,
                ReplyView::Flag(b),
                ConfigView {
                    sync: SyncView {
                        paths: sync.paths.push(SyncPathView { local: w.local, remote: w.remote, delete: b }),
                        ..sync
                    },
                    ..w.cfg
                },
            )
            &&& w.step is LocalPath && sync.paths.len() > 0 ==> w.answered(ReplyView::Nothing).cfg == w.cfg
        }),
{
}

/// Where no path is entered, the files that every shell and git read are taken, under
/// their own names, and nothing is deleted.
pub proof fn law_the_usual_files_are_taken(w: WizardView)
    requires
        w.step is LocalPath && w.cfg.sync.paths.len() == 0,
    ensures
        ({
            let usual = w.answered(ReplyView::Nothing).cfg.sync.paths;
            &&& usual.len() == 4
            &&& usual[0].local == "~/.bashrc"@ && usual[0].remote == ".bashrc"@
            &&& usual[1].local == "~/.bash_profile"@ && usual[1].remote == ".bash_profile"@
            &&& usual[2].local == "~/.profile"@ && usual[2].remote == ".profile"@
            &&& usual[3].local == "~/.gitconfig"@ && usual[3].remote == ".gitconfig"@
            &&& forall|i: int| 0 <= i < 4 ==> !(#[trigger] usual[i]).delete
            &&& wizard::default_path_list() == usual
        }),
{
}

/// An answer on Tailscale is put in its place; without it there is none.
pub proof fn law_answers_on_tailscale_are_kept(w: WizardView, ts: TailscaleView, s: Seq<char>, b: bool)
    ensures
        ({
            let yes = w.answered(ReplyView::Flag(true)).cfg;
            let with = |t: TailscaleView| ConfigView { tailscale: Some(t), ..w.cfg };
            &&& w.step is Tailscale ==> {
                &&& noted(w, ReplyView::Flag(false), ConfigView { tailscale: None, ..w.cfg })
                &&& yes.tailscale matches Some(t) && noted(w, ReplyView::Flag(true), with(t)) && t.hostname is None
                    && t.tags.len() == 0 && t.container_ts_ip is None && t.auth_key.len() == 0
                    && t.prefer_tailscale_ip
            }
            &&& w.step is AuthKey && w.cfg.tailscale == Some(ts) ==> noted(
                w,
                ReplyView::Text(s),
                with(TailscaleView { auth_key: s, ..ts }),
            )
            &&& w.step is PreferTailscale && w.cfg.tailscale == Some(ts) ==> noted(
                w,
                ReplyView::Flag(b),
                with(TailscaleView { prefer_tailscale_ip: b, ..ts }),
            )
        }),
{
}

/// An answer on the daemon is put in its place; without it there is none.
pub proof fn law_answers_on_the_daemon_are_kept(w: WizardView, d: DaemonView, s: Seq<char>, b: bool)
    ensures
        ({
            let yes = w.answered(ReplyView::Flag(true)).cfg;
            let with = |t: DaemonView| ConfigView { daemon: Some(t), ..w.cfg };
            &&& w.step is Daemon ==> {
                &&& noted(w, ReplyView::Flag(false), ConfigView { daemon: None, ..w.cfg })
                &&& yes.daemon matches Some(t) && noted(w, ReplyView::Flag(true), with(t)) && t.debounce_ms == 500
                    && t.poll_secs == 30 && t.sync_user is None && !t.auto_watch && !t.auto_start_container
                    && t.watch_direction.len() == 0
            }
            &&& w.step is AutoStart && w.cfg.daemon == Some(d) ==> noted(
                w,
                ReplyView::Flag(b),
                with(DaemonView { auto_start_container: b, ..d }),
            )
            &&& w.step is AutoWatch && w.cfg.daemon == Some(d) ==> noted(
                w,
                ReplyView::Flag(b),
                with(DaemonView { auto_watch: b, ..d }),
            )
            &&& w.step is WatchDirection && w.cfg.daemon == Some(d) ==> noted(
                w,
                ReplyView::Text(s),
                with(DaemonView { watch_direction: s, ..d }),
            )
        }),
{
}

/// A line that is understood is answered, with the remarks that go before the next
/// question; one that is not changes nothing, and the complaint is all that is said.
pub proof fn law_lines_are_answered(w: WizardView, line: Seq<char>, r: ReplyView, complaint: Seq<char>)
    ensures
        wizard::reading(w.question().1, line) == Ok::<ReplyView, Seq<char>>(r) ==> w.after_line(line) == (
            w.answered(r),
            w.remarks(r),
        ),
        wizard::reading(w.question().1, line) == Err::<ReplyView, Seq<char>>(complaint) ==> w.after_line(line) == (
            w,
            seq![complaint],
        ),
{
}

/// What nobody is asked has a value from the beginning: root logs in at the usual
/// port, and what can be made again is left out.
pub proof fn law_what_nobody_is_asked()
    ensures
        ({
            let s = wizard::blank_config().sync;
            &&& s.container_user == "root"@ && s.ssh_port == 22 && s.container_ip is None && s.paths.len() == 0
            &&& s.ssh_public_key_file is None && s.ssh_identity_file is None
            &&& s.exclude_patterns == seq![".git/"@, "__pycache__/"@, "*.pyc"@, "node_modules/"@]
            &&& s.machine_specific_patterns.len() == 0
            &&& wizard::blank_config().tailscale is None && wizard::blank_config().daemon is None
            &&& wizard::blank_config().container.network.gateway is None
            &&& !wizard::blank_config().proxmox.verify_ssl
        }),
        ({
            let p = wizard::blank_config().proxmox;
            let c = wizard::blank_config().container;
            &&& p.host.len() == 0 && p.port == 0 && p.node.len() == 0
            &&& p.auth matches AuthView::Token { user, token_name, token_value }
            &&& user.len() == 0 && token_name.len() == 0 && token_value.len() == 0
            &&& c.vmid == 0 && c.memory == 0 && c.cores == 0
            &&& c.hostname.len() == 0 && c.template.len() == 0 && c.storage.len() == 0 && c.disk_size.len() == 0
            &&& c.root_password.len() == 0 && c.network.bridge.len() == 0 && c.network.ip.len() == 0
        }),
{
}

/// An answer says what it holds, and nothing else.
pub proof fn law_answers_say_what_they_hold(r: ReplyView, s: Seq<char>, n: u64)
    ensures
        wizard::text_of(ReplyView::Text(s)) == s,
        wizard::optional_of(ReplyView::Text(s)) == Some(s),
        wizard::number_of(ReplyView::Number(n)) == n,
        wizard::flag_of(r) <==> r == ReplyView::Flag(true),
        !(r is Text) ==> wizard::text_of(r).len() == 0 && wizard::optional_of(r) is None,
        !(r is Number) ==> wizard::number_of(r) == 0,
{
}

/// Whichever way the login goes, it begins blank.
pub proof fn law_logins_begin_blank(kind: Seq<char>)
    ensures
        match wizard::blank_credentials(kind) {
            AuthView::Token { user, token_name, token_value } => kind == "token"@ && user.len() == 0 && token_name.len()
                == 0 && token_value.len() == 0,
            AuthView::Password { user, realm, password } => kind != "token"@ && user.len() == 0 && realm.len() == 0
                && password.len() == 0,
        },
{
}

// ── What is said ─────────────────────────────────────────────────────────────

/// A heading is its title in a rule: two dashes before it, and behind it as many as
/// fill the line.
pub proof fn law_headings_fill_the_line(title: Seq<char>, i: int)
    ensures
        ({
            let h = wizard::heading(title);
            let before = "── "@ + title + " "@;
            &&& before.is_prefix_of(h)
            &&& before.len() <= i < h.len() ==> h[i] == '─'
            &&& encode_utf8(title).len() < 48 ==> h.len() + encode_utf8(title).len() == before.len() + 48
            &&& encode_utf8(title).len() >= 48 ==> h == before
        }),
{
    let h = wizard::heading(title);
    let before = "── "@ + title + " "@;
    assert(before =~= h.take(before.len() as int));
    if encode_utf8(title).len() >= 48 {
        assert(h =~= before);
    }
}

/// Before every group of questions stands its heading, and nothing is said between
/// the questions of a group.
pub proof fn law_groups_have_headings(w: WizardView, r: ReplyView)
    ensures
        ({
            let next = w.next_step(r);
            let said = w.remarks(r);
            &&& w.step is VerifySsl ==> said == seq![wizard::heading("Authentication"@)]
            &&& w.step is TokenSecret || w.step is Password ==> said == seq![wizard::heading("LXC Container"@)]
            &&& w.step is Gateway || (w.step is Ip && next is PublicKeyFile) ==> said == seq![
                wizard::heading("Profile Sync"@),
            ]
            &&& w.step is IdentityFile ==> said == seq![
                Seq::<char>::empty(),
                "  Paths to sync between this machine and the container."@,
                "  Press Enter with a blank local path when done."@,
                Seq::<char>::empty(),
            ]
            &&& w.step is DeletePath ==> said == seq![Seq::<char>::empty()]
            &&& w.step is PreferTailscale || (w.step is Tailscale && next is Daemon) ==> said == seq![
                wizard::heading("Daemon (optional)"@),
            ]
            &&& w.step is WatchDirection || (w.step is Daemon && next is Done) ==> said == seq![Seq::<char>::empty()]
            &&& w.step is Host || w.step is Port || w.step is Node || w.step is AuthType || w.step is TokenUser
                || w.step is TokenName || w.step is LoginUser || w.step is Realm ==> said.len() == 0
            &&& w.step is Vmid || w.step is Hostname || w.step is Template || w.step is Storage || w.step is DiskSize
                || w.step is Memory || w.step is Cores || w.step is RootPassword || w.step is Bridge ==> said.len() == 0
            &&& w.step is PublicKeyFile || w.step is RemotePath || w.step is AuthKey || w.step is AutoStart
                || w.step is AutoWatch ==> said.len() == 0
            &&& (w.step is Ip && next is Gateway) || (w.step is LocalPath && next is RemotePath) || (w.step is Tailscale
                && next is AuthKey) || (w.step is Daemon && next is AutoStart) ==> said.len() == 0
        }),
{
}

/// When the paths are done, the usual files are named if they were taken, and
/// Tailscale is explained.
pub proof fn law_the_end_of_the_paths(w: WizardView, i: int)
    requires
        w.step is LocalPath,
    ensures
        ({
            let said = w.remarks(ReplyView::Nothing);
            let usual = wizard::default_path_list();
            let first: int = if w.cfg.sync.paths.len() == 0 {
                1 + usual.len() as int
            } else {
                0
            };
            &&& said.len() == first + 4
            &&& w.cfg.sync.paths.len() == 0 ==> said[0] == "  No paths entered — using defaults:"@ && (0 <= i
                < usual.len() ==> said[1 + i] == "    "@ + usual[i].local + " → "@ + usual[i].remote)
            &&& said[first] == wizard::heading("Tailscale (optional)"@)
            &&& said[first + 1] == "  When enabled, dps installs Tailscale in the container during setup"@
            &&& said[first + 2] == "  and uses the Tailscale IP for all transfers (works across networks)."@
            &&& said[first + 3].len() == 0
        }),
{
}

/// The dialogue begins with a title, how to answer, and the first heading.
pub proof fn law_the_dialogue_is_opened()
    ensures
        ({
            let said = wizard::welcome();
            &&& said.len() == 8
            &&& said[0].len() == 0 && said[4].len() == 0 && said[6].len() == 0
            &&& said[1] == "╔══════════════════════════════════════╗"@
            &&& said[2] == "║        dps — first-time setup        ║"@
            &&& said[3] == "╚══════════════════════════════════════╝"@
            &&& said[5] == "Answer each prompt (press Enter to accept the [default])."@
            &&& said[7] == wizard::heading("Proxmox Connection"@)
        }),
{
}

/// Questions, answers and the dialogue are seen as they are.
pub proof fn law_the_dialogue_is_seen_whole(k: Kind, r: Reply, w: Wizard)
    ensures
        match (k, k@) {
            (Kind::Required, KindView::Required) => true,
            (Kind::Default(a), KindView::Default(b)) => a@ == b,
            (Kind::Optional, KindView::Optional) => true,
            (Kind::Number { default: a, max: m }, KindView::Number { default: b, max: n }) => a@ == b && m == n,
            (Kind::YesNo(a), KindView::YesNo(b)) => a == b,
            (Kind::Choice { options: o, default: a }, KindView::Choice { options: p, default: b }) => text::strs(o@) == p
                && a@ == b,
            (Kind::Secret, KindView::Secret) => true,
            _ => false,
        },
        match (r, r@) {
            (Reply::Text(a), ReplyView::Text(b)) => a@ == b,
            (Reply::Nothing, ReplyView::Nothing) => true,
            (Reply::Number(a), ReplyView::Number(b)) => a == b,
            (Reply::Flag(a), ReplyView::Flag(b)) => a == b,
            _ => false,
        },
        w@.cfg == w.cfg@ && w@.step == w.step && w@.local == w.local@ && w@.remote == w.remote@,
{
}

} // verus!
