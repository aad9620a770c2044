//! The first-time setup, as a dialogue: a question is asked, an answer is taken,
//! and in the end there is a configuration.

use vstd::prelude::*;
use vstd::string::*;
use vstd::utf8::*;
use crate::config::{
    AuthConfig, AuthView, Config, ConfigView, ContainerConfig, ContainerView, DaemonConfig, DaemonView, NetworkConfig,
    NetworkView, ProxmoxConfig, ProxmoxView, SyncConfig, SyncPath, SyncPathView, SyncView, TailscaleConfig,
    TailscaleView,
};
use crate::config;
use crate::error::{Error, ErrorView};
use crate::number;
use crate::text;

verus! {

// ── Kinds of questions ───────────────────────────────────────────────────────

/// What kind of answer a question wants.
#[derive(Debug)]
pub enum Kind {
    /// Anything but a blank.
    Required,
    /// Anything; a blank stands for the default.
    Default(String),
    /// Anything or nothing.
    Optional,
    /// A number up to `max`; a blank stands for the default.
    Number { default: String, max: u64 },
    /// Yes or no; anything else stands for the default.
    YesNo(bool),
    /// One of the options; a blank stands for the default.
    Choice { options: Vec<String>, default: String },
    /// Anything but a blank, typed unseen.
    Secret,
}

/// The mathematical content of a [`Kind`].
pub ghost enum KindView {
    Required,
    Default(Seq<char>),
    Optional,
    Number { default: Seq<char>, max: u64 },
    YesNo(bool),
    Choice { options: Seq<Seq<char>>, default: Seq<char> },
    Secret,
}

impl View for Kind {
    type V = KindView;

    open spec fn view(&self) -> KindView {
        match self {
            Kind::Required => KindView::Required,
            Kind::Default(d) => KindView::Default(d@),
            Kind::Optional => KindView::Optional,
            Kind::Number { default, max } => KindView::Number { default: default@, max: *max },
            Kind::YesNo(b) => KindView::YesNo(*b),
            Kind::Choice { options, default } => KindView::Choice {
                options: text::strs(options@),
                default: default@,
            },
            Kind::Secret => KindView::Secret,
        }
    }
}

/// What an answer says.
#[derive(Debug)]
pub enum Reply {
    Text(String),
    Nothing,
    Number(u64),
    Flag(bool),
}

/// The mathematical content of a [`Reply`].
pub ghost enum ReplyView {
    Text(Seq<char>),
    Nothing,
    Number(u64),
    Flag(bool),
}

impl View for Reply {
    type V = ReplyView;

    open spec fn view(&self) -> ReplyView {
        match self {
            Reply::Text(s) => ReplyView::Text(s@),
            Reply::Nothing => ReplyView::Nothing,
            Reply::Number(n) => ReplyView::Number(*n),
            Reply::Flag(b) => ReplyView::Flag(*b),
        }
    }
}

/// The prompt for a question.
pub open spec fn prompt(label: Seq<char>, kind: KindView) -> Seq<char> {
    match kind {
        KindView::Required | KindView::Optional | KindView::Secret => label + ": "@,
        KindView::Default(d) => label + " ["@ + d + "]: "@,
        KindView::Number { default, .. } => label + " ["@ + default + "]: "@,
        KindView::YesNo(b) => label + " ["@ + (if b {
            "Y/n"@
        } else {
            "y/N"@
        }) + "]"@ + ": "@,
        KindView::Choice { options, default } => label + " ("@ + text::joined(options, "/"@) + ")"@ + " ["@ + default
            + "]: "@,
    }
}

/// The prompt for a question.
pub fn prompt_text(label: &str, kind: &Kind) -> (r: String)
    ensures
        r@ == prompt(label@, kind@),
{
    match kind {
        Kind::Required | Kind::Optional | Kind::Secret => ask(label, None),
        Kind::Default(d) => ask(label, Some(d.as_str())),
        Kind::Number { default, .. } => ask(label, Some(default.as_str())),
        Kind::YesNo(b) => {
            let hint = if *b {
                "Y/n"
            } else {
                "y/N"
            };
            ask(label.to_string().concat(" [").concat(hint).concat("]").as_str(), None)
        },
        Kind::Choice { options, default } => {
            let all = text::join(options, "/");
            ask(label.to_string().concat(" (").concat(all.as_str()).concat(")").as_str(), Some(default.as_str()))
        },
    }
}

fn ask(label: &str, default: Option<&str>) -> (r: String)
    ensures
        r@ == (match default {
            Some(d) => label@ + " ["@ + d@ + "]: "@,
            None => label@ + ": "@,
        }),
{
    match default {
        Some(d) => label.to_string().concat(" [").concat(d).concat("]: "),
        None => label.to_string().concat(": "),
    }
}

/// What was typed, without the end of the line.
pub open spec fn typed(line: Seq<char>) -> Seq<char> {
    text::strip_trailing(text::strip_trailing(line, '\n'), '\r')
}

/// A text, or the default where it is blank.
pub open spec fn or_default(s: Seq<char>, default: Seq<char>) -> Seq<char> {
    if s.len() == 0 {
        default
    } else {
        s
    }
}

fn with_default(s: String, default: &str) -> (r: String)
    ensures
        r@ == or_default(s@, default@),
{
    if s.as_str().is_empty() {
        default.to_string()
    } else {
        s
    }
}

/// The lower-case form of an ASCII letter; any other character as it is.
pub open spec fn lower(c: char) -> char {
    if 'A' <= c <= 'Z' {
        ((c as u32 + 32) as u32) as char
    } else {
        c
    }
}

/// Whether a text is the word `w`, which is in lower case, in any mixture of
/// cases.
pub open spec fn says(s: Seq<char>, w: Seq<char>) -> bool {
    s.len() == w.len() && forall|i: int| 0 <= i < s.len() ==> lower(#[trigger] s[i]) == w[i]
}

fn is_word(s: &str, w: &str) -> (r: bool)
    ensures
        r == says(s@, w@),
{
    let x = text::chars_of(s);
    let y = text::chars_of(w);
    if x.len() != y.len() {
        return false;
    }
    let mut i: usize = 0;
    while i < x.len()
        invariant
            x@ == s@,
            y@ == w@,
            i <= x@.len() == y@.len(),
            forall|j: int| 0 <= j < i ==> lower(#[trigger] s@[j]) == w@[j],
        decreases x@.len() - i,
    {
        let c = x[i];
        let l = if 'A' <= c && c <= 'Z' {
            (c as u8 + 32) as char
        } else {
            c
        };
        if l != y[i] {
            assert(lower(s@[i as int]) != w@[i as int]);
            return false;
        }
        i += 1;
    }
    true
}

/// What a yes-or-no answer says.
pub open spec fn yes_or_no(s: Seq<char>, default: bool) -> bool {
    let word = text::trimmed(s);
    if says(word, "y"@) || says(word, "yes"@) {
        true
    } else if says(word, "n"@) || says(word, "no"@) {
        false
    } else {
        default
    }
}

fn yes_no(s: &str, default: bool) -> (r: bool)
    ensures
        r == yes_or_no(s@, default),
{
    let word = text::trim(s);
    if is_word(word.as_str(), "y") || is_word(word.as_str(), "yes") {
        true
    } else if is_word(word.as_str(), "n") || is_word(word.as_str(), "no") {
        false
    } else {
        default
    }
}

/// What an answer says, or the complaint about it.  The answer to a secret
/// question comes without the end of the line.
pub open spec fn reading(kind: KindView, line: Seq<char>) -> Result<ReplyView, Seq<char>> {
    let s = typed(line);
    match kind {
        KindView::Required => if s.len() == 0 {
            Err("  (this field is required)"@)
        } else {
            Ok(ReplyView::Text(s))
        },
        KindView::Default(d) => Ok(ReplyView::Text(or_default(s, d))),
        KindView::Optional => if s.len() == 0 {
            Ok(ReplyView::Nothing)
        } else {
            Ok(ReplyView::Text(s))
        },
        KindView::Number { default, max } => match number::read_number(or_default(s, default), max as int) {
            Ok(n) => Ok(ReplyView::Number(n as u64)),
            Err(e) => Err("  invalid value: "@ + e.text()),
        },
        KindView::YesNo(b) => Ok(ReplyView::Flag(yes_or_no(s, b))),
        KindView::Choice { options, default } => if options.contains(or_default(s, default)) {
            Ok(ReplyView::Text(or_default(s, default)))
        } else {
            Err("  must be one of: "@ + text::joined(options, "/"@))
        },
        KindView::Secret => if line.len() == 0 {
            Err("  (this field is required)"@)
        } else {
            Ok(ReplyView::Text(line))
        },
    }
}

fn is_option(options: &Vec<String>, s: &str) -> (r: bool)
    ensures
        r == text::strs(options@).contains(s@),
{
    let ghost all = text::strs(options@);
    let mut i: usize = 0;
    while i < options.len()
        invariant
            i <= options@.len(),
            all == text::strs(options@),
            forall|j: int| 0 <= j < i ==> all[j] != s@,
        decreases options@.len() - i,
    {
        if text::str_eq(options[i].as_str(), s) {
            assert(all[i as int] == s@);
            return true;
        }
        i += 1;
    }
    assert(!all.contains(s@));
    false
}

/// What an answer says, or the complaint about it.
pub fn read_answer(kind: &Kind, line: &str) -> (r: Result<Reply, String>)
    ensures
        match (r, reading(kind@, line@)) {
            (Ok(v), Ok(x)) => v@ == x,
            (Err(e), Err(x)) => e@ == x,
            _ => false,
        },
{
    let s = text::trim_end_char(text::trim_end_char(line, '\n').as_str(), '\r');
    match kind {
        Kind::Required => if s.as_str().is_empty() {
            Err("  (this field is required)".to_string())
        } else {
            Ok(Reply::Text(s))
        },
        Kind::Default(d) => Ok(Reply::Text(with_default(s, d.as_str()))),
        Kind::Optional => if s.as_str().is_empty() {
            Ok(Reply::Nothing)
        } else {
            Ok(Reply::Text(s))
        },
        Kind::Number { default, max } => match number::parse_number(
            with_default(s, default.as_str()).as_str(),
            *max,
        ) {
            Ok(n) => Ok(Reply::Number(n)),
            Err(e) => Err("  invalid value: ".to_string().concat(e.to_string().as_str())),
        },
        Kind::YesNo(b) => Ok(Reply::Flag(yes_no(s.as_str(), *b))),
        Kind::Choice { options, default } => {
            let chosen = with_default(s, default.as_str());
            if is_option(options, chosen.as_str()) {
                Ok(Reply::Text(chosen))
            } else {
                Err("  must be one of: ".to_string().concat(text::join(options, "/").as_str()))
            }
        },
        Kind::Secret => if line.is_empty() {
            Err("  (this field is required)".to_string())
        } else {
            Ok(Reply::Text(line.to_string()))
        },
    }
}

// ── The dialogue ─────────────────────────────────────────────────────────────

/// What is asked next.
#[derive(Debug, Clone, Copy, PartialEq, Eq, Structural)]
pub enum Step {
    Host,
    Port,
    Node,
    VerifySsl,
    AuthType,
    TokenUser,
    TokenName,
    TokenSecret,
    LoginUser,
    Realm,
    Password,
    Vmid,
    Hostname,
    Template,
    Storage,
    DiskSize,
    Memory,
    Cores,
    RootPassword,
    Bridge,
    Ip,
    Gateway,
    PublicKeyFile,
    IdentityFile,
    LocalPath,
    RemotePath,
    DeletePath,
    Tailscale,
    AuthKey,
    PreferTailscale,
    Daemon,
    AutoStart,
    AutoWatch,
    WatchDirection,
    /// Nothing is left to ask.
    Done,
}

/// A dialogue: the configuration as far as it is known, and what is asked next.
#[derive(Debug)]
pub struct Wizard {
    pub cfg: Config,
    pub step: Step,
    /// The path being added.
    pub local: String,
    pub remote: String,
}

/// The mathematical content of a [`Wizard`].
pub ghost struct WizardView {
    pub cfg: ConfigView,
    pub step: Step,
    pub local: Seq<char>,
    pub remote: Seq<char>,
}

impl View for Wizard {
    type V = WizardView;

    open spec fn view(&self) -> WizardView {
        WizardView { cfg: self.cfg@, step: self.step, local: self.local@, remote: self.remote@ }
    }
}

/// A question.
#[derive(Debug)]
pub struct Question {
    pub label: String,
    pub kind: Kind,
}

/// The ways to authenticate.
pub open spec fn auth_types() -> Seq<Seq<char>> {
    seq!["token"@, "password"@]
}

fn list_auth_types() -> (r: Vec<String>)
    ensures
        text::strs(r@) == auth_types(),
{
    broadcast use text::lemma_strs_push;

    let mut v: Vec<String> = Vec::new();
    v.push("token".to_string());
    v.push("password".to_string());
    assert(text::strs(v@) =~= auth_types());
    v
}

/// The directions of a watcher.
pub open spec fn directions() -> Seq<Seq<char>> {
    seq!["both"@, "push"@, "pull"@]
}

fn list_directions() -> (r: Vec<String>)
    ensures
        text::strs(r@) == directions(),
{
    broadcast use text::lemma_strs_push;

    let mut v: Vec<String> = Vec::new();
    v.push("both".to_string());
    v.push("push".to_string());
    v.push("pull".to_string());
    assert(text::strs(v@) =~= directions());
    v
}

/// The default remote path of a local one: the path without a leading `~/`, `~`
/// or `/`.
pub open spec fn remote_default(local: Seq<char>) -> Seq<char> {
    text::strip_leading(text::strip_leading(text::strip_prefixes(local, "~/"@), '~'), '/')
}

/// The default remote path of a local one.
pub fn default_remote(local: &str) -> (r: String)
    ensures
        r@ == remote_default(local@),
{
    let rest = text::trim_start_char(text::trim_start_prefix(local, "~/").as_str(), '~');
    text::trim_start_char(rest.as_str(), '/')
}

/// The label of the question for a local path, after `n` paths.
pub open spec fn local_label(n: nat) -> Seq<char> {
    "  Local path  ["@ + number::decimal(n + 1) + "/"@ + (if n == 0 {
        "?"@
    } else {
        "..."@
    }) + "]"@
}

impl WizardView {
    /// The label and the kind of the next question.
    pub open spec fn question(self) -> (Seq<char>, KindView) {
        match self.step {
            Step::Host => (
                "  Host (IP or hostname)"@,
                KindView::Required,
            ),
            Step::Port => (
                "  Port"@,
                KindView::Number { default: "8006"@, max: 65535 },
            ),
            Step::Node => (
                "  Node name"@,
                KindView::Default("pve"@),
            ),
            Step::VerifySsl => (
                "  Verify SSL certificate"@,
                KindView::YesNo(false),
            ),
            Step::AuthType => (
                "  Type"@,
                KindView::Choice { options: auth_types(), default: "token"@ },
            ),
            Step::TokenUser => (
                "  User"@,
                KindView::Default("root@pam"@),
            ),
            Step::TokenName => (
                "  Token name"@,
                KindView::Default("dps"@),
            ),
            Step::TokenSecret => (
                "  Token value"@,
                KindView::Secret,
            ),
            Step::LoginUser => (
                "  User"@,
                KindView::Default("root"@),
            ),
            Step::Realm => (
                "  Realm"@,
                KindView::Default("pam"@),
            ),
            Step::Password => (
                "  Password"@,
                KindView::Secret,
            ),
            Step::Vmid => (
                "  VMID"@,
                KindView::Number { default: "200"@, max: 4294967295 },
            ),
            Step::Hostname => (
                "  Hostname"@,
                KindView::Default("dps-sync"@),
            ),
            Step::Template => (
                "  Template"@,
                KindView::Default("local:vztmpl/debian-12-standard_12.7-1_amd64.tar.zst"@),
            ),
            Step::Storage => (
                "  Storage pool"@,
                KindView::Default("local-lvm"@),
            ),
            Step::DiskSize => (
                "  Disk size"@,
                KindView::Default("8G"@),
            ),
            Step::Memory => (
                "  Memory (MB)"@,
                KindView::Number { default: "512"@, max: 4294967295 },
            ),
            Step::Cores => (
                "  Cores"@,
                KindView::Number { default: "1"@, max: 4294967295 },
            ),
            Step::RootPassword => (
                "  Root password (used only during bootstrap)"@,
                KindView::Secret,
            ),
            Step::Bridge => (
                "  Network bridge"@,
                KindView::Default("vmbr0"@),
            ),
            Step::Ip => (
                "  IP  (\"dhcp\" or CIDR e.g. 192.168.1.50/24)"@,
                KindView::Default("dhcp"@),
            ),
            Step::Gateway => (
                "  Gateway (leave blank if not needed)"@,
                KindView::Optional,
            ),
            Step::PublicKeyFile => (
                "  SSH public key file  (blank = auto-detect)"@,
                KindView::Optional,
            ),
            Step::IdentityFile => (
                "  SSH private key file (blank = auto-detect)"@,
                KindView::Optional,
            ),
            Step::LocalPath => (
                local_label(self.cfg.sync.paths.len()),
                KindView::Optional,
            ),
            Step::RemotePath => (
                "  Remote path (relative to /profiles/<user>/)"@,
                KindView::Default(remote_default(self.local)),
            ),
            Step::DeletePath => (
                "  Delete remote files that no longer exist locally"@,
                KindView::YesNo(false),
            ),
            Step::Tailscale => (
                "  Enable Tailscale integration"@,
                KindView::YesNo(false),
            ),
            Step::AuthKey => (
                "  Tailscale auth key (tskey-auth-...)"@,
                KindView::Secret,
            ),
            Step::PreferTailscale => (
                "  Prefer Tailscale IP for push/pull"@,
                KindView::YesNo(true),
            ),
            Step::Daemon => (
                "  Configure the dps-daemon background service"@,
                KindView::YesNo(false),
            ),
            Step::AutoStart => (
                "  Auto-start container when daemon starts"@,
                KindView::YesNo(true),
            ),
            Step::AutoWatch => (
                "  Auto-start watcher when daemon starts"@,
                KindView::YesNo(true),
            ),
            Step::WatchDirection => (
                "  Watch direction"@,
                KindView::Choice { options: directions(), default: "both"@ },
            ),
            Step::Done => (seq![], KindView::Optional),
        }
    }
}

impl Wizard {
    fn local_label(&self) -> (r: String)
        requires
            self.cfg.sync.paths@.len() < u64::MAX,
        ensures
            r@ == local_label(self@.cfg.sync.paths.len()),
    {
        let n: u64 = self.cfg.sync.paths.len() as u64;
        let more = if n == 0 {
            "?"
        } else {
            "..."
        };
        "  Local path  [".to_string().concat(number::to_decimal(n + 1).as_str()).concat("/").concat(more).concat("]")
    }

    /// The next question; `None` once nothing is left to ask.
    pub fn question(&self) -> (r: Option<Question>)
        requires
            self.cfg.sync.paths@.len() < u64::MAX,
        ensures
            match r {
                Some(q) => self.step != Step::Done && (q.label@, q.kind@) == self@.question(),
                None => self.step == Step::Done,
            },
    {
        let (label, kind) = match self.step {
            Step::Host => (
                "  Host (IP or hostname)".to_string(),
                Kind::Required,
            ),
            Step::Port => (
                "  Port".to_string(),
                Kind::Number { default: "8006".to_string(), max: 65535 },
            ),
            Step::Node => (
                "  Node name".to_string(),
                Kind::Default("pve".to_string()),
            ),
            Step::VerifySsl => (
                "  Verify SSL certificate".to_string(),
                Kind::YesNo(false),
            ),
            Step::AuthType => (
                "  Type".to_string(),
                Kind::Choice { options: list_auth_types(), default: "token".to_string() },
            ),
            Step::TokenUser => (
                "  User".to_string(),
                Kind::Default("root@pam".to_string()),
            ),
            Step::TokenName => (
                "  Token name".to_string(),
                Kind::Default("dps".to_string()),
            ),
            Step::TokenSecret => (
                "  Token value".to_string(),
                Kind::Secret,
            ),
            Step::LoginUser => (
                "  User".to_string(),
                Kind::Default("root".to_string()),
            ),
            Step::Realm => (
                "  Realm".to_string(),
                Kind::Default("pam".to_string()),
            ),
            Step::Password => (
                "  Password".to_string(),
                Kind::Secret,
            ),
            Step::Vmid => (
                "  VMID".to_string(),
                Kind::Number { default: "200".to_string(), max: 4294967295 },
            ),
            Step::Hostname => (
                "  Hostname".to_string(),
                Kind::Default("dps-sync".to_string()),
            ),
            Step::Template => (
                "  Template".to_string(),
                Kind::Default("local:vztmpl/debian-12-standard_12.7-1_amd64.tar.zst".to_string()),
            ),
            Step::Storage => (
                "  Storage pool".to_string(),
                Kind::Default("local-lvm".to_string()),
            ),
            Step::DiskSize => (
                "  Disk size".to_string(),
                Kind::Default("8G".to_string()),
            ),
            Step::Memory => (
                "  Memory (MB)".to_string(),
                Kind::Number { default: "512".to_string(), max: 4294967295 },
            ),
            Step::Cores => (
                "  Cores".to_string(),
                Kind::Number { default: "1".to_string(), max: 4294967295 },
            ),
            Step::RootPassword => (
                "  Root password (used only during bootstrap)".to_string(),
                Kind::Secret,
            ),
            Step::Bridge => (
                "  Network bridge".to_string(),
                Kind::Default("vmbr0".to_string()),
            ),
            Step::Ip => (
                "  IP  (\"dhcp\" or CIDR e.g. 192.168.1.50/24)".to_string(),
                Kind::Default("dhcp".to_string()),
            ),
            Step::Gateway => (
                "  Gateway (leave blank if not needed)".to_string(),
                Kind::Optional,
            ),
            Step::PublicKeyFile => (
                "  SSH public key file  (blank = auto-detect)".to_string(),
                Kind::Optional,
            ),
            Step::IdentityFile => (
                "  SSH private key file (blank = auto-detect)".to_string(),
                Kind::Optional,
            ),
            Step::LocalPath => (
                self.local_label(),
                Kind::Optional,
            ),
            Step::RemotePath => (
                "  Remote path (relative to /profiles/<user>/)".to_string(),
                Kind::Default(default_remote(self.local.as_str())),
            ),
            Step::DeletePath => (
                "  Delete remote files that no longer exist locally".to_string(),
                Kind::YesNo(false),
            ),
            Step::Tailscale => (
                "  Enable Tailscale integration".to_string(),
                Kind::YesNo(false),
            ),
            Step::AuthKey => (
                "  Tailscale auth key (tskey-auth-...)".to_string(),
                Kind::Secret,
            ),
            Step::PreferTailscale => (
                "  Prefer Tailscale IP for push/pull".to_string(),
                Kind::YesNo(true),
            ),
            Step::Daemon => (
                "  Configure the dps-daemon background service".to_string(),
                Kind::YesNo(false),
            ),
            Step::AutoStart => (
                "  Auto-start container when daemon starts".to_string(),
                Kind::YesNo(true),
            ),
            Step::AutoWatch => (
                "  Auto-start watcher when daemon starts".to_string(),
                Kind::YesNo(true),
            ),
            Step::WatchDirection => (
                "  Watch direction".to_string(),
                Kind::Choice { options: list_directions(), default: "both".to_string() },
            ),
            Step::Done => {
                return None;
            },
        };
        Some(Question { label, kind })
    }
}

/// The text that an answer gives; empty where it gives none.
pub open spec fn text_of(r: ReplyView) -> Seq<char> {
    match r {
        ReplyView::Text(s) => s,
        _ => seq![],
    }
}

/// The text that an answer may give.
pub open spec fn optional_of(r: ReplyView) -> Option<Seq<char>> {
    match r {
        ReplyView::Text(s) => Some(s),
        _ => None,
    }
}

/// The number that an answer gives; zero where it gives none.
pub open spec fn number_of(r: ReplyView) -> u64 {
    match r {
        ReplyView::Number(n) => n,
        _ => 0,
    }
}

/// Whether an answer says yes.
pub open spec fn flag_of(r: ReplyView) -> bool {
    r == ReplyView::Flag(true)
}

fn text_in(r: &Reply) -> (s: &str)
    ensures
        s@ == text_of(r@),
{
    match r {
        Reply::Text(s) => s.as_str(),
        _ => {
            proof {
                reveal_strlit("");
            }
            assert(""@ =~= seq![]);
            ""
        },
    }
}

fn optional_in(r: &Reply) -> (s: Option<String>)
    ensures
        text::opt(s) == optional_of(r@),
{
    match r {
        Reply::Text(s) => Some(s.clone()),
        _ => None,
    }
}

fn number_in(r: &Reply) -> (n: u64)
    ensures
        n == number_of(r@),
{
    match r {
        Reply::Number(n) => *n,
        _ => 0,
    }
}

fn flag_in(r: &Reply) -> (b: bool)
    ensures
        b == flag_of(r@),
{
    match r {
        Reply::Flag(b) => *b,
        _ => false,
    }
}

fn is_nothing(r: &Reply) -> (b: bool)
    ensures
        b == r@ is Nothing,
{
    match r {
        Reply::Nothing => true,
        _ => false,
    }
}

impl WizardView {
    /// What is asked after an answer.
    pub open spec fn next_step(self, r: ReplyView) -> Step {
        match self.step {
            Step::Host => Step::Port,
            Step::Port => Step::Node,
            Step::Node => Step::VerifySsl,
            Step::VerifySsl => Step::AuthType,
            Step::AuthType => if text_of(r) == "token"@ {
                Step::TokenUser
            } else {
                Step::LoginUser
            },
            Step::TokenUser => Step::TokenName,
            Step::TokenName => Step::TokenSecret,
            Step::TokenSecret => Step::Vmid,
            Step::LoginUser => Step::Realm,
            Step::Realm => Step::Password,
            Step::Password => Step::Vmid,
            Step::Vmid => Step::Hostname,
            Step::Hostname => Step::Template,
            Step::Template => Step::Storage,
            Step::Storage => Step::DiskSize,
            Step::DiskSize => Step::Memory,
            Step::Memory => Step::Cores,
            Step::Cores => Step::RootPassword,
            Step::RootPassword => Step::Bridge,
            Step::Bridge => Step::Ip,
            Step::Ip => if text_of(r) == "dhcp"@ {
                Step::PublicKeyFile
            } else {
                Step::Gateway
            },
            Step::Gateway => Step::PublicKeyFile,
            Step::PublicKeyFile => Step::IdentityFile,
            Step::IdentityFile => Step::LocalPath,
            Step::LocalPath => if r is Nothing {
                Step::Tailscale
            } else {
                Step::RemotePath
            },
            Step::RemotePath => Step::DeletePath,
            Step::DeletePath => Step::LocalPath,
            Step::Tailscale => if flag_of(r) {
                Step::AuthKey
            } else {
                Step::Daemon
            },
            Step::AuthKey => Step::PreferTailscale,
            Step::PreferTailscale => Step::Daemon,
            Step::Daemon => if flag_of(r) {
                Step::AutoStart
            } else {
                Step::Done
            },
            Step::AutoStart => Step::AutoWatch,
            Step::AutoWatch => Step::WatchDirection,
            Step::WatchDirection => Step::Done,
            Step::Done => Step::Done,
        }
    }
}

impl Wizard {
    fn next_step(&self, r: &Reply) -> (s: Step)
        ensures
            s == self@.next_step(r@),
    {
        match self.step {
            Step::Host => Step::Port,
            Step::Port => Step::Node,
            Step::Node => Step::VerifySsl,
            Step::VerifySsl => Step::AuthType,
            Step::AuthType => if text::str_eq(text_in(r), "token") {
                Step::TokenUser
            } else {
                Step::LoginUser
            },
            Step::TokenUser => Step::TokenName,
            Step::TokenName => Step::TokenSecret,
            Step::TokenSecret => Step::Vmid,
            Step::LoginUser => Step::Realm,
            Step::Realm => Step::Password,
            Step::Password => Step::Vmid,
            Step::Vmid => Step::Hostname,
            Step::Hostname => Step::Template,
            Step::Template => Step::Storage,
            Step::Storage => Step::DiskSize,
            Step::DiskSize => Step::Memory,
            Step::Memory => Step::Cores,
            Step::Cores => Step::RootPassword,
            Step::RootPassword => Step::Bridge,
            Step::Bridge => Step::Ip,
            Step::Ip => if text::str_eq(text_in(r), "dhcp") {
                Step::PublicKeyFile
            } else {
                Step::Gateway
            },
            Step::Gateway => Step::PublicKeyFile,
            Step::PublicKeyFile => Step::IdentityFile,
            Step::IdentityFile => Step::LocalPath,
            Step::LocalPath => if is_nothing(r) {
                Step::Tailscale
            } else {
                Step::RemotePath
            },
            Step::RemotePath => Step::DeletePath,
            Step::DeletePath => Step::LocalPath,
            Step::Tailscale => if flag_in(r) {
                Step::AuthKey
            } else {
                Step::Daemon
            },
            Step::AuthKey => Step::PreferTailscale,
            Step::PreferTailscale => Step::Daemon,
            Step::Daemon => if flag_in(r) {
                Step::AutoStart
            } else {
                Step::Done
            },
            Step::AutoStart => Step::AutoWatch,
            Step::AutoWatch => Step::WatchDirection,
            Step::WatchDirection => Step::Done,
            Step::Done => Step::Done,
        }
    }
}

// ── Remarks ──────────────────────────────────────────────────────────────────

/// The heading of a section: its title and a rule up to a common width.
pub open spec fn heading(title: Seq<char>) -> Seq<char> {
    let used = encode_utf8(title).len() + 4;
    let n: nat = if used < 52 {
        (52 - used) as nat
    } else {
        0
    };
    "── "@ + title + " "@ + Seq::new(n, |i: int| '─')
}

/// The heading of a section.
pub fn section(title: &str) -> (r: String)
    ensures
        r@ == heading(title@),
{
    let len: usize = title.as_bytes().len();
    let n: usize = if len < 48 {
        48 - len
    } else {
        0
    };
    let mut s = "── ".to_string().concat(title).concat(" ");
    let ghost head = s@;
    let mut i: usize = 0;
    assert(head + Seq::new(0, |i: int| '─') =~= head);
    while i < n
        invariant
            i <= n,
            s@ == head + Seq::new(i as nat, |i: int| '─'),
        decreases n - i,
    {
        s.push('─');
        assert(s@ =~= head + Seq::new((i + 1) as nat, |i: int| '─'));
        i += 1;
    }
    s
}

/// What is printed before the first question.
pub open spec fn welcome() -> Seq<Seq<char>> {
    seq![
        seq![],
        "╔══════════════════════════════════════╗"@,
        "║        dps — first-time setup        ║"@,
        "╚══════════════════════════════════════╝"@,
        seq![],
        "Answer each prompt (press Enter to accept the [default])."@,
        seq![],
        heading("Proxmox Connection"@),
    ]
}

/// The paths that are kept in sync where none are entered.
pub open spec fn default_path_list() -> Seq<SyncPathView> {
    seq![
        SyncPathView { local: "~/.bashrc"@, remote: ".bashrc"@, delete: false },
        SyncPathView { local: "~/.bash_profile"@, remote: ".bash_profile"@, delete: false },
        SyncPathView { local: "~/.profile"@, remote: ".profile"@, delete: false },
        SyncPathView { local: "~/.gitconfig"@, remote: ".gitconfig"@, delete: false },
    ]
}

fn push_path(v: &mut Vec<SyncPath>, local: &str, remote: &str, delete: bool)
    ensures
        config::paths_view(final(v)@) == config::paths_view(old(v)@).push(
            SyncPathView { local: local@, remote: remote@, delete },
        ),
{
    let ghost before = v@;
    let sp = SyncPath { local: local.to_string(), remote: remote.to_string(), delete };
    let ghost shown = sp@;
    v.push(sp);
    assert(config::paths_view(v@) =~= config::paths_view(before).push(shown));
}

/// The paths that are kept in sync where none are entered.
pub fn default_paths() -> (r: Vec<SyncPath>)
    ensures
        config::paths_view(r@) == default_path_list(),
{
    let mut v: Vec<SyncPath> = Vec::new();
    assert(config::paths_view(v@) =~= seq![]);
    push_path(&mut v, "~/.bashrc", ".bashrc", false);
    push_path(&mut v, "~/.bash_profile", ".bash_profile", false);
    push_path(&mut v, "~/.profile", ".profile", false);
    push_path(&mut v, "~/.gitconfig", ".gitconfig", false);
    assert(config::paths_view(v@) =~= default_path_list());
    v
}

/// What is printed about the default paths.
pub open spec fn default_path_lines() -> Seq<Seq<char>> {
    seq!["  No paths entered — using defaults:"@] + default_path_list().map_values(
        |sp: SyncPathView| "    "@ + sp.local + " → "@ + sp.remote,
    )
}

/// What is printed before the questions on paths.
pub open spec fn path_lines() -> Seq<Seq<char>> {
    seq![
        seq![],
        "  Paths to sync between this machine and the container."@,
        "  Press Enter with a blank local path when done."@,
        seq![],
    ]
}

/// What is printed before the questions on Tailscale.
pub open spec fn tailscale_lines() -> Seq<Seq<char>> {
    seq![
        heading("Tailscale (optional)"@),
        "  When enabled, dps installs Tailscale in the container during setup"@,
        "  and uses the Tailscale IP for all transfers (works across networks)."@,
        seq![],
    ]
}

impl WizardView {
    /// What is printed after an answer and before the next question.
    pub open spec fn remarks(self, r: ReplyView) -> Seq<Seq<char>> {
        match (self.step, self.next_step(r)) {
            (_, Step::AuthType) => seq![heading("Authentication"@)],
            (_, Step::Vmid) => seq![heading("LXC Container"@)],
            (_, Step::PublicKeyFile) => seq![heading("Profile Sync"@)],
            (Step::IdentityFile, _) => path_lines(),
            (Step::DeletePath, _) => seq![seq![]],
            (_, Step::Tailscale) => (if self.cfg.sync.paths.len() == 0 {
                default_path_lines()
            } else {
                seq![]
            }) + tailscale_lines(),
            (_, Step::Daemon) => seq![heading("Daemon (optional)"@)],
            (_, Step::Done) => seq![seq![]],
            _ => seq![],
        }
    }
}

fn push_default_paths(out: &mut Vec<String>)
    ensures
        text::strs(final(out)@) == text::strs(old(out)@) + default_path_lines(),
{
    broadcast use text::lemma_strs_push;

    let ghost before = text::strs(out@);
    out.push("  No paths entered — using defaults:".to_string());
    let ghost head = before.push("  No paths entered — using defaults:"@);
    let paths = default_paths();
    let ghost all = default_path_list().map_values(|sp: SyncPathView| "    "@ + sp.local + " → "@ + sp.remote);
    assert(config::paths_view(paths@).len() == paths@.len());
    let mut i: usize = 0;
    assert(head + all.take(0) =~= head);
    while i < paths.len()
        invariant
            i <= paths@.len(),
            config::paths_view(paths@) == default_path_list(),
            config::paths_view(paths@).len() == paths@.len(),
            all == default_path_list().map_values(|sp: SyncPathView| "    "@ + sp.local + " → "@ + sp.remote),
            text::strs(out@) == head + all.take(i as int),
        decreases paths@.len() - i,
    {
        let line = "    ".to_string().concat(paths[i].local.as_str()).concat(" → ").concat(paths[i].remote.as_str());
        assert(config::paths_view(paths@)[i as int] == paths@[i as int]@);
        assert(line@ == all[i as int]);
        out.push(line);
        assert((head + all.take(i as int)).push(all[i as int]) =~= head + all.take(i + 1));
        i += 1;
    }
    assert(all.take(all.len() as int) =~= all);
    assert(head + all =~= before + default_path_lines());
}

impl Wizard {
    fn remarks(&self, r: &Reply) -> (lines: Vec<String>)
        ensures
            text::strs(lines@) == self@.remarks(r@),
    {
        broadcast use text::lemma_strs_push;

        let mut out: Vec<String> = Vec::new();
        assert(text::strs(out@) =~= seq![]);
        match (self.step, self.next_step(r)) {
            (_, Step::AuthType) => {
                out.push(section("Authentication"));
            },
            (_, Step::Vmid) => {
                out.push(section("LXC Container"));
            },
            (_, Step::PublicKeyFile) => {
                out.push(section("Profile Sync"));
            },
            (Step::IdentityFile, _) => {
                out.push(String::new());
                out.push("  Paths to sync between this machine and the container.".to_string());
                out.push("  Press Enter with a blank local path when done.".to_string());
                out.push(String::new());
            },
            (Step::DeletePath, _) => {
                out.push(String::new());
            },
            (_, Step::Tailscale) => {
                if self.cfg.sync.paths.len() == 0 {
                    push_default_paths(&mut out);
                }
                out.push(section("Tailscale (optional)"));
                out.push("  When enabled, dps installs Tailscale in the container during setup".to_string());
                out.push("  and uses the Tailscale IP for all transfers (works across networks).".to_string());
                out.push(String::new());
            },
            (_, Step::Daemon) => {
                out.push(section("Daemon (optional)"));
            },
            (_, Step::Done) => {
                out.push(String::new());
            },
            _ => {},
        }
        assert(text::strs(out@) =~= self@.remarks(r@));
        out
    }
}

// ── Answers ──────────────────────────────────────────────────────────────────

/// A configuration in which nothing has been answered yet.
pub open spec fn blank_config() -> ConfigView {
    ConfigView {
        proxmox: ProxmoxView {
            host: seq![],
            port: 0,
            node: seq![],
            auth: AuthView::Token { user: seq![], token_name: seq![], token_value: seq![] },
            verify_ssl: false,
        },
        container: ContainerView {
            vmid: 0,
            hostname: seq![],
            template: seq![],
            storage: seq![],
            disk_size: seq![],
            memory: 0,
            cores: 0,
            root_password: seq![],
            network: NetworkView { bridge: seq![], ip: seq![], gateway: None },
        },
        sync: SyncView {
            container_user: "root"@,
            ssh_port: 22,
            container_ip: None,
            ssh_public_key_file: None,
            ssh_identity_file: None,
            paths: seq![],
            exclude_patterns: seq![".git/"@, "__pycache__/"@, "*.pyc"@, "node_modules/"@],
            machine_specific_patterns: seq![],
        },
        tailscale: None,
        daemon: None,
    }
}

fn new_config() -> (r: Config)
    ensures
        r@ == blank_config(),
{
    broadcast use text::lemma_strs_push;

    let mut exclude_patterns: Vec<String> = Vec::new();
    exclude_patterns.push(".git/".to_string());
    exclude_patterns.push("__pycache__/".to_string());
    exclude_patterns.push("*.pyc".to_string());
    exclude_patterns.push("node_modules/".to_string());
    let cfg = Config {
        proxmox: ProxmoxConfig {
            host: String::new(),
            port: 0,
            node: String::new(),
            auth: AuthConfig::Token { user: String::new(), token_name: String::new(), token_value: String::new() },
            verify_ssl: false,
        },
        container: ContainerConfig {
            vmid: 0,
            hostname: String::new(),
            template: String::new(),
            storage: String::new(),
            disk_size: String::new(),
            memory: 0,
            cores: 0,
            root_password: String::new(),
            network: NetworkConfig { bridge: String::new(), ip: String::new(), gateway: None },
        },
        sync: SyncConfig {
            container_user: "root".to_string(),
            ssh_port: 22,
            container_ip: None,
            ssh_public_key_file: None,
            ssh_identity_file: None,
            paths: Vec::new(),
            exclude_patterns,
            machine_specific_patterns: Vec::new(),
        },
        tailscale: None,
        daemon: None,
    };
    assert(cfg@.sync.paths =~= seq![]);
    assert(cfg@.sync.exclude_patterns =~= seq![".git/"@, "__pycache__/"@, "*.pyc"@, "node_modules/"@]);
    assert(cfg@.sync.machine_specific_patterns =~= seq![]);
    cfg
}

/// The credentials with one more answer.
pub open spec fn with_credential(auth: AuthView, step: Step, answer: Seq<char>) -> AuthView {
    match (auth, step) {
        (AuthView::Token { token_name, token_value, .. }, Step::TokenUser) => AuthView::Token {
            user: answer,
            token_name,
            token_value,
        },
        (AuthView::Token { user, token_value, .. }, Step::TokenName) => AuthView::Token {
            user,
            token_name: answer,
            token_value,
        },
        (AuthView::Token { user, token_name, .. }, Step::TokenSecret) => AuthView::Token {
            user,
            token_name,
            token_value: answer,
        },
        (AuthView::Password { realm, password, .. }, Step::LoginUser) => AuthView::Password {
            user: answer,
            realm,
            password,
        },
        (AuthView::Password { user, password, .. }, Step::Realm) => AuthView::Password {
            user,
            realm: answer,
            password,
        },
        (AuthView::Password { user, realm, .. }, Step::Password) => AuthView::Password {
            user,
            realm,
            password: answer,
        },
        (auth, _) => auth,
    }
}

/// The credentials before any answer.
pub open spec fn blank_credentials(kind: Seq<char>) -> AuthView {
    if kind == "token"@ {
        AuthView::Token { user: seq![], token_name: seq![], token_value: seq![] }
    } else {
        AuthView::Password { user: seq![], realm: seq![], password: seq![] }
    }
}

/// The Proxmox section with one more answer.
pub open spec fn with_proxmox(p: ProxmoxView, step: Step, r: ReplyView) -> ProxmoxView {
    match step {
        Step::Host => ProxmoxView { host: text_of(r), ..p },
        Step::Port => ProxmoxView { port: number_of(r) as u16, ..p },
        Step::Node => ProxmoxView { node: text_of(r), ..p },
        Step::VerifySsl => ProxmoxView { verify_ssl: flag_of(r), ..p },
        Step::AuthType => ProxmoxView { auth: blank_credentials(text_of(r)), ..p },
        _ => ProxmoxView { auth: with_credential(p.auth, step, text_of(r)), ..p },
    }
}

/// The container section with one more answer.
pub open spec fn with_container(c: ContainerView, step: Step, r: ReplyView) -> ContainerView {
    match step {
        Step::Vmid => ContainerView { vmid: number_of(r) as u32, ..c },
        Step::Hostname => ContainerView { hostname: text_of(r), ..c },
        Step::Template => ContainerView { template: text_of(r), ..c },
        Step::Storage => ContainerView { storage: text_of(r), ..c },
        Step::DiskSize => ContainerView { disk_size: text_of(r), ..c },
        Step::Memory => ContainerView { memory: number_of(r) as u32, ..c },
        Step::Cores => ContainerView { cores: number_of(r) as u32, ..c },
        Step::RootPassword => ContainerView { root_password: text_of(r), ..c },
        Step::Bridge => ContainerView { network: NetworkView { bridge: text_of(r), ..c.network }, ..c },
        Step::Ip => ContainerView { network: NetworkView { ip: text_of(r), ..c.network }, ..c },
        Step::Gateway => ContainerView { network: NetworkView { gateway: optional_of(r), ..c.network }, ..c },
        _ => c,
    }
}

impl WizardView {
    /// The sync section with one more answer.
    pub open spec fn with_sync(self, r: ReplyView) -> SyncView {
        let sync = self.cfg.sync;
        match self.step {
            Step::PublicKeyFile => SyncView { ssh_public_key_file: optional_of(r), ..sync },
            Step::IdentityFile => SyncView { ssh_identity_file: optional_of(r), ..sync },
            Step::DeletePath => SyncView {
                paths: sync.paths.push(SyncPathView { local: self.local, remote: self.remote, delete: flag_of(r) }),
                ..sync
            },
            Step::LocalPath if r is Nothing && sync.paths.len() == 0 => SyncView {
                paths: default_path_list(),
                ..sync
            },
            _ => sync,
        }
    }

    /// The Tailscale section with one more answer.
    pub open spec fn with_tailscale(self, r: ReplyView) -> Option<TailscaleView> {
        match (self.step, self.cfg.tailscale) {
            (Step::Tailscale, _) => if flag_of(r) {
                Some(
                    TailscaleView {
                        auth_key: seq![],
                        hostname: None,
                        tags: seq![],
                        prefer_tailscale_ip: true,
                        container_ts_ip: None,
                    },
                )
            } else {
                None
            },
            (Step::AuthKey, Some(ts)) => Some(TailscaleView { auth_key: text_of(r), ..ts }),
            (Step::PreferTailscale, Some(ts)) => Some(TailscaleView { prefer_tailscale_ip: flag_of(r), ..ts }),
            (_, ts) => ts,
        }
    }

    /// The daemon section with one more answer.
    pub open spec fn with_daemon(self, r: ReplyView) -> Option<DaemonView> {
        match (self.step, self.cfg.daemon) {
            (Step::Daemon, _) => if flag_of(r) {
                Some(
                    DaemonView {
                        auto_start_container: false,
                        auto_watch: false,
                        watch_direction: seq![],
                        debounce_ms: 500,
                        poll_secs: 30,
                        sync_user: None,
                    },
                )
            } else {
                None
            },
            (Step::AutoStart, Some(d)) => Some(DaemonView { auto_start_container: flag_of(r), ..d }),
            (Step::AutoWatch, Some(d)) => Some(DaemonView { auto_watch: flag_of(r), ..d }),
            (Step::WatchDirection, Some(d)) => Some(DaemonView { watch_direction: text_of(r), ..d }),
            (_, d) => d,
        }
    }

    /// The dialogue after an answer that was understood.
    pub open spec fn answered(self, r: ReplyView) -> WizardView {
        WizardView {
            cfg: ConfigView {
                proxmox: with_proxmox(self.cfg.proxmox, self.step, r),
                container: with_container(self.cfg.container, self.step, r),
                sync: self.with_sync(r),
                tailscale: self.with_tailscale(r),
                daemon: self.with_daemon(r),
            },
            step: self.next_step(r),
            local: if self.step == Step::LocalPath {
                text_of(r)
            } else {
                self.local
            },
            remote: if self.step == Step::RemotePath {
                text_of(r)
            } else {
                self.remote
            },
        }
    }

    /// The dialogue after a line was typed, and what is printed then.  A line that
    /// is not understood brings a complaint and the same question again.
    pub open spec fn after_line(self, line: Seq<char>) -> (WizardView, Seq<Seq<char>>) {
        match reading(self.question().1, line) {
            Ok(r) => (self.answered(r), self.remarks(r)),
            Err(complaint) => (self, seq![complaint]),
        }
    }
}

fn fill_proxmox(p: &mut ProxmoxConfig, step: Step, r: &Reply)
    ensures
        final(p)@ == with_proxmox(old(p)@, step, r@),
{
    match step {
        Step::Host => {
            p.host = text_in(r).to_string();
        },
        Step::Port => {
            p.port = number_in(r) as u16;
        },
        Step::Node => {
            p.node = text_in(r).to_string();
        },
        Step::VerifySsl => {
            p.verify_ssl = flag_in(r);
        },
        Step::AuthType => {
            if text::str_eq(text_in(r), "token") {
                p.auth = AuthConfig::Token {
                    user: String::new(),
                    token_name: String::new(),
                    token_value: String::new(),
                };
            } else {
                p.auth = AuthConfig::Password { user: String::new(), realm: String::new(), password: String::new() };
            }
        },
        _ => {
            fill_auth(&mut p.auth, step, r);
        },
    }
}

fn fill_auth(auth: &mut AuthConfig, step: Step, r: &Reply)
    ensures
        final(auth)@ == with_credential(old(auth)@, step, text_of(r@)),
{
    match auth {
        AuthConfig::Token { user, token_name, token_value } => match step {
            Step::TokenUser => {
                *user = text_in(r).to_string();
            },
            Step::TokenName => {
                *token_name = text_in(r).to_string();
            },
            Step::TokenSecret => {
                *token_value = text_in(r).to_string();
            },
            _ => {},
        },
        AuthConfig::Password { user, realm, password } => match step {
            Step::LoginUser => {
                *user = text_in(r).to_string();
            },
            Step::Realm => {
                *realm = text_in(r).to_string();
            },
            Step::Password => {
                *password = text_in(r).to_string();
            },
            _ => {},
        },
    }
}

fn fill_container(c: &mut ContainerConfig, step: Step, r: &Reply)
    ensures
        final(c)@ == with_container(old(c)@, step, r@),
{
    match step {
        Step::Vmid => {
            c.vmid = number_in(r) as u32;
        },
        Step::Hostname => {
            c.hostname = text_in(r).to_string();
        },
        Step::Template => {
            c.template = text_in(r).to_string();
        },
        Step::Storage => {
            c.storage = text_in(r).to_string();
        },
        Step::DiskSize => {
            c.disk_size = text_in(r).to_string();
        },
        Step::Memory => {
            c.memory = number_in(r) as u32;
        },
        Step::Cores => {
            c.cores = number_in(r) as u32;
        },
        Step::RootPassword => {
            c.root_password = text_in(r).to_string();
        },
        Step::Bridge => {
            c.network.bridge = text_in(r).to_string();
        },
        Step::Ip => {
            c.network.ip = text_in(r).to_string();
        },
        Step::Gateway => {
            c.network.gateway = optional_in(r);
        },
        _ => {},
    }
}

impl Wizard {
    /// The beginning of the dialogue, and what is printed first.
    pub fn begin() -> (r: (Wizard, Vec<String>))
        ensures
            r.0@ == (WizardView { cfg: blank_config(), step: Step::Host, local: seq![], remote: seq![] }),
            text::strs(r.1@) == welcome(),
    {
        broadcast use text::lemma_strs_push;

        let mut out: Vec<String> = Vec::new();
        out.push(String::new());
        out.push("╔══════════════════════════════════════╗".to_string());
        out.push("║        dps — first-time setup        ║".to_string());
        out.push("╚══════════════════════════════════════╝".to_string());
        out.push(String::new());
        out.push("Answer each prompt (press Enter to accept the [default]).".to_string());
        out.push(String::new());
        out.push(section("Proxmox Connection"));
        assert(text::strs(out@) =~= welcome());
        (Wizard { cfg: new_config(), step: Step::Host, local: String::new(), remote: String::new() }, out)
    }

    fn fill_sync(&mut self, r: &Reply)
        ensures
            final(self)@ == (WizardView {
                cfg: ConfigView { sync: old(self)@.with_sync(r@), ..old(self)@.cfg },
                ..old(self)@
            }),
    {
        match self.step {
            Step::PublicKeyFile => {
                self.cfg.sync.ssh_public_key_file = optional_in(r);
            },
            Step::IdentityFile => {
                self.cfg.sync.ssh_identity_file = optional_in(r);
            },
            Step::DeletePath => {
                push_path(&mut self.cfg.sync.paths, self.local.as_str(), self.remote.as_str(), flag_in(r));
            },
            Step::LocalPath => {
                if is_nothing(r) && self.cfg.sync.paths.len() == 0 {
                    self.cfg.sync.paths = default_paths();
                }
            },
            _ => {},
        }
    }

    fn fill_tailscale(&mut self, r: &Reply)
        ensures
            final(self)@ == (WizardView {
                cfg: ConfigView { tailscale: old(self)@.with_tailscale(r@), ..old(self)@.cfg },
                ..old(self)@
            }),
    {
        match self.step {
            Step::Tailscale => {
                if flag_in(r) {
                    let ts = TailscaleConfig {
                        auth_key: String::new(),
                        hostname: None,
                        tags: Vec::new(),
                        prefer_tailscale_ip: true,
                        container_ts_ip: None,
                    };
                    assert(ts@.tags =~= seq![]);
                    self.cfg.tailscale = Some(ts);
                } else {
                    self.cfg.tailscale = None;
                }
            },
            Step::AuthKey => {
                if let Some(ts) = &mut self.cfg.tailscale {
                    ts.auth_key = text_in(r).to_string();
                }
            },
            Step::PreferTailscale => {
                if let Some(ts) = &mut self.cfg.tailscale {
                    ts.prefer_tailscale_ip = flag_in(r);
                }
            },
            _ => {},
        }
    }

    fn fill_daemon(&mut self, r: &Reply)
        ensures
            final(self)@ == (WizardView {
                cfg: ConfigView { daemon: old(self)@.with_daemon(r@), ..old(self)@.cfg },
                ..old(self)@
            }),
    {
        match self.step {
            Step::Daemon => {
                if flag_in(r) {
                    self.cfg.daemon = Some(
                        DaemonConfig {
                            auto_start_container: false,
                            auto_watch: false,
                            watch_direction: String::new(),
                            debounce_ms: 500,
                            poll_secs: 30,
                            sync_user: None,
                        },
                    );
                } else {
                    self.cfg.daemon = None;
                }
            },
            Step::AutoStart => {
                if let Some(d) = &mut self.cfg.daemon {
                    d.auto_start_container = flag_in(r);
                }
            },
            Step::AutoWatch => {
                if let Some(d) = &mut self.cfg.daemon {
                    d.auto_watch = flag_in(r);
                }
            },
            Step::WatchDirection => {
                if let Some(d) = &mut self.cfg.daemon {
                    d.watch_direction = text_in(r).to_string();
                }
            },
            _ => {},
        }
    }

    /// Takes the line that was typed, and returns what is printed then.  The
    /// answer to a secret question comes without the end of the line.
    pub fn answer(&mut self, line: &str) -> (r: Vec<String>)
        requires
            old(self).cfg.sync.paths@.len() < u64::MAX,
            old(self).step != Step::Done,
        ensures
            (final(self)@, text::strs(r@)) == old(self)@.after_line(line@),
    {
        broadcast use text::lemma_strs_push;

        let ghost before = self@;
        let question = match self.question() {
            Some(q) => q,
            None => {
                return Vec::new();
            },
        };
        match read_answer(&question.kind, line) {
            Ok(reply) => {
                let next = self.next_step(&reply);
                let lines = self.remarks(&reply);
                fill_proxmox(&mut self.cfg.proxmox, self.step, &reply);
                fill_container(&mut self.cfg.container, self.step, &reply);
                self.fill_sync(&reply);
                self.fill_tailscale(&reply);
                self.fill_daemon(&reply);
                match self.step {
                    Step::LocalPath => {
                        self.local = text_in(&reply).to_string();
                    },
                    Step::RemotePath => {
                        self.remote = text_in(&reply).to_string();
                    },
                    _ => {},
                }
                self.step = next;
                assert(self@ == before.answered(reply@));
                lines
            },
            Err(complaint) => {
                let mut out: Vec<String> = Vec::new();
                let ghost shown = complaint@;
                out.push(complaint);
                assert(text::strs(out@) =~= seq![shown]);
                out
            },
        }
    }

    /// The configuration, once nothing is left to ask.
    pub fn finish(self) -> (r: Option<Config>)
        ensures
            match r {
                Some(cfg) => self.step == Step::Done && cfg == self.cfg,
                None => self.step != Step::Done,
            },
    {
        match self.step {
            Step::Done => Some(self.cfg),
            _ => None,
        }
    }
}

/// The error for a secret that could not be read.
pub fn input_error(cause: &str) -> (r: Error)
    ensures
        r@ == ErrorView::Config("failed to read input: "@ + cause@),
{
    Error::Config("failed to read input: ".to_string().concat(cause))
}

// ── Laws ─────────────────────────────────────────────────────────────────────

/// A line that is not understood brings the same question again, and changes
/// nothing.
pub proof fn law_the_same_question_is_asked_again(w: WizardView, line: Seq<char>)
    requires
        reading(w.question().1, line) is Err,
    ensures
        w.after_line(line).0 == w,
        w.after_line(line).1.len() == 1,
{
}

proof fn lemma_default_numbers()
    ensures
        number::read_number("8006"@, 65535) == Ok::<int, number::NumberError>(8006),
        number::read_number("200"@, 4294967295) == Ok::<int, number::NumberError>(200),
        number::read_number("512"@, 4294967295) == Ok::<int, number::NumberError>(512),
        number::read_number("1"@, 4294967295) == Ok::<int, number::NumberError>(1),
{
    reveal_strlit("8006");
    reveal_strlit("200");
    reveal_strlit("512");
    reveal_strlit("1");
    reveal_with_fuel(number::read_digits, 5);
    assert("1"@ != seq!['+'] && "1"@ != seq!['-']) by {
        assert("1"@[0] == '1');
    }
}

/// Entering nothing accepts the default of every question that shows one.
pub proof fn law_enter_accepts_the_default(w: WizardView, line: Seq<char>)
    requires
        typed(line).len() == 0,
    ensures
        match w.question().1 {
            KindView::Default(d) => reading(w.question().1, line) == Ok::<ReplyView, Seq<char>>(ReplyView::Text(d)),
            KindView::YesNo(b) => reading(w.question().1, line) == Ok::<ReplyView, Seq<char>>(ReplyView::Flag(b)),
            KindView::Choice { default, .. } => reading(w.question().1, line) == Ok::<ReplyView, Seq<char>>(
                ReplyView::Text(default),
            ),
            KindView::Number { default, max } => number::read_number(default, max as int) is Ok && reading(
                w.question().1,
                line,
            ) == Ok::<ReplyView, Seq<char>>(
                ReplyView::Number(number::read_number(default, max as int)->Ok_0 as u64),
            ),
            _ => true,
        },
{
    reveal_strlit("y");
    reveal_strlit("yes");
    reveal_strlit("n");
    reveal_strlit("no");
    assert(auth_types()[0] == "token"@);
    assert(directions()[0] == "both"@);
    lemma_default_numbers();
    match w.question().1 {
        KindView::Number { default, max } => {
            assert(or_default(typed(line), default) == default);
        },
        _ => {},
    }
}

/// A number that is accepted is stored as it was entered.
pub proof fn law_numbers_are_stored_exactly(w: WizardView, line: Seq<char>, n: u64)
    requires
        reading(w.question().1, line) == Ok::<ReplyView, Seq<char>>(ReplyView::Number(n)),
    ensures
        w.step == Step::Port ==> w.after_line(line).0.cfg.proxmox.port == n,
        w.step == Step::Vmid ==> w.after_line(line).0.cfg.container.vmid == n,
        w.step == Step::Memory ==> w.after_line(line).0.cfg.container.memory == n,
        w.step == Step::Cores ==> w.after_line(line).0.cfg.container.cores == n,
{
    match w.question().1 {
        KindView::Number { default, max } => {
            number::lemma_read_number_range(or_default(typed(line), default), max as int);
        },
        _ => {},
    }
}

/// The position of a step in the dialogue.
pub open spec fn rank(step: Step) -> int {
    match step {
        Step::Host => 0,
        Step::Port => 1,
        Step::Node => 2,
        Step::VerifySsl => 3,
        Step::AuthType => 4,
        Step::TokenUser | Step::LoginUser => 5,
        Step::TokenName | Step::Realm => 6,
        Step::TokenSecret | Step::Password => 7,
        Step::Vmid => 8,
        Step::Hostname => 9,
        Step::Template => 10,
        Step::Storage => 11,
        Step::DiskSize => 12,
        Step::Memory => 13,
        Step::Cores => 14,
        Step::RootPassword => 15,
        Step::Bridge => 16,
        Step::Ip => 17,
        Step::Gateway => 18,
        Step::PublicKeyFile => 19,
        Step::IdentityFile => 20,
        Step::LocalPath | Step::RemotePath | Step::DeletePath => 21,
        Step::Tailscale => 22,
        Step::AuthKey => 23,
        Step::PreferTailscale => 24,
        Step::Daemon => 25,
        Step::AutoStart => 26,
        Step::AutoWatch => 27,
        Step::WatchDirection => 28,
        Step::Done => 29,
    }
}

/// Whether the credentials have their secret.
pub open spec fn has_secret(auth: AuthView) -> bool {
    match auth {
        AuthView::Token { token_value, .. } => token_value.len() > 0,
        AuthView::Password { password, .. } => password.len() > 0,
    }
}

impl WizardView {
    /// What holds of the answers at each point of the dialogue.
    pub open spec fn is_sound(self) -> bool {
        let at = rank(self.step);
        &&& at > rank(Step::Host) ==> self.cfg.proxmox.host.len() > 0
        &&& self.step is TokenUser || self.step is TokenName || self.step is TokenSecret ==> self.cfg.proxmox.auth is Token
        &&& self.step is LoginUser || self.step is Realm || self.step is Password ==> self.cfg.proxmox.auth is Password
        &&& at > rank(Step::Password) ==> has_secret(self.cfg.proxmox.auth)
        &&& at > rank(Step::RootPassword) ==> self.cfg.container.root_password.len() > 0
        &&& at <= rank(Step::Ip) ==> self.cfg.container.network.gateway is None
        &&& self.step is Gateway ==> self.cfg.container.network.ip != "dhcp"@
        &&& self.cfg.container.network.gateway is Some ==> self.cfg.container.network.ip != "dhcp"@
        &&& at > rank(Step::DeletePath) ==> self.cfg.sync.paths.len() > 0
        &&& at <= rank(Step::Tailscale) ==> self.cfg.tailscale is None
        &&& self.step is AuthKey || self.step is PreferTailscale ==> self.cfg.tailscale is Some
        &&& at > rank(Step::AuthKey) ==> (self.cfg.tailscale matches Some(ts) ==> ts.auth_key.len() > 0)
        &&& at <= rank(Step::Daemon) ==> self.cfg.daemon is None
        &&& self.step is AutoStart || self.step is AutoWatch || self.step is WatchDirection ==> self.cfg.daemon is Some
        &&& self.step is Done ==> (self.cfg.daemon matches Some(d) ==> directions().contains(d.watch_direction))
    }
}

/// The beginning of the dialogue is sound, and every line keeps it so.
pub proof fn law_dialogue_stays_sound(w: WizardView, line: Seq<char>)
    ensures
        (WizardView { cfg: blank_config(), step: Step::Host, local: seq![], remote: seq![] }).is_sound(),
        w.is_sound() ==> w.after_line(line).0.is_sound(),
{
    if w.is_sound() {
        match reading(w.question().1, line) {
            Ok(r) => {
                let next = w.answered(r);
                assert(next.is_sound());
            },
            Err(_) => {},
        }
    }
}

/// A finished configuration is complete: it names a host, has the secrets that
/// were asked for and at least one path to keep in sync, has a gateway only with
/// a fixed address, and watches in a known direction.
pub proof fn law_finished_configurations_are_complete(w: WizardView)
    requires
        w.is_sound(),
        w.step is Done,
    ensures
        w.cfg.proxmox.host.len() > 0,
        has_secret(w.cfg.proxmox.auth),
        w.cfg.container.root_password.len() > 0,
        w.cfg.container.network.ip == "dhcp"@ ==> w.cfg.container.network.gateway is None,
        w.cfg.sync.paths.len() > 0,
        w.cfg.tailscale matches Some(ts) ==> ts.auth_key.len() > 0,
        w.cfg.daemon matches Some(d) ==> directions().contains(d.watch_direction),
{
}

/// Every answer leads onward; only the questions on one path lead back to the
/// first of them.
pub proof fn law_every_answer_leads_onward(w: WizardView, r: ReplyView)
    requires
        !(w.step is Done),
    ensures
        rank(w.answered(r).step) > rank(w.step) || (rank(w.step) == rank(Step::LocalPath) && rank(w.answered(r).step)
            == rank(Step::LocalPath)),
        w.step is LocalPath && r is Nothing ==> w.answered(r).step is Tailscale,
{
}

/// Where no path is entered, the default paths are kept in sync.
pub proof fn law_default_paths_are_used(w: WizardView)
    requires
        w.step is LocalPath,
        w.cfg.sync.paths.len() == 0,
    ensures
        w.answered(ReplyView::Nothing).cfg.sync.paths == default_path_list(),
{
}

} // verus!
