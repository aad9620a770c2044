//! What each command decides.

use vstd::prelude::*;
use vstd::string::*;
use crate::config::{Config, ConfigView, SyncView, TailscaleConfig, TailscaleView};
use crate::error::{Error, ErrorView};
use crate::number;
use crate::proxmox::lxc::{ContainerStatus, ContainerStatusView};
use crate::sync::profile::{Syncer, SyncerView};
use crate::text;

verus! {

// ── User and address ─────────────────────────────────────────────────────────

/// The user whose profile is meant: the one asked for, else `$USER`, else
/// `$LOGNAME`.
pub open spec fn username(
    asked: Option<Seq<char>>,
    user: Option<Seq<char>>,
    logname: Option<Seq<char>>,
) -> Option<Seq<char>> {
    match (asked, user) {
        (Some(u), _) => Some(u),
        (None, Some(u)) => Some(u),
        (None, None) => logname,
    }
}

/// The user whose profile is meant, given the one asked for, `$USER` and
/// `$LOGNAME`.
pub fn resolve_username(asked: Option<String>, user: Option<String>, logname: Option<String>) -> (r: Result<
    String,
    Error,
>)
    ensures
        match r {
            Ok(u) => username(text::opt(asked), text::opt(user), text::opt(logname)) == Some(u@),
            Err(e) => username(text::opt(asked), text::opt(user), text::opt(logname)) is None && e@
                == ErrorView::Config("cannot determine local username — use --user"@),
        },
{
    if let Some(u) = asked {
        return Ok(u);
    }
    if let Some(u) = user {
        return Ok(u);
    }
    match logname {
        Some(u) => Ok(u),
        None => Err(Error::Config("cannot determine local username — use --user".to_string())),
    }
}

/// The address that the configuration gives for the container: the Tailscale
/// address where it is preferred and known, else the fixed address.
pub open spec fn configured_ip(cfg: ConfigView) -> Option<Seq<char>> {
    match cfg.tailscale {
        Some(ts) if ts.prefer_tailscale_ip && ts.container_ts_ip is Some => ts.container_ts_ip,
        _ => cfg.sync.container_ip,
    }
}

/// The address that the configuration gives for the container, without asking
/// Proxmox.
pub fn effective_ip(cfg: &Config) -> (r: Option<String>)
    ensures
        text::opt(r) == configured_ip(cfg@),
{
    if let Some(ts) = &cfg.tailscale {
        if ts.prefer_tailscale_ip {
            if let Some(ip) = &ts.container_ts_ip {
                return Some(ip.clone());
            }
        }
    }
    text::copy_opt(&cfg.sync.container_ip)
}

/// The address to use for transfers, given what Proxmox says of the container's
/// own address.  Proxmox is asked only where [`effective_ip`] has no answer;
/// otherwise `detected` does not matter.
pub fn resolve_sync_ip(cfg: &Config, detected: Result<Option<String>, Error>) -> (r: Result<String, Error>)
    ensures
        match configured_ip(cfg@) {
            Some(ip) => r matches Ok(a) && a@ == ip,
            None => match (detected, r) {
                (Ok(Some(a)), Ok(b)) => a == b,
                (Ok(None), Err(e)) => e@ == ErrorView::NoContainerIp,
                (Err(e), Err(x)) => e == x,
                _ => false,
            },
        },
{
    if let Some(ip) = effective_ip(cfg) {
        return Ok(ip);
    }
    match detected {
        Ok(Some(ip)) => Ok(ip),
        Ok(None) => Err(Error::NoContainerIp),
        Err(e) => Err(e),
    }
}

/// Transfers use the Tailscale address whenever it is preferred and known, and
/// never otherwise.
pub proof fn law_preferred_tailscale_address_wins(cfg: ConfigView)
    ensures
        cfg.tailscale matches Some(ts) && ts.prefer_tailscale_ip && ts.container_ts_ip is Some ==> configured_ip(cfg)
            == cfg.tailscale->Some_0.container_ts_ip,
        !(cfg.tailscale matches Some(ts) && ts.prefer_tailscale_ip && ts.container_ts_ip is Some) ==> configured_ip(
            cfg,
        ) == cfg.sync.container_ip,
{
}

/// Whether transfers may begin with the container in this state.
pub fn check_running(vmid: u32, status: &ContainerStatus) -> (r: Result<(), Error>)
    ensures
        match r {
            Ok(_) => !(status@ is Stopped),
            Err(e) => status@ is Stopped && e@ == ErrorView::Config(
                "container "@ + number::decimal(vmid as nat) + " is stopped — run `dps start` first"@,
            ),
        },
{
    match status {
        ContainerStatus::Stopped => Err(
            Error::Config(
                "container ".to_string().concat(number::to_decimal(vmid as u64).as_str()).concat(
                    " is stopped — run `dps start` first",
                ),
            ),
        ),
        _ => Ok(()),
    }
}

/// The syncer for a user, given what Proxmox says of the container's own address,
/// the user asked for, `$USER` and `$LOGNAME`.  A missing address is reported
/// before a missing user.
pub fn prepare_syncer(
    cfg: &Config,
    detected: Result<Option<String>, Error>,
    asked: Option<String>,
    user: Option<String>,
    logname: Option<String>,
) -> (r: Result<Syncer, Error>)
    ensures
        match (configured_ip(cfg@), detected) {
            (None, Err(e)) => r == Err::<Syncer, Error>(e),
            (None, Ok(None)) => r matches Err(e) && e@ == ErrorView::NoContainerIp,
            (configured, detected) => {
                let ip = match configured {
                    Some(ip) => ip,
                    None => detected->Ok_0->Some_0@,
                };
                match username(text::opt(asked), text::opt(user), text::opt(logname)) {
                    Some(u) => r matches Ok(s) && s@ == (SyncerView {
                        cfg: cfg@.sync,
                        container_ip: ip,
                        username: u,
                    }),
                    None => r matches Err(e) && e@ == ErrorView::Config(
                        "cannot determine local username — use --user"@,
                    ),
                }
            },
        },
{
    let ip = match resolve_sync_ip(cfg, detected) {
        Ok(ip) => ip,
        Err(e) => {
            return Err(e);
        },
    };
    match resolve_username(asked, user, logname) {
        Ok(u) => Ok(Syncer::new(cfg.sync.clone(), ip, u)),
        Err(e) => Err(e),
    }
}

// ── Destroy ──────────────────────────────────────────────────────────────────

/// The question before a container is destroyed.
pub fn destroy_prompt(vmid: u32) -> (r: String)
    ensures
        r@ == "This will permanently destroy container "@ + number::decimal(vmid as nat)
            + " and all stored profiles. Type 'yes' to confirm: "@,
{
    "This will permanently destroy container ".to_string().concat(number::to_decimal(vmid as u64).as_str()).concat(
        " and all stored profiles. Type 'yes' to confirm: ",
    )
}

/// Whether a container may be destroyed: it was said on the command line, or the
/// answer is `yes`.
pub fn is_confirmed(yes: bool, answer: Option<&str>) -> (r: bool)
    ensures
        r == (yes || (answer matches Some(a) && text::trimmed(a@) == "yes"@)),
{
    if yes {
        return true;
    }
    match answer {
        Some(a) => text::str_eq(text::trim(a).as_str(), "yes"),
        None => false,
    }
}

/// Whether a container is known to run: its address can be asked for then, and it
/// must be stopped before it is destroyed.
pub fn is_running(status: &Result<ContainerStatus, Error>) -> (r: bool)
    ensures
        r == (*status matches Ok(s) && s@ is Running),
{
    match status {
        Ok(ContainerStatus::Running) => true,
        _ => false,
    }
}

/// A step on the way to destroying a container.
#[derive(Debug, Clone, Copy, PartialEq, Eq, Structural)]
pub enum DestroyStep {
    Stop,
    Destroy,
}

/// The steps that destroy a container in the given state; the first that fails
/// ends it.
pub open spec fn steps_to_destroy(running: bool) -> Seq<DestroyStep> {
    if running {
        seq![DestroyStep::Stop, DestroyStep::Destroy]
    } else {
        seq![DestroyStep::Destroy]
    }
}

/// The steps that destroy a container, given what Proxmox says of its state.
pub fn destroy_steps(status: &Result<ContainerStatus, Error>) -> (r: Vec<DestroyStep>)
    ensures
        r@ == steps_to_destroy(*status matches Ok(s) && s@ is Running),
{
    let mut steps: Vec<DestroyStep> = Vec::new();
    if is_running(status) {
        steps.push(DestroyStep::Stop);
    }
    steps.push(DestroyStep::Destroy);
    assert(steps@ =~= steps_to_destroy(*status matches Ok(s) && s@ is Running));
    steps
}

/// A container that runs is stopped before it is destroyed, and destroying comes
/// last.
pub proof fn law_running_containers_are_stopped_first(running: bool)
    ensures
        running ==> steps_to_destroy(running)[0] == DestroyStep::Stop,
        steps_to_destroy(running).last() == DestroyStep::Destroy,
{
}

// ── Tailscale ────────────────────────────────────────────────────────────────

/// The Tailscale section of the configuration.
pub fn tailscale_section(cfg: &Config) -> (r: Result<&TailscaleConfig, Error>)
    ensures
        match (cfg.tailscale, r) {
            (Some(ts), Ok(section)) => *section == ts,
            (None, Err(e)) => e@ == ErrorView::Config(
                "Tailscale is not configured — add a [tailscale] section to config"@,
            ),
            _ => false,
        },
{
    match &cfg.tailscale {
        Some(ts) => Ok(ts),
        None => Err(
            Error::Config("Tailscale is not configured — add a [tailscale] section to config".to_string()),
        ),
    }
}

/// The key to authenticate with: the one asked for, else the configured one.
pub fn auth_key(ts: &TailscaleConfig, asked: Option<&str>) -> (r: String)
    ensures
        r@ == (match asked {
            Some(k) => k@,
            None => ts@.auth_key,
        }),
{
    match asked {
        Some(k) => k.to_string(),
        None => ts.auth_key.clone(),
    }
}

// ── Setup ────────────────────────────────────────────────────────────────────

/// How long a new container may take to accept SSH connections, in seconds.
pub const SSH_TIMEOUT_SECS: u64 = 120;

/// What the setup of a container waits for.
#[derive(Debug, Clone, Copy, PartialEq, Eq, Structural)]
pub enum SetupStep {
    List,
    FindKey,
    Create,
    Start,
    DetectAddress,
    SaveAddress,
    WaitForSsh,
    Bootstrap,
    QueryTailscale,
    SaveTailscale,
    Over,
}

/// What has come of the last step.
#[derive(Debug)]
pub enum SetupEvent {
    /// Whether a container with the id is there.
    Listed(Result<bool, Error>),
    /// The public key to install, if one was found.
    Key(Option<String>),
    /// A step without a result has ended.
    Ended(Result<(), Error>),
    /// The address of the new container.
    Address(Result<String, Error>),
    /// The Tailscale address of the new container, if it has one yet.
    Tailscale(Result<Option<String>, Error>),
}

/// What to do next.
#[derive(Debug)]
pub enum SetupAction {
    /// Look for a container with the id.
    List,
    /// Look for the public key.
    FindKey,
    /// Create the container, with the key if there is one.
    Create,
    /// Start the container and wait until it runs.
    Start,
    /// Wait for the container to have an address.
    DetectAddress,
    /// Save the configuration.
    Save,
    /// Wait until the container accepts SSH connections.
    WaitForSsh,
    /// Run the setup script.
    Bootstrap,
    /// Ask the container for its Tailscale address.
    QueryTailscale,
    /// The container is ready at this address.
    Ready(String),
    /// The setup has failed.
    Fail(Error),
}

/// The setup of a container.
#[derive(Debug)]
pub struct Setup {
    pub cfg: Config,
    pub no_bootstrap: bool,
    pub save_ip: bool,
    pub key: Option<String>,
    pub lan_ip: String,
    pub step: SetupStep,
}

/// The mathematical content of a [`SetupEvent`].
pub ghost enum SetupEventView {
    Listed(Result<bool, ErrorView>),
    Key(Option<Seq<char>>),
    Ended(Result<(), ErrorView>),
    Address(Result<Seq<char>, ErrorView>),
    Tailscale(Result<Option<Seq<char>>, ErrorView>),
}

/// The mathematical content of a [`SetupAction`].
pub ghost enum SetupActionView {
    List,
    FindKey,
    Create,
    Start,
    DetectAddress,
    Save,
    WaitForSsh,
    Bootstrap,
    QueryTailscale,
    Ready(Seq<char>),
    Fail(ErrorView),
}

/// The mathematical content of a [`Setup`].
pub ghost struct SetupView {
    pub cfg: ConfigView,
    pub no_bootstrap: bool,
    pub save_ip: bool,
    pub key: Option<Seq<char>>,
    pub lan_ip: Seq<char>,
    pub step: SetupStep,
}

impl View for SetupEvent {
    type V = SetupEventView;

    open spec fn view(&self) -> SetupEventView {
        match self {
            SetupEvent::Listed(Ok(b)) => SetupEventView::Listed(Ok(*b)),
            SetupEvent::Listed(Err(e)) => SetupEventView::Listed(Err(e@)),
            SetupEvent::Key(k) => SetupEventView::Key(text::opt(*k)),
            SetupEvent::Ended(Ok(_)) => SetupEventView::Ended(Ok(())),
            SetupEvent::Ended(Err(e)) => SetupEventView::Ended(Err(e@)),
            SetupEvent::Address(Ok(a)) => SetupEventView::Address(Ok(a@)),
            SetupEvent::Address(Err(e)) => SetupEventView::Address(Err(e@)),
            SetupEvent::Tailscale(Ok(a)) => SetupEventView::Tailscale(Ok(text::opt(*a))),
            SetupEvent::Tailscale(Err(e)) => SetupEventView::Tailscale(Err(e@)),
        }
    }
}

impl View for SetupAction {
    type V = SetupActionView;

    open spec fn view(&self) -> SetupActionView {
        match self {
            SetupAction::List => SetupActionView::List,
            SetupAction::FindKey => SetupActionView::FindKey,
            SetupAction::Create => SetupActionView::Create,
            SetupAction::Start => SetupActionView::Start,
            SetupAction::DetectAddress => SetupActionView::DetectAddress,
            SetupAction::Save => SetupActionView::Save,
            SetupAction::WaitForSsh => SetupActionView::WaitForSsh,
            SetupAction::Bootstrap => SetupActionView::Bootstrap,
            SetupAction::QueryTailscale => SetupActionView::QueryTailscale,
            SetupAction::Ready(ip) => SetupActionView::Ready(ip@),
            SetupAction::Fail(e) => SetupActionView::Fail(e@),
        }
    }
}

impl View for Setup {
    type V = SetupView;

    open spec fn view(&self) -> SetupView {
        SetupView {
            cfg: self.cfg@,
            no_bootstrap: self.no_bootstrap,
            save_ip: self.save_ip,
            key: text::opt(self.key),
            lan_ip: self.lan_ip@,
            step: self.step,
        }
    }
}

/// Whether an event can follow a step.
pub open spec fn follows(step: SetupStep, event: SetupEventView) -> bool {
    match step {
        SetupStep::List => event is Listed,
        SetupStep::FindKey => event is Key,
        SetupStep::DetectAddress => event is Address,
        SetupStep::QueryTailscale => event is Tailscale,
        SetupStep::Over => false,
        _ => event is Ended,
    }
}

/// The error that an event reports, if it is one that ends the setup.
pub open spec fn fatal(event: SetupEventView) -> Option<ErrorView> {
    match event {
        SetupEventView::Listed(Err(e)) => Some(e),
        SetupEventView::Ended(Err(e)) => Some(e),
        SetupEventView::Address(Err(e)) => Some(e),
        _ => None,
    }
}

impl SetupView {
    pub open spec fn go(self, step: SetupStep, action: SetupActionView) -> (SetupView, SetupActionView) {
        (SetupView { step, ..self }, action)
    }

    pub open spec fn fail(self, e: ErrorView) -> (SetupView, SetupActionView) {
        self.go(SetupStep::Over, SetupActionView::Fail(e))
    }

    /// The end: the container is ready at the address that transfers will use.
    pub open spec fn ready(self) -> (SetupView, SetupActionView) {
        self.go(
            SetupStep::Over,
            SetupActionView::Ready(
                match configured_ip(self.cfg) {
                    Some(ip) => ip,
                    None => self.lan_ip,
                },
            ),
        )
    }

    /// Once the address is known: the bootstrap, unless it is not wanted.
    pub open spec fn toward_bootstrap(self) -> (SetupView, SetupActionView) {
        if self.no_bootstrap {
            self.ready()
        } else if self.key is None {
            self.fail(ErrorView::Config("SSH public key is required for bootstrap"@))
        } else {
            self.go(SetupStep::WaitForSsh, SetupActionView::WaitForSsh)
        }
    }

    /// Once the bootstrap is done: the Tailscale address, where it is preferred.
    pub open spec fn toward_tailscale(self) -> (SetupView, SetupActionView) {
        if self.cfg.tailscale matches Some(ts) && ts.prefer_tailscale_ip {
            self.go(SetupStep::QueryTailscale, SetupActionView::QueryTailscale)
        } else {
            self.ready()
        }
    }

    /// The state and the action after an event that reports no fatal error.
    pub open spec fn proceed(self, event: SetupEventView) -> (SetupView, SetupActionView) {
        match (self.step, event) {
            (SetupStep::List, SetupEventView::Listed(Ok(found))) => if found {
                self.fail(ErrorView::ContainerExists(self.cfg.container.vmid))
            } else {
                self.go(SetupStep::FindKey, SetupActionView::FindKey)
            },
            (SetupStep::FindKey, SetupEventView::Key(key)) => (SetupView { key, ..self }).go(
                SetupStep::Create,
                SetupActionView::Create,
            ),
            (SetupStep::Create, _) => self.go(SetupStep::Start, SetupActionView::Start),
            (SetupStep::Start, _) => match self.cfg.sync.container_ip {
                Some(ip) => (SetupView { lan_ip: ip, ..self }).toward_bootstrap(),
                None => self.go(SetupStep::DetectAddress, SetupActionView::DetectAddress),
            },
            (SetupStep::DetectAddress, SetupEventView::Address(Ok(ip))) => if self.save_ip {
                (SetupView { lan_ip: ip, cfg: with_container_ip(self.cfg, ip), ..self }).go(
                    SetupStep::SaveAddress,
                    SetupActionView::Save,
                )
            } else {
                (SetupView { lan_ip: ip, ..self }).toward_bootstrap()
            },
            (SetupStep::SaveAddress, _) => self.toward_bootstrap(),
            (SetupStep::WaitForSsh, _) => self.go(SetupStep::Bootstrap, SetupActionView::Bootstrap),
            (SetupStep::Bootstrap, _) => self.toward_tailscale(),
            (SetupStep::QueryTailscale, SetupEventView::Tailscale(Ok(Some(ip)))) => (SetupView {
                cfg: with_tailscale_ip(self.cfg, ip),
                ..self
            }).go(SetupStep::SaveTailscale, SetupActionView::Save),
            _ => self.ready(),
        }
    }

    /// The state and the action after an event.
    pub open spec fn advance(self, event: SetupEventView) -> (SetupView, SetupActionView) {
        match fatal(event) {
            Some(e) => self.fail(e),
            None => self.proceed(event),
        }
    }
}

/// A configuration with a fixed container address.
pub open spec fn with_container_ip(cfg: ConfigView, ip: Seq<char>) -> ConfigView {
    ConfigView { sync: SyncView { container_ip: Some(ip), ..cfg.sync }, ..cfg }
}

/// A configuration that knows the container's Tailscale address.
pub open spec fn with_tailscale_ip(cfg: ConfigView, ip: Seq<char>) -> ConfigView {
    ConfigView {
        tailscale: match cfg.tailscale {
            Some(ts) => Some(TailscaleView { container_ts_ip: Some(ip), ..ts }),
            None => None,
        },
        ..cfg
    }
}

impl Setup {
    /// The beginning of a setup.
    pub fn new(cfg: Config, no_bootstrap: bool, save_ip: bool) -> (r: (Setup, SetupAction))
        ensures
            r.0@ == (SetupView {
                cfg: cfg@,
                no_bootstrap,
                save_ip,
                key: None,
                lan_ip: seq![],
                step: SetupStep::List,
            }),
            r.1@ == SetupActionView::List,
    {
        (
            Setup { cfg, no_bootstrap, save_ip, key: None, lan_ip: String::new(), step: SetupStep::List },
            SetupAction::List,
        )
    }

    fn go(&mut self, step: SetupStep, action: SetupAction) -> (r: SetupAction)
        ensures
            (final(self)@, r@) == old(self)@.go(step, action@),
    {
        self.step = step;
        action
    }

    fn ready(&mut self) -> (r: SetupAction)
        ensures
            (final(self)@, r@) == old(self)@.ready(),
    {
        let ip = match effective_ip(&self.cfg) {
            Some(ip) => ip,
            None => self.lan_ip.clone(),
        };
        self.go(SetupStep::Over, SetupAction::Ready(ip))
    }

    fn toward_bootstrap(&mut self) -> (r: SetupAction)
        ensures
            (final(self)@, r@) == old(self)@.toward_bootstrap(),
    {
        if self.no_bootstrap {
            self.ready()
        } else if self.key.is_none() {
            self.go(
                SetupStep::Over,
                SetupAction::Fail(Error::Config("SSH public key is required for bootstrap".to_string())),
            )
        } else {
            self.go(SetupStep::WaitForSsh, SetupAction::WaitForSsh)
        }
    }

    fn toward_tailscale(&mut self) -> (r: SetupAction)
        ensures
            (final(self)@, r@) == old(self)@.toward_tailscale(),
    {
        let prefers = match &self.cfg.tailscale {
            Some(ts) => ts.prefer_tailscale_ip,
            None => false,
        };
        if prefers {
            self.go(SetupStep::QueryTailscale, SetupAction::QueryTailscale)
        } else {
            self.ready()
        }
    }

    fn ended(&mut self) -> (r: SetupAction)
        requires
            follows(old(self).step, SetupEventView::Ended(Ok(()))),
        ensures
            (final(self)@, r@) == old(self)@.proceed(SetupEventView::Ended(Ok(()))),
    {
        match self.step {
            SetupStep::Create => self.go(SetupStep::Start, SetupAction::Start),
            SetupStep::Start => match text::copy_opt(&self.cfg.sync.container_ip) {
                Some(ip) => {
                    self.lan_ip = ip;
                    self.toward_bootstrap()
                },
                None => self.go(SetupStep::DetectAddress, SetupAction::DetectAddress),
            },
            SetupStep::SaveAddress => self.toward_bootstrap(),
            SetupStep::WaitForSsh => self.go(SetupStep::Bootstrap, SetupAction::Bootstrap),
            SetupStep::Bootstrap => self.toward_tailscale(),
            _ => self.ready(),
        }
    }

    /// Takes what has come of the last step.
    pub fn advance(&mut self, event: SetupEvent) -> (r: SetupAction)
        requires
            follows(old(self).step, event@),
        ensures
            (final(self)@, r@) == old(self)@.advance(event@),
    {
        match event {
            SetupEvent::Listed(Err(e)) | SetupEvent::Ended(Err(e)) | SetupEvent::Address(Err(e)) => self.go(
                SetupStep::Over,
                SetupAction::Fail(e),
            ),
            SetupEvent::Listed(Ok(found)) => if found {
                let vmid: u32 = self.cfg.container.vmid;
                self.go(SetupStep::Over, SetupAction::Fail(Error::ContainerExists(vmid)))
            } else {
                self.go(SetupStep::FindKey, SetupAction::FindKey)
            },
            SetupEvent::Key(key) => {
                self.key = key;
                self.go(SetupStep::Create, SetupAction::Create)
            },
            SetupEvent::Ended(Ok(_)) => self.ended(),
            SetupEvent::Address(Ok(ip)) => {
                self.lan_ip = ip.clone();
                if self.save_ip {
                    self.cfg.sync.container_ip = Some(ip);
                    self.go(SetupStep::SaveAddress, SetupAction::Save)
                } else {
                    self.toward_bootstrap()
                }
            },
            SetupEvent::Tailscale(Ok(Some(ip))) => {
                if let Some(ts) = &mut self.cfg.tailscale {
                    ts.container_ts_ip = Some(ip);
                }
                self.go(SetupStep::SaveTailscale, SetupAction::Save)
            },
            SetupEvent::Tailscale(_) => self.ready(),
        }
    }
}

/// A container that is already there is left alone: the setup fails, naming it,
/// and a container is created only after the list was seen not to hold the id.
pub proof fn law_existing_containers_are_left_alone(s: SetupView, event: SetupEventView)
    requires
        follows(s.step, event),
    ensures
        event == SetupEventView::Listed(Ok(true)) ==> s.advance(event).1 == SetupActionView::Fail(
            ErrorView::ContainerExists(s.cfg.container.vmid),
        ),
        s.advance(event).1 is Create ==> s.step is FindKey,
        s.advance(event).0.step is FindKey ==> event == SetupEventView::Listed(Ok(false)),
{
}

/// A step that fails ends the setup with its error.  Only a missing key, before
/// the bootstrap, and an unknown Tailscale address are put up with.
pub proof fn law_failed_steps_end_the_setup(s: SetupView, event: SetupEventView, e: ErrorView)
    requires
        follows(s.step, event),
        fatal(event) == Some(e),
    ensures
        s.advance(event) == (SetupView { step: SetupStep::Over, ..s }, SetupActionView::Fail(e)),
{
}

/// The setup script is run only where it is wanted and there is a key to install.
pub proof fn law_bootstrap_needs_a_key(s: SetupView, event: SetupEventView)
    requires
        follows(s.step, event),
        s.step != SetupStep::WaitForSsh,
    ensures
        s.advance(event).1 is WaitForSsh ==> !s.no_bootstrap && s.key is Some,
        !(s.advance(event).1 is Bootstrap),
{
}

/// How far a step is from the end.
pub open spec fn distance(step: SetupStep) -> nat {
    match step {
        SetupStep::List => 10,
        SetupStep::FindKey => 9,
        SetupStep::Create => 8,
        SetupStep::Start => 7,
        SetupStep::DetectAddress => 6,
        SetupStep::SaveAddress => 5,
        SetupStep::WaitForSsh => 4,
        SetupStep::Bootstrap => 3,
        SetupStep::QueryTailscale => 2,
        SetupStep::SaveTailscale => 1,
        SetupStep::Over => 0,
    }
}

/// Every event brings the setup nearer to its end, and it is over exactly when it
/// says that the container is ready or that it has failed.
pub proof fn law_setup_comes_to_an_end(s: SetupView, event: SetupEventView)
    requires
        follows(s.step, event),
    ensures
        distance(s.advance(event).0.step) < distance(s.step),
        s.advance(event).0.step is Over <==> s.advance(event).1 is Ready || s.advance(event).1 is Fail,
{
}

/// An address that was found is in the configuration from then on, where it is
/// to be saved, and the configuration is saved with it.
pub proof fn law_found_addresses_are_saved(s: SetupView, ip: Seq<char>)
    ensures
        s.step is DetectAddress && s.save_ip ==> {
            let next = s.advance(SetupEventView::Address(Ok(ip)));
            next.1 is Save && next.0.cfg == with_container_ip(s.cfg, ip)
        },
        s.step is QueryTailscale ==> {
            let next = s.advance(SetupEventView::Tailscale(Ok(Some(ip))));
            next.1 is Save && next.0.cfg == with_tailscale_ip(s.cfg, ip)
        },
{
}

} // verus!
