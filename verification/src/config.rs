//! The configuration file: its contents, its defaults and where it lives.

use vstd::prelude::*;
use vstd::string::*;
use crate::error::{Error, ErrorView};
use crate::number;
use crate::path;
use crate::text;

verus! {

// ── Contents ─────────────────────────────────────────────────────────────────

/// The whole configuration.
#[derive(Debug)]
pub struct Config {
    pub proxmox: ProxmoxConfig,
    pub container: ContainerConfig,
    pub sync: SyncConfig,
    /// Optional Tailscale integration; absent when disabled.
    pub tailscale: Option<TailscaleConfig>,
    /// Optional settings of the background daemon.
    pub daemon: Option<DaemonConfig>,
}

/// How to reach the Proxmox API.
#[derive(Debug)]
pub struct ProxmoxConfig {
    pub host: String,
    pub port: u16,
    pub node: String,
    pub auth: AuthConfig,
    pub verify_ssl: bool,
}

/// Credentials for the Proxmox API.
#[derive(Debug)]
pub enum AuthConfig {
    Token { user: String, token_name: String, token_value: String },
    Password { user: String, realm: String, password: String },
}

/// The LXC container that holds the profiles.
#[derive(Debug)]
pub struct ContainerConfig {
    pub vmid: u32,
    pub hostname: String,
    pub template: String,
    pub storage: String,
    pub disk_size: String,
    pub memory: u32,
    pub cores: u32,
    pub root_password: String,
    pub network: NetworkConfig,
}

/// The container's network interface.
#[derive(Debug)]
pub struct NetworkConfig {
    pub bridge: String,
    pub ip: String,
    pub gateway: Option<String>,
}

/// What is synchronised, and over which connection.
#[derive(Debug)]
pub struct SyncConfig {
    /// Login on the sync container.
    pub container_user: String,
    /// Port on which the container accepts SSH.
    pub ssh_port: u16,
    /// Overrides the detected container IP.
    pub container_ip: Option<String>,
    /// Public key to install in the container.
    pub ssh_public_key_file: Option<String>,
    /// Private key used for connections.
    pub ssh_identity_file: Option<String>,
    /// Paths to keep in sync.
    pub paths: Vec<SyncPath>,
    /// Patterns excluded from every transfer.
    pub exclude_patterns: Vec<String>,
    /// Machine-specific patterns beyond the built-in list.
    pub machine_specific_patterns: Vec<String>,
}

/// Settings of the background daemon.
#[derive(Debug)]
pub struct DaemonConfig {
    /// Start the container if it is stopped when the daemon starts.
    pub auto_start_container: bool,
    /// Begin watching as soon as the daemon starts.
    pub auto_watch: bool,
    /// `"push"`, `"pull"` or `"both"`.
    pub watch_direction: String,
    /// Debounce window of the push watcher, in milliseconds.
    pub debounce_ms: u64,
    /// Interval of the pull poller, in seconds.
    pub poll_secs: u64,
    /// User whose profile is synchronised.
    pub sync_user: Option<String>,
}

/// One path kept in sync.
#[derive(Debug)]
pub struct SyncPath {
    /// Local path; a leading `~/` stands for the home directory.
    pub local: String,
    /// Path relative to `/profiles/<username>/` on the container.
    pub remote: String,
    /// Whether files that vanished at the source are deleted at the destination.
    pub delete: bool,
}

/// Tailscale integration.
#[derive(Debug)]
pub struct TailscaleConfig {
    pub auth_key: String,
    /// Overrides the MagicDNS name of the container.
    pub hostname: Option<String>,
    /// ACL tags applied when joining the tailnet.
    pub tags: Vec<String>,
    /// Whether transfers prefer the Tailscale IP over the LAN IP.
    pub prefer_tailscale_ip: bool,
    /// The Tailscale IP found during setup.
    pub container_ts_ip: Option<String>,
}

// ── Mathematical content ─────────────────────────────────────────────────────

pub ghost struct ConfigView {
    pub proxmox: ProxmoxView,
    pub container: ContainerView,
    pub sync: SyncView,
    pub tailscale: Option<TailscaleView>,
    pub daemon: Option<DaemonView>,
}

pub ghost struct ProxmoxView {
    pub host: Seq<char>,
    pub port: u16,
    pub node: Seq<char>,
    pub auth: AuthView,
    pub verify_ssl: bool,
}

pub ghost enum AuthView {
    Token { user: Seq<char>, token_name: Seq<char>, token_value: Seq<char> },
    Password { user: Seq<char>, realm: Seq<char>, password: Seq<char> },
}

pub ghost struct ContainerView {
    pub vmid: u32,
    pub hostname: Seq<char>,
    pub template: Seq<char>,
    pub storage: Seq<char>,
    pub disk_size: Seq<char>,
    pub memory: u32,
    pub cores: u32,
    pub root_password: Seq<char>,
    pub network: NetworkView,
}

pub ghost struct NetworkView {
    pub bridge: Seq<char>,
    pub ip: Seq<char>,
    pub gateway: Option<Seq<char>>,
}

pub ghost struct SyncView {
    pub container_user: Seq<char>,
    pub ssh_port: u16,
    pub container_ip: Option<Seq<char>>,
    pub ssh_public_key_file: Option<Seq<char>>,
    pub ssh_identity_file: Option<Seq<char>>,
    pub paths: Seq<SyncPathView>,
    pub exclude_patterns: Seq<Seq<char>>,
    pub machine_specific_patterns: Seq<Seq<char>>,
}

pub ghost struct DaemonView {
    pub auto_start_container: bool,
    pub auto_watch: bool,
    pub watch_direction: Seq<char>,
    pub debounce_ms: u64,
    pub poll_secs: u64,
    pub sync_user: Option<Seq<char>>,
}

pub ghost struct SyncPathView {
    pub local: Seq<char>,
    pub remote: Seq<char>,
    pub delete: bool,
}

pub ghost struct TailscaleView {
    pub auth_key: Seq<char>,
    pub hostname: Option<Seq<char>>,
    pub tags: Seq<Seq<char>>,
    pub prefer_tailscale_ip: bool,
    pub container_ts_ip: Option<Seq<char>>,
}

impl View for Config {
    type V = ConfigView;

    open spec fn view(&self) -> ConfigView {
        ConfigView {
            proxmox: self.proxmox@,
            container: self.container@,
            sync: self.sync@,
            tailscale: match self.tailscale {
                Some(t) => Some(t@),
                None => None,
            },
            daemon: match self.daemon {
                Some(d) => Some(d@),
                None => None,
            },
        }
    }
}

impl View for ProxmoxConfig {
    type V = ProxmoxView;

    open spec fn view(&self) -> ProxmoxView {
        ProxmoxView {
            host: self.host@,
            port: self.port,
            node: self.node@,
            auth: self.auth@,
            verify_ssl: self.verify_ssl,
        }
    }
}

impl View for AuthConfig {
    type V = AuthView;

    open spec fn view(&self) -> AuthView {
        match self {
            AuthConfig::Token { user, token_name, token_value } => AuthView::Token {
                user: user@,
                token_name: token_name@,
                token_value: token_value@,
            },
            AuthConfig::Password { user, realm, password } => AuthView::Password {
                user: user@,
                realm: realm@,
                password: password@,
            },
        }
    }
}

impl Clone for AuthConfig {
    fn clone(&self) -> (r: Self)
        ensures
            r == *self,
    {
        match self {
            AuthConfig::Token { user, token_name, token_value } => AuthConfig::Token {
                user: user.clone(),
                token_name: token_name.clone(),
                token_value: token_value.clone(),
            },
            AuthConfig::Password { user, realm, password } => AuthConfig::Password {
                user: user.clone(),
                realm: realm.clone(),
                password: password.clone(),
            },
        }
    }
}

impl View for ContainerConfig {
    type V = ContainerView;

    open spec fn view(&self) -> ContainerView {
        ContainerView {
            vmid: self.vmid,
            hostname: self.hostname@,
            template: self.template@,
            storage: self.storage@,
            disk_size: self.disk_size@,
            memory: self.memory,
            cores: self.cores,
            root_password: self.root_password@,
            network: self.network@,
        }
    }
}

impl View for NetworkConfig {
    type V = NetworkView;

    open spec fn view(&self) -> NetworkView {
        NetworkView { bridge: self.bridge@, ip: self.ip@, gateway: text::opt(self.gateway) }
    }
}

impl View for SyncConfig {
    type V = SyncView;

    open spec fn view(&self) -> SyncView {
        SyncView {
            container_user: self.container_user@,
            ssh_port: self.ssh_port,
            container_ip: text::opt(self.container_ip),
            ssh_public_key_file: text::opt(self.ssh_public_key_file),
            ssh_identity_file: text::opt(self.ssh_identity_file),
            paths: paths_view(self.paths@),
            exclude_patterns: text::strs(self.exclude_patterns@),
            machine_specific_patterns: text::strs(self.machine_specific_patterns@),
        }
    }
}

impl Clone for SyncConfig {
    fn clone(&self) -> (r: Self)
        ensures
            r@ == self@,
    {
        let mut exclude_patterns: Vec<String> = Vec::new();
        text::extend(&mut exclude_patterns, &self.exclude_patterns);
        let mut machine_specific_patterns: Vec<String> = Vec::new();
        text::extend(&mut machine_specific_patterns, &self.machine_specific_patterns);
        let mut paths: Vec<SyncPath> = Vec::new();
        let mut i: usize = 0;
        assert(paths_view(paths@) =~= paths_view(self.paths@).take(0));
        while i < self.paths.len()
            invariant
                i <= self.paths@.len(),
                paths_view(paths@) == paths_view(self.paths@).take(i as int),
            decreases self.paths@.len() - i,
        {
            let ghost before = paths@;
            let copy = self.paths[i].clone();
            paths.push(copy);
            assert(paths_view(paths@) =~= paths_view(before).push(copy@));
            assert(paths_view(self.paths@).take(i as int).push(self.paths@[i as int]@) =~= paths_view(
                self.paths@,
            ).take(i + 1));
            i += 1;
        }
        assert(paths_view(paths@) =~= paths_view(self.paths@));
        assert(text::strs(exclude_patterns@) =~= text::strs(self.exclude_patterns@));
        assert(text::strs(machine_specific_patterns@) =~= text::strs(self.machine_specific_patterns@));
        SyncConfig {
            container_user: self.container_user.clone(),
            ssh_port: self.ssh_port,
            container_ip: text::copy_opt(&self.container_ip),
            ssh_public_key_file: text::copy_opt(&self.ssh_public_key_file),
            ssh_identity_file: text::copy_opt(&self.ssh_identity_file),
            paths,
            exclude_patterns,
            machine_specific_patterns,
        }
    }
}

impl Clone for Config {
    fn clone(&self) -> (r: Self)
        ensures
            r@ == self@,
    {
        Config {
            proxmox: self.proxmox.clone(),
            container: self.container.clone(),
            sync: self.sync.clone(),
            tailscale: match &self.tailscale {
                Some(t) => Some(t.clone()),
                None => None,
            },
            daemon: match &self.daemon {
                Some(d) => Some(d.clone()),
                None => None,
            },
        }
    }
}

impl Clone for ProxmoxConfig {
    fn clone(&self) -> (r: Self)
        ensures
            r == *self,
    {
        ProxmoxConfig {
            host: self.host.clone(),
            port: self.port,
            node: self.node.clone(),
            auth: self.auth.clone(),
            verify_ssl: self.verify_ssl,
        }
    }
}

impl Clone for ContainerConfig {
    fn clone(&self) -> (r: Self)
        ensures
            r == *self,
    {
        ContainerConfig {
            vmid: self.vmid,
            hostname: self.hostname.clone(),
            template: self.template.clone(),
            storage: self.storage.clone(),
            disk_size: self.disk_size.clone(),
            memory: self.memory,
            cores: self.cores,
            root_password: self.root_password.clone(),
            network: self.network.clone(),
        }
    }
}

impl Clone for NetworkConfig {
    fn clone(&self) -> (r: Self)
        ensures
            r == *self,
    {
        NetworkConfig { bridge: self.bridge.clone(), ip: self.ip.clone(), gateway: text::copy_opt(&self.gateway) }
    }
}

impl Clone for DaemonConfig {
    fn clone(&self) -> (r: Self)
        ensures
            r == *self,
    {
        DaemonConfig {
            auto_start_container: self.auto_start_container,
            auto_watch: self.auto_watch,
            watch_direction: self.watch_direction.clone(),
            debounce_ms: self.debounce_ms,
            poll_secs: self.poll_secs,
            sync_user: text::copy_opt(&self.sync_user),
        }
    }
}

impl Clone for TailscaleConfig {
    fn clone(&self) -> (r: Self)
        ensures
            r@ == self@,
    {
        let mut tags: Vec<String> = Vec::new();
        text::extend(&mut tags, &self.tags);
        assert(text::strs(tags@) =~= text::strs(self.tags@));
        TailscaleConfig {
            auth_key: self.auth_key.clone(),
            hostname: text::copy_opt(&self.hostname),
            tags,
            prefer_tailscale_ip: self.prefer_tailscale_ip,
            container_ts_ip: text::copy_opt(&self.container_ts_ip),
        }
    }
}

impl Clone for SyncPath {
    fn clone(&self) -> (r: Self)
        ensures
            r == *self,
    {
        SyncPath { local: self.local.clone(), remote: self.remote.clone(), delete: self.delete }
    }
}

impl View for DaemonConfig {
    type V = DaemonView;

    open spec fn view(&self) -> DaemonView {
        DaemonView {
            auto_start_container: self.auto_start_container,
            auto_watch: self.auto_watch,
            watch_direction: self.watch_direction@,
            debounce_ms: self.debounce_ms,
            poll_secs: self.poll_secs,
            sync_user: text::opt(self.sync_user),
        }
    }
}

impl View for SyncPath {
    type V = SyncPathView;

    open spec fn view(&self) -> SyncPathView {
        SyncPathView { local: self.local@, remote: self.remote@, delete: self.delete }
    }
}

impl View for TailscaleConfig {
    type V = TailscaleView;

    open spec fn view(&self) -> TailscaleView {
        TailscaleView {
            auth_key: self.auth_key@,
            hostname: text::opt(self.hostname),
            tags: text::strs(self.tags@),
            prefer_tailscale_ip: self.prefer_tailscale_ip,
            container_ts_ip: text::opt(self.container_ts_ip),
        }
    }
}

/// The contents of a list of sync paths.
pub open spec fn paths_view(v: Seq<SyncPath>) -> Seq<SyncPathView> {
    v.map_values(|p: SyncPath| p@)
}

// ── Derived parameters ───────────────────────────────────────────────────────

impl ProxmoxView {
    /// The root of the JSON API.
    pub open spec fn base_url(self) -> Seq<char> {
        "https://"@ + self.host + ":"@ + number::decimal(self.port as nat) + "/api2/json"@
    }
}

impl ProxmoxConfig {
    /// The root of the JSON API.
    pub fn base_url(&self) -> (r: String)
        ensures
            r@ == self@.base_url(),
    {
        "https://".to_string().concat(self.host.as_str()).concat(":").concat(
            number::to_decimal(self.port as u64).as_str(),
        ).concat("/api2/json")
    }
}

impl NetworkView {
    /// The Proxmox `net0` parameter.
    pub open spec fn net0_param(self) -> Seq<char> {
        let fixed = "name=eth0,bridge="@ + self.bridge + ",ip="@ + self.ip;
        match self.gateway {
            Some(gw) => fixed + (",gw="@ + gw),
            None => fixed,
        }
    }
}

impl NetworkConfig {
    /// The Proxmox `net0` parameter.
    pub fn net0_param(&self) -> (r: String)
        ensures
            r@ == self@.net0_param(),
    {
        let mut s = "name=eth0,bridge=".to_string().concat(self.bridge.as_str()).concat(",ip=").concat(
            self.ip.as_str(),
        );
        if let Some(gw) = &self.gateway {
            let part = ",gw=".to_string().concat(gw.as_str());
            s.append(part.as_str());
        }
        s
    }
}

// ── Location ─────────────────────────────────────────────────────────────────

/// The configuration file inside the user's configuration directory.
pub open spec fn config_file(dir: Seq<char>) -> Seq<char> {
    path::joined(path::joined(dir, "dps"@), "config.toml"@)
}

/// The configuration file inside the user's configuration directory.
pub fn config_file_in(dir: &str) -> (r: String)
    ensures
        r@ == config_file(dir@),
{
    path::join(path::join(dir, "dps").as_str(), "config.toml")
}

/// `dirs::config_dir`: the user's configuration directory, or `None` where none
/// can be determined or its name is not text (not UTF-8).  It comes from the
/// environment or the user database, so nothing is promised of which directory it
/// is, only that its name is not empty.
#[verifier::external_body]
fn config_dir() -> (r: Option<String>)
    ensures
        r matches Some(dir) ==> dir@.len() > 0,
{
    dirs::config_dir().and_then(|d| d.to_str().map(|s| s.to_string()))
}

/// The default location of the configuration file, if there is a configuration
/// directory.
pub open spec fn default_location(dir: Option<Seq<char>>) -> Option<Seq<char>> {
    match dir {
        Some(d) => Some(config_file(d)),
        None => None,
    }
}

/// The default location of the configuration file, given the configuration
/// directory, if there is one.
pub fn default_config_path_in(dir: Option<&str>) -> (r: Option<String>)
    ensures
        text::opt(r) == default_location(text::opt_ref(dir)),
{
    match dir {
        Some(d) => Some(config_file_in(d)),
        None => None,
    }
}

/// The default location of the configuration file, if there is a configuration
/// directory.  Whether there is one, and which, is up to the environment.
pub fn default_config_path() -> (r: Option<String>)
    ensures
        exists|dir: Option<Seq<char>>|
            (dir matches Some(d) ==> d.len() > 0) && text::opt(r) == #[trigger] default_location(dir),
{
    match config_dir() {
        Some(dir) => default_config_path_in(Some(dir.as_str())),
        None => default_config_path_in(None),
    }
}

impl Config {
    /// The file that the configuration is read from and written to: the one
    /// asked for, else the default one.
    pub fn location(asked: Option<&str>, default: Option<&str>) -> (r: Result<String, Error>)
        ensures
            match (asked, default) {
                (Some(p), _) => r matches Ok(q) && q@ == p@,
                (None, Some(p)) => r matches Ok(q) && q@ == p@,
                (None, None) => r matches Err(e) && e@ == ErrorView::Config("cannot determine home directory"@),
            },
    {
        match asked {
            Some(p) => Ok(p.to_string()),
            None => match default {
                Some(p) => Ok(p.to_string()),
                None => Err(Error::Config("cannot determine home directory".to_string())),
            },
        }
    }

    /// [`Config::location`] with the default location of this system.
    pub fn locate(asked: Option<&str>) -> (r: Result<String, Error>)
        ensures
            match (asked, r) {
                (Some(p), _) => r matches Ok(q) && q@ == p@,
                (None, Ok(q)) => exists|dir: Seq<char>| dir.len() > 0 && q@ == #[trigger] config_file(dir),
                (None, Err(e)) => e@ == ErrorView::Config("cannot determine home directory"@),
            },
    {
        match asked {
            Some(p) => Config::location(Some(p), None),
            None => match default_config_path() {
                Some(p) => Config::location(None, Some(p.as_str())),
                None => Config::location(None, None),
            },
        }
    }

    /// Whether there is a configuration.  `asked_found` says whether the file asked
    /// for is there, where one was asked for; `default_found` says whether the
    /// default one is, where there is a default location.
    pub fn is_present(asked_found: Option<bool>, default_found: Option<bool>) -> (r: bool)
        ensures
            r == (match asked_found {
                Some(found) => found,
                None => default_found == Some(true),
            }),
    {
        match asked_found {
            Some(found) => found,
            None => match default_found {
                Some(found) => found,
                None => false,
            },
        }
    }

    /// The error for a configuration file that cannot be read.
    pub fn read_error(location: &str, cause: &str) -> (r: Error)
        ensures
            r@ == ErrorView::Config("cannot read config file "@ + location@ + ": "@ + cause@),
    {
        Error::Config("cannot read config file ".to_string().concat(location).concat(": ").concat(cause))
    }

    /// The error for a configuration file that is malformed.
    pub fn parse_error(location: &str, cause: &str) -> (r: Error)
        ensures
            r@ == ErrorView::Config("parse error in "@ + location@ + ": "@ + cause@),
    {
        Error::Config("parse error in ".to_string().concat(location).concat(": ").concat(cause))
    }

    /// The error for a configuration that cannot be written out.
    pub fn serialization_error(cause: &str) -> (r: Error)
        ensures
            r@ == ErrorView::Config("serialization error: "@ + cause@),
    {
        Error::Config("serialization error: ".to_string().concat(cause))
    }
}

// ── Defaults ─────────────────────────────────────────────────────────────────

pub fn default_both() -> (r: String)
    ensures
        r@ == "both"@,
{
    "both".to_string()
}

pub fn default_debounce_ms() -> (r: u64)
    ensures
        r == 500,
{
    500
}

pub fn default_poll_secs() -> (r: u64)
    ensures
        r == 30,
{
    30
}

pub fn default_proxmox_port() -> (r: u16)
    ensures
        r == 8006,
{
    8006
}

pub fn default_memory() -> (r: u32)
    ensures
        r == 512,
{
    512
}

pub fn default_cores() -> (r: u32)
    ensures
        r == 1,
{
    1
}

pub fn default_bridge() -> (r: String)
    ensures
        r@ == "vmbr0"@,
{
    "vmbr0".to_string()
}

pub fn default_dhcp() -> (r: String)
    ensures
        r@ == "dhcp"@,
{
    "dhcp".to_string()
}

pub fn default_container_user() -> (r: String)
    ensures
        r@ == "root"@,
{
    "root".to_string()
}

pub fn default_ssh_port() -> (r: u16)
    ensures
        r == 22,
{
    22
}

pub fn default_true() -> (r: bool)
    ensures
        r,
{
    true
}

} // verus!
