//! The sync container as an LXC guest of a Proxmox node.

use vstd::prelude::*;
use vstd::string::*;
use crate::config::{ContainerConfig, ContainerView};
use crate::error::{Error, ErrorView};
use crate::number;
use crate::proxmox::client::{Poll, PollView, ProxmoxClient, Request};
use crate::proxmox::json;
use crate::proxmox::json::{Json, Tree};
use crate::text;

verus! {

// ── Status ───────────────────────────────────────────────────────────────────

/// The state of a container.
#[derive(Debug, PartialEq, Eq)]
pub enum ContainerStatus {
    Running,
    Stopped,
    Unknown(String),
}

/// The mathematical content of a [`ContainerStatus`].
pub ghost enum ContainerStatusView {
    Running,
    Stopped,
    Unknown(Seq<char>),
}

impl View for ContainerStatus {
    type V = ContainerStatusView;

    open spec fn view(&self) -> ContainerStatusView {
        match self {
            ContainerStatus::Running => ContainerStatusView::Running,
            ContainerStatus::Stopped => ContainerStatusView::Stopped,
            ContainerStatus::Unknown(s) => ContainerStatusView::Unknown(s@),
        }
    }
}

impl Clone for ContainerStatus {
    fn clone(&self) -> (r: Self)
        ensures
            r == *self,
    {
        match self {
            ContainerStatus::Running => ContainerStatus::Running,
            ContainerStatus::Stopped => ContainerStatus::Stopped,
            ContainerStatus::Unknown(s) => ContainerStatus::Unknown(s.clone()),
        }
    }
}

/// The state that a word names.
pub open spec fn status_named(s: Seq<char>) -> ContainerStatusView {
    if s == "running"@ {
        ContainerStatusView::Running
    } else if s == "stopped"@ {
        ContainerStatusView::Stopped
    } else {
        ContainerStatusView::Unknown(s)
    }
}

impl ContainerStatusView {
    /// The word for a state.
    pub open spec fn word(self) -> Seq<char> {
        match self {
            ContainerStatusView::Running => "running"@,
            ContainerStatusView::Stopped => "stopped"@,
            ContainerStatusView::Unknown(s) => s,
        }
    }
}

impl ContainerStatus {
    /// The state that a word names.
    pub fn from_str(s: &str) -> (r: ContainerStatus)
        ensures
            r@ == status_named(s@),
    {
        if text::str_eq(s, "running") {
            ContainerStatus::Running
        } else if text::str_eq(s, "stopped") {
            ContainerStatus::Stopped
        } else {
            ContainerStatus::Unknown(s.to_string())
        }
    }

    /// The word for a state.
    pub fn to_word(&self) -> (r: String)
        ensures
            r@ == self@.word(),
    {
        match self {
            ContainerStatus::Running => "running".to_string(),
            ContainerStatus::Stopped => "stopped".to_string(),
            ContainerStatus::Unknown(s) => s.clone(),
        }
    }
}

/// The word for the state that a word names is that word.
pub proof fn law_status_words_are_kept(s: Seq<char>)
    ensures
        status_named(s).word() == s,
{
}

// ── Requests ─────────────────────────────────────────────────────────────────

/// The API path of the containers of a node.
pub open spec fn containers_path(node: Seq<char>) -> Seq<char> {
    "nodes/"@ + node + "/lxc"@
}

/// The API path of a container.
pub open spec fn container_path(node: Seq<char>, vmid: u32) -> Seq<char> {
    containers_path(node) + "/"@ + number::decimal(vmid as nat)
}

fn path_of_containers(node: &str) -> (r: String)
    ensures
        r@ == containers_path(node@),
{
    "nodes/".to_string().concat(node).concat("/lxc")
}

fn path_of_container(node: &str, vmid: u32) -> (r: String)
    ensures
        r@ == container_path(node@, vmid),
{
    path_of_containers(node).concat("/").concat(number::to_decimal(vmid as u64).as_str())
}

/// The request for the containers of a node.
pub fn list_request(client: &ProxmoxClient, node: &str) -> (r: Request)
    ensures
        r@ == client@.get(containers_path(node@)),
{
    client.get(path_of_containers(node).as_str())
}

/// The request for the state of a container.
pub fn status_request(client: &ProxmoxClient, node: &str, vmid: u32) -> (r: Request)
    ensures
        r@ == client@.get(container_path(node@, vmid) + "/status/current"@),
{
    client.get(path_of_container(node, vmid).concat("/status/current").as_str())
}

/// The request for the network interfaces of a container.
pub fn interfaces_request(client: &ProxmoxClient, node: &str, vmid: u32) -> (r: Request)
    ensures
        r@ == client@.get(container_path(node@, vmid) + "/interfaces"@),
{
    client.get(path_of_container(node, vmid).concat("/interfaces").as_str())
}

/// The request that starts a container; the reply names the task.
pub fn start(client: &ProxmoxClient, node: &str, vmid: u32) -> (r: Request)
    ensures
        r@ == client@.post_form(container_path(node@, vmid) + "/status/start"@, seq![]),
{
    let fields: Vec<(String, String)> = Vec::new();
    assert(text::pairs(fields@) =~= seq![]);
    client.post_form(path_of_container(node, vmid).concat("/status/start").as_str(), fields)
}

/// The request that stops a container; the reply names the task.
pub fn stop(client: &ProxmoxClient, node: &str, vmid: u32) -> (r: Request)
    ensures
        r@ == client@.post_form(container_path(node@, vmid) + "/status/stop"@, seq![]),
{
    let fields: Vec<(String, String)> = Vec::new();
    assert(text::pairs(fields@) =~= seq![]);
    client.post_form(path_of_container(node, vmid).concat("/status/stop").as_str(), fields)
}

/// The request that destroys a container, which must be stopped; the reply names
/// the task.
pub fn destroy(client: &ProxmoxClient, node: &str, vmid: u32) -> (r: Request)
    ensures
        r@ == client@.delete(container_path(node@, vmid)),
{
    client.delete(path_of_container(node, vmid).as_str())
}

/// The form that creates a container.
pub open spec fn create_form(c: ContainerView, ssh_key: Option<Seq<char>>) -> Seq<(Seq<char>, Seq<char>)> {
    let fixed = seq![
        ("vmid"@, number::decimal(c.vmid as nat)),
        ("hostname"@, c.hostname),
        ("ostemplate"@, c.template),
        ("rootfs"@, c.storage + ":"@ + c.disk_size),
        ("memory"@, number::decimal(c.memory as nat)),
        ("cores"@, number::decimal(c.cores as nat)),
        ("net0"@, c.network.net0_param()),
        ("password"@, c.root_password),
        ("unprivileged"@, "1"@),
        ("features"@, "nesting=1"@),
        ("onboot"@, "1"@),
    ];
    match ssh_key {
        Some(key) => fixed.push(("ssh-public-keys"@, key)),
        None => fixed,
    }
}

/// The request that creates a container, with a key that may log in as root; the
/// reply names the task.
pub fn create(client: &ProxmoxClient, node: &str, cfg: &ContainerConfig, ssh_key: Option<&str>) -> (r: Request)
    ensures
        r@ == client@.post_form(containers_path(node@), create_form(cfg@, text::opt_ref(ssh_key))),
{
    broadcast use text::lemma_pairs_push;

    let mut f: Vec<(String, String)> = Vec::new();
    f.push(("vmid".to_string(), number::to_decimal(cfg.vmid as u64)));
    f.push(("hostname".to_string(), cfg.hostname.clone()));
    f.push(("ostemplate".to_string(), cfg.template.clone()));
    f.push(("rootfs".to_string(), cfg.storage.clone().concat(":").concat(cfg.disk_size.as_str())));
    f.push(("memory".to_string(), number::to_decimal(cfg.memory as u64)));
    f.push(("cores".to_string(), number::to_decimal(cfg.cores as u64)));
    f.push(("net0".to_string(), cfg.network.net0_param()));
    f.push(("password".to_string(), cfg.root_password.clone()));
    f.push(("unprivileged".to_string(), "1".to_string()));
    f.push(("features".to_string(), "nesting=1".to_string()));
    f.push(("onboot".to_string(), "1".to_string()));
    if let Some(key) = ssh_key {
        f.push(("ssh-public-keys".to_string(), key.to_string()));
    }
    assert(text::pairs(f@) =~= create_form(cfg@, text::opt_ref(ssh_key)));
    client.post_form(path_of_containers(node).as_str(), f)
}

// ── Replies ──────────────────────────────────────────────────────────────────

/// What a task was started for.
#[derive(Debug, Clone, Copy, PartialEq, Eq, Structural)]
pub enum TaskKind {
    Create,
    Start,
    Stop,
    Destroy,
}

impl TaskKind {
    /// The complaint about a reply without a task id.
    pub open spec fn complaint(self) -> Seq<char> {
        match self {
            TaskKind::Create => "create returned no UPID"@,
            TaskKind::Start => "no UPID from start"@,
            TaskKind::Stop => "no UPID from stop"@,
            TaskKind::Destroy => "no UPID from destroy"@,
        }
    }
}

/// The id of the task that a request started.
pub fn upid(kind: TaskKind, data: &Json) -> (r: Result<String, Error>)
    ensures
        match (r, json::text_of(data.tree())) {
            (Ok(id), Some(s)) => id@ == s,
            (Err(e), None) => e@ == (ErrorView::ProxmoxApi { status: 200, message: kind.complaint() }),
            _ => false,
        },
{
    match data.as_str() {
        Some(s) => Ok(s.to_string()),
        None => {
            let message = match kind {
                TaskKind::Create => "create returned no UPID".to_string(),
                TaskKind::Start => "no UPID from start".to_string(),
                TaskKind::Stop => "no UPID from stop".to_string(),
                TaskKind::Destroy => "no UPID from destroy".to_string(),
            };
            Err(Error::ProxmoxApi { status: 200, message })
        },
    }
}

/// Whether a list of containers holds one with this id.
pub open spec fn lists(list: Tree, vmid: u32) -> bool {
    list matches Tree::Array(items) && exists|i: int|
        0 <= i < items.len() && json::number_of(json::member(#[trigger] items[i], "vmid"@)) == Some(vmid as u64)
}

/// Whether a list of containers holds one with this id.
pub fn is_listed(list: &Json, vmid: u32) -> (r: bool)
    ensures
        r == lists(list.tree(), vmid),
{
    match list {
        Json::Array(items) => {
            let ghost all = json::trees(items@);
            proof {
                json::lemma_trees(items@);
            }
            let mut i: usize = 0;
            while i < items.len()
                invariant
                    i <= items@.len(),
                    all == json::trees(items@),
                    list.tree() == Tree::Array(all),
                    all.len() == items@.len(),
                    forall|j: int| 0 <= j < items@.len() ==> #[trigger] all[j] == items@[j].tree(),
                    forall|j: int|
                        0 <= j < i ==> json::number_of(json::member(#[trigger] all[j], "vmid"@)) != Some(vmid as u64),
                decreases items@.len() - i,
            {
                assert(all[i as int] == items@[i as int].tree());
                match items[i].number_at("vmid") {
                    Some(n) => {
                        if n == vmid as u64 {
                            return true;
                        }
                    },
                    None => {},
                }
                i += 1;
            }
            false
        },
        _ => false,
    }
}

/// The state that a status reply reports.
pub open spec fn reported_status(data: Tree) -> ContainerStatusView {
    status_named(
        match json::text_of(json::member(data, "status"@)) {
            Some(s) => s,
            None => "unknown"@,
        },
    )
}

/// Whether an error is the API error with status 500, by which Proxmox says that
/// it cannot ask the container.
pub open spec fn is_server_error(e: ErrorView) -> bool {
    e matches ErrorView::ProxmoxApi { status, .. } && status == 500
}

fn server_error(e: &Error) -> (r: bool)
    ensures
        r == is_server_error(e@),
{
    match e {
        Error::ProxmoxApi { status, .. } => *status == 500,
        _ => false,
    }
}

/// The state of a container, given the reply to the status request.  Proxmox
/// answers 500 for a container that is not there.
pub fn status(vmid: u32, reply: Result<Json, Error>) -> (r: Result<ContainerStatus, Error>)
    ensures
        match (reply, r) {
            (Ok(data), Ok(s)) => s@ == reported_status(data.tree()),
            (Err(e), Err(x)) => if is_server_error(e@) {
                x@ == ErrorView::ContainerNotFound(vmid)
            } else {
                x == e
            },
            _ => false,
        },
{
    match reply {
        Ok(data) => Ok(
            match data.text_at("status") {
                Some(s) => ContainerStatus::from_str(s),
                None => ContainerStatus::from_str("unknown"),
            },
        ),
        Err(e) => {
            if server_error(&e) {
                Err(Error::ContainerNotFound(vmid))
            } else {
                Err(e)
            }
        },
    }
}

/// The address of an interface: what stands before the prefix length.  The
/// loopback interface and interfaces without an address have none.
pub open spec fn interface_address(iface: Tree) -> Option<Seq<char>> {
    if json::text_of(json::member(iface, "name"@)) == Some("lo"@) {
        None
    } else {
        match json::text_of(json::member(iface, "inet"@)) {
            Some(inet) => Some(inet.take(text::first_index(inet, '/'))),
            None => None,
        }
    }
}

/// The first address among the interfaces.
pub open spec fn first_address(ifaces: Seq<Tree>) -> Option<Seq<char>>
    decreases ifaces.len(),
{
    if ifaces.len() == 0 {
        None
    } else {
        match interface_address(ifaces[0]) {
            Some(a) => Some(a),
            None => first_address(ifaces.skip(1)),
        }
    }
}

/// The address of a container, given its interfaces.
pub open spec fn primary_address(data: Tree) -> Option<Seq<char>> {
    match data {
        Tree::Array(ifaces) => first_address(ifaces),
        _ => None,
    }
}

/// The address of a container, given its interfaces.
pub fn find_address(data: &Json) -> (r: Option<String>)
    ensures
        text::opt(r) == primary_address(data.tree()),
{
    match data {
        Json::Array(items) => {
            let ghost all = json::trees(items@);
            proof {
                json::lemma_trees(items@);
            }
            let mut i: usize = 0;
            assert(all.skip(0) =~= all);
            while i < items.len()
                invariant
                    i <= items@.len(),
                    all == json::trees(items@),
                    data.tree() == Tree::Array(all),
                    all.len() == items@.len(),
                    forall|j: int| 0 <= j < items@.len() ==> #[trigger] all[j] == items@[j].tree(),
                    first_address(all) == first_address(all.skip(i as int)),
                decreases items@.len() - i,
            {
                assert(all.skip(i as int)[0] == all[i as int]);
                assert(all[i as int] == items@[i as int].tree());
                let loopback = match items[i].text_at("name") {
                    Some(n) => text::str_eq(n, "lo"),
                    None => false,
                };
                if !loopback {
                    if let Some(inet) = items[i].text_at("inet") {
                        return Some(text::before_char(inet, '/'));
                    }
                }
                assert(all.skip(i as int).skip(1) =~= all.skip(i + 1));
                i += 1;
            }
            None
        },
        _ => None,
    }
}

/// The address of a container, given the reply to the interfaces request: none
/// yet while the guest is not ready, which Proxmox answers with 500.
pub fn get_ip(reply: Result<Json, Error>) -> (r: Result<Option<String>, Error>)
    ensures
        match (reply, r) {
            (Ok(data), Ok(ip)) => text::opt(ip) == primary_address(data.tree()),
            (Err(e), Ok(ip)) => ip is None && is_server_error(e@),
            (Err(e), Err(x)) => x == e && !is_server_error(e@),
            (Ok(_), Err(_)) => false,
        },
{
    match reply {
        Ok(data) => Ok(find_address(&data)),
        Err(e) => {
            if server_error(&e) {
                Ok(None)
            } else {
                Err(e)
            }
        },
    }
}

/// The address that is found is that of an interface other than the loopback
/// interface, and none is missed.
pub proof fn law_address_is_not_loopback(ifaces: Seq<Tree>)
    ensures
        match first_address(ifaces) {
            Some(a) => exists|i: int|
                0 <= i < ifaces.len() && interface_address(#[trigger] ifaces[i]) == Some(a) && json::text_of(
                    json::member(ifaces[i], "name"@),
                ) != Some("lo"@),
            None => forall|i: int| 0 <= i < ifaces.len() ==> interface_address(#[trigger] ifaces[i]) is None,
        },
    decreases ifaces.len(),
{
    if ifaces.len() > 0 && interface_address(ifaces[0]) is None {
        let rest = ifaces.skip(1);
        law_address_is_not_loopback(rest);
        match first_address(rest) {
            Some(a) => {
                let i = choose|i: int|
                    0 <= i < rest.len() && interface_address(#[trigger] rest[i]) == Some(a) && json::text_of(
                        json::member(rest[i], "name"@),
                    ) != Some("lo"@);
                assert(ifaces[i + 1] == rest[i]);
            },
            None => {
                assert forall|i: int| 0 <= i < ifaces.len() implies interface_address(#[trigger] ifaces[i]) is None by {
                    if i > 0 {
                        assert(rest[i - 1] == ifaces[i]);
                    }
                }
            },
        }
    }
}

// ── Waiting ──────────────────────────────────────────────────────────────────

/// The state of a container is polled at most this often.
pub const MAX_START_POLLS: u32 = 60;

/// The address of a container is polled at most this often.
pub const MAX_IP_POLLS: u32 = 30;

/// What to do after poll number `polls` (counted from zero) found a container in
/// the given state.
pub open spec fn start_outcome(vmid: u32, polls: int, status: ContainerStatusView) -> PollView {
    if status is Running {
        PollView::Done
    } else if polls + 1 < MAX_START_POLLS {
        PollView::Again
    } else {
        PollView::Failed(ErrorView::Timeout("container "@ + number::decimal(vmid as nat) + " to start"@))
    }
}

/// What to do after poll number `polls` (counted from zero) found a container in
/// the given state, when it is to run.
pub fn wait_until_running(vmid: u32, polls: u32, status: &ContainerStatus) -> (r: Poll<()>)
    requires
        polls < MAX_START_POLLS,
    ensures
        crate::proxmox::client::is_outcome(r, start_outcome(vmid, polls as int, status@)),
        r is Again ==> polls + 1 < MAX_START_POLLS,
{
    match status {
        ContainerStatus::Running => Poll::Done(()),
        _ => {
            if polls + 1 < MAX_START_POLLS {
                Poll::Again
            } else {
                Poll::Failed(
                    Error::Timeout(
                        "container ".to_string().concat(number::to_decimal(vmid as u64).as_str()).concat(
                            " to start",
                        ),
                    ),
                )
            }
        },
    }
}

/// What to do after poll number `polls` (counted from zero) found, or did not
/// find, an address.
pub fn wait_for_ip(vmid: u32, polls: u32, ip: Option<String>) -> (r: Poll<String>)
    requires
        polls < MAX_IP_POLLS,
    ensures
        match (ip, r) {
            (Some(a), Poll::Done(b)) => b == a,
            (None, Poll::Again) => polls + 1 < MAX_IP_POLLS,
            (None, Poll::Failed(e)) => polls + 1 == MAX_IP_POLLS && e@ == ErrorView::Timeout(
                "IP assignment for container "@ + number::decimal(vmid as nat),
            ),
            _ => false,
        },
{
    match ip {
        Some(a) => Poll::Done(a),
        None => {
            if polls + 1 < MAX_IP_POLLS {
                Poll::Again
            } else {
                Poll::Failed(
                    Error::Timeout(
                        "IP assignment for container ".to_string().concat(number::to_decimal(vmid as u64).as_str()),
                    ),
                )
            }
        },
    }
}

/// Whatever state a container is in, the wait for it is over after the last
/// poll.
pub proof fn law_start_polls_are_bounded(vmid: u32, status: ContainerStatusView)
    ensures
        start_outcome(vmid, MAX_START_POLLS - 1, status) != PollView::Again,
{
}

} // verus!
