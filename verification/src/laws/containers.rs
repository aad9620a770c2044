//! Laws on containers and on the requests that are made of Proxmox.

use vstd::prelude::*;
use vstd::string::*;
use vstd::utf8::*;
use crate::config::{AuthView, ContainerView};
use crate::error::{Error, ErrorView};
use crate::laws::numbers;
use crate::laws::texts;
use crate::number;
use crate::number::NumberError;
use crate::proxmox::client;
use crate::proxmox::client::{Body, BodyView, ClientView, Method, Poll, PollView, ProxmoxClient, Request, Ticket};
use crate::proxmox::json;
use crate::proxmox::json::{Json, Tree};
use crate::proxmox::lxc;
use crate::proxmox::lxc::{ContainerStatus, ContainerStatusView, TaskKind};
use crate::text;

verus! {

/// The value of the first field with this name.
pub open spec fn field(form: Seq<(Seq<char>, Seq<char>)>, name: Seq<char>) -> Option<Seq<char>>
    decreases form.len(),
{
    if form.len() == 0 {
        None
    } else if form[0].0 == name {
        Some(form[0].1)
    } else {
        field(form.skip(1), name)
    }
}

proof fn lemma_field(form: Seq<(Seq<char>, Seq<char>)>, name: Seq<char>, k: int)
    requires
        0 <= k <= form.len(),
        forall|i: int| 0 <= i < k ==> (#[trigger] form[i]).0 != name,
        k < form.len() ==> form[k].0 == name,
    ensures
        field(form, name) == (if k < form.len() {
            Some(form[k].1)
        } else {
            None
        }),
    decreases form.len(),
{
    if form.len() > 0 && k > 0 {
        let rest = form.skip(1);
        assert(form[0].0 != name);
        assert forall|i: int| 0 <= i < k - 1 implies (#[trigger] rest[i]).0 != name by {
            assert(rest[i] == form[i + 1]);
        }
        if k < form.len() {
            assert(rest[k - 1] == form[k]);
        }
        lemma_field(rest, name, k - 1);
    }
}

/// Whether a text is the decimal form of a number.
pub open spec fn says(value: Option<Seq<char>>, n: u32) -> bool {
    value matches Some(v) && number::read_number(v, u32::MAX as int) == Ok::<int, NumberError>(n as int)
}

/// The form that creates a container says what the configuration says: each number,
/// read back, is the configured one, and each text is the configured one.  Nothing
/// but the key depends on the key.
pub proof fn law_the_form_says_what_the_configuration_says(c: ContainerView, key: Option<Seq<char>>)
    ensures
        ({
            let form = lxc::create_form(c, key);
            &&& says(field(form, "vmid"@), c.vmid)
            &&& says(field(form, "memory"@), c.memory)
            &&& says(field(form, "cores"@), c.cores)
            &&& field(form, "hostname"@) == Some(c.hostname)
            &&& field(form, "ostemplate"@) == Some(c.template)
            &&& field(form, "rootfs"@) == Some(c.storage + seq![':'] + c.disk_size)
            &&& field(form, "net0"@) == Some(c.network.net0_param())
            &&& field(form, "password"@) == Some(c.root_password)
            &&& field(form, "unprivileged"@) == Some(seq!['1'])
            &&& field(form, "onboot"@) == Some(seq!['1'])
            &&& field(form, "features"@) == Some("nesting=1"@)
            &&& field(form, "ssh-public-keys"@) == key
            &&& form.len() == if key is Some {
                12int
            } else {
                11int
            }
        }),
{
    let form = lxc::create_form(c, key);
    lemma_names_differ();
    reveal_strlit(":");
    reveal_strlit("1");
    assert(":"@ =~= seq![':']);
    assert("1"@ =~= seq!['1']);
    numbers::law_digits_are_read_back(c.vmid as nat, u32::MAX as int);
    numbers::law_digits_are_read_back(c.memory as nat, u32::MAX as int);
    numbers::law_digits_are_read_back(c.cores as nat, u32::MAX as int);
    lemma_field(form, "vmid"@, 0);
    lemma_field(form, "hostname"@, 1);
    lemma_field(form, "ostemplate"@, 2);
    lemma_field(form, "rootfs"@, 3);
    lemma_field(form, "memory"@, 4);
    lemma_field(form, "cores"@, 5);
    lemma_field(form, "net0"@, 6);
    lemma_field(form, "password"@, 7);
    lemma_field(form, "unprivileged"@, 8);
    lemma_field(form, "features"@, 9);
    lemma_field(form, "onboot"@, 10);
    lemma_field(form, "ssh-public-keys"@, 11);
}

proof fn lemma_names_differ()
    ensures
        "vmid"@.len() == 4 && "hostname"@.len() == 8 && "ostemplate"@.len() == 10 && "rootfs"@.len() == 6,
        "memory"@.len() == 6 && "cores"@.len() == 5 && "net0"@.len() == 4 && "password"@.len() == 8,
        "unprivileged"@.len() == 12 && "features"@.len() == 8 && "onboot"@.len() == 6 && "ssh-public-keys"@.len() == 15,
        "vmid"@[0] == 'v' && "net0"@[0] == 'n',
        "hostname"@[0] == 'h' && "password"@[0] == 'p' && "features"@[0] == 'f',
        "rootfs"@[0] == 'r' && "memory"@[0] == 'm' && "onboot"@[0] == 'o',
{
    reveal_strlit("vmid");
    reveal_strlit("hostname");
    reveal_strlit("ostemplate");
    reveal_strlit("rootfs");
    reveal_strlit("memory");
    reveal_strlit("cores");
    reveal_strlit("net0");
    reveal_strlit("password");
    reveal_strlit("unprivileged");
    reveal_strlit("features");
    reveal_strlit("onboot");
    reveal_strlit("ssh-public-keys");
}

/// Container sections that differ in a number or a text give different forms.
pub proof fn law_different_containers_are_asked_for_differently(
    a: ContainerView,
    b: ContainerView,
    key: Option<Seq<char>>,
)
    requires
        lxc::create_form(a, key) == lxc::create_form(b, key),
    ensures
        a.vmid == b.vmid && a.memory == b.memory && a.cores == b.cores,
        a.hostname == b.hostname && a.template == b.template && a.root_password == b.root_password,
        a.network.net0_param() == b.network.net0_param(),
        a.storage + seq![':'] + a.disk_size == b.storage + seq![':'] + b.disk_size,
        !a.storage.contains(':') && !b.storage.contains(':') ==> a.storage == b.storage && a.disk_size == b.disk_size,
{
    law_the_form_says_what_the_configuration_says(a, key);
    law_the_form_says_what_the_configuration_says(b, key);
    if !a.storage.contains(':') && !b.storage.contains(':') {
        let all = a.storage + seq![':'] + a.disk_size;
        texts::law_first_places(a.storage, ':', a.disk_size);
        texts::law_first_places(b.storage, ':', b.disk_size);
        let n = a.storage.len() as int;
        assert(all.take(n) =~= a.storage && all.skip(n + 1) =~= a.disk_size);
        assert(all.take(n) =~= b.storage && all.skip(n + 1) =~= b.disk_size);
    }
}

/// A key that is handed over is in the form, and different keys give different forms.
pub proof fn law_keys_are_handed_over(c: ContainerView, a: Option<Seq<char>>, b: Option<Seq<char>>)
    ensures
        lxc::create_form(c, a) == lxc::create_form(c, b) ==> a == b,
{
    law_the_form_says_what_the_configuration_says(c, a);
    law_the_form_says_what_the_configuration_says(c, b);
}

/// Each container of a node has a place of its own, under those of the node.
pub proof fn law_containers_have_places_of_their_own(node: Seq<char>, a: u32, b: u32)
    ensures
        lxc::container_path(node, a) == lxc::container_path(node, b) ==> a == b,
        lxc::containers_path(node) == "nodes/"@ + node + "/lxc"@,
        ({
            let start = lxc::containers_path(node) + "/"@;
            &&& start.is_prefix_of(lxc::container_path(node, a))
            &&& number::read_number(lxc::container_path(node, a).skip(start.len() as int), u32::MAX as int) == Ok::<
                int,
                NumberError,
            >(a as int)
        }),
{
    let start = lxc::containers_path(node) + "/"@;
    let pa = lxc::container_path(node, a);
    let pb = lxc::container_path(node, b);
    assert(pa.skip(start.len() as int) =~= number::decimal(a as nat));
    assert(pb.skip(start.len() as int) =~= number::decimal(b as nat));
    assert(pa.take(start.len() as int) =~= start);
    numbers::law_digits_are_read_back(a as nat, u32::MAX as int);
    numbers::law_different_numbers_look_different(a as nat, b as nat);
}

/// A request goes to its path below the base address, with its method and its body,
/// and every request carries the login; only those that write carry more.
pub proof fn law_requests_go_where_they_should(
    c: ClientView,
    slashes: Seq<char>,
    p: Seq<char>,
    fields: Seq<(Seq<char>, Seq<char>)>,
    document: Tree,
)
    requires
        !(p.len() > 0 && p[0] == '/'),
    ensures
        c.url(p) == c.base + "/"@ + p,
        texts::only(slashes, '/') ==> c.url(slashes + p) == c.url(p),
        c.get(p).url == c.url(p) && c.get(p).method == Method::Get && c.get(p).body == BodyView::Empty,
        c.post_form(p, fields).url == c.url(p) && c.post_form(p, fields).method == Method::Post && c.post_form(
            p,
            fields,
        ).body == BodyView::Form(fields),
        c.post(p, document).url == c.url(p) && c.post(p, document).method == Method::Post && c.post(
            p,
            document,
        ).body == BodyView::Document(document),
        c.delete(p).url == c.url(p) && c.delete(p).method == Method::Delete && c.delete(p).body == BodyView::Empty,
        c.get(p).headers == c.headers(false),
        c.post_form(p, fields).headers == c.headers(true) && c.post(p, document).headers == c.headers(true),
        c.delete(p).headers == c.headers(true),
{
    if texts::only(slashes, '/') {
        texts::law_stripping_takes_only_the_character(slashes, p, '/');
    }
}

/// A token is sent with every request; a ticket is sent as a cookie, and its second
/// half with requests that write; without a ticket nothing is sent.
pub proof fn law_logins_are_sent(c: ClientView, is_write: bool)
    ensures
        match c.auth {
            AuthView::Token { user, token_name, token_value } => field(c.headers(is_write), "Authorization"@) == Some(
                "PVEAPIToken="@ + user + "!"@ + token_name + "="@ + token_value,
            ) && c.headers(is_write).len() == 1,
            AuthView::Password { .. } => match c.ticket {
                Some(t) => {
                    &&& field(c.headers(is_write), "cookie"@) == Some("PVEAuthCookie="@ + t.cookie)
                    &&& field(c.headers(is_write), "CSRFPreventionToken"@) == (if is_write {
                        Some(t.csrf)
                    } else {
                        None
                    })
                    &&& c.headers(is_write).len() == if is_write {
                        2int
                    } else {
                        1int
                    }
                },
                None => c.headers(is_write).len() == 0,
            },
        },
{
    reveal_strlit("cookie");
    reveal_strlit("CSRFPreventionToken");
    let h = c.headers(is_write);
    assert("cookie"@.len() != "CSRFPreventionToken"@.len());
    match c.auth {
        AuthView::Token { .. } => {
            lemma_field(h, "Authorization"@, 0);
        },
        AuthView::Password { .. } => {
            if c.ticket is Some {
                lemma_field(h, "cookie"@, 0);
                lemma_field(h, "CSRFPreventionToken"@, 1);
            }
        },
    }
}

/// A password is exchanged for a ticket, with the user and the realm; a token needs
/// no exchange.
pub proof fn law_passwords_are_exchanged(c: ClientView)
    ensures
        match (c.auth, c.login()) {
            (AuthView::Token { .. }, None) => true,
            (AuthView::Password { user, realm, password }, Some(r)) => {
                &&& r.method == Method::Post
                &&& r.url == c.base + "/access/ticket"@
                &&& r.headers.len() == 0
                &&& r.body matches BodyView::Form(form)
                &&& field(form, "username"@) == Some(user + seq!['@'] + realm)
                &&& field(form, "password"@) == Some(password)
                &&& form.len() == 2
            },
            _ => false,
        },
{
    reveal_strlit("@");
    reveal_strlit("username");
    reveal_strlit("password");
    assert("@"@ =~= seq!['@']);
    assert("username"@[0] != "password"@[0]);
    if let AuthView::Password { user, realm, password } = c.auth {
        let form = seq![("username"@, user + "@"@ + realm), ("password"@, password)];
        lemma_field(form, "username"@, 0);
        lemma_field(form, "password"@, 1);
    }
}

/// A member of an object is the first with its name; nothing else has members.
pub proof fn law_members(before: Seq<(Seq<char>, Tree)>, key: Seq<char>, t: Tree, after: Seq<(Seq<char>, Tree)>)
    requires
        forall|i: int| 0 <= i < before.len() ==> (#[trigger] before[i]).0 != key,
    ensures
        json::member(Tree::Object(before + seq![(key, t)] + after), key) == t,
        json::member(Tree::Object(before), key) == Tree::Null,
        !(t is Object) ==> json::member(t, key) == Tree::Null,
        json::text_of(t) == (match t {
            Tree::Text(s) => Some(s),
            _ => None,
        }),
        json::number_of(t) == (match t {
            Tree::Number(n) => n,
            _ => None,
        }),
    decreases before.len(),
{
    let all = before + seq![(key, t)] + after;
    if before.len() > 0 {
        let rest = before.skip(1);
        assert(before[0].0 != key);
        assert forall|i: int| 0 <= i < rest.len() implies (#[trigger] rest[i]).0 != key by {
            assert(rest[i] == before[i + 1]);
        }
        law_members(rest, key, t, after);
        assert(all[0] == before[0]);
        assert(all.skip(1) =~= rest + seq![(key, t)] + after);
    } else {
        assert(all[0] == (key, t));
    }
}

/// A container is listed exactly if one of the items has its number, wherever in the
/// list it stands.
pub proof fn law_listed_containers_are_found(
    before: Seq<Tree>,
    item: Tree,
    after: Seq<Tree>,
    vmid: u32,
)
    ensures
        lxc::lists(Tree::Array(before + seq![item] + after), vmid) <==> lxc::lists(Tree::Array(before), vmid)
            || json::member(item, "vmid"@) == Tree::Number(Some(vmid as u64)) || lxc::lists(
            Tree::Array(after),
            vmid,
        ),
        !lxc::lists(Tree::Array(seq![]), vmid),
        !(item is Array) ==> !lxc::lists(item, vmid),
{
    let all = before + seq![item] + after;
    let v = Some(vmid as u64);
    if lxc::lists(Tree::Array(before), vmid) {
        let i = choose|i: int|
            0 <= i < before.len() && json::number_of(json::member(#[trigger] before[i], "vmid"@)) == v;
        assert(all[i] == before[i]);
    }
    if lxc::lists(Tree::Array(after), vmid) {
        let i = choose|i: int|
            0 <= i < after.len() && json::number_of(json::member(#[trigger] after[i], "vmid"@)) == v;
        assert(all[before.len() + 1 + i] == after[i]);
    }
    assert(all[before.len() as int] == item);
    if lxc::lists(Tree::Array(all), vmid) {
        let i = choose|i: int| 0 <= i < all.len() && json::number_of(json::member(#[trigger] all[i], "vmid"@)) == v;
        if i < before.len() {
            assert(before[i] == all[i]);
        } else if i > before.len() {
            assert(after[i - before.len() - 1] == all[i]);
        }
    }
}

/// The state of a container is the word that the reply holds; without one it is
/// unknown.
pub proof fn law_reported_states(data: Tree, s: Seq<char>)
    ensures
        json::member(data, "status"@) == Tree::Text(s) ==> lxc::reported_status(data).word() == s,
        lxc::reported_status(data) is Running <==> json::member(data, "status"@) == Tree::Text("running"@),
        lxc::reported_status(data) is Stopped <==> json::member(data, "status"@) == Tree::Text("stopped"@),
        !(json::member(data, "status"@) is Text) ==> lxc::reported_status(data) == ContainerStatusView::Unknown(
            "unknown"@,
        ),
{
    reveal_strlit("running");
    reveal_strlit("stopped");
    reveal_strlit("unknown");
    assert("unknown"@[0] == 'u' && "running"@[0] == 'r' && "stopped"@[0] == 's');
}

/// The state of a container is seen as it is.
pub proof fn law_states_are_seen_whole(s: ContainerStatus)
    ensures
        match (s, s@) {
            (ContainerStatus::Running, ContainerStatusView::Running) => true,
            (ContainerStatus::Stopped, ContainerStatusView::Stopped) => true,
            (ContainerStatus::Unknown(a), ContainerStatusView::Unknown(b)) => a@ == b,
            _ => false,
        },
{
}

/// The address of an interface is what stands before the slash; of the loopback
/// interface and of one without an address there is none.
pub proof fn law_addresses_of_interfaces(iface: Tree, address: Seq<char>, prefix: Seq<char>)
    requires
        !address.contains('/'),
    ensures
        json::member(iface, "name"@) == Tree::Text("lo"@) ==> lxc::interface_address(iface) is None,
        json::member(iface, "name"@) != Tree::Text("lo"@) && (json::member(iface, "inet"@) == Tree::Text(
            address + seq!['/'] + prefix,
        ) || json::member(iface, "inet"@) == Tree::Text(address)) ==> lxc::interface_address(iface) == Some(address),
        !(json::member(iface, "inet"@) is Text) ==> lxc::interface_address(iface) is None,
{
    texts::law_first_places(address, '/', prefix);
    assert((address + seq!['/'] + prefix).take(address.len() as int) =~= address);
    assert(address.take(address.len() as int) =~= address);
}

/// The address of a container is that of the first interface that has one.
pub proof fn law_the_first_address_counts(a: Seq<Tree>, b: Seq<Tree>, iface: Tree)
    ensures
        lxc::first_address(seq![iface]) == lxc::interface_address(iface),
        lxc::first_address(a + b) == (match lxc::first_address(a) {
            Some(x) => Some(x),
            None => lxc::first_address(b),
        }),
        lxc::primary_address(Tree::Array(a)) == lxc::first_address(a),
        !(iface is Array) ==> lxc::primary_address(iface) is None,
    decreases a.len(),
{
    reveal_with_fuel(lxc::first_address, 2);
    assert(seq![iface].skip(1) =~= seq![]);
    if a.len() == 0 {
        assert(a + b =~= b);
    } else {
        assert((a + b)[0] == a[0]);
        assert((a + b).skip(1) =~= a.skip(1) + b);
        law_the_first_address_counts(a.skip(1), b, iface);
    }
}

/// A container that runs is waited for no longer; any other is, for sixty polls in
/// all, and then the wait has failed, with the number of the container.
pub proof fn law_waiting_for_containers(vmid: u32, polls: int, status: ContainerStatusView)
    ensures
        status is Running <==> lxc::start_outcome(vmid, polls, status) == PollView::Done,
        !(status is Running) && polls < 59 ==> lxc::start_outcome(vmid, polls, status) == PollView::Again,
        !(status is Running) && polls >= 59 ==> lxc::start_outcome(vmid, polls, status) == PollView::Failed(
            ErrorView::Timeout("container "@ + number::decimal(vmid as nat) + " to start"@),
        ),
        lxc::MAX_IP_POLLS == 30,
{
}

/// A task that runs is waited for, up to the last poll; one that has stopped is done
/// exactly if it ended well; any other state is a failure.
pub proof fn law_waiting_for_tasks(upid: Seq<char>, polls: int, reply: Tree, exit: Seq<char>)
    ensures
        json::member(reply, "status"@) == Tree::Text("running"@) ==> client::task_outcome(upid, polls, reply) == (
        if polls + 1 < client::MAX_TASK_POLLS {
            PollView::Again
        } else {
            PollView::Failed(ErrorView::Timeout("task "@ + upid))
        }),
        json::member(reply, "status"@) == Tree::Text("stopped"@) && json::member(reply, "exitstatus"@) == Tree::Text(
            exit,
        ) ==> client::task_outcome(upid, polls, reply) == (if exit == "OK"@ {
            PollView::Done
        } else {
            PollView::Failed(ErrorView::TaskFailed("task "@ + upid + " exited with: "@ + exit))
        }),
        client::task_outcome(upid, polls, reply) == PollView::Done ==> json::member(reply, "status"@) == Tree::Text(
            "stopped"@,
        ) && json::member(reply, "exitstatus"@) == Tree::Text("OK"@),
        client::task_outcome(upid, polls, reply) == PollView::Again ==> json::member(reply, "status"@) == Tree::Text(
            "running"@,
        ),
        json::member(reply, "status"@) == Tree::Text("stopped"@) && !(json::member(reply, "exitstatus"@) is Text)
            ==> client::task_outcome(upid, polls, reply) == PollView::Failed(
            ErrorView::TaskFailed("task "@ + upid + " exited with: "@ + "unknown"@),
        ),
        json::member(reply, "status"@) == Tree::Text(exit) && exit != "running"@ && exit != "stopped"@
            ==> client::task_outcome(upid, polls, reply) == PollView::Failed(
            ErrorView::TaskFailed("unexpected task state: "@ + exit),
        ),
        !(json::member(reply, "status"@) is Text) ==> client::task_outcome(upid, polls, reply) == PollView::Failed(
            ErrorView::TaskFailed("unexpected task state: "@),
        ),
        client::MAX_TASK_POLLS == 120 && client::POLL_DELAY_SECS == 2,
{
    assert("unexpected task state: "@ + Seq::<char>::empty() =~= "unexpected task state: "@);
    reveal_strlit("running");
    reveal_strlit("stopped");
    reveal_strlit("unknown");
    reveal_strlit("OK");
    assert("running"@[0] == 'r' && "stopped"@[0] == 's' && "unknown"@.len() == 7 && "OK"@.len() == 2);
}

/// What Proxmox complains of is passed on: each field with its complaint, else the
/// message, else the reason.
pub proof fn law_complaints_are_passed_on(
    body: Tree,
    reason: Seq<char>,
    name: Seq<char>,
    complaint: Seq<char>,
    message: Seq<char>,
)
    ensures
        json::member(body, "errors"@) == Tree::Object(seq![(name, Tree::Text(complaint))]) ==> client::error_message(
            body,
            reason,
        ) == name + ": "@ + complaint,
        !(json::member(body, "errors"@) is Object) && json::member(body, "message"@) == Tree::Text(message)
            ==> client::error_message(body, reason) == message,
        !(json::member(body, "errors"@) is Object) && !(json::member(body, "message"@) is Text)
            ==> client::error_message(body, reason) == reason,
        client::error_line((name, Tree::Text(complaint))) == name + ": "@ + complaint,
        !(body is Text) ==> client::error_line((name, body)) == name + ": "@ + "?"@,
{
    let one = seq![(name, Tree::Text(complaint))];
    let lines = one.map_values(|m: (Seq<char>, Tree)| client::error_line(m));
    assert(lines =~= seq![client::error_line(one[0])]);
}

/// Several complaints are listed one after the other.
pub proof fn law_complaints_are_listed(
    body: Tree,
    reason: Seq<char>,
    a: Seq<(Seq<char>, Tree)>,
    b: Seq<(Seq<char>, Tree)>,
)
    requires
        a.len() > 0,
        b.len() > 0,
        json::member(body, "errors"@) == Tree::Object(a + b),
    ensures
        ({
            let lines = |m: Seq<(Seq<char>, Tree)>|
                m.map_values(|x: (Seq<char>, Tree)| client::error_line(x));
            client::error_message(body, reason) == text::joined(lines(a), "; "@) + "; "@ + text::joined(
                lines(b),
                "; "@,
            )
        }),
{
    let la = a.map_values(|x: (Seq<char>, Tree)| client::error_line(x));
    let lb = b.map_values(|x: (Seq<char>, Tree)| client::error_line(x));
    let lab = (a + b).map_values(|x: (Seq<char>, Tree)| client::error_line(x));
    assert(lab =~= la + lb);
    texts::law_joining_separates(la, lb, "; "@, seq![]);
}

/// A reply is a success exactly with a status from 200 to 299; what cannot be read is
/// quoted.
pub proof fn law_replies(status: u16, reason: Seq<char>, body: Seq<char>, cause: Seq<char>, t: Tree)
    ensures
        client::is_success(status) <==> 200 <= status <= 299,
        client::interpreted(status, reason, t) is Ok <==> 200 <= status <= 299,
        200 <= status <= 299 ==> client::interpreted(status, reason, t) == Ok::<Tree, ErrorView>(
            json::member(t, "data"@),
        ),
        !(200 <= status <= 299) ==> client::interpreted(status, reason, t) == Err::<Tree, ErrorView>(
            ErrorView::ProxmoxApi { status, message: client::error_message(t, reason) },
        ),
        text::trimmed(body).len() > 0 ==> client::extracted(status, reason, body, Err(cause)) == Err::<Tree, ErrorView>(
            ErrorView::ProxmoxApi {
                status,
                message: "could not parse Proxmox response as JSON: "@ + cause + " — body: "@ + client::snippet(body),
            },
        ),
        text::trimmed(body).len() == 0 && !(200 <= status <= 299) ==> client::extracted(
            status,
            reason,
            body,
            Err(cause),
        ) == Err::<Tree, ErrorView>(ErrorView::ProxmoxApi { status, message: reason }),
        text::trimmed(body).len() == 0 && 200 <= status <= 299 ==> client::extracted(
            status,
            reason,
            body,
            Err(cause),
        ) == Ok::<Tree, ErrorView>(Tree::Null),
        text::trimmed(body).len() > 0 ==> client::extracted(status, reason, body, Ok(t)) == client::interpreted(
            status,
            reason,
            t,
        ),
        text::trimmed(body).len() == 0 ==> client::extracted(status, reason, body, Ok(t)) == client::extracted(
            status,
            reason,
            body,
            Err(cause),
        ),
        client::is_status(status) <==> 100 <= status <= 999,
{
}

/// What is quoted is the longest beginning of the text that takes no more than 300
/// bytes.
pub proof fn law_quotations_are_short(s: Seq<char>, k: int)
    ensures
        client::snippet(s).is_prefix_of(s),
        encode_utf8(client::snippet(s)).len() <= 300,
        0 <= k <= s.len() && encode_utf8(s.take(k)).len() <= 300 ==> k <= client::snippet(s).len(),
{
    assert(s.take(0) =~= seq![]);
    lemma_fitting(s, s.len() as int, k);
    let n = client::fitting(s, s.len() as int);
    assert(client::snippet(s) =~= s.take(n));
}

proof fn lemma_fitting(s: Seq<char>, n: int, k: int)
    requires
        0 <= n <= s.len(),
    ensures
        0 <= client::fitting(s, n) <= n,
        encode_utf8(s.take(client::fitting(s, n))).len() <= 300,
        0 <= k <= n && encode_utf8(s.take(k)).len() <= 300 ==> k <= client::fitting(s, n),
    decreases n,
{
    if n == 0 {
        assert(s.take(0) =~= Seq::<char>::empty());
        lemma_nothing_is_short();
    } else if !client::fits(s, n) {
        lemma_fitting(s, n - 1, k);
    }
}

proof fn lemma_nothing_is_short()
    ensures
        encode_utf8(Seq::<char>::empty()).len() == 0,
{
}

/// What a wait came to, and what a reply came to, is told as it is.
pub proof fn law_outcomes_are_told(
    p: Poll<()>,
    expected: PollView,
    r: Result<serde_json::Value, Error>,
    said: Result<Tree, ErrorView>,
)
    ensures
        client::is_outcome(p, expected) <==> (match p {
            Poll::Again => expected is Again,
            Poll::Done(_) => expected is Done,
            Poll::Failed(e) => expected == PollView::Failed(e@),
        }),
        client::is_reply(r, said) <==> (match r {
            Ok(v) => said == Ok::<Tree, ErrorView>(json::value_tree(v)),
            Err(e) => said == Err::<Tree, ErrorView>(e@),
        }),
{
}

/// Only the status 500 says that there is no such container, or that it is not ready.
pub proof fn law_what_a_server_error_is(e: ErrorView, message: Seq<char>, status: u16)
    ensures
        lxc::is_server_error(ErrorView::ProxmoxApi { status, message }) <==> status == 500,
        !(e is ProxmoxApi) ==> !lxc::is_server_error(e),
{
}

/// A document is seen as it is: item by item, and member by member with its name.
pub proof fn law_documents_are_seen_whole(j: Json, items: Seq<Json>, members: Seq<(String, Json)>, i: int)
    ensures
        match (j, j.tree()) {
            (Json::Null, Tree::Null) => true,
            (Json::Bool(a), Tree::Bool(b)) => a == b,
            (Json::Number(a), Tree::Number(b)) => a == b,
            (Json::Text(a), Tree::Text(b)) => a@ == b,
            (Json::Array(a), Tree::Array(b)) => b == json::trees(a@),
            (Json::Object(a), Tree::Object(b)) => b == json::member_trees(a@),
            _ => false,
        },
        json::trees(items).len() == items.len(),
        0 <= i < items.len() ==> json::trees(items)[i] == items[i].tree(),
        json::member_trees(members).len() == members.len(),
        0 <= i < members.len() ==> json::member_trees(members)[i] == (members[i].0@, members[i].1.tree()),
    decreases items.len() + members.len(),
{
    if items.len() > 0 {
        law_documents_are_seen_whole(j, items.subrange(0, items.len() - 1), seq![], i);
    }
    if members.len() > 0 {
        law_documents_are_seen_whole(j, seq![], members.subrange(0, members.len() - 1), i);
    }
}

/// A reply without a task is complained of by what was asked.
pub proof fn law_missing_tasks_are_named(a: TaskKind, b: TaskKind)
    ensures
        a.complaint() == b.complaint() ==> a == b,
        TaskKind::Create.complaint() == "create returned no UPID"@,
        TaskKind::Start.complaint() == "no UPID from start"@,
        TaskKind::Stop.complaint() == "no UPID from stop"@,
        TaskKind::Destroy.complaint() == "no UPID from destroy"@,
{
    reveal_strlit("create returned no UPID");
    reveal_strlit("no UPID from start");
    reveal_strlit("no UPID from stop");
    reveal_strlit("no UPID from destroy");
    assert("create returned no UPID"@.len() == 23 && "no UPID from start"@.len() == 18);
    assert("no UPID from stop"@.len() == 17 && "no UPID from destroy"@.len() == 20);
}

/// A client is seen as it is.
pub proof fn law_clients_are_seen_whole(c: ProxmoxClient, t: Ticket)
    ensures
        c@.base == c.base@ && c@.auth == c.auth@,
        c@.ticket is Some <==> c.ticket is Some,
        c.ticket matches Some(x) ==> c@.ticket == Some(x@),
        t@.cookie == t.cookie@ && t@.csrf == t.csrf@,
{
}

/// A request is seen as it is.
pub proof fn law_requests_are_seen_whole(r: Request)
    ensures
        r@.method == r.method && r@.url == r.url@ && r@.headers == text::pairs(r.headers@) && r@.body == r.body@,
        match (r.body, r.body@) {
            (Body::Empty, BodyView::Empty) => true,
            (Body::Form(a), BodyView::Form(b)) => b == text::pairs(a@),
            (Body::Document(a), BodyView::Document(b)) => b == json::value_tree(a),
            _ => false,
        },
{
}

} // verus!
