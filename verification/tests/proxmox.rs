use dps::config::{AuthConfig, ContainerConfig, NetworkConfig, ProxmoxConfig};
use dps::error::Error;
use dps::proxmox::client::{
    describe_error, extract_data, interpret_body, task_path, ticket_error, Body, Method, Poll,
    ProxmoxClient, Request, TaskWait, Ticket, MAX_TASK_POLLS,
};
use dps::proxmox::json::Json;
use dps::proxmox::lxc;
use dps::proxmox::lxc::{ContainerStatus, TaskKind};

fn parse(text: &str) -> Json {
    Json::from_value(&serde_json::from_str(text).unwrap())
}

fn config(auth: AuthConfig) -> ProxmoxConfig {
    ProxmoxConfig { host: "pve.lan".to_string(), port: 8006, node: "pve".to_string(), auth, verify_ssl: true }
}

fn token() -> ProxmoxClient {
    ProxmoxClient::new(&config(AuthConfig::Token {
        user: "root@pam".to_string(),
        token_name: "dps".to_string(),
        token_value: "v".to_string(),
    }))
}

fn login() -> ProxmoxClient {
    ProxmoxClient::new(&config(AuthConfig::Password {
        user: "root".to_string(),
        realm: "pam".to_string(),
        password: "pw".to_string(),
    }))
}

fn pair(a: &str, b: &str) -> (String, String) {
    (a.to_string(), b.to_string())
}

fn fields(r: &Request) -> Vec<(String, String)> {
    match &r.body {
        Body::Form(f) => f.clone(),
        other => panic!("no form: {:?}", other),
    }
}

#[test]
fn urls_ignore_leading_slashes() {
    assert_eq!(token().url("nodes/pve/lxc"), "https://pve.lan:8006/api2/json/nodes/pve/lxc");
    assert_eq!(token().url("//nodes"), "https://pve.lan:8006/api2/json/nodes");
}

#[test]
fn tokens_are_sent_with_every_request() {
    let c = token();
    assert!(c.authenticate().is_none());
    let header = vec![pair("Authorization", "PVEAPIToken=root@pam!dps=v")];
    assert_eq!(c.auth_headers(false), header);
    assert_eq!(c.auth_headers(true), header);
}

#[test]
fn passwords_are_exchanged_for_a_ticket() {
    let mut c = login();
    let r = c.authenticate().unwrap();
    assert_eq!(r.method, Method::Post);
    assert_eq!(r.url, "https://pve.lan:8006/api2/json/access/ticket");
    assert_eq!(r.headers, vec![]);
    assert_eq!(fields(&r), vec![pair("username", "root@pam"), pair("password", "pw")]);
    assert_eq!(c.auth_headers(true), vec![]);
    c.logged_in(Ticket { cookie: "T".to_string(), csrf: "C".to_string() });
    assert_eq!(c.auth_headers(false), vec![pair("cookie", "PVEAuthCookie=T")]);
    assert_eq!(c.auth_headers(true), vec![pair("cookie", "PVEAuthCookie=T"), pair("CSRFPreventionToken", "C")]);
    assert_eq!(ticket_error("bad").to_string(), "proxmox API error (HTTP 200): bad");
}

#[test]
fn requests_carry_method_and_headers() {
    let mut c = login();
    c.logged_in(Ticket { cookie: "T".to_string(), csrf: "C".to_string() });
    let get = c.get("/version");
    assert_eq!((get.method, get.url.as_str(), get.headers.len()), (Method::Get, "https://pve.lan:8006/api2/json/version", 1));
    assert!(matches!(get.body, Body::Empty));
    let post = c.post("x", serde_json::Value::Bool(true));
    assert_eq!((post.method, post.headers.len()), (Method::Post, 2));
    assert!(matches!(post.body, Body::Document(serde_json::Value::Bool(true))));
    let delete = c.delete("x");
    assert_eq!((delete.method, delete.headers.len()), (Method::Delete, 2));
    let form = c.post_form("x", vec![pair("a", "b")]);
    assert_eq!(fields(&form), vec![pair("a", "b")]);
}

#[test]
fn documents_become_plain_values() {
    let j = parse("{\"a\": [null, true, 7, -1, 1.5, \"x\"], \"b\": {\"c\": 18446744073709551615}}");
    match j.get("a") {
        Some(Json::Array(items)) => {
            assert_eq!(items.len(), 6);
            assert!(matches!(items[0], Json::Null));
            assert!(matches!(items[1], Json::Bool(true)));
            assert!(matches!(items[2], Json::Number(Some(7))));
            assert!(matches!(items[3], Json::Number(None)));
            assert!(matches!(items[4], Json::Number(None)));
            assert_eq!(items[5].as_str(), Some("x"));
        },
        other => panic!("unexpected {:?}", other),
    }
    assert_eq!(j.get("b").unwrap().number_at("c"), Some(u64::MAX));
    assert!(j.get("missing").is_none());
    assert_eq!(j.text_at("a"), None);
    assert!(parse("[1]").get("a").is_none());
}

#[test]
fn successful_replies_give_their_data() {
    let r = extract_data(200, "{\"data\": {\"status\": \"running\"}}").unwrap();
    assert_eq!(Json::from_value(&r).text_at("status"), Some("running"));
    assert!(extract_data(200, "{\"other\": 1}").unwrap().is_null());
    assert!(extract_data(200, " \n").unwrap().is_null());
}

#[test]
fn failed_replies_give_an_error() {
    let message = |r: Result<serde_json::Value, Error>| match r {
        Err(Error::ProxmoxApi { status, message }) => (status, message),
        other => panic!("unexpected {:?}", other),
    };
    assert_eq!(message(extract_data(503, "")), (503, "503 Service Unavailable".to_string()));
    assert_eq!(
        message(extract_data(400, "{\"errors\": {\"vmid\": \"taken\", \"x\": 3}, \"message\": \"m\"}")),
        (400, "vmid: taken; x: ?".to_string())
    );
    assert_eq!(message(extract_data(500, "{\"message\": \"no such CT\"}")), (500, "no such CT".to_string()));
    assert_eq!(message(extract_data(401, "{\"data\": null}")), (401, "401 Unauthorized".to_string()));
    assert_eq!(message(extract_data(400, "{\"errors\": {}}")), (400, "".to_string()));
    assert_eq!(message(extract_data(599, "")), (599, "599 <unknown status code>".to_string()));
}

#[test]
fn bodies_that_are_not_json_are_quoted() {
    let cause = serde_json::from_str::<serde_json::Value>("<html>").unwrap_err().to_string();
    match extract_data(200, "<html>") {
        Err(Error::ProxmoxApi { status, message }) => {
            assert_eq!(status, 200);
            assert_eq!(message, format!("could not parse Proxmox response as JSON: {} — body: <html>", cause));
        },
        other => panic!("unexpected {:?}", other),
    }
    let long = "x".repeat(400);
    match extract_data(502, &long) {
        Err(Error::ProxmoxApi { message, .. }) => assert!(message.ends_with(&format!("body: {}", "x".repeat(300)))),
        other => panic!("unexpected {:?}", other),
    }
}

#[test]
fn quotations_end_with_a_whole_character() {
    let quoted = |r: Result<serde_json::Value, Error>| match r {
        Err(Error::ProxmoxApi { status, message }) => {
            (status, message.split(" — body: ").nth(1).unwrap().to_string())
        },
        other => panic!("unexpected {:?}", other),
    };
    let odd = format!("x{}", "é".repeat(200));
    assert_eq!(quoted(extract_data(502, &odd)), (502, format!("x{}", "é".repeat(149))));
    assert_eq!(quoted(extract_data(200, &"é".repeat(200))), (200, "é".repeat(150)));
    assert_eq!(quoted(extract_data(200, &"€".repeat(100))), (200, "€".repeat(100)));
    assert_eq!(quoted(extract_data(200, &format!("ab{}", "😀".repeat(80)))), (200, format!("ab{}", "😀".repeat(74))));
    let json = format!("{{\"data\": \"x{}\"}}", "é".repeat(200));
    assert!(extract_data(200, &json).is_ok());
    assert!(extract_data(200, "").unwrap().is_null());
}

#[test]
fn parsed_bodies_are_interpreted() {
    let v: serde_json::Value = serde_json::from_str("{\"data\": [1]}").unwrap();
    assert_eq!(interpret_body(200, "r", &v).unwrap(), v["data"]);
    assert!(interpret_body(404, "404 Not Found", &v).is_err());
    assert_eq!(describe_error(&parse("{}"), "reason"), "reason");
}

#[test]
fn tasks_are_polled_until_they_stop() {
    assert_eq!(task_path("pve", "UPID:1"), "nodes/pve/tasks/UPID:1/status");
    let mut w = TaskWait::new("UPID:1");
    assert!(matches!(w.wait_for_task(&parse("{\"status\": \"running\"}")), Poll::Again));
    assert!(matches!(w.wait_for_task(&parse("{\"status\": \"stopped\", \"exitstatus\": \"OK\"}")), Poll::Done(())));
    let fails = [
        ("{\"status\": \"stopped\", \"exitstatus\": \"boom\"}", "proxmox task failed: task UPID:1 exited with: boom"),
        ("{\"status\": \"stopped\"}", "proxmox task failed: task UPID:1 exited with: unknown"),
        ("{\"status\": \"odd\"}", "proxmox task failed: unexpected task state: odd"),
        ("{}", "proxmox task failed: unexpected task state: "),
    ];
    for (reply, text) in fails {
        let mut w = TaskWait::new("UPID:1");
        match w.wait_for_task(&parse(reply)) {
            Poll::Failed(e) => assert_eq!(e.to_string(), text),
            other => panic!("unexpected {:?}", other),
        }
    }
}

#[test]
fn tasks_are_not_polled_forever() {
    let mut w = TaskWait::new("UPID:1");
    let running = parse("{\"status\": \"running\"}");
    for _ in 1..MAX_TASK_POLLS {
        assert!(matches!(w.wait_for_task(&running), Poll::Again));
    }
    match w.wait_for_task(&running) {
        Poll::Failed(e) => assert_eq!(e.to_string(), "timed out waiting for task UPID:1"),
        other => panic!("unexpected {:?}", other),
    }
}

fn container() -> ContainerConfig {
    ContainerConfig {
        vmid: 200,
        hostname: "dps-sync".to_string(),
        template: "local:vztmpl/debian.tar.zst".to_string(),
        storage: "local-lvm".to_string(),
        disk_size: "8G".to_string(),
        memory: 512,
        cores: 1,
        root_password: "pw".to_string(),
        network: NetworkConfig { bridge: "vmbr0".to_string(), ip: "dhcp".to_string(), gateway: None },
    }
}

#[test]
fn container_requests() {
    let c = token();
    let base = "https://pve.lan:8006/api2/json/nodes/pve/lxc";
    let checks = [
        (lxc::list_request(&c, "pve"), Method::Get, base.to_string()),
        (lxc::status_request(&c, "pve", 200), Method::Get, format!("{}/200/status/current", base)),
        (lxc::interfaces_request(&c, "pve", 200), Method::Get, format!("{}/200/interfaces", base)),
        (lxc::start(&c, "pve", 200), Method::Post, format!("{}/200/status/start", base)),
        (lxc::stop(&c, "pve", 200), Method::Post, format!("{}/200/status/stop", base)),
        (lxc::destroy(&c, "pve", 200), Method::Delete, format!("{}/200", base)),
    ];
    for (request, method, url) in checks {
        assert_eq!((request.method, request.url.clone()), (method, url));
    }
    assert_eq!(fields(&lxc::start(&c, "pve", 200)), vec![]);
}

#[test]
fn container_creation() {
    let r = lxc::create(&token(), "pve", &container(), Some("ssh-ed25519 K"));
    assert_eq!(r.url, "https://pve.lan:8006/api2/json/nodes/pve/lxc");
    let expected = vec![
        pair("vmid", "200"),
        pair("hostname", "dps-sync"),
        pair("ostemplate", "local:vztmpl/debian.tar.zst"),
        pair("rootfs", "local-lvm:8G"),
        pair("memory", "512"),
        pair("cores", "1"),
        pair("net0", "name=eth0,bridge=vmbr0,ip=dhcp"),
        pair("password", "pw"),
        pair("unprivileged", "1"),
        pair("features", "nesting=1"),
        pair("onboot", "1"),
        pair("ssh-public-keys", "ssh-ed25519 K"),
    ];
    assert_eq!(fields(&r), expected);
    assert_eq!(fields(&lxc::create(&token(), "pve", &container(), None)), expected[..11].to_vec());
}

#[test]
fn task_ids() {
    assert_eq!(lxc::upid(TaskKind::Start, &parse("\"UPID:9\"")).unwrap(), "UPID:9");
    let complaints = [
        (TaskKind::Create, "create returned no UPID"),
        (TaskKind::Start, "no UPID from start"),
        (TaskKind::Stop, "no UPID from stop"),
        (TaskKind::Destroy, "no UPID from destroy"),
    ];
    for (kind, text) in complaints {
        match lxc::upid(kind, &parse("null")) {
            Err(Error::ProxmoxApi { status: 200, message }) => assert_eq!(message, text),
            other => panic!("unexpected {:?}", other),
        }
    }
}

#[test]
fn containers_are_found_by_id() {
    let list = parse("[{\"vmid\": 100}, {\"vmid\": \"200\"}, {\"vmid\": 201}]");
    assert!(lxc::is_listed(&list, 100));
    assert!(lxc::is_listed(&list, 201));
    assert!(!lxc::is_listed(&list, 200));
    assert!(!lxc::is_listed(&parse("null"), 100));
}

#[test]
fn container_states() {
    assert_eq!(lxc::status(200, Ok(parse("{\"status\": \"running\"}"))).unwrap(), ContainerStatus::Running);
    assert_eq!(lxc::status(200, Ok(parse("{\"status\": \"stopped\"}"))).unwrap(), ContainerStatus::Stopped);
    assert_eq!(
        lxc::status(200, Ok(parse("{\"status\": \"paused\"}"))).unwrap(),
        ContainerStatus::Unknown("paused".to_string())
    );
    assert_eq!(lxc::status(200, Ok(parse("{}"))).unwrap(), ContainerStatus::Unknown("unknown".to_string()));
    let missing = Error::ProxmoxApi { status: 500, message: "x".to_string() };
    assert!(matches!(lxc::status(200, Err(missing)), Err(Error::ContainerNotFound(200))));
    let other = Error::ProxmoxApi { status: 401, message: "x".to_string() };
    assert!(matches!(lxc::status(200, Err(other)), Err(Error::ProxmoxApi { status: 401, .. })));
}

#[test]
fn state_words_are_kept() {
    for w in ["running", "stopped", "paused", ""] {
        assert_eq!(ContainerStatus::from_str(w).to_word(), w);
        assert_eq!(ContainerStatus::from_str(w).clone(), ContainerStatus::from_str(w));
    }
}

#[test]
fn container_addresses() {
    let data = parse(
        "[{\"name\": \"lo\", \"inet\": \"127.0.0.1/8\"}, {\"name\": \"eth1\"}, \
         {\"name\": \"eth0\", \"inet\": \"10.0.0.5/24\"}, {\"name\": \"eth2\", \"inet\": \"10.0.0.6/24\"}]",
    );
    assert_eq!(lxc::find_address(&data), Some("10.0.0.5".to_string()));
    assert_eq!(lxc::get_ip(Ok(data)).unwrap(), Some("10.0.0.5".to_string()));
    assert_eq!(lxc::get_ip(Ok(parse("[{\"name\": \"lo\", \"inet\": \"127.0.0.1/8\"}]"))).unwrap(), None);
    assert_eq!(lxc::get_ip(Ok(parse("[{\"inet\": \"10.0.0.7\"}]"))).unwrap(), Some("10.0.0.7".to_string()));
    assert_eq!(lxc::get_ip(Ok(parse("{}"))).unwrap(), None);
    let not_ready = Error::ProxmoxApi { status: 500, message: "x".to_string() };
    assert_eq!(lxc::get_ip(Err(not_ready)).unwrap(), None);
    assert!(matches!(lxc::get_ip(Err(Error::Http("h".to_string()))), Err(Error::Http(_))));
}

#[test]
fn waiting_for_a_container_to_run() {
    assert!(matches!(lxc::wait_until_running(200, 0, &ContainerStatus::Running), Poll::Done(())));
    assert!(matches!(lxc::wait_until_running(200, 58, &ContainerStatus::Stopped), Poll::Again));
    match lxc::wait_until_running(200, 59, &ContainerStatus::Stopped) {
        Poll::Failed(e) => assert_eq!(e.to_string(), "timed out waiting for container 200 to start"),
        other => panic!("unexpected {:?}", other),
    }
    assert!(matches!(lxc::wait_until_running(200, 59, &ContainerStatus::Running), Poll::Done(())));
}

#[test]
fn waiting_for_an_address() {
    assert!(matches!(lxc::wait_for_ip(200, 0, None), Poll::Again));
    assert!(matches!(lxc::wait_for_ip(200, 29, Some("a".to_string())), Poll::Done(a) if a == "a"));
    match lxc::wait_for_ip(200, 29, None) {
        Poll::Failed(e) => assert_eq!(e.to_string(), "timed out waiting for IP assignment for container 200"),
        other => panic!("unexpected {:?}", other),
    }
}
