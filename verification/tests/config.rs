use dps::config;
use dps::config::{AuthConfig, Config, NetworkConfig, ProxmoxConfig, SyncConfig, SyncPath};
use dps::error::Error;

fn proxmox() -> ProxmoxConfig {
    ProxmoxConfig {
        host: "192.168.1.10".to_string(),
        port: 8006,
        node: "pve".to_string(),
        auth: AuthConfig::Token {
            user: "root@pam".to_string(),
            token_name: "dps".to_string(),
            token_value: "secret".to_string(),
        },
        verify_ssl: false,
    }
}

#[test]
fn base_url_names_host_and_port() {
    assert_eq!(proxmox().base_url(), "https://192.168.1.10:8006/api2/json");
}

#[test]
fn net0_with_and_without_gateway() {
    let mut n = NetworkConfig { bridge: "vmbr0".to_string(), ip: "dhcp".to_string(), gateway: None };
    assert_eq!(n.net0_param(), "name=eth0,bridge=vmbr0,ip=dhcp");
    n.ip = "192.168.1.50/24".to_string();
    n.gateway = Some("192.168.1.1".to_string());
    assert_eq!(n.net0_param(), "name=eth0,bridge=vmbr0,ip=192.168.1.50/24,gw=192.168.1.1");
}

#[test]
fn configuration_file_location() {
    assert_eq!(config::config_file_in("/home/u/.config"), "/home/u/.config/dps/config.toml");
    assert_eq!(Config::location(Some("/tmp/x.toml"), Some("/d")).unwrap(), "/tmp/x.toml");
    assert_eq!(Config::location(None, Some("/d/config.toml")).unwrap(), "/d/config.toml");
    match Config::location(None, None) {
        Err(e) => assert_eq!(e.to_string(), "configuration error: cannot determine home directory"),
        Ok(p) => panic!("unexpected location {}", p),
    }
}

#[test]
fn default_configuration_path_follows_the_directory() {
    assert_eq!(
        config::default_config_path_in(Some("/home/u/.config")),
        Some("/home/u/.config/dps/config.toml".to_string())
    );
    assert_eq!(config::default_config_path_in(Some("/x/")), Some("/x/dps/config.toml".to_string()));
    assert_eq!(config::default_config_path_in(None), None);
}

#[test]
fn default_configuration_path_lies_in_the_configuration_directory() {
    let expected = dirs::config_dir().map(|d| d.join("dps").join("config.toml"));
    let found = config::default_config_path();
    assert_eq!(found.clone().map(std::path::PathBuf::from), expected);
    match (Config::locate(None), found) {
        (Ok(a), Some(b)) => assert_eq!(a, b),
        (Err(e), None) => assert_eq!(e.to_string(), "configuration error: cannot determine home directory"),
        _ => panic!("location and default path disagree"),
    }
    assert_eq!(Config::locate(Some("mine.toml")).unwrap(), "mine.toml");
}

#[test]
fn presence_of_the_configuration() {
    for default_found in [None, Some(false), Some(true)] {
        assert!(Config::is_present(Some(true), default_found));
        assert!(!Config::is_present(Some(false), default_found));
        assert_eq!(Config::is_present(None, default_found), default_found == Some(true));
    }
}

#[test]
fn configuration_errors_name_the_file() {
    assert_eq!(
        Config::read_error("/c.toml", "denied").to_string(),
        "configuration error: cannot read config file /c.toml: denied"
    );
    assert_eq!(
        Config::parse_error("/c.toml", "line 3").to_string(),
        "configuration error: parse error in /c.toml: line 3"
    );
    assert_eq!(
        Config::serialization_error("oops").to_string(),
        "configuration error: serialization error: oops"
    );
}

#[test]
fn defaults_of_the_configuration() {
    assert_eq!(config::default_both(), "both");
    assert_eq!(config::default_debounce_ms(), 500);
    assert_eq!(config::default_poll_secs(), 30);
    assert_eq!(config::default_proxmox_port(), 8006);
    assert_eq!(config::default_memory(), 512);
    assert_eq!(config::default_cores(), 1);
    assert_eq!(config::default_bridge(), "vmbr0");
    assert_eq!(config::default_dhcp(), "dhcp");
    assert_eq!(config::default_container_user(), "root");
    assert_eq!(config::default_ssh_port(), 22);
    assert!(config::default_true());
}

#[test]
fn sync_sections_are_copied_whole() {
    let s = SyncConfig {
        container_user: "root".to_string(),
        ssh_port: 2222,
        container_ip: Some("10.0.0.5".to_string()),
        ssh_public_key_file: None,
        ssh_identity_file: Some("~/.ssh/id".to_string()),
        paths: vec![SyncPath { local: "~/a".to_string(), remote: "a".to_string(), delete: true }],
        exclude_patterns: vec![".git/".to_string()],
        machine_specific_patterns: vec!["x".to_string(), "y".to_string()],
    };
    assert_eq!(format!("{:?}", s.clone()), format!("{:?}", s));
}

#[test]
fn every_error_has_its_message() {
    let cases = [
        (Error::Config("x".to_string()), "configuration error: x"),
        (Error::ProxmoxApi { status: 401, message: "no".to_string() }, "proxmox API error (HTTP 401): no"),
        (Error::TaskFailed("t".to_string()), "proxmox task failed: t"),
        (Error::Http("h".to_string()), "HTTP request failed: h"),
        (Error::Io("i".to_string()), "IO error: i"),
        (Error::SyncCommand(-1), "sync failed: command exited with status -1"),
        (Error::ContainerNotFound(200), "container 200 not found"),
        (
            Error::ContainerExists(200),
            "container 200 already exists — use `dps destroy` first or choose a different vmid",
        ),
        (Error::Timeout("it".to_string()), "timed out waiting for it"),
        (
            Error::NoContainerIp,
            "could not determine container IP — check Proxmox interfaces or set sync.container_ip in config",
        ),
        (Error::Ssh("s".to_string()), "SSH command failed: s"),
    ];
    for (e, text) in cases {
        assert_eq!(e.to_string(), text);
    }
}
