//! Laws on the configuration.

use vstd::prelude::*;
use vstd::string::*;
use crate::config;
use crate::config::{AuthConfig, AuthView, Config, ContainerConfig, DaemonConfig, NetworkConfig, NetworkView, ProxmoxConfig, ProxmoxView, SyncConfig, SyncPath, TailscaleConfig};
use crate::laws::numbers;
use crate::number;
use crate::number::NumberError;

verus! {

/// Whether an optional text is seen as it is.
pub open spec fn seen(o: Option<String>, v: Option<Seq<char>>) -> bool {
    match (o, v) {
        (Some(s), Some(t)) => s@ == t,
        (None, None) => true,
        _ => false,
    }
}

/// Whether a list of texts is seen as it is.
pub open spec fn all_seen(v: Seq<String>, w: Seq<Seq<char>>) -> bool {
    v.len() == w.len() && forall|i: int| 0 <= i < v.len() ==> (#[trigger] v[i])@ == w[i]
}

/// Every setting of the sections on Proxmox and on the container counts.
pub proof fn law_container_settings_count(p: ProxmoxConfig, c: ContainerConfig, n: NetworkConfig)
    ensures
        p@.host == p.host@ && p@.port == p.port && p@.node == p.node@ && p@.auth == p.auth@ && p@.verify_ssl
            == p.verify_ssl,
        c@.vmid == c.vmid && c@.hostname == c.hostname@ && c@.template == c.template@ && c@.storage == c.storage@,
        c@.disk_size == c.disk_size@ && c@.memory == c.memory && c@.cores == c.cores && c@.root_password
            == c.root_password@ && c@.network == c.network@,
        n@.bridge == n.bridge@ && n@.ip == n.ip@ && seen(n.gateway, n@.gateway),
{
}

/// Every part of a login counts.
pub proof fn law_logins_count(a: AuthConfig)
    ensures
        match (a, a@) {
            (
                AuthConfig::Token { user, token_name, token_value },
                AuthView::Token { user: u, token_name: n, token_value: v },
            ) => user@ == u && token_name@ == n && token_value@ == v,
            (
                AuthConfig::Password { user, realm, password },
                AuthView::Password { user: u, realm: r, password: p },
            ) => user@ == u && realm@ == r && password@ == p,
            _ => false,
        },
{
}

/// Every setting of the section on syncing counts, every path of it, and every
/// setting of a path.
pub proof fn law_sync_settings_count(s: SyncConfig, p: SyncPath, i: int)
    ensures
        s@.container_user == s.container_user@ && s@.ssh_port == s.ssh_port,
        seen(s.container_ip, s@.container_ip) && seen(s.ssh_public_key_file, s@.ssh_public_key_file) && seen(
            s.ssh_identity_file,
            s@.ssh_identity_file,
        ),
        s@.paths.len() == s.paths@.len(),
        0 <= i < s.paths@.len() ==> s@.paths[i] == s.paths@[i]@,
        all_seen(s.exclude_patterns@, s@.exclude_patterns),
        all_seen(s.machine_specific_patterns@, s@.machine_specific_patterns),
        p@.local == p.local@ && p@.remote == p.remote@ && p@.delete == p.delete,
{
}

/// Every setting of the sections on Tailscale and on the daemon counts, and
/// whether there are such sections.
pub proof fn law_optional_settings_count(c: Config, t: TailscaleConfig, d: DaemonConfig)
    ensures
        t@.auth_key == t.auth_key@ && seen(t.hostname, t@.hostname) && all_seen(t.tags@, t@.tags),
        t@.prefer_tailscale_ip == t.prefer_tailscale_ip && seen(t.container_ts_ip, t@.container_ts_ip),
        d@.auto_start_container == d.auto_start_container && d@.auto_watch == d.auto_watch && d@.watch_direction
            == d.watch_direction@,
        d@.debounce_ms == d.debounce_ms && d@.poll_secs == d.poll_secs && seen(d.sync_user, d@.sync_user),
        c@.proxmox == c.proxmox@ && c@.container == c.container@ && c@.sync == c.sync@,
        c.tailscale is Some <==> c@.tailscale is Some,
        c.tailscale matches Some(t) ==> c@.tailscale == Some(t@),
        c.daemon is Some <==> c@.daemon is Some,
        c.daemon matches Some(d) ==> c@.daemon == Some(d@),
{
}

/// The network interface is `eth0` on the configured bridge, with the configured
/// address; a gateway is named exactly if there is one, and nothing else depends on
/// it.
pub proof fn law_interfaces_are_as_configured(n: NetworkView, bare: NetworkView)
    requires
        bare == (NetworkView { gateway: None, ..n }),
    ensures
        bare.net0_param() == "name=eth0,bridge="@ + n.bridge + ",ip="@ + n.ip,
        n.gateway is None ==> n.net0_param() == bare.net0_param(),
        n.gateway matches Some(gw) ==> n.net0_param() == bare.net0_param() + ",gw="@ + gw,
{
    if n.gateway is Some {
        assert(n.net0_param() =~= bare.net0_param() + ",gw="@ + n.gateway->Some_0);
    }
}

/// The server is asked over TLS, at the configured host and port.
pub proof fn law_the_server_is_as_configured(p: ProxmoxView)
    ensures
        p.base_url() == "https://"@ + p.host + ":"@ + number::decimal(p.port as nat) + "/api2/json"@,
        ({
            let start = "https://"@ + p.host + ":"@;
            let port = p.base_url().subrange(start.len() as int, p.base_url().len() - "/api2/json"@.len());
            number::read_number(port, u16::MAX as int) == Ok::<int, NumberError>(p.port as int)
        }),
{
    let start = "https://"@ + p.host + ":"@;
    let all = p.base_url();
    assert(all.subrange(start.len() as int, all.len() - "/api2/json"@.len()) =~= number::decimal(p.port as nat));
    numbers::law_digits_are_read_back(p.port as nat, u16::MAX as int);
}

/// The configured paths are seen path by path.
pub proof fn law_paths_are_seen_whole(v: Seq<SyncPath>, i: int)
    ensures
        config::paths_view(v).len() == v.len(),
        0 <= i < v.len() ==> config::paths_view(v)[i] == v[i]@,
{
}

/// The configuration file is `dps/config.toml` in the configuration directory.
pub proof fn law_the_configuration_has_its_place(dir: Seq<char>)
    requires
        dir.len() > 0,
        dir.last() != '/',
    ensures
        config::config_file(dir) == dir + "/"@ + "dps"@ + "/"@ + "config.toml"@,
        config::default_location(Some(dir)) == Some(config::config_file(dir)),
        config::default_location(None) is None,
        config::config_file(dir + seq!['/']) == config::config_file(dir),
{
    reveal_strlit("/");
    assert("/"@ =~= seq!['/']);
    assert(dir + seq!['/'] + "dps"@ =~= dir + "/"@ + "dps"@);
    reveal_strlit("dps");
    reveal_strlit("config.toml");
    assert("dps"@[0] == 'd');
    assert("config.toml"@[0] == 'c');
    assert((dir + "/"@ + "dps"@).last() == "dps"@[2]);
}

} // verus!
