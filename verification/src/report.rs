//! What the commands print.

use vstd::prelude::*;
use vstd::string::*;
use crate::config::{Config, ConfigView, SyncPathView, TailscaleView};
use crate::error::{Error, ErrorView};
use crate::number;
use crate::path;
use crate::proxmox::lxc::{ContainerStatus, ContainerStatusView};
use crate::sync::ignore;
use crate::sync::profile::Direction;
use crate::text;

verus! {

/// The lines, each with `p` before it.
pub open spec fn indented(lines: Seq<Seq<char>>, p: Seq<char>) -> Seq<Seq<char>> {
    lines.map_values(|l: Seq<char>| p + l)
}

fn push_indented(out: &mut Vec<String>, lines: &Vec<String>, p: &str)
    ensures
        text::strs(final(out)@) == text::strs(old(out)@) + indented(text::strs(lines@), p@),
{
    broadcast use text::lemma_strs_push;

    let ghost before = text::strs(out@);
    let ghost all = indented(text::strs(lines@), p@);
    let mut i: usize = 0;
    assert(before + all.take(0) =~= before);
    while i < lines.len()
        invariant
            i <= lines@.len(),
            all == indented(text::strs(lines@), p@),
            text::strs(out@) == before + all.take(i as int),
        decreases lines@.len() - i,
    {
        out.push(p.to_string().concat(lines[i].as_str()));
        assert((before + all.take(i as int)).push(all[i as int]) =~= before + all.take(i + 1));
        i += 1;
    }
    assert(all.take(all.len() as int) =~= all);
}

// ── Status ───────────────────────────────────────────────────────────────────

/// The first lines of the status: where the container should be.
pub fn status_header(cfg: &Config) -> (r: Vec<String>)
    ensures
        text::strs(r@) == seq![
            "Proxmox host : "@ + cfg@.proxmox.host + ":"@ + number::decimal(cfg@.proxmox.port as nat),
            "Node         : "@ + cfg@.proxmox.node,
            "Container ID : "@ + number::decimal(cfg@.container.vmid as nat),
            "Hostname     : "@ + cfg@.container.hostname,
        ],
{
    broadcast use text::lemma_strs_push;

    let mut out: Vec<String> = Vec::new();
    assert(text::strs(out@) =~= seq![]);
    out.push(
        "Proxmox host : ".to_string().concat(cfg.proxmox.host.as_str()).concat(":").concat(
            number::to_decimal(cfg.proxmox.port as u64).as_str(),
        ),
    );
    out.push("Node         : ".to_string().concat(cfg.proxmox.node.as_str()));
    out.push("Container ID : ".to_string().concat(number::to_decimal(cfg.container.vmid as u64).as_str()));
    out.push("Hostname     : ".to_string().concat(cfg.container.hostname.as_str()));
    assert(text::strs(out@) =~= seq![
        "Proxmox host : "@ + cfg@.proxmox.host + ":"@ + number::decimal(cfg@.proxmox.port as nat),
        "Node         : "@ + cfg@.proxmox.node,
        "Container ID : "@ + number::decimal(cfg@.container.vmid as nat),
        "Hostname     : "@ + cfg@.container.hostname,
    ]);
    out
}

/// The line on the state of the container.
pub open spec fn state_line(status: ContainerStatusView) -> Seq<char> {
    match status {
        ContainerStatusView::Running => "Status       : running ✓"@,
        ContainerStatusView::Stopped => "Status       : stopped"@,
        ContainerStatusView::Unknown(_) => "Status       : unknown"@,
    }
}

/// The line on the address of a running container.
pub open spec fn address_line(ip: Result<Option<String>, Error>) -> Seq<char> {
    match ip {
        Ok(Some(ip)) => "LAN IP       : "@ + ip@,
        Ok(None) => "LAN IP       : (not yet assigned)"@,
        Err(e) => "LAN IP       : error ("@ + e@.text() + ")"@,
    }
}

/// The lines on the container itself.  The address counts only while the
/// container runs.  A container that is not there is no failure; any other error
/// is.
pub fn container_lines(status: Result<ContainerStatus, Error>, ip: Result<Option<String>, Error>) -> (r: Result<
    Vec<String>,
    Error,
>)
    ensures
        match (status, r) {
            (Ok(s), Ok(lines)) => text::strs(lines@) == (if s@ is Running {
                seq![state_line(s@), address_line(ip)]
            } else {
                seq![state_line(s@)]
            }),
            (Err(e), Ok(lines)) => e@ is ContainerNotFound && text::strs(lines@) == seq![
                "Status       : not found — run `dps setup` to create it"@,
            ],
            (Err(e), Err(x)) => !(e@ is ContainerNotFound) && e == x,
            (Ok(_), Err(_)) => false,
        },
{
    broadcast use text::lemma_strs_push;

    let mut out: Vec<String> = Vec::new();
    assert(text::strs(out@) =~= seq![]);
    match status {
        Ok(s) => {
            let ghost shown = s@;
            match s {
                ContainerStatus::Running => {
                    out.push("Status       : running ✓".to_string());
                    match &ip {
                        Ok(Some(a)) => {
                            out.push("LAN IP       : ".to_string().concat(a.as_str()));
                        },
                        Ok(None) => {
                            out.push("LAN IP       : (not yet assigned)".to_string());
                        },
                        Err(e) => {
                            out.push("LAN IP       : error (".to_string().concat(e.to_string().as_str()).concat(")"));
                        },
                    }
                    assert(text::strs(out@) =~= seq![state_line(shown), address_line(ip)]);
                },
                ContainerStatus::Stopped => {
                    out.push("Status       : stopped".to_string());
                    assert(text::strs(out@) =~= seq![state_line(shown)]);
                },
                ContainerStatus::Unknown(_) => {
                    out.push("Status       : unknown".to_string());
                    assert(text::strs(out@) =~= seq![state_line(shown)]);
                },
            }
            Ok(out)
        },
        Err(Error::ContainerNotFound(_)) => {
            out.push("Status       : not found — run `dps setup` to create it".to_string());
            assert(text::strs(out@) =~= seq!["Status       : not found — run `dps setup` to create it"@]);
            Ok(out)
        },
        Err(e) => Err(e),
    }
}

/// The lines on Tailscale.
pub open spec fn tailscale_lines(ts: Option<TailscaleView>) -> Seq<Seq<char>> {
    match ts {
        Some(ts) => seq![
            "Tailscale IP : "@ + (match ts.container_ts_ip {
                Some(ip) => ip,
                None => "(not yet detected)"@,
            }),
            "TS preferred : "@ + (if ts.prefer_tailscale_ip {
                "true"@
            } else {
                "false"@
            }),
        ],
        None => seq!["Tailscale    : disabled (add [tailscale] section to config to enable)"@],
    }
}

/// The line on a path that is kept in sync.
pub open spec fn path_line(sp: SyncPathView) -> Seq<char> {
    "  "@ + sp.local + " → /profiles/<user>/"@ + sp.remote
}

/// The last lines of the status: Tailscale and the paths that are kept in sync.
pub open spec fn summary(cfg: ConfigView) -> Seq<Seq<char>> {
    tailscale_lines(cfg.tailscale) + seq![seq![], "Sync paths:"@] + cfg.sync.paths.map_values(
        |sp: SyncPathView| path_line(sp),
    )
}

/// The last lines of the status: Tailscale and the paths that are kept in sync.
pub fn status_summary(cfg: &Config) -> (r: Vec<String>)
    ensures
        text::strs(r@) == summary(cfg@),
{
    broadcast use text::lemma_strs_push;

    let mut out: Vec<String> = Vec::new();
    assert(text::strs(out@) =~= seq![]);
    match &cfg.tailscale {
        Some(ts) => {
            let ip = match &ts.container_ts_ip {
                Some(ip) => ip.clone(),
                None => "(not yet detected)".to_string(),
            };
            out.push("Tailscale IP : ".to_string().concat(ip.as_str()));
            out.push(
                "TS preferred : ".to_string().concat(
                    if ts.prefer_tailscale_ip {
                        "true"
                    } else {
                        "false"
                    },
                ),
            );
        },
        None => {
            out.push("Tailscale    : disabled (add [tailscale] section to config to enable)".to_string());
        },
    }
    assert(text::strs(out@) =~= tailscale_lines(cfg@.tailscale));
    out.push(String::new());
    out.push("Sync paths:".to_string());
    let ghost head = tailscale_lines(cfg@.tailscale) + seq![seq![], "Sync paths:"@];
    assert(text::strs(out@) =~= head);
    let ghost all = cfg@.sync.paths.map_values(|sp: SyncPathView| path_line(sp));
    let mut i: usize = 0;
    assert(head + all.take(0) =~= head);
    while i < cfg.sync.paths.len()
        invariant
            i <= cfg.sync.paths@.len(),
            all == cfg@.sync.paths.map_values(|sp: SyncPathView| path_line(sp)),
            all.len() == cfg.sync.paths@.len(),
            text::strs(out@) == head + all.take(i as int),
        decreases cfg.sync.paths@.len() - i,
    {
        let sp = &cfg.sync.paths[i];
        let line = "  ".to_string().concat(sp.local.as_str()).concat(" → /profiles/<user>/").concat(
            sp.remote.as_str(),
        );
        assert(line@ == all[i as int]);
        out.push(line);
        assert((head + all.take(i as int)).push(all[i as int]) =~= head + all.take(i + 1));
        i += 1;
    }
    assert(all.take(all.len() as int) =~= all);
    out
}

// ── Dry run ──────────────────────────────────────────────────────────────────

/// The first lines of a dry run.
pub fn dry_run_header(direction: Direction) -> (r: Vec<String>)
    ensures
        text::strs(r@) == seq![
            "Dry run ("@ + (match direction {
                Direction::Push => "Push"@,
                Direction::Pull => "Pull"@,
            }) + ") — files that would be transferred:"@,
            seq![],
        ],
{
    broadcast use text::lemma_strs_push;

    let mut out: Vec<String> = Vec::new();
    assert(text::strs(out@) =~= seq![]);
    let name = match direction {
        Direction::Push => "Push",
        Direction::Pull => "Pull",
    };
    let ghost first = "Dry run ("@ + name@ + ") — files that would be transferred:"@;
    out.push("Dry run (".to_string().concat(name).concat(") — files that would be transferred:"));
    out.push(String::new());
    assert(text::strs(out@) =~= seq![first, seq![]]);
    out
}

/// The lines on one path, given what a dry run printed for it: one line with the
/// remark `same` where nothing would change, else one with the remark `differs`
/// and then what was printed.
pub open spec fn changes(local: Seq<char>, output: Seq<char>, same: Seq<char>, differs: Seq<char>) -> Seq<Seq<char>> {
    if text::trimmed(output).len() == 0 {
        seq!["  "@ + local + same]
    } else {
        seq!["  "@ + local + differs] + indented(text::lines_of(output), "    "@)
    }
}

fn change_lines(local: &str, output: &str, same: &str, differs: &str) -> (r: Vec<String>)
    ensures
        text::strs(r@) == changes(local@, output@, same@, differs@),
{
    broadcast use text::lemma_strs_push;

    let mut out: Vec<String> = Vec::new();
    assert(text::strs(out@) =~= seq![]);
    if text::is_blank(output) {
        out.push("  ".to_string().concat(local).concat(same));
        assert(text::strs(out@) =~= seq!["  "@ + local@ + same@]);
    } else {
        out.push("  ".to_string().concat(local).concat(differs));
        assert(text::strs(out@) =~= seq!["  "@ + local@ + differs@]);
        push_indented(&mut out, &text::lines(output), "    ");
    }
    out
}

/// The lines of a dry run on one path.
pub fn dry_run_lines(local: &str, output: &str) -> (r: Vec<String>)
    ensures
        text::strs(r@) == changes(local@, output@, " — no changes"@, ":"@),
{
    change_lines(local, output, " — no changes", ":")
}

// ── Check ────────────────────────────────────────────────────────────────────

/// The lines on what identifies this machine.
pub fn fingerprint_lines(hostname: &str, machine_id: &str) -> (r: Vec<String>)
    ensures
        text::strs(r@) == seq![
            "Machine fingerprint:"@,
            "  hostname:   "@ + hostname@,
            "  machine-id: "@ + machine_id@,
            seq![],
        ],
{
    broadcast use text::lemma_strs_push;

    let mut out: Vec<String> = Vec::new();
    assert(text::strs(out@) =~= seq![]);
    out.push("Machine fingerprint:".to_string());
    out.push("  hostname:   ".to_string().concat(hostname));
    out.push("  machine-id: ".to_string().concat(machine_id));
    out.push(String::new());
    assert(text::strs(out@) =~= seq![
        "Machine fingerprint:"@,
        "  hostname:   "@ + hostname@,
        "  machine-id: "@ + machine_id@,
        seq![],
    ]);
    out
}

/// The lines on the patterns that are always excluded.
pub fn pattern_lines() -> (r: Vec<String>)
    ensures
        text::strs(r@) == seq![
            "Built-in excluded patterns ("@ + number::decimal(ignore::builtin_patterns().len()) + "):"@,
        ] + indented(ignore::builtin_patterns(), "  "@) + seq![seq![]],
{
    broadcast use text::lemma_strs_push;

    let mut out: Vec<String> = Vec::new();
    assert(text::strs(out@) =~= seq![]);
    let patterns = ignore::machine_specific_patterns();
    assert(text::strs(patterns@).len() == patterns@.len());
    out.push(
        "Built-in excluded patterns (".to_string().concat(number::to_decimal(patterns.len() as u64).as_str()).concat(
            "):",
        ),
    );
    assert(text::strs(out@) =~= seq![
        "Built-in excluded patterns ("@ + number::decimal(ignore::builtin_patterns().len()) + "):"@,
    ]);
    push_indented(&mut out, &patterns, "  ");
    out.push(String::new());
    assert(text::strs(out@) =~= seq![
        "Built-in excluded patterns ("@ + number::decimal(ignore::builtin_patterns().len()) + "):"@,
    ] + indented(ignore::builtin_patterns(), "  "@) + seq![seq![]]);
    out
}

/// A path relative to a root that it lies under; any other path, the root itself
/// too, as it is.
pub open spec fn relative(p: Seq<char>, root: Seq<char>) -> Seq<char> {
    if path::is_under(p, root) && path::components(root).len() < path::components(p).len() {
        text::joined(path::components(p).skip(path::components(root).len() as int), "/"@)
    } else {
        p
    }
}

fn relative_path(p: &str, root: &str) -> (r: String)
    ensures
        r@ == relative(p@, root@),
{
    broadcast use text::lemma_strs_push;

    if !path::starts_with(p, root) {
        return p.to_string();
    }
    let parts = path::split_components(p);
    let base = path::split_components(root);
    assert(text::strs(base@).len() == base@.len());
    assert(text::strs(parts@).len() == parts@.len());
    if base.len() == parts.len() {
        return p.to_string();
    }
    let ghost rest = path::components(p@).skip(base@.len() as int);
    let mut tail: Vec<String> = Vec::new();
    let mut i: usize = base.len();
    assert(text::strs(tail@) =~= rest.take(0));
    while i < parts.len()
        invariant
            base@.len() <= i <= parts@.len(),
            text::strs(parts@) == path::components(p@),
            rest == path::components(p@).skip(base@.len() as int),
            text::strs(tail@) == rest.take(i - base@.len()),
            text::strs(parts@).len() == parts@.len(),
        decreases parts@.len() - i,
    {
        tail.push(parts[i].clone());
        assert(text::strs(parts@)[i as int] == parts@[i as int]@);
        assert(rest.take(i - base@.len()).push(rest[i - base@.len()]) =~= rest.take(i + 1 - base@.len()));
        i += 1;
    }
    assert(rest.take(rest.len() as int) =~= rest);
    text::join(&tail, "/")
}

/// The lines on the files under `root`, or on the file `root`, that name this
/// machine; none where there are no such files.  `local` is the path as it is configured.
pub open spec fn flagged(local: Seq<char>, root: Seq<char>, found: Seq<Seq<char>>) -> Seq<Seq<char>> {
    if found.len() == 0 {
        seq![]
    } else {
        seq!["⚠  Machine-specific content in '"@ + local + "':"@] + found.map_values(
            |f: Seq<char>| "     "@ + relative(f, root),
        ) + seq!["   → Add these to "@ + local + "/.syncignore to suppress this warning."@, seq![]]
    }
}

/// The lines on the files under `root` that name this machine.
pub fn flagged_lines(local: &str, root: &str, found: &Vec<String>) -> (r: Vec<String>)
    ensures
        text::strs(r@) == flagged(local@, root@, text::strs(found@)),
{
    broadcast use text::lemma_strs_push;

    let mut out: Vec<String> = Vec::new();
    assert(text::strs(out@) =~= seq![]);
    if found.len() == 0 {
        return out;
    }
    let ghost head = seq!["⚠  Machine-specific content in '"@ + local@ + "':"@];
    let ghost all = text::strs(found@).map_values(|f: Seq<char>| "     "@ + relative(f, root@));
    out.push("⚠  Machine-specific content in '".to_string().concat(local).concat("':"));
    let mut i: usize = 0;
    assert(text::strs(out@) =~= head + all.take(0));
    while i < found.len()
        invariant
            i <= found@.len(),
            all == text::strs(found@).map_values(|f: Seq<char>| "     "@ + relative(f, root@)),
            all.len() == found@.len(),
            text::strs(out@) == head + all.take(i as int),
        decreases found@.len() - i,
    {
        out.push("     ".to_string().concat(relative_path(found[i].as_str(), root).as_str()));
        assert((head + all.take(i as int)).push(all[i as int]) =~= head + all.take(i + 1));
        i += 1;
    }
    assert(all.take(all.len() as int) =~= all);
    out.push("   → Add these to ".to_string().concat(local).concat("/.syncignore to suppress this warning."));
    out.push(String::new());
    assert(text::strs(out@) =~= flagged(local@, root@, text::strs(found@)));
    out
}

/// Every file found is reported, a configured path that is itself the file as
/// well.
pub proof fn law_every_flagged_file_is_reported(
    local: Seq<char>,
    root: Seq<char>,
    found: Seq<Seq<char>>,
    file: Seq<char>,
)
    requires
        found.contains(file),
    ensures
        flagged(local, root, found).contains("     "@ + relative(file, root)),
        relative(root, root) == root,
{
    let i = choose|i: int| 0 <= i < found.len() && found[i] == file;
    assert(flagged(local, root, found)[1 + i] == "     "@ + relative(file, root));
}

/// Whether anything was found in one of the paths that were searched.
pub open spec fn is_any_flagged(found: Seq<Vec<String>>) -> bool {
    exists|i: int| 0 <= i < found.len() && (#[trigger] found[i])@.len() > 0
}

/// Whether anything was found in one of the paths that were searched.
pub fn any_flagged(found: &Vec<Vec<String>>) -> (r: bool)
    ensures
        r == exists|i: int| 0 <= i < found@.len() && (#[trigger] found@[i])@.len() > 0,
{
    let mut i: usize = 0;
    while i < found.len()
        invariant
            i <= found@.len(),
            forall|j: int| 0 <= j < i ==> (#[trigger] found@[j])@.len() == 0,
        decreases found@.len() - i,
    {
        if found[i].len() > 0 {
            return true;
        }
        i += 1;
    }
    false
}

/// The lines between the search and the comparison, given what was found in each
/// path: the good news, if no path was flagged, and a heading.
pub fn verdict_lines(found: &Vec<Vec<String>>) -> (r: Vec<String>)
    ensures
        text::strs(r@) == (if is_any_flagged(found@) {
            seq!["Diff (what push would transfer):"@]
        } else {
            seq![
                "✓ No machine-specific content detected in synced paths."@,
                "Diff (what push would transfer):"@,
            ]
        }),
{
    broadcast use text::lemma_strs_push;

    let mut out: Vec<String> = Vec::new();
    assert(text::strs(out@) =~= seq![]);
    let flagged_one = any_flagged(found);
    if !flagged_one {
        out.push("✓ No machine-specific content detected in synced paths.".to_string());
    }
    out.push("Diff (what push would transfer):".to_string());
    assert(text::strs(out@) =~= (if is_any_flagged(found@) {
        seq!["Diff (what push would transfer):"@]
    } else {
        seq!["✓ No machine-specific content detected in synced paths."@, "Diff (what push would transfer):"@]
    }));
    out
}

/// The lines of the comparison on one path.
pub fn check_lines(local: &str, output: &str) -> (r: Vec<String>)
    ensures
        text::strs(r@) == changes(local@, output@, " — in sync"@, " — changes:"@),
{
    change_lines(local, output, " — in sync", " — changes:")
}

} // verus!
