//! Laws on transfers: what goes where, and by which command.

use vstd::prelude::*;
use vstd::string::*;
use crate::config::SyncPathView;
use crate::laws::numbers;
use crate::laws::texts;
use crate::number;
use crate::number::NumberError;
use crate::path;
use crate::sync::contents::ContentsView;
use crate::sync::ignore;
use crate::sync::profile;
use crate::sync::profile::{Backend, Direction, LocalState, StepView, SyncPlan, SyncStep, Syncer, SyncerView};
use crate::sync::setup;
use crate::text;

verus! {

/// A remote path is stored, whole, in the profile of the user: different paths have
/// different places, and so have different users.
pub proof fn law_every_path_has_its_own_place(s: SyncerView, t: SyncerView, a: Seq<char>, b: Seq<char>)
    requires
        !(a.len() > 0 && a[0] == '/'),
        !(b.len() > 0 && b[0] == '/'),
    ensures
        s.remote_path(a) == "/profiles/"@ + s.username + "/"@ + a,
        s.remote_path(a).skip(("/profiles/"@ + s.username + "/"@).len() as int) == a,
        s.remote_path(a) == s.remote_path(b) ==> a == b,
        !s.username.contains('/') && !t.username.contains('/') && s.username != t.username ==> s.remote_path(a)
            != t.remote_path(b),
{
    let start = "/profiles/"@ + s.username + "/"@;
    let pa = s.remote_path(a);
    let pb = s.remote_path(b);
    assert(pa.skip(start.len() as int) =~= a);
    assert(pb.skip(start.len() as int) =~= b);
    if !s.username.contains('/') && !t.username.contains('/') && s.username != t.username && pa == t.remote_path(b) {
        reveal_strlit("/profiles/");
        reveal_strlit("/");
        let p = pa.skip(10);
        assert("/"@ =~= seq!['/']);
        assert(p =~= s.username + seq!['/'] + a);
        assert(p =~= t.username + seq!['/'] + b);
        crate::laws::texts::law_first_places(s.username, '/', a);
        crate::laws::texts::law_first_places(t.username, '/', b);
        assert(p.take(s.username.len() as int) =~= s.username);
        assert(p.take(t.username.len() as int) =~= t.username);
    }
}

/// Slashes before a remote path make no difference.
pub proof fn law_remote_paths_begin_anywhere(s: SyncerView, slashes: Seq<char>, a: Seq<char>)
    requires
        texts::only(slashes, '/'),
        !(a.len() > 0 && a[0] == '/'),
    ensures
        s.remote_path(slashes + a) == s.remote_path(a),
        s.remote_path(slashes + a) == "/profiles/"@ + s.username + "/"@ + a,
{
    texts::law_stripping_takes_only_the_character(slashes, a, '/');
}

/// A path that begins with `~/` is the rest of it joined to the home directory,
/// wherever that is.
pub proof fn law_the_home_directory_is_anywhere(rest: Seq<char>, home: Seq<char>)
    ensures
        profile::expanded("~/"@ + rest, Some(home)) == path::joined(home, rest),
{
    reveal_strlit("~/");
    let under = "~/"@ + rest;
    assert(under.take(2) =~= "~/"@);
    assert(under.skip(2) =~= rest);
}

/// A path that begins with `~/` is the rest of it in the home directory; any other
/// path, and every path where there is no home directory, is itself.
pub proof fn law_the_home_directory_is_put_in_place(rest: Seq<char>, home: Seq<char>, p: Seq<char>)
    requires
        home.len() > 0,
        home.last() != '/',
        !(rest.len() > 0 && rest[0] == '/'),
        !"~/"@.is_prefix_of(p),
    ensures
        profile::expanded("~/"@ + rest, Some(home)) == home + "/"@ + rest,
        profile::expanded("~/"@ + rest, None) == "~/"@ + rest,
        profile::expanded(p, Some(home)) == p,
        profile::expanded(p, None) == p,
{
    reveal_strlit("~/");
    let under = "~/"@ + rest;
    assert(under.take(2) =~= "~/"@);
    assert(under.skip(2) =~= rest);
    if text::has_prefix(p, "~/"@) {
        assert("~/"@.is_prefix_of(p));
    }
}

/// Where a path lies on the container, as rsync and scp are told.
pub open spec fn place(s: SyncerView, remote: Seq<char>) -> Seq<char> {
    s.cfg.container_user + "@"@ + s.container_ip + ":"@ + s.remote_path(remote)
}

/// The two ends of a transfer: on this machine the local path, on the container the
/// place of the remote path; a push goes from the first to the second, a pull back.
/// Of a directory the contents are meant, of a file the file.
pub proof fn law_transfers_have_the_right_ends(
    s: SyncerView,
    sp: SyncPathView,
    local: Seq<char>,
    is_dir: bool,
)
    requires
        !(local.len() > 0 && local.last() == '/'),
    ensures
        s.source(sp, Direction::Push, local, is_dir) == (if is_dir {
            local + "/"@
        } else {
            local
        }),
        s.destination(sp, Direction::Push, local, is_dir) == place(s, sp.remote),
        s.source(sp, Direction::Pull, local, is_dir) == (if is_dir {
            place(s, sp.remote) + "/"@
        } else {
            place(s, sp.remote)
        }),
        s.destination(sp, Direction::Pull, local, is_dir) == (if is_dir {
            local + "/"@
        } else {
            local
        }),
        s.target(s.remote_path(sp.remote)) == place(s, sp.remote),
        s.login() == s.cfg.container_user + "@"@ + s.container_ip,
        s.target(local) == s.cfg.container_user + "@"@ + s.container_ip + ":"@ + local,
{
    assert(s.target(s.remote_path(sp.remote)) =~= place(s, sp.remote));
}

/// The contents of a directory that is named with a slash at its end are meant as
/// well, and a file is meant as it is named.
pub proof fn law_slashes_at_the_end(s: SyncerView, sp: SyncPathView, local: Seq<char>)
    requires
        local.len() > 0 && local.last() == '/',
    ensures
        s.source(sp, Direction::Push, local, true) == local,
        s.source(sp, Direction::Push, local, false) == local,
        s.destination(sp, Direction::Pull, local, true) == local + "/"@,
        s.destination(sp, Direction::Pull, local, false) == local,
{
}

/// rsync compares by checksums, is told the mode, uses the configured port and key,
/// deletes exactly if that is asked for, and is told every exclusion; the last two
/// arguments are the ends of the transfer.
pub proof fn law_what_rsync_is_told(
    s: SyncerView,
    sp: SyncPathView,
    dir: Direction,
    mode: Seq<char>,
    delete: bool,
    is_dir: bool,
    rules: Seq<Seq<char>>,
    home: Option<Seq<char>>,
    k: int,
)
    ensures
        ({
            let args = s.rsync_args(sp, dir, mode, delete, is_dir, rules, home);
            let n = args.len();
            let first = 5 + if delete {
                1int
            } else {
                0int
            };
            let local = profile::expanded(sp.local, home);
            &&& args[0] == "-avz"@ && args[1] == "--checksum"@ && args[2] == mode && args[3] == "-e"@
            &&& args[4] == s.ssh_opt(home)
            &&& delete ==> args[5] == "--delete"@
            &&& 0 <= k < rules.len() ==> args[first + k] == "--exclude="@ + rules[k]
            &&& 0 <= k < s.cfg.exclude_patterns.len() ==> args[first + rules.len() + k] == "--exclude="@
                + s.cfg.exclude_patterns[k]
            &&& n == first + rules.len() + s.cfg.exclude_patterns.len() + 2
            &&& args[n - 2] == s.source(sp, dir, local, is_dir)
            &&& args[n - 1] == s.destination(sp, dir, local, is_dir)
            &&& s.exclusions(rules) == args.subrange(first, n - 2)
        }),
{
    let args = s.rsync_args(sp, dir, mode, delete, is_dir, rules, home);
    let first = 5 + if delete {
        1int
    } else {
        0int
    };
    let e = s.exclusions(rules);
    if 0 <= k < rules.len() {
        assert(e[k] == ignore::exclude_option(rules[k]));
        assert(args[first + k] == e[k]);
    }
    if 0 <= k < s.cfg.exclude_patterns.len() {
        assert(e[rules.len() + k] == ignore::exclude_option(s.cfg.exclude_patterns[k]));
        assert(args[first + rules.len() + k] == e[rules.len() + k]);
    }
    assert(e =~= args.subrange(first, args.len() - 2));
}

/// The shell of rsync uses the configured port, and the configured key if there is
/// one, asks nothing and knows every host.
pub proof fn law_the_shell_of_rsync(s: SyncerView, bare: SyncerView, home: Option<Seq<char>>)
    requires
        bare.cfg.ssh_identity_file is None,
        bare.cfg.ssh_port == s.cfg.ssh_port,
    ensures
        ({
            let start = "ssh -p "@;
            let end = " -o StrictHostKeyChecking=no -o BatchMode=yes"@;
            let port = bare.ssh_opt(home).subrange(start.len() as int, bare.ssh_opt(home).len() - end.len());
            &&& bare.ssh_opt(home) == start + port + end
            &&& number::read_number(port, u16::MAX as int) == Ok::<int, NumberError>(s.cfg.ssh_port as int)
            &&& s.cfg.ssh_identity_file matches Some(id) ==> s.ssh_opt(home) == start + port + " -i "@
                + profile::expanded(id, home) + end
            &&& s.cfg.ssh_identity_file is None ==> s.ssh_opt(home) == bare.ssh_opt(home)
        }),
{
    let start = "ssh -p "@;
    let end = " -o StrictHostKeyChecking=no -o BatchMode=yes"@;
    let digits = number::decimal(s.cfg.ssh_port as nat);
    let all = bare.ssh_opt(home);
    assert(all =~= start + digits + end);
    assert(all.subrange(start.len() as int, all.len() - end.len()) =~= digits);
    numbers::law_digits_are_read_back(s.cfg.ssh_port as nat, u16::MAX as int);
    if let Some(id) = s.cfg.ssh_identity_file {
        assert(s.ssh_opt(home) =~= start + digits + " -i "@ + profile::expanded(id, home) + end);
    }
}

/// ssh and scp use the configured port, and the configured key if there is one, ask
/// nothing and know every host.
pub proof fn law_connections_are_as_configured(s: SyncerView, flag: Seq<char>, home: Option<Seq<char>>)
    ensures
        ({
            let args = s.connection_args(flag, home);
            &&& args[0] == flag
            &&& number::read_number(args[1], u16::MAX as int) == Ok::<int, NumberError>(s.cfg.ssh_port as int)
            &&& args.subrange(2, 6) == seq!["-o"@, "StrictHostKeyChecking=no"@, "-o"@, "BatchMode=yes"@]
            &&& match s.cfg.ssh_identity_file {
                Some(id) => args.len() == 8 && args[6] == "-i"@ && args[7] == profile::expanded(id, home),
                None => args.len() == 6,
            }
        }),
{
    let args = s.connection_args(flag, home);
    numbers::law_digits_are_read_back(s.cfg.ssh_port as nat, u16::MAX as int);
    assert(args.subrange(2, 6) =~= seq!["-o"@, "StrictHostKeyChecking=no"@, "-o"@, "BatchMode=yes"@]);
}

/// Directories on the container are made, asked for and listed over ssh, at the login
/// and by the path that is meant.
pub proof fn law_commands_on_the_container(s: SyncerView, sp: SyncPathView, p: Seq<char>, home: Option<Seq<char>>)
    requires
        !s.remote_path(sp.remote).contains('\''),
    ensures
        ({
            let base = s.connection_args("-p"@, home);
            let login = s.cfg.container_user + "@"@ + s.container_ip;
            let there = s.remote_path(sp.remote);
            &&& s.mkdir_step(p, home) == (StepView::Run {
                program: "ssh"@,
                args: base + seq![login, "mkdir -p '"@ + p + "'"@],
            })
            &&& s.probe_args(sp, home) == base + seq![login, "test -d '"@ + there + "'"@]
            &&& s.listing_args(sp, home) == base + seq![
                login,
                "cd '"@ + there + "' && find -L . -mindepth 1 -type d -printf '%p/\\0' -o -type f -print0"@,
            ]
        }),
{
    let there = s.remote_path(sp.remote);
    lemma_nothing_to_escape(there);
}

/// Whatever characters a path holds, a directory is asked for and listed by a path in
/// quotes that a shell reads as the path.
pub proof fn law_paths_are_quoted(s: SyncerView, sp: SyncPathView, home: Option<Seq<char>>)
    ensures
        ({
            let there = s.remote_path(sp.remote);
            let quoted = "'"@ + setup::escaped(there) + "'"@;
            &&& s.probe_args(sp, home).last() == "test -d "@ + quoted
            &&& s.listing_args(sp, home).last() == "cd "@ + quoted
                + " && find -L . -mindepth 1 -type d -printf '%p/\\0' -o -type f -print0"@
            &&& setup::shell_reads(quoted, false) == Some(there)
            &&& s.probe_args(sp, home).drop_last() == s.connection_args("-p"@, home) + seq![s.login()]
            &&& s.listing_args(sp, home).drop_last() == s.connection_args("-p"@, home) + seq![s.login()]
        }),
{
    let there = s.remote_path(sp.remote);
    let quoted = "'"@ + setup::escaped(there) + "'"@;
    reveal_strlit("'");
    reveal_strlit("test -d '");
    reveal_strlit("test -d ");
    reveal_strlit("cd '");
    reveal_strlit("cd ");
    reveal_strlit("' && find -L . -mindepth 1 -type d -printf '%p/\\0' -o -type f -print0");
    reveal_strlit(" && find -L . -mindepth 1 -type d -printf '%p/\\0' -o -type f -print0");
    setup::law_quoting_is_exact(there);
    assert(quoted =~= seq!['\''] + setup::escaped(there) + seq!['\'']);
    assert(s.probe_args(sp, home).last() =~= "test -d "@ + quoted);
    assert(s.listing_args(sp, home).last() =~= "cd "@ + quoted
        + " && find -L . -mindepth 1 -type d -printf '%p/\\0' -o -type f -print0"@);
}

proof fn lemma_nothing_to_escape(p: Seq<char>)
    requires
        !p.contains('\''),
    ensures
        setup::escaped(p) == p,
    decreases p.len(),
{
    if p.len() > 0 {
        assert(p.contains(p.last()));
        let q = p.drop_last();
        assert forall|i: int| 0 <= i < q.len() implies q[i] != '\'' by {
            assert(p.contains(p[i]));
        }
        lemma_nothing_to_escape(q);
        assert(q + seq![p.last()] =~= p);
    } else {
        assert(setup::escaped(p) =~= p);
    }
}

/// The rules of a transfer are the built-in patterns, those that the configuration
/// adds and those of the two ignore files; nothing is left out, and nothing comes in.
pub proof fn law_rules_come_from_everywhere(
    s: SyncerView,
    global: Option<Seq<char>>,
    local: Option<Seq<char>>,
    p: Seq<char>,
)
    ensures
        s.rules(global, local).contains(p) <==> ignore::builtin_patterns().contains(p)
            || s.cfg.machine_specific_patterns.contains(p) || ignore::file_patterns(global).contains(p)
            || ignore::file_patterns(local).contains(p),
        s.patterns(s.rules(global, local)).contains(p) <==> s.rules(global, local).contains(p)
            || s.cfg.exclude_patterns.contains(p),
{
    let a = ignore::builtin_patterns();
    let b = s.cfg.machine_specific_patterns;
    let c = ignore::file_patterns(global);
    let d = ignore::file_patterns(local);
    lemma_in(a, b, p);
    lemma_in(a + b, c, p);
    lemma_in(a + b + c, d, p);
    lemma_in(s.rules(global, local), s.cfg.exclude_patterns, p);
}

proof fn lemma_in(a: Seq<Seq<char>>, b: Seq<Seq<char>>, p: Seq<char>)
    ensures
        (a + b).contains(p) <==> a.contains(p) || b.contains(p),
{
    let ab = a + b;
    if a.contains(p) {
        let k = choose|k: int| 0 <= k < a.len() && a[k] == p;
        assert(ab[k] == p);
    }
    if b.contains(p) {
        let k = choose|k: int| 0 <= k < b.len() && b[k] == p;
        assert(ab[a.len() + k] == p);
    }
    if ab.contains(p) {
        let k = choose|k: int| 0 <= k < ab.len() && ab[k] == p;
        if k < a.len() {
            assert(a[k] == p);
        } else {
            assert(b[k - a.len()] == p);
        }
    }
}

/// A push of what is there first makes the directory on the container, the path's own
/// for a directory and the one that it lies in for a file; a pull first makes the
/// directory that the local path lies in.  Then comes the transfer.  Only a push
/// searches, and a push of what is not there does nothing.
pub proof fn law_transfers_are_prepared(
    s: SyncerView,
    sp: SyncPathView,
    backend: Backend,
    state: LocalState,
    remote_is_dir: bool,
    contents: ContentsView,
    stage: Seq<char>,
    rules: Seq<Seq<char>>,
    home: Option<Seq<char>>,
)
    ensures
        ({
            let push = s.plan(sp, Direction::Push, backend, state, remote_is_dir, contents, stage, rules, home);
            let pull = s.plan(sp, Direction::Pull, backend, state, remote_is_dir, contents, stage, rules, home);
            let sent = s.transfer_steps(sp, Direction::Push, backend, state.is_dir, contents, stage, rules, home);
            let got = s.transfer_steps(sp, Direction::Pull, backend, remote_is_dir, contents, stage, rules, home);
            let there = s.remote_path(sp.remote);
            &&& state.present ==> push.scan && push.steps.len() == 1 + sent.len() && push.steps[0] == s.mkdir_step(
                if state.is_dir {
                    there
                } else {
                    path::parent(there)
                },
                home,
            ) && push.steps.skip(1) == sent
            &&& !state.present ==> !push.scan && push.steps.len() == 0
            &&& !pull.scan && pull.steps.len() == 1 + got.len() && pull.steps[0] == StepView::CreateParent(
                profile::expanded(sp.local, home),
            ) && pull.steps.skip(1) == got
        }),
{
    let push = s.plan(sp, Direction::Push, backend, state, remote_is_dir, contents, stage, rules, home);
    let pull = s.plan(sp, Direction::Pull, backend, state, remote_is_dir, contents, stage, rules, home);
    let sent = s.transfer_steps(sp, Direction::Push, backend, state.is_dir, contents, stage, rules, home);
    let got = s.transfer_steps(sp, Direction::Pull, backend, remote_is_dir, contents, stage, rules, home);
    if state.present {
        assert(push.steps.skip(1) =~= sent);
    }
    assert(pull.steps.skip(1) =~= got);
}

/// rsync is run once, with progress, and deletes exactly if the path says so.
pub proof fn law_rsync_is_run_once(
    s: SyncerView,
    sp: SyncPathView,
    dir: Direction,
    is_dir: bool,
    contents: ContentsView,
    stage: Seq<char>,
    rules: Seq<Seq<char>>,
    home: Option<Seq<char>>,
)
    ensures
        ({
            let steps = s.transfer_steps(sp, dir, Backend::Rsync, is_dir, contents, stage, rules, home);
            &&& steps.len() == 1
            &&& steps[0] is Run && steps[0]->program == "rsync"@
            &&& steps[0]->args == s.rsync_args(sp, dir, "--progress"@, sp.delete, is_dir, rules, home)
        }),
{
}

/// A single file is copied by one scp between its place on this machine and its place
/// on the container, unless its name is excluded.
pub proof fn law_scp_copies_single_files(
    s: SyncerView,
    sp: SyncPathView,
    dir: Direction,
    contents: ContentsView,
    stage: Seq<char>,
    rules: Seq<Seq<char>>,
    home: Option<Seq<char>>,
)
    ensures
        ({
            let steps = s.transfer_steps(sp, dir, Backend::Scp, false, contents, stage, rules, home);
            let local = profile::expanded(sp.local, home);
            let there = s.remote_path(sp.remote);
            let name = match dir {
                Direction::Push => path::last_name(local),
                Direction::Pull => path::last_name(there),
            };
            if ignore::excluded(rules + s.cfg.exclude_patterns, name, false) {
                steps.len() == 0
            } else {
                &&& steps.len() == 1
                &&& steps[0] is Run && steps[0]->program == "scp"@
                &&& steps[0]->args == s.connection_args("-P"@, home) + (match dir {
                    Direction::Push => seq![local, place(s, sp.remote)],
                    Direction::Pull => seq!["-r"@, place(s, sp.remote), local],
                })
            }
        }),
{
    assert(s.target(s.remote_path(sp.remote)) =~= place(s, sp.remote));
}

/// What stands in a directory is sent by one scp, child by child, into the place of
/// the directory; where nothing stands in it, nothing is sent.
pub proof fn law_scp_sends_every_child(
    s: SyncerView,
    sp: SyncPathView,
    root: Seq<char>,
    contents: ContentsView,
    home: Option<Seq<char>>,
    k: int,
)
    ensures
        ({
            let steps = s.send_steps(sp, root, contents, home);
            let children = contents.children();
            let base = s.connection_args("-P"@, home);
            if children.len() == 0 {
                steps.len() == 0
            } else {
                &&& steps.len() == 1 && steps[0] is Run && steps[0]->program == "scp"@
                &&& steps[0]->args.take(base.len() as int) == base
                &&& steps[0]->args[base.len() as int] == "-r"@
                &&& steps[0]->args.len() == base.len() + 1 + children.len() + 1
                &&& 0 <= k < children.len() ==> steps[0]->args[base.len() + 1 + k] == path::inside(root, children[k])
                &&& steps[0]->args.last() == place(s, sp.remote)
            }
        }),
{
    let base = s.connection_args("-P"@, home);
    if contents.children().len() > 0 {
        let steps = s.send_steps(sp, root, contents, home);
        assert(steps[0]->args.take(base.len() as int) =~= base);
        assert(s.target(s.remote_path(sp.remote)) =~= place(s, sp.remote));
    }
}

/// A directory from which nothing is excluded is fetched by one scp, child by child,
/// into the local directory; what is read on the container is the child in the place
/// of the directory.
pub proof fn law_scp_fetches_every_child(
    s: SyncerView,
    sp: SyncPathView,
    contents: ContentsView,
    home: Option<Seq<char>>,
    k: int,
    rest: Seq<char>,
)
    ensures
        ({
            let steps = s.fetch_steps(sp, contents, home);
            let children = contents.children();
            let base = s.connection_args("-P"@, home);
            let there = s.remote_path(sp.remote);
            let login = s.cfg.container_user + "@"@ + s.container_ip;
            &&& s.scp_source(sp, rest) == login + ":"@ + setup::backslashed(path::inside(there, rest))
            &&& setup::shell_reads(setup::backslashed(path::inside(there, rest)), false) == Some(
                path::inside(there, rest),
            )
            &&& children.len() == 0 ==> steps.len() == 0
            &&& children.len() > 0 ==> {
                &&& steps.len() == 1 && steps[0] is Run && steps[0]->program == "scp"@
                &&& steps[0]->args.take(base.len() as int) == base
                &&& steps[0]->args[base.len() as int] == "-r"@
                &&& steps[0]->args.len() == base.len() + 1 + children.len() + 1
                &&& 0 <= k < children.len() ==> steps[0]->args[base.len() + 1 + k] == s.scp_source(sp, children[k])
                &&& steps[0]->args.last() == profile::expanded(sp.local, home)
            }
            &&& s.fetch_file_step(sp, rest, home) == (StepView::Run {
                program: "scp"@,
                args: base + seq![
                    s.scp_source(sp, rest),
                    path::inside(profile::expanded(sp.local, home), rest),
                ],
            })
        }),
{
    let base = s.connection_args("-P"@, home);
    let there = s.remote_path(sp.remote);
    setup::law_backslashes_are_read_away(path::inside(there, rest));
    if contents.children().len() > 0 {
        let steps = s.fetch_steps(sp, contents, home);
        assert(steps[0]->args.take(base.len() as int) =~= base);
    }
}

/// A copy of a directory begins with the directory, and takes over every directory
/// and every file that it is to hold, each to the same place in the copy.
pub proof fn law_copies_are_whole(from: Seq<char>, to: Seq<char>, contents: ContentsView, i: int)
    ensures
        ({
            let steps = profile::staging_steps(from, to, contents);
            &&& steps.len() == 1 + contents.dirs.len() + contents.files.len()
            &&& steps[0] == StepView::CopyDir { from, to }
            &&& 0 <= i < contents.dirs.len() ==> steps[1 + i] == (StepView::CopyDir {
                from: path::inside(from, contents.dirs[i]),
                to: path::inside(to, contents.dirs[i]),
            })
            &&& 0 <= i < contents.files.len() ==> steps[1 + contents.dirs.len() + i] == (StepView::CopyFile {
                from: path::inside(from, contents.files[i]),
                to: path::inside(to, contents.files[i]),
            })
        }),
{
    let steps = profile::staging_steps(from, to, contents);
    if 0 <= i < contents.files.len() {
        assert(steps[1 + contents.dirs.len() + i] == profile::staged_file(from, to, contents.files[i]));
    }
}

/// A directory from which nothing is excluded is sent from where it is and fetched to
/// where it is; else what is sent is a copy without what is excluded, and what is
/// fetched are the directories and the files that are not excluded, one by one.
pub proof fn law_scp_transfers_directories(
    s: SyncerView,
    sp: SyncPathView,
    contents: ContentsView,
    stage: Seq<char>,
    rules: Seq<Seq<char>>,
    home: Option<Seq<char>>,
    i: int,
)
    ensures
        ({
            let local = profile::expanded(sp.local, home);
            let patterns = rules + s.cfg.exclude_patterns;
            let kept = contents.without(patterns);
            let push = s.transfer_steps(sp, Direction::Push, Backend::Scp, true, contents, stage, rules, home);
            let pull = s.transfer_steps(sp, Direction::Pull, Backend::Scp, true, contents, stage, rules, home);
            &&& pull.len() > 0 && pull[0] == StepView::MakeDir(local)
            &&& kept == contents ==> push == s.send_steps(sp, local, contents, home) && pull.skip(1) == s.fetch_steps(
                sp,
                contents,
                home,
            )
            &&& kept != contents ==> {
                let sent = s.send_steps(sp, stage, kept, home);
                let copied = profile::staging_steps(local, stage, kept);
                &&& push == copied + sent
                &&& pull.len() == 1 + kept.dirs.len() + kept.files.len()
                &&& 0 <= i < kept.dirs.len() ==> pull[1 + i] == StepView::MakeDir(path::inside(local, kept.dirs[i]))
                &&& 0 <= i < kept.files.len() ==> pull[1 + kept.dirs.len() + i] == s.fetch_file_step(
                    sp,
                    kept.files[i],
                    home,
                )
            }
        }),
{
    let kept = contents.without(s.patterns(rules));
    let pull = s.transfer_steps(sp, Direction::Pull, Backend::Scp, true, contents, stage, rules, home);
    if kept == contents {
        assert(pull.skip(1) =~= s.fetch_steps(sp, contents, home));
    } else if 0 <= i < kept.files.len() {
        assert(pull[1 + kept.dirs.len() + i] == s.fetch_file_step(sp, kept.files[i], home));
    }
}

/// Steps, plans and syncers are seen as they are.
pub proof fn law_plans_are_seen_whole(step: SyncStep, plan: SyncPlan, s: Syncer, i: int)
    ensures
        match (step, step@) {
            (SyncStep::Run { program, args }, StepView::Run { program: p, args: a }) => program@ == p && text::strs(
                args@,
            ) == a,
            (SyncStep::CreateParent(x), StepView::CreateParent(y)) => x@ == y,
            (SyncStep::MakeDir(x), StepView::MakeDir(y)) => x@ == y,
            (SyncStep::CopyDir { from, to }, StepView::CopyDir { from: f, to: t }) => from@ == f && to@ == t,
            (SyncStep::CopyFile { from, to }, StepView::CopyFile { from: f, to: t }) => from@ == f && to@ == t,
            _ => false,
        },
        plan@.scan == plan.scan && plan@.steps.len() == plan.steps@.len(),
        0 <= i < plan.steps@.len() ==> plan@.steps[i] == plan.steps@[i]@,
        s@.cfg == s.cfg@ && s@.container_ip == s.container_ip@ && s@.username == s.username@,
{
}

} // verus!
