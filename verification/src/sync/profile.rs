//! Transfers between this machine and the container.
//!
//! rsync does the work where it is installed (`--checksum`, `--delete`,
//! `--exclude`); scp is the fallback.  scp knows no exclusions: where the ignore
//! rules exclude something in a directory, a copy without it is sent in its place,
//! and only the rest is fetched.  This module decides what is run; the caller runs
//! it.

use vstd::prelude::*;
use vstd::string::*;
use crate::config::{SyncConfig, SyncPath, SyncPathView, SyncView};
use crate::error::{Error, ErrorView};
use crate::number;
use crate::path;
use crate::sync::contents::{Contents, ContentsView};
use crate::sync::ignore;
use crate::sync::ignore::IgnoreRules;
use crate::sync::run::{RunView, SyncRun};
use crate::sync::setup;
use crate::text;

verus! {

// ── Direction, programs, steps ───────────────────────────────────────────────

/// The direction of a transfer.
#[derive(Debug, Clone, Copy, PartialEq, Eq, Structural)]
pub enum Direction {
    /// From this machine to the container.
    Push,
    /// From the container to this machine.
    Pull,
}

/// The program that transfers.
#[derive(Debug, Clone, Copy, PartialEq, Eq, Structural)]
pub enum Backend {
    Rsync,
    Scp,
}

/// The program that transfers: rsync where it is installed, else scp.
pub fn detect_backend(has_rsync: bool) -> (r: Backend)
    ensures
        r == (if has_rsync {
            Backend::Rsync
        } else {
            Backend::Scp
        }),
{
    if has_rsync {
        Backend::Rsync
    } else {
        Backend::Scp
    }
}

/// What is known of a local path.
#[derive(Debug, Clone, Copy, PartialEq, Eq, Structural)]
pub struct LocalState {
    pub present: bool,
    pub is_dir: bool,
}

/// One step of a transfer.
#[derive(Debug)]
pub enum SyncStep {
    /// Run a program with these arguments.
    Run { program: String, args: Vec<String> },
    /// Create the directory that this path lies in.
    CreateParent(String),
    /// Create this directory, if it is not there.
    MakeDir(String),
    /// Create the directory `to` with the permissions of the directory `from`.
    CopyDir { from: String, to: String },
    /// Copy the file `from` to `to`, with its permissions.
    CopyFile { from: String, to: String },
}

/// A transfer.  The steps are taken in order; the first that fails ends it.
#[derive(Debug)]
pub struct SyncPlan {
    /// Whether the local path is first searched for machine-specific files.
    pub scan: bool,
    pub steps: Vec<SyncStep>,
}

/// The mathematical content of a [`SyncStep`].
pub ghost enum StepView {
    Run { program: Seq<char>, args: Seq<Seq<char>> },
    CreateParent(Seq<char>),
    MakeDir(Seq<char>),
    CopyDir { from: Seq<char>, to: Seq<char> },
    CopyFile { from: Seq<char>, to: Seq<char> },
}

/// The mathematical content of a [`SyncPlan`].
pub ghost struct PlanView {
    pub scan: bool,
    pub steps: Seq<StepView>,
}

impl View for SyncStep {
    type V = StepView;

    open spec fn view(&self) -> StepView {
        match self {
            SyncStep::Run { program, args } => StepView::Run { program: program@, args: text::strs(args@) },
            SyncStep::CreateParent(p) => StepView::CreateParent(p@),
            SyncStep::MakeDir(p) => StepView::MakeDir(p@),
            SyncStep::CopyDir { from, to } => StepView::CopyDir { from: from@, to: to@ },
            SyncStep::CopyFile { from, to } => StepView::CopyFile { from: from@, to: to@ },
        }
    }
}

impl View for SyncPlan {
    type V = PlanView;

    open spec fn view(&self) -> PlanView {
        PlanView { scan: self.scan, steps: steps_view(self.steps@) }
    }
}

/// The contents of a list of steps.
pub open spec fn steps_view(v: Seq<SyncStep>) -> Seq<StepView> {
    v.map_values(|s: SyncStep| s@)
}

broadcast proof fn lemma_steps_push(v: Seq<SyncStep>, s: SyncStep)
    ensures
        #[trigger] steps_view(v.push(s)) == steps_view(v).push(s@),
{
    assert(steps_view(v.push(s)) =~= steps_view(v).push(s@));
}

// ── Home directory ───────────────────────────────────────────────────────────

/// `p` with a leading `~/` replaced by the home directory, if there is one.
pub open spec fn expanded(p: Seq<char>, home: Option<Seq<char>>) -> Seq<char> {
    match home {
        Some(h) if text::has_prefix(p, "~/"@) => path::joined(h, p.skip(2)),
        _ => p,
    }
}

/// `p` with a leading `~/` replaced by the given home directory.
pub fn expand_tilde_in(p: &str, home: Option<&str>) -> (r: String)
    ensures
        r@ == expanded(p@, text::opt_ref(home)),
{
    proof {
        reveal_strlit("~/");
    }
    if let Some(rest) = text::strip_prefix(p, "~/") {
        if let Some(h) = home {
            return path::join(h, rest.as_str());
        }
    }
    p.to_string()
}

/// `p` with a leading `~/` replaced by the user's home directory.
pub fn expand_tilde(p: &str) -> (r: String)
    ensures
        !text::has_prefix(p@, "~/"@) ==> r@ == p@,
        exists|home: Option<Seq<char>>| path::is_home(home) && r@ == #[trigger] expanded(p@, home),
{
    match path::home_dir() {
        Some(h) => expand_tilde_in(p, Some(h.as_str())),
        None => expand_tilde_in(p, None),
    }
}

/// A local path as an rsync source: a directory is followed by a slash, so that
/// its contents are meant.
pub open spec fn rsync_source(local: Seq<char>, is_dir: bool) -> Seq<char> {
    if is_dir && !(local.len() > 0 && local.last() == '/') {
        local + "/"@
    } else {
        local
    }
}

/// A local path as an rsync source.
pub fn local_to_rsync_src(local: &str, is_dir: bool) -> (r: String)
    ensures
        r@ == rsync_source(local@, is_dir),
{
    let cs = text::chars_of(local);
    if is_dir && !(cs.len() > 0 && cs[cs.len() - 1] == '/') {
        local.to_string().concat("/")
    } else {
        local.to_string()
    }
}

// ── Filtered copies ──────────────────────────────────────────────────────────

/// The steps that copy the given contents of the directory `from` to the new
/// directory `to`.
pub open spec fn staging_steps(from: Seq<char>, to: Seq<char>, contents: ContentsView) -> Seq<StepView> {
    seq![StepView::CopyDir { from, to }] + contents.dirs.map_values(
        |d: Seq<char>| StepView::CopyDir { from: path::inside(from, d), to: path::inside(to, d) },
    ) + contents.files.map_values(|f: Seq<char>| staged_file(from, to, f))
}

/// The step that copies one file of a directory to a copy of that directory.
pub open spec fn staged_file(from: Seq<char>, to: Seq<char>, file: Seq<char>) -> StepView {
    StepView::CopyFile { from: path::inside(from, file), to: path::inside(to, file) }
}

fn push_staging_steps(steps: &mut Vec<SyncStep>, from: &str, to: &str, contents: &Contents)
    ensures
        steps_view(final(steps)@) == steps_view(old(steps)@) + staging_steps(from@, to@, contents@),
{
    broadcast use lemma_steps_push;

    let ghost all = staging_steps(from@, to@, contents@);
    let ghost before = steps_view(steps@);
    steps.push(SyncStep::CopyDir { from: from.to_string(), to: to.to_string() });
    let mut i: usize = 0;
    assert(steps_view(steps@) =~= before + all.take(1));
    while i < contents.dirs.len()
        invariant
            i <= contents.dirs@.len(),
            all == staging_steps(from@, to@, contents@),
            steps_view(steps@) == before + all.take(1 + i),
        decreases contents.dirs@.len() - i,
    {
        assert(contents@.dirs[i as int] == contents.dirs@[i as int]@);
        steps.push(
            SyncStep::CopyDir {
                from: path::place_inside(from, contents.dirs[i].as_str()),
                to: path::place_inside(to, contents.dirs[i].as_str()),
            },
        );
        assert((before + all.take(1 + i)).push(all[1 + i]) =~= before + all.take(2 + i));
        i += 1;
    }
    let n: usize = i;
    let mut k: usize = 0;
    while k < contents.files.len()
        invariant
            n == contents.dirs@.len(),
            k <= contents.files@.len(),
            all == staging_steps(from@, to@, contents@),
            steps_view(steps@) == before + all.take(1 + n + k),
        decreases contents.files@.len() - k,
    {
        assert(contents@.files[k as int] == contents.files@[k as int]@);
        steps.push(
            SyncStep::CopyFile {
                from: path::place_inside(from, contents.files[k].as_str()),
                to: path::place_inside(to, contents.files[k].as_str()),
            },
        );
        assert(all[1 + n + k] == staged_file(from@, to@, contents@.files[k as int]));
        assert((before + all.take(1 + n + k)).push(all[1 + n + k]) =~= before + all.take(2 + n + k));
        k += 1;
    }
    assert(all.take(all.len() as int) =~= all);
}

// ── Syncer ───────────────────────────────────────────────────────────────────

/// Everything needed to plan transfers.
#[derive(Debug)]
pub struct Syncer {
    pub cfg: SyncConfig,
    pub container_ip: String,
    pub username: String,
}

/// The mathematical content of a [`Syncer`].
pub ghost struct SyncerView {
    pub cfg: SyncView,
    pub container_ip: Seq<char>,
    pub username: Seq<char>,
}

impl View for Syncer {
    type V = SyncerView;

    open spec fn view(&self) -> SyncerView {
        SyncerView { cfg: self.cfg@, container_ip: self.container_ip@, username: self.username@ }
    }
}

impl Clone for Syncer {
    fn clone(&self) -> (r: Self)
        ensures
            r@ == self@,
    {
        Syncer {
            cfg: self.cfg.clone(),
            container_ip: self.container_ip.clone(),
            username: self.username.clone(),
        }
    }
}

impl SyncerView {
    /// Where a path is stored on the container.
    pub open spec fn remote_path(self, remote: Seq<char>) -> Seq<char> {
        "/profiles/"@ + self.username + "/"@ + text::strip_leading(remote, '/')
    }

    /// The login on the container.
    pub open spec fn login(self) -> Seq<char> {
        self.cfg.container_user + "@"@ + self.container_ip
    }

    /// A path on the container, as rsync and scp name it.
    pub open spec fn target(self, remote_path: Seq<char>) -> Seq<char> {
        self.login() + ":"@ + remote_path
    }

    /// The remote shell that rsync uses.
    pub open spec fn ssh_opt(self, home: Option<Seq<char>>) -> Seq<char> {
        let base = "ssh -p "@ + number::decimal(self.cfg.ssh_port as nat);
        let with_key = match self.cfg.ssh_identity_file {
            Some(id) => base + (" -i "@ + expanded(id, home)),
            None => base,
        };
        with_key + " -o StrictHostKeyChecking=no -o BatchMode=yes"@
    }

    /// The options common to ssh and scp; `port_flag` is how the program spells
    /// the port.
    pub open spec fn connection_args(self, port_flag: Seq<char>, home: Option<Seq<char>>) -> Seq<Seq<char>> {
        let base = seq![
            port_flag,
            number::decimal(self.cfg.ssh_port as nat),
            "-o"@,
            "StrictHostKeyChecking=no"@,
            "-o"@,
            "BatchMode=yes"@,
        ];
        match self.cfg.ssh_identity_file {
            Some(id) => base + seq!["-i"@, expanded(id, home)],
            None => base,
        }
    }

    /// The ssh command that creates a directory on the container.
    pub open spec fn mkdir_step(self, remote_path: Seq<char>, home: Option<Seq<char>>) -> StepView {
        StepView::Run {
            program: "ssh"@,
            args: self.connection_args("-p"@, home) + seq![self.login(), "mkdir -p '"@ + remote_path + "'"@],
        }
    }

    /// The source of a transfer; `is_dir` says whether a directory is transferred.
    pub open spec fn source(self, sp: SyncPathView, dir: Direction, local: Seq<char>, is_dir: bool) -> Seq<char> {
        match dir {
            Direction::Push => rsync_source(local, is_dir),
            Direction::Pull => if is_dir {
                self.target(self.remote_path(sp.remote)) + "/"@
            } else {
                self.target(self.remote_path(sp.remote))
            },
        }
    }

    /// The destination of a transfer; `is_dir` says whether a directory is
    /// transferred.
    pub open spec fn destination(self, sp: SyncPathView, dir: Direction, local: Seq<char>, is_dir: bool) -> Seq<char> {
        match dir {
            Direction::Push => self.target(self.remote_path(sp.remote)),
            Direction::Pull => if is_dir {
                local + "/"@
            } else {
                local
            },
        }
    }

    /// The ignore rules of a transfer, given the contents of the ignore files.
    pub open spec fn rules(self, global: Option<Seq<char>>, local: Option<Seq<char>>) -> Seq<Seq<char>> {
        ignore::builtin_patterns() + self.cfg.machine_specific_patterns + ignore::file_patterns(global)
            + ignore::file_patterns(local)
    }

    /// All that is excluded from a transfer: its rules and the configured patterns.
    pub open spec fn patterns(self, rules: Seq<Seq<char>>) -> Seq<Seq<char>> {
        rules + self.cfg.exclude_patterns
    }

    /// The options that exclude the rules of the transfer and the configured
    /// patterns.
    pub open spec fn exclusions(self, rules: Seq<Seq<char>>) -> Seq<Seq<char>> {
        ignore::exclude_options(rules) + ignore::exclude_options(self.cfg.exclude_patterns)
    }

    /// The arguments of rsync; `mode` tells a transfer from a dry run.
    pub open spec fn rsync_args(
        self,
        sp: SyncPathView,
        dir: Direction,
        mode: Seq<char>,
        delete: bool,
        is_dir: bool,
        rules: Seq<Seq<char>>,
        home: Option<Seq<char>>,
    ) -> Seq<Seq<char>> {
        let local = expanded(sp.local, home);
        seq!["-avz"@, "--checksum"@, mode, "-e"@, self.ssh_opt(home)] + (if delete {
            seq!["--delete"@]
        } else {
            seq![]
        }) + self.exclusions(rules) + seq![self.source(sp, dir, local, is_dir), self.destination(sp, dir, local, is_dir)]
    }

    /// The arguments of scp for a path that is a single file.
    pub open spec fn scp_args(self, sp: SyncPathView, dir: Direction, home: Option<Seq<char>>) -> Seq<Seq<char>> {
        let local = expanded(sp.local, home);
        let remote = self.target(self.remote_path(sp.remote));
        let base = self.connection_args("-P"@, home);
        match dir {
            Direction::Push => base + seq![local, remote],
            Direction::Pull => base + seq!["-r"@, remote, local],
        }
    }

    /// A path under a directory on the container, as scp is given it to read from:
    /// a remote shell, which reads the name where scp is old, and the file name
    /// patterns of newer versions both take the backslashes away.  (A shell takes a
    /// line feed behind one away as well.)
    pub open spec fn scp_source(self, sp: SyncPathView, rest: Seq<char>) -> Seq<char> {
        self.target(setup::backslashed(path::inside(self.remote_path(sp.remote), rest)))
    }

    /// The scp command that sends what stands in the directory `root`.  Its entries
    /// are named one by one: scp puts them into the directory on the container,
    /// while it would put `root` itself beside them.  Only the name of that directory
    /// is handed to the other side.
    pub open spec fn send_steps(
        self,
        sp: SyncPathView,
        root: Seq<char>,
        contents: ContentsView,
        home: Option<Seq<char>>,
    ) -> Seq<StepView> {
        if contents.children().len() == 0 {
            seq![]
        } else {
            seq![
                StepView::Run {
                    program: "scp"@,
                    args: self.connection_args("-P"@, home) + seq!["-r"@] + contents.children().map_values(
                        |c: Seq<char>| path::inside(root, c),
                    ) + seq![self.target(self.remote_path(sp.remote))],
                },
            ]
        }
    }

    /// The scp command that fetches a directory as a whole, entry by entry, so that
    /// they are put into the local directory, whether it was there before or not.
    pub open spec fn fetch_steps(
        self,
        sp: SyncPathView,
        contents: ContentsView,
        home: Option<Seq<char>>,
    ) -> Seq<StepView> {
        if contents.children().len() == 0 {
            seq![]
        } else {
            seq![
                StepView::Run {
                    program: "scp"@,
                    args: self.connection_args("-P"@, home) + seq!["-r"@] + contents.children().map_values(
                        |c: Seq<char>| self.scp_source(sp, c),
                    ) + seq![expanded(sp.local, home)],
                },
            ]
        }
    }

    /// The scp command that fetches one file of a directory.
    pub open spec fn fetch_file_step(self, sp: SyncPathView, file: Seq<char>, home: Option<Seq<char>>) -> StepView {
        StepView::Run {
            program: "scp"@,
            args: self.connection_args("-P"@, home) + seq![
                self.scp_source(sp, file),
                path::inside(expanded(sp.local, home), file),
            ],
        }
    }

    /// The transfer of a directory by scp.  `stage` is where a copy can be made.
    pub open spec fn tree_steps(
        self,
        sp: SyncPathView,
        dir: Direction,
        contents: ContentsView,
        stage: Seq<char>,
        rules: Seq<Seq<char>>,
        home: Option<Seq<char>>,
    ) -> Seq<StepView> {
        let local = expanded(sp.local, home);
        let kept = contents.without(self.patterns(rules));
        match dir {
            Direction::Push => if kept == contents {
                self.send_steps(sp, local, contents, home)
            } else {
                staging_steps(local, stage, kept) + self.send_steps(sp, stage, kept, home)
            },
            Direction::Pull => seq![StepView::MakeDir(local)] + (if kept == contents {
                self.fetch_steps(sp, contents, home)
            } else {
                kept.dirs.map_values(|d: Seq<char>| StepView::MakeDir(path::inside(local, d)))
                    + kept.files.map_values(|f: Seq<char>| self.fetch_file_step(sp, f, home))
            }),
        }
    }

    /// The name under which the ignore rules know a path that is a single file.
    pub open spec fn file_name(self, sp: SyncPathView, dir: Direction, home: Option<Seq<char>>) -> Seq<char> {
        match dir {
            Direction::Push => path::last_name(expanded(sp.local, home)),
            Direction::Pull => path::last_name(self.remote_path(sp.remote)),
        }
    }

    /// The steps that transfer.  `contents` is what the directory that is
    /// transferred holds, which only scp needs to know; `stage` is where a copy of it
    /// can be made.
    pub open spec fn transfer_steps(
        self,
        sp: SyncPathView,
        dir: Direction,
        backend: Backend,
        is_dir: bool,
        contents: ContentsView,
        stage: Seq<char>,
        rules: Seq<Seq<char>>,
        home: Option<Seq<char>>,
    ) -> Seq<StepView> {
        match backend {
            Backend::Rsync => seq![
                StepView::Run {
                    program: "rsync"@,
                    args: self.rsync_args(sp, dir, "--progress"@, sp.delete, is_dir, rules, home),
                },
            ],
            Backend::Scp => if is_dir {
                self.tree_steps(sp, dir, contents, stage, rules, home)
            } else if ignore::excluded(self.patterns(rules), self.file_name(sp, dir, home), false) {
                seq![]
            } else {
                seq![StepView::Run { program: "scp"@, args: self.scp_args(sp, dir, home) }]
            },
        }
    }

    /// The transfer of one path.  A push of a path that is not there does nothing.
    /// `remote_is_dir` says what a pull finds on the container; `contents` is what
    /// the directory that is transferred holds, and `stage` is where a copy of it can
    /// be made.
    pub open spec fn plan(
        self,
        sp: SyncPathView,
        dir: Direction,
        backend: Backend,
        state: LocalState,
        remote_is_dir: bool,
        contents: ContentsView,
        stage: Seq<char>,
        rules: Seq<Seq<char>>,
        home: Option<Seq<char>>,
    ) -> PlanView {
        match dir {
            Direction::Push => if state.present {
                let made = if state.is_dir {
                    self.remote_path(sp.remote)
                } else {
                    path::parent(self.remote_path(sp.remote))
                };
                PlanView {
                    scan: true,
                    steps: seq![self.mkdir_step(made, home)] + self.transfer_steps(
                        sp,
                        dir,
                        backend,
                        state.is_dir,
                        contents,
                        stage,
                        rules,
                        home,
                    ),
                }
            } else {
                PlanView { scan: false, steps: seq![] }
            },
            Direction::Pull => PlanView {
                scan: false,
                steps: seq![StepView::CreateParent(expanded(sp.local, home))] + self.transfer_steps(
                    sp,
                    dir,
                    backend,
                    remote_is_dir,
                    contents,
                    stage,
                    rules,
                    home,
                ),
            },
        }
    }

    /// The arguments of ssh that ask whether a path is a directory on the
    /// container.
    pub open spec fn probe_args(self, sp: SyncPathView, home: Option<Seq<char>>) -> Seq<Seq<char>> {
        self.connection_args("-p"@, home) + seq![
            self.login(),
            "test -d '"@ + setup::escaped(self.remote_path(sp.remote)) + "'"@,
        ]
    }

    /// The arguments of ssh that list the contents of a directory on the container.
    pub open spec fn listing_args(self, sp: SyncPathView, home: Option<Seq<char>>) -> Seq<Seq<char>> {
        self.connection_args("-p"@, home) + seq![
            self.login(),
            "cd '"@ + setup::escaped(self.remote_path(sp.remote)) + "' && find -L . -mindepth 1 -type d -printf '%p/\\0' -o -type f -print0"@,
        ]
    }
}

impl Syncer {
    pub fn new(cfg: SyncConfig, container_ip: String, username: String) -> (r: Syncer)
        ensures
            r.cfg == cfg,
            r.container_ip == container_ip,
            r.username == username,
    {
        Syncer { cfg, container_ip, username }
    }

    /// The configured paths.
    pub fn sync_paths(&self) -> (r: &[SyncPath])
        ensures
            r@ == self.cfg.paths@,
    {
        self.cfg.paths.as_slice()
    }

    /// Where a path is stored on the container.
    pub fn remote_path(&self, remote: &str) -> (r: String)
        ensures
            r@ == self@.remote_path(remote@),
    {
        "/profiles/".to_string().concat(self.username.as_str()).concat("/").concat(
            text::trim_start_char(remote, '/').as_str(),
        )
    }

    fn login(&self) -> (r: String)
        ensures
            r@ == self@.login(),
    {
        self.cfg.container_user.clone().concat("@").concat(self.container_ip.as_str())
    }

    fn target(&self, remote_path: &str) -> (r: String)
        ensures
            r@ == self@.target(remote_path@),
    {
        self.login().concat(":").concat(remote_path)
    }

    /// The remote shell that rsync uses.
    pub fn ssh_opt(&self, home: Option<&str>) -> (r: String)
        ensures
            r@ == self@.ssh_opt(text::opt_ref(home)),
    {
        let mut s = "ssh -p ".to_string().concat(number::to_decimal(self.cfg.ssh_port as u64).as_str());
        if let Some(id) = &self.cfg.ssh_identity_file {
            let part = " -i ".to_string().concat(expand_tilde_in(id.as_str(), home).as_str());
            s.append(part.as_str());
        }
        s.append(" -o StrictHostKeyChecking=no -o BatchMode=yes");
        s
    }

    fn connection_args(&self, port_flag: &str, home: Option<&str>) -> (r: Vec<String>)
        ensures
            text::strs(r@) == self@.connection_args(port_flag@, text::opt_ref(home)),
    {
        broadcast use text::lemma_strs_push;

        let mut args: Vec<String> = Vec::new();
        args.push(port_flag.to_string());
        args.push(number::to_decimal(self.cfg.ssh_port as u64));
        args.push("-o".to_string());
        args.push("StrictHostKeyChecking=no".to_string());
        args.push("-o".to_string());
        args.push("BatchMode=yes".to_string());
        if let Some(id) = &self.cfg.ssh_identity_file {
            args.push("-i".to_string());
            args.push(expand_tilde_in(id.as_str(), home));
        }
        assert(text::strs(args@) =~= self@.connection_args(port_flag@, text::opt_ref(home)));
        args
    }

    /// The options of scp.
    pub fn scp_base_args(&self, home: Option<&str>) -> (r: Vec<String>)
        ensures
            text::strs(r@) == self@.connection_args("-P"@, text::opt_ref(home)),
    {
        self.connection_args("-P", home)
    }

    /// The options of ssh.
    pub fn ssh_base_args(&self, home: Option<&str>) -> (r: Vec<String>)
        ensures
            text::strs(r@) == self@.connection_args("-p"@, text::opt_ref(home)),
    {
        self.connection_args("-p", home)
    }

    fn ssh_mkdir(&self, remote_path: &str, home: Option<&str>) -> (r: SyncStep)
        ensures
            r@ == self@.mkdir_step(remote_path@, text::opt_ref(home)),
    {
        broadcast use text::lemma_strs_push;

        let mut args = self.ssh_base_args(home);
        let ghost base = text::strs(args@);
        args.push(self.login());
        args.push("mkdir -p '".to_string().concat(remote_path).concat("'"));
        assert(text::strs(args@) =~= base + seq![self@.login(), "mkdir -p '"@ + remote_path@ + "'"@]);
        SyncStep::Run { program: "ssh".to_string(), args }
    }

    fn rsync_args(
        &self,
        sp: &SyncPath,
        dir: Direction,
        mode: &str,
        delete: bool,
        is_dir: bool,
        rules: &IgnoreRules,
        home: Option<&str>,
    ) -> (r: Vec<String>)
        ensures
            text::strs(r@) == self@.rsync_args(sp@, dir, mode@, delete, is_dir, rules@, text::opt_ref(home)),
    {
        broadcast use text::lemma_strs_push;

        let local = expand_tilde_in(sp.local.as_str(), home);
        let remote_path = self.remote_path(sp.remote.as_str());
        let mut args: Vec<String> = Vec::new();
        args.push("-avz".to_string());
        args.push("--checksum".to_string());
        args.push(mode.to_string());
        args.push("-e".to_string());
        args.push(self.ssh_opt(home));
        if delete {
            args.push("--delete".to_string());
        }
        let ghost options = text::strs(args@);
        assert(options =~= seq!["-avz"@, "--checksum"@, mode@, "-e"@, self@.ssh_opt(text::opt_ref(home))] + (
        if delete {
            seq!["--delete"@]
        } else {
            seq![]
        }));
        ignore::push_exclude_options(&mut args, &rules.patterns);
        ignore::push_exclude_options(&mut args, &self.cfg.exclude_patterns);
        assert(text::strs(args@) =~= options + self@.exclusions(rules@));
        match dir {
            Direction::Push => {
                args.push(local_to_rsync_src(local.as_str(), is_dir));
                args.push(self.target(remote_path.as_str()));
            },
            Direction::Pull => {
                if is_dir {
                    args.push(self.target(remote_path.as_str()).concat("/"));
                    args.push(local.concat("/"));
                } else {
                    args.push(self.target(remote_path.as_str()));
                    args.push(local);
                }
            },
        }
        assert(text::strs(args@) =~= self@.rsync_args(sp@, dir, mode@, delete, is_dir, rules@, text::opt_ref(home)));
        args
    }

    fn scp_args(&self, sp: &SyncPath, dir: Direction, home: Option<&str>) -> (r: Vec<String>)
        ensures
            text::strs(r@) == self@.scp_args(sp@, dir, text::opt_ref(home)),
    {
        broadcast use text::lemma_strs_push;

        let local = expand_tilde_in(sp.local.as_str(), home);
        let remote = self.target(self.remote_path(sp.remote.as_str()).as_str());
        let mut args = self.scp_base_args(home);
        match dir {
            Direction::Push => {
                args.push(local);
                args.push(remote);
            },
            Direction::Pull => {
                args.push("-r".to_string());
                args.push(remote);
                args.push(local);
            },
        }
        assert(text::strs(args@) =~= self@.scp_args(sp@, dir, text::opt_ref(home)));
        args
    }

    fn send(&self, sp: &SyncPath, root: &str, contents: &Contents, home: Option<&str>) -> (r: Option<SyncStep>)
        ensures
            match r {
                Some(step) => self@.send_steps(sp@, root@, contents@, text::opt_ref(home)) == seq![step@],
                None => self@.send_steps(sp@, root@, contents@, text::opt_ref(home)).len() == 0,
            },
    {
        broadcast use text::lemma_strs_push;

        let children = contents.children();
        assert(text::strs(children@).len() == children@.len());
        if children.len() == 0 {
            return None;
        }
        let mut args = self.scp_base_args(home);
        args.push("-r".to_string());
        let ghost base = text::strs(args@);
        let ghost all = text::strs(children@).map_values(|c: Seq<char>| path::inside(root@, c));
        let mut i: usize = 0;
        assert(base =~= self@.connection_args("-P"@, text::opt_ref(home)) + seq!["-r"@]);
        assert(text::strs(args@) =~= base + all.take(0));
        while i < children.len()
            invariant
                i <= children@.len(),
                all == text::strs(children@).map_values(|c: Seq<char>| path::inside(root@, c)),
                text::strs(args@) == base + all.take(i as int),
            decreases children@.len() - i,
        {
            assert(text::strs(children@)[i as int] == children@[i as int]@);
            args.push(path::place_inside(root, children[i].as_str()));
            assert((base + all.take(i as int)).push(all[i as int]) =~= base + all.take(i + 1));
            i += 1;
        }
        assert(all.take(all.len() as int) =~= all);
        args.push(self.target(self.remote_path(sp.remote.as_str()).as_str()));
        assert(text::strs(args@) =~= base + all + seq![self@.target(self@.remote_path(sp@.remote))]);
        Some(SyncStep::Run { program: "scp".to_string(), args })
    }

    fn scp_source(&self, sp: &SyncPath, rest: &str) -> (r: String)
        ensures
            r@ == self@.scp_source(sp@, rest@),
    {
        let remote_path = self.remote_path(sp.remote.as_str());
        let name = setup::add_backslashes(path::place_inside(remote_path.as_str(), rest).as_str());
        self.target(name.as_str())
    }

    fn fetch(&self, sp: &SyncPath, contents: &Contents, home: Option<&str>) -> (r: Option<SyncStep>)
        ensures
            match r {
                Some(step) => self@.fetch_steps(sp@, contents@, text::opt_ref(home)) == seq![step@],
                None => self@.fetch_steps(sp@, contents@, text::opt_ref(home)).len() == 0,
            },
    {
        broadcast use text::lemma_strs_push;

        let children = contents.children();
        assert(text::strs(children@).len() == children@.len());
        if children.len() == 0 {
            return None;
        }
        let mut args = self.scp_base_args(home);
        args.push("-r".to_string());
        let ghost base = text::strs(args@);
        let ghost all = text::strs(children@).map_values(|c: Seq<char>| self@.scp_source(sp@, c));
        let mut i: usize = 0;
        assert(base =~= self@.connection_args("-P"@, text::opt_ref(home)) + seq!["-r"@]);
        assert(text::strs(args@) =~= base + all.take(0));
        while i < children.len()
            invariant
                i <= children@.len(),
                all == text::strs(children@).map_values(|c: Seq<char>| self@.scp_source(sp@, c)),
                text::strs(args@) == base + all.take(i as int),
            decreases children@.len() - i,
        {
            assert(text::strs(children@)[i as int] == children@[i as int]@);
            args.push(self.scp_source(sp, children[i].as_str()));
            assert((base + all.take(i as int)).push(all[i as int]) =~= base + all.take(i + 1));
            i += 1;
        }
        assert(all.take(all.len() as int) =~= all);
        let local = expand_tilde_in(sp.local.as_str(), home);
        let ghost end = local@;
        args.push(local);
        assert(text::strs(args@) =~= base + all + seq![end]);
        Some(SyncStep::Run { program: "scp".to_string(), args })
    }

    fn fetch_file(&self, sp: &SyncPath, file: &str, home: Option<&str>) -> (r: SyncStep)
        ensures
            r@ == self@.fetch_file_step(sp@, file@, text::opt_ref(home)),
    {
        broadcast use text::lemma_strs_push;

        let mut args = self.scp_base_args(home);
        let ghost base = text::strs(args@);
        args.push(self.scp_source(sp, file));
        args.push(path::place_inside(expand_tilde_in(sp.local.as_str(), home).as_str(), file));
        assert(text::strs(args@) =~= base + seq![
            self@.scp_source(sp@, file@),
            path::inside(expanded(sp@.local, text::opt_ref(home)), file@),
        ]);
        SyncStep::Run { program: "scp".to_string(), args }
    }

    fn push_fetch_steps(&self, steps: &mut Vec<SyncStep>, sp: &SyncPath, kept: &Contents, home: Option<&str>)
        ensures
            steps_view(final(steps)@) == steps_view(old(steps)@) + kept@.dirs.map_values(
                |d: Seq<char>|
                    StepView::MakeDir(path::inside(expanded(sp@.local, text::opt_ref(home)), d)),
            ) + kept@.files.map_values(|f: Seq<char>| self@.fetch_file_step(sp@, f, text::opt_ref(home))),
    {
        broadcast use lemma_steps_push;

        let local = expand_tilde_in(sp.local.as_str(), home);
        let ghost start = steps_view(steps@);
        let ghost made = kept@.dirs.map_values(|d: Seq<char>| StepView::MakeDir(path::inside(local@, d)));
        let ghost fetched = kept@.files.map_values(
            |f: Seq<char>| self@.fetch_file_step(sp@, f, text::opt_ref(home)),
        );
        let mut i: usize = 0;
        assert(start + made.take(0) =~= start);
        while i < kept.dirs.len()
            invariant
                i <= kept.dirs@.len(),
                made == kept@.dirs.map_values(|d: Seq<char>| StepView::MakeDir(path::inside(local@, d))),
                steps_view(steps@) == start + made.take(i as int),
            decreases kept.dirs@.len() - i,
        {
            assert(kept@.dirs[i as int] == kept.dirs@[i as int]@);
            steps.push(SyncStep::MakeDir(path::place_inside(local.as_str(), kept.dirs[i].as_str())));
            assert((start + made.take(i as int)).push(made[i as int]) =~= start + made.take(i + 1));
            i += 1;
        }
        assert(made.take(made.len() as int) =~= made);
        let ghost before = start + made;
        let mut k: usize = 0;
        assert(before + fetched.take(0) =~= before);
        while k < kept.files.len()
            invariant
                k <= kept.files@.len(),
                fetched == kept@.files.map_values(
                    |f: Seq<char>| self@.fetch_file_step(sp@, f, text::opt_ref(home)),
                ),
                steps_view(steps@) == before + fetched.take(k as int),
            decreases kept.files@.len() - k,
        {
            assert(kept@.files[k as int] == kept.files@[k as int]@);
            steps.push(self.fetch_file(sp, kept.files[k].as_str(), home));
            assert((before + fetched.take(k as int)).push(fetched[k as int]) =~= before + fetched.take(k + 1));
            k += 1;
        }
        assert(fetched.take(fetched.len() as int) =~= fetched);
        assert(made =~= kept@.dirs.map_values(
            |d: Seq<char>| StepView::MakeDir(path::inside(expanded(sp@.local, text::opt_ref(home)), d)),
        ));
    }

    fn push_tree_steps(
        &self,
        steps: &mut Vec<SyncStep>,
        sp: &SyncPath,
        dir: Direction,
        contents: &Contents,
        stage: &str,
        rules: &IgnoreRules,
        home: Option<&str>,
    )
        ensures
            steps_view(final(steps)@) == steps_view(old(steps)@) + self@.tree_steps(
                sp@,
                dir,
                contents@,
                stage@,
                rules@,
                text::opt_ref(home),
            ),
    {
        broadcast use lemma_steps_push;

        let patterns = self.all_patterns(rules);
        let kept = contents.without(&patterns);
        let local = expand_tilde_in(sp.local.as_str(), home);
        let whole = kept.dirs.len() == contents.dirs.len() && kept.files.len() == contents.files.len();
        proof {
            ignore::lemma_kept_whole(text::strs(patterns@), contents@.dirs, true);
            ignore::lemma_kept_whole(text::strs(patterns@), contents@.files, false);
            assert(kept@.dirs.len() == kept.dirs@.len() && kept@.files.len() == kept.files@.len());
            assert(contents@.dirs.len() == contents.dirs@.len() && contents@.files.len() == contents.files@.len());
            assert(whole <==> kept@ == contents@);
        }
        let ghost before = steps_view(steps@);
        match dir {
            Direction::Push => {
                let step = if whole {
                    self.send(sp, local.as_str(), contents, home)
                } else {
                    push_staging_steps(steps, local.as_str(), stage, &kept);
                    self.send(sp, stage, &kept, home)
                };
                if let Some(step) = step {
                    steps.push(step);
                }
            },
            Direction::Pull => {
                steps.push(SyncStep::MakeDir(local));
                if whole {
                    if let Some(step) = self.fetch(sp, contents, home) {
                        steps.push(step);
                    }
                } else {
                    self.push_fetch_steps(steps, sp, &kept, home);
                }
            },
        }
        assert(steps_view(steps@) =~= before + self@.tree_steps(
            sp@,
            dir,
            contents@,
            stage@,
            rules@,
            text::opt_ref(home),
        ));
    }

    fn all_patterns(&self, rules: &IgnoreRules) -> (r: Vec<String>)
        ensures
            text::strs(r@) == self@.patterns(rules@),
    {
        let mut patterns = rules.clone().patterns;
        text::extend(&mut patterns, &self.cfg.exclude_patterns);
        patterns
    }

    fn push_transfer_steps(
        &self,
        steps: &mut Vec<SyncStep>,
        sp: &SyncPath,
        dir: Direction,
        backend: Backend,
        is_dir: bool,
        contents: &Contents,
        stage: &str,
        rules: &IgnoreRules,
        home: Option<&str>,
    )
        ensures
            steps_view(final(steps)@) == steps_view(old(steps)@) + self@.transfer_steps(
                sp@,
                dir,
                backend,
                is_dir,
                contents@,
                stage@,
                rules@,
                text::opt_ref(home),
            ),
    {
        broadcast use lemma_steps_push;

        let ghost before = steps_view(steps@);
        match backend {
            Backend::Rsync => {
                let args = self.rsync_args(sp, dir, "--progress", sp.delete, is_dir, rules, home);
                steps.push(SyncStep::Run { program: "rsync".to_string(), args });
            },
            Backend::Scp => {
                if is_dir {
                    self.push_tree_steps(steps, sp, dir, contents, stage, rules, home);
                } else {
                    let name = match dir {
                        Direction::Push => path::last_name_of(expand_tilde_in(sp.local.as_str(), home).as_str()),
                        Direction::Pull => path::last_name_of(self.remote_path(sp.remote.as_str()).as_str()),
                    };
                    let patterns = self.all_patterns(rules);
                    if !ignore::is_excluded(&patterns, name.as_str(), false) {
                        let args = self.scp_args(sp, dir, home);
                        steps.push(SyncStep::Run { program: "scp".to_string(), args });
                    }
                }
            },
        }
        assert(steps_view(steps@) =~= before + self@.transfer_steps(
            sp@,
            dir,
            backend,
            is_dir,
            contents@,
            stage@,
            rules@,
            text::opt_ref(home),
        ));
    }

    /// The transfer of one path, given the home directory.
    pub fn plan_sync(
        &self,
        sp: &SyncPath,
        dir: Direction,
        backend: Backend,
        state: LocalState,
        remote_is_dir: bool,
        contents: &Contents,
        stage: &str,
        rules: &IgnoreRules,
        home: Option<&str>,
    ) -> (r: SyncPlan)
        ensures
            r@ == self@.plan(
                sp@,
                dir,
                backend,
                state,
                remote_is_dir,
                contents@,
                stage@,
                rules@,
                text::opt_ref(home),
            ),
    {
        broadcast use lemma_steps_push;

        let mut steps: Vec<SyncStep> = Vec::new();
        assert(steps_view(steps@) =~= seq![]);
        match dir {
            Direction::Push => {
                if !state.present {
                    return SyncPlan { scan: false, steps };
                }
                let remote_path = self.remote_path(sp.remote.as_str());
                if state.is_dir {
                    steps.push(self.ssh_mkdir(remote_path.as_str(), home));
                } else {
                    steps.push(self.ssh_mkdir(path::parent_of(remote_path.as_str()).as_str(), home));
                }
                assert(steps_view(steps@) =~= seq![steps@[0]@]);
                self.push_transfer_steps(&mut steps, sp, dir, backend, state.is_dir, contents, stage, rules, home);
                SyncPlan { scan: true, steps }
            },
            Direction::Pull => {
                steps.push(SyncStep::CreateParent(expand_tilde_in(sp.local.as_str(), home)));
                assert(steps_view(steps@) =~= seq![steps@[0]@]);
                self.push_transfer_steps(&mut steps, sp, dir, backend, remote_is_dir, contents, stage, rules, home);
                SyncPlan { scan: false, steps }
            },
        }
    }

    /// The transfer of one path, with the user's home directory.
    pub fn sync_one(
        &self,
        sp: &SyncPath,
        dir: Direction,
        backend: Backend,
        state: LocalState,
        remote_is_dir: bool,
        contents: &Contents,
        stage: &str,
        rules: &IgnoreRules,
    ) -> (r: SyncPlan)
        ensures
            exists|home: Option<Seq<char>>|
                path::is_home(home) && r@ == #[trigger] self@.plan(
                    sp@,
                    dir,
                    backend,
                    state,
                    remote_is_dir,
                    contents@,
                    stage@,
                    rules@,
                    home,
                ),
    {
        match path::home_dir() {
            Some(h) => self.plan_sync(sp, dir, backend, state, remote_is_dir, contents, stage, rules, Some(h.as_str())),
            None => self.plan_sync(sp, dir, backend, state, remote_is_dir, contents, stage, rules, None),
        }
    }

    /// The push of a directory by scp, given its contents and the home directory.
    /// What the rules and the configured patterns exclude is not sent: where that is
    /// nothing, the directory is sent as it is; else a copy without it.
    pub fn plan_scp_push(
        &self,
        sp: &SyncPath,
        contents: &Contents,
        stage: &str,
        rules: &IgnoreRules,
        home: Option<&str>,
    ) -> (r: SyncPlan)
        ensures
            r@.scan,
            ({
                let local = expanded(sp@.local, text::opt_ref(home));
                let patterns = rules@ + self@.cfg.exclude_patterns;
                let kept = contents@.without(patterns);
                r@.steps == seq![self@.mkdir_step(self@.remote_path(sp@.remote), text::opt_ref(home))] + (
                if kept == contents@ {
                    self@.send_steps(sp@, local, contents@, text::opt_ref(home))
                } else {
                    staging_steps(local, stage@, kept) + self@.send_steps(sp@, stage@, kept, text::opt_ref(home))
                })
            }),
    {
        let state = LocalState { present: true, is_dir: true };
        self.plan_sync(sp, Direction::Push, Backend::Scp, state, false, contents, stage, rules, home)
    }

    /// The arguments of ssh that ask whether a path is a directory on the
    /// container, given the home directory.
    pub fn plan_probe(&self, sp: &SyncPath, home: Option<&str>) -> (r: Vec<String>)
        ensures
            text::strs(r@) == self@.probe_args(sp@, text::opt_ref(home)),
    {
        broadcast use text::lemma_strs_push;

        let mut args = self.ssh_base_args(home);
        let remote_path = self.remote_path(sp.remote.as_str());
        args.push(self.login());
        args.push(
            "test -d '".to_string().concat(setup::escape_quotes(remote_path.as_str()).as_str()).concat("'"),
        );
        assert(text::strs(args@) =~= self@.probe_args(sp@, text::opt_ref(home)));
        args
    }

    /// The arguments of ssh that ask whether a path is a directory on the
    /// container.
    pub fn probe(&self, sp: &SyncPath) -> (r: Vec<String>)
        ensures
            exists|home: Option<Seq<char>>|
                path::is_home(home) && text::strs(r@) == #[trigger] self@.probe_args(sp@, home),
    {
        match path::home_dir() {
            Some(h) => self.plan_probe(sp, Some(h.as_str())),
            None => self.plan_probe(sp, None),
        }
    }

    /// The arguments of ssh that list the contents of a directory on the container,
    /// given the home directory.
    pub fn plan_listing(&self, sp: &SyncPath, home: Option<&str>) -> (r: Vec<String>)
        ensures
            text::strs(r@) == self@.listing_args(sp@, text::opt_ref(home)),
    {
        broadcast use text::lemma_strs_push;

        let mut args = self.ssh_base_args(home);
        let remote_path = self.remote_path(sp.remote.as_str());
        args.push(self.login());
        args.push(
            "cd '".to_string().concat(setup::escape_quotes(remote_path.as_str()).as_str()).concat(
                "' && find -L . -mindepth 1 -type d -printf '%p/\\0' -o -type f -print0",
            ),
        );
        assert(text::strs(args@) =~= self@.listing_args(sp@, text::opt_ref(home)));
        args
    }

    /// The arguments of ssh that list the contents of a directory on the container.
    pub fn listing(&self, sp: &SyncPath) -> (r: Vec<String>)
        ensures
            exists|home: Option<Seq<char>>|
                path::is_home(home) && text::strs(r@) == #[trigger] self@.listing_args(sp@, home),
    {
        match path::home_dir() {
            Some(h) => self.plan_listing(sp, Some(h.as_str())),
            None => self.plan_listing(sp, None),
        }
    }

    /// The transfer of all configured paths, one after the other.
    pub fn run(&self) -> (r: SyncRun)
        ensures
            r@ == RunView::of(self@.cfg.paths),
    {
        SyncRun::new(&self.cfg.paths)
    }

    /// The arguments of rsync that show what a transfer would do, given the home
    /// directory.  `is_dir` says whether a directory would be transferred.
    pub fn plan_dry_run(
        &self,
        sp: &SyncPath,
        dir: Direction,
        is_dir: bool,
        rules: &IgnoreRules,
        home: Option<&str>,
    ) -> (r: Vec<String>)
        ensures
            text::strs(r@) == self@.rsync_args(sp@, dir, "--dry-run"@, false, is_dir, rules@, text::opt_ref(home)),
    {
        self.rsync_args(sp, dir, "--dry-run", false, is_dir, rules, home)
    }

    /// The arguments of rsync that show what a transfer would do.
    pub fn dry_run(&self, sp: &SyncPath, dir: Direction, is_dir: bool, rules: &IgnoreRules) -> (r: Vec<String>)
        ensures
            exists|home: Option<Seq<char>>|
                path::is_home(home) && text::strs(r@) == #[trigger] self@.rsync_args(
                    sp@,
                    dir,
                    "--dry-run"@,
                    false,
                    is_dir,
                    rules@,
                    home,
                ),
    {
        match path::home_dir() {
            Some(h) => self.plan_dry_run(sp, dir, is_dir, rules, Some(h.as_str())),
            None => self.plan_dry_run(sp, dir, is_dir, rules, None),
        }
    }

    /// The ignore rules of a transfer, given the contents of the ignore files.
    pub fn ignore_rules_for(&self, global: Option<&str>, local: Option<&str>) -> (r: IgnoreRules)
        ensures
            r@ == self@.rules(text::opt_ref(global), text::opt_ref(local)),
    {
        IgnoreRules::load(&self.cfg.machine_specific_patterns, global, local)
    }
}

// ── Results ──────────────────────────────────────────────────────────────────

/// What the container said to the question of [`Syncer::probe`], given how ssh
/// ended: `test` ends with 1 where the path is no directory.
pub fn remote_is_dir(outcome: Result<(), Error>) -> (r: Result<bool, Error>)
    ensures
        match outcome {
            Ok(_) => r == Ok::<bool, Error>(true),
            Err(e) => if e@ == ErrorView::SyncCommand(1) {
                r == Ok::<bool, Error>(false)
            } else {
                r == Err::<bool, Error>(e)
            },
        },
{
    match outcome {
        Ok(_) => Ok(true),
        Err(Error::SyncCommand(1)) => Ok(false),
        Err(e) => Err(e),
    }
}

/// The result of a program that ran: `code` is its exit status, if it has one.
pub fn command_result(success: bool, code: Option<i32>) -> (r: Result<(), Error>)
    ensures
        match r {
            Ok(_) => success,
            Err(e) => !success && e@ == ErrorView::SyncCommand(match code {
                Some(c) => c,
                None => (-1) as i32,
            }),
        },
{
    if success {
        Ok(())
    } else {
        match code {
            Some(c) => Err(Error::SyncCommand(c)),
            None => Err(Error::SyncCommand(-1)),
        }
    }
}

/// The error for a program that could not be started.
pub fn launch_error(program: &str, cause: &str) -> (r: Error)
    ensures
        r@ == ErrorView::Ssh("failed to launch '"@ + program@ + "': "@ + cause@),
{
    Error::Ssh("failed to launch '".to_string().concat(program).concat("': ").concat(cause))
}

// ── Laws ─────────────────────────────────────────────────────────────────────

/// Whatever the configuration calls a remote path, it is stored under the
/// profile of the user.
pub proof fn law_remote_paths_lie_in_the_profile(s: SyncerView, remote: Seq<char>)
    ensures
        text::has_prefix(s.remote_path(remote), "/profiles/"@ + s.username + "/"@),
{
    let home = "/profiles/"@ + s.username + "/"@;
    assert(s.remote_path(remote).take(home.len() as int) =~= home);
}

/// Leading slashes do not matter in the remote path of the configuration.
pub proof fn law_leading_slashes_do_not_matter(s: SyncerView, remote: Seq<char>)
    ensures
        s.remote_path(seq!['/'] + remote) == s.remote_path(remote),
{
    assert((seq!['/'] + remote).skip(1) =~= remote);
}

/// Every rsync transfer, and every dry run, excludes every built-in pattern,
/// every pattern of the configuration and every pattern of the ignore files.
pub proof fn law_every_rsync_transfer_excludes(
    s: SyncerView,
    sp: SyncPathView,
    dir: Direction,
    mode: Seq<char>,
    delete: bool,
    is_dir: bool,
    global: Option<Seq<char>>,
    local: Option<Seq<char>>,
    home: Option<Seq<char>>,
    pattern: Seq<char>,
)
    requires
        ({
            ||| ignore::builtin_patterns().contains(pattern)
            ||| s.cfg.machine_specific_patterns.contains(pattern)
            ||| ignore::file_patterns(global).contains(pattern)
            ||| ignore::file_patterns(local).contains(pattern)
            ||| s.cfg.exclude_patterns.contains(pattern)
        }),
    ensures
        s.rsync_args(sp, dir, mode, delete, is_dir, s.rules(global, local), home).contains(
            ignore::exclude_option(pattern),
        ),
{
    let rules = s.rules(global, local);
    let args = s.rsync_args(sp, dir, mode, delete, is_dir, rules, home);
    let start = 5 + (if delete {
        1int
    } else {
        0int
    });
    if s.cfg.exclude_patterns.contains(pattern) {
        let own = s.cfg.exclude_patterns;
        let i = choose|i: int| 0 <= i < own.len() && own[i] == pattern;
        assert(args[start + rules.len() + i] == ignore::exclude_option(pattern));
    } else {
        lemma_contained(ignore::builtin_patterns(), s.cfg.machine_specific_patterns, pattern);
        let configured = ignore::builtin_patterns() + s.cfg.machine_specific_patterns;
        lemma_contained(configured, ignore::file_patterns(global), pattern);
        lemma_contained(configured + ignore::file_patterns(global), ignore::file_patterns(local), pattern);
        let i = choose|i: int| 0 <= i < rules.len() && rules[i] == pattern;
        assert(args[start + i] == ignore::exclude_option(pattern));
    }
}

proof fn lemma_contained(a: Seq<Seq<char>>, b: Seq<Seq<char>>, x: Seq<char>)
    ensures
        a.contains(x) || b.contains(x) ==> (a + b).contains(x),
{
    if a.contains(x) {
        let i = choose|i: int| 0 <= i < a.len() && a[i] == x;
        assert((a + b)[i] == x);
    } else if b.contains(x) {
        let i = choose|i: int| 0 <= i < b.len() && b[i] == x;
        assert((a + b)[a.len() + i] == x);
    }
}

/// What scp sends of a directory: a directory or file of it is sent exactly if the
/// rules and the configured patterns do not exclude it.  Where none is excluded,
/// the directory is sent as it is; else it is sent from a copy, into which goes
/// what is not excluded.
pub proof fn law_scp_sends_what_is_not_excluded(
    s: SyncerView,
    sp: SyncPathView,
    contents: ContentsView,
    stage: Seq<char>,
    rules: Seq<Seq<char>>,
    home: Option<Seq<char>>,
    p: Seq<char>,
)
    ensures
        ({
            let local = expanded(sp.local, home);
            let patterns = s.patterns(rules);
            let kept = contents.without(patterns);
            let steps = s.tree_steps(sp, Direction::Push, contents, stage, rules, home);
            &&& kept == contents ==> steps == s.send_steps(sp, local, contents, home) && (contents.files.contains(p)
                ==> !ignore::excluded(patterns, p, false)) && (contents.dirs.contains(p) ==> !ignore::excluded(
                patterns,
                p,
                true,
            ))
            &&& kept != contents ==> {
                &&& steps == staging_steps(local, stage, kept) + s.send_steps(sp, stage, kept, home)
                &&& contents.files.contains(p) ==> (staging_steps(local, stage, kept).contains(
                    staged_file(local, stage, p),
                ) <==> !ignore::excluded(patterns, p, false))
                &&& contents.dirs.contains(p) ==> (kept.dirs.contains(p) <==> !ignore::excluded(patterns, p, true))
            }
        }),
{
    let local = expanded(sp.local, home);
    let patterns = s.patterns(rules);
    let kept = contents.without(patterns);
    let staged = staging_steps(local, stage, kept);
    let step = staged_file(local, stage, p);
    ignore::law_kept_paths(patterns, contents.files, false, p);
    ignore::law_kept_paths(patterns, contents.dirs, true, p);
    if kept.files.contains(p) {
        let i = choose|i: int| 0 <= i < kept.files.len() && kept.files[i] == p;
        assert(staged[1 + kept.dirs.len() + i] == step);
    }
    if staged.contains(step) {
        let i = choose|i: int| 0 <= i < staged.len() && staged[i] == step;
        let k = i - 1 - kept.dirs.len();
        assert(k >= 0);
        assert(staged[i] == staged_file(local, stage, kept.files[k]));
        path::lemma_inside_is_injective(local, kept.files[k], p);
        assert(kept.files.contains(p));
    }
}

/// What scp fetches of a directory: a file of it is fetched exactly if the rules and
/// the configured patterns do not exclude it.  Where nothing is excluded, the
/// directory is fetched as it is; else file by file.
pub proof fn law_scp_fetches_what_is_not_excluded(
    s: SyncerView,
    sp: SyncPathView,
    contents: ContentsView,
    stage: Seq<char>,
    rules: Seq<Seq<char>>,
    home: Option<Seq<char>>,
    p: Seq<char>,
)
    ensures
        ({
            let patterns = s.patterns(rules);
            let kept = contents.without(patterns);
            let steps = s.tree_steps(sp, Direction::Pull, contents, stage, rules, home);
            &&& kept == contents ==> steps == seq![StepView::MakeDir(expanded(sp.local, home))] + s.fetch_steps(
                sp,
                contents,
                home,
            ) && (contents.files.contains(p) ==> !ignore::excluded(patterns, p, false))
            &&& kept != contents ==> (contents.files.contains(p) ==> (steps.contains(s.fetch_file_step(sp, p, home))
                <==> !ignore::excluded(patterns, p, false)))
        }),
{
    let local = expanded(sp.local, home);
    let patterns = s.patterns(rules);
    let kept = contents.without(patterns);
    let steps = s.tree_steps(sp, Direction::Pull, contents, stage, rules, home);
    let step = s.fetch_file_step(sp, p, home);
    ignore::law_kept_paths(patterns, contents.files, false, p);
    if kept != contents {
        let first = 1 + kept.dirs.len();
        if kept.files.contains(p) {
            let i = choose|i: int| 0 <= i < kept.files.len() && kept.files[i] == p;
            assert(steps[first + i] == step);
        }
        if steps.contains(step) {
            let i = choose|i: int| 0 <= i < steps.len() && steps[i] == step;
            let k = i - first;
            assert(k >= 0);
            assert(steps[i] == s.fetch_file_step(sp, kept.files[k], home));
            let at = s.connection_args("-P"@, home).len() + 1;
            assert(step->args[at as int] == path::inside(local, p));
            assert(s.fetch_file_step(sp, kept.files[k], home)->args[at as int] == path::inside(
                local,
                kept.files[k],
            ));
            path::lemma_inside_is_injective(local, kept.files[k], p);
            assert(kept.files.contains(p));
        }
    }
}

/// Nothing that a pattern excludes is transferred, whichever program transfers:
/// rsync is told to exclude every pattern; a file that one of the patterns excludes
/// scp neither sends, neither in the directory nor in a copy of it, nor fetches.
/// The patterns are the built-in ones, those of the configuration and those of the
/// ignore files.
pub proof fn law_every_transfer_excludes(
    s: SyncerView,
    sp: SyncPathView,
    dir: Direction,
    backend: Backend,
    is_dir: bool,
    contents: ContentsView,
    stage: Seq<char>,
    global: Option<Seq<char>>,
    local: Option<Seq<char>>,
    home: Option<Seq<char>>,
    pattern: Seq<char>,
    file: Seq<char>,
)
    requires
        ({
            ||| ignore::builtin_patterns().contains(pattern)
            ||| s.cfg.machine_specific_patterns.contains(pattern)
            ||| ignore::file_patterns(global).contains(pattern)
            ||| ignore::file_patterns(local).contains(pattern)
            ||| s.cfg.exclude_patterns.contains(pattern)
        }),
    ensures
        ({
            let rules = s.rules(global, local);
            let steps = s.transfer_steps(sp, dir, backend, is_dir, contents, stage, rules, home);
            let kept = contents.without(s.patterns(rules));
            let from = expanded(sp.local, home);
            match backend {
                Backend::Rsync => steps.len() == 1 && steps[0]->args.contains(ignore::exclude_option(pattern)),
                Backend::Scp => if is_dir {
                    contents.files.contains(file) && ignore::excluded(seq![pattern], file, false) ==> {
                        &&& kept != contents
                        &&& match dir {
                            Direction::Push => steps == staging_steps(from, stage, kept) + s.send_steps(
                                sp,
                                stage,
                                kept,
                                home,
                            ) && !staging_steps(from, stage, kept).contains(staged_file(from, stage, file)),
                            Direction::Pull => !steps.contains(s.fetch_file_step(sp, file, home)),
                        }
                    }
                } else {
                    ignore::excluded(seq![pattern], s.file_name(sp, dir, home), false) ==> steps.len() == 0
                },
            }
        }),
{
    let rules = s.rules(global, local);
    let patterns = s.patterns(rules);
    match backend {
        Backend::Rsync => {
            law_every_rsync_transfer_excludes(
                s,
                sp,
                dir,
                "--progress"@,
                sp.delete,
                is_dir,
                global,
                local,
                home,
                pattern,
            );
        },
        Backend::Scp => {
            lemma_contained(ignore::builtin_patterns(), s.cfg.machine_specific_patterns, pattern);
            let configured = ignore::builtin_patterns() + s.cfg.machine_specific_patterns;
            lemma_contained(configured, ignore::file_patterns(global), pattern);
            lemma_contained(configured + ignore::file_patterns(global), ignore::file_patterns(local), pattern);
            lemma_contained(rules, s.cfg.exclude_patterns, pattern);
            assert(patterns.contains(pattern));
            if is_dir {
                if contents.files.contains(file) && ignore::excluded(seq![pattern], file, false) {
                    lemma_excluded_by_one(patterns, pattern, file);
                    law_scp_sends_what_is_not_excluded(s, sp, contents, stage, rules, home, file);
                    law_scp_fetches_what_is_not_excluded(s, sp, contents, stage, rules, home, file);
                }
            } else if ignore::excluded(seq![pattern], s.file_name(sp, dir, home), false) {
                lemma_excluded_by_one(patterns, pattern, s.file_name(sp, dir, home));
            }
        },
    }
}

proof fn lemma_excluded_by_one(patterns: Seq<Seq<char>>, pattern: Seq<char>, file: Seq<char>)
    requires
        patterns.contains(pattern),
        ignore::excluded(seq![pattern], file, false),
    ensures
        ignore::excluded(patterns, file, false),
{
    let k = choose|k: int| 0 <= k < patterns.len() && patterns[k] == pattern;
    let before = patterns.take(k);
    let after = patterns.skip(k + 1);
    assert(before + seq![pattern] + after =~= patterns);
    ignore::law_lists_exclude_together(before, seq![pattern], file, false);
    ignore::law_lists_exclude_together(before + seq![pattern], after, file, false);
}

/// A dry run asks rsync for exactly the transfer that would be made: the
/// transfer has `--progress` where the dry run has `--dry-run`, and `--delete`
/// beside it where the path asks for deletions.
pub proof fn law_dry_run_shows_the_transfer(
    s: SyncerView,
    sp: SyncPathView,
    dir: Direction,
    is_dir: bool,
    contents: ContentsView,
    stage: Seq<char>,
    rules: Seq<Seq<char>>,
    home: Option<Seq<char>>,
)
    ensures
        ({
            let shown = s.rsync_args(sp, dir, "--dry-run"@, false, is_dir, rules, home).update(2, "--progress"@);
            s.transfer_steps(sp, dir, Backend::Rsync, is_dir, contents, stage, rules, home) == seq![
                StepView::Run {
                    program: "rsync"@,
                    args: if sp.delete {
                        shown.insert(5, "--delete"@)
                    } else {
                        shown
                    },
                },
            ]
        }),
{
    let shown = s.rsync_args(sp, dir, "--dry-run"@, false, is_dir, rules, home).update(2, "--progress"@);
    let made = s.rsync_args(sp, dir, "--progress"@, sp.delete, is_dir, rules, home);
    if sp.delete {
        assert(made =~= shown.insert(5, "--delete"@));
    } else {
        assert(made =~= shown);
    }
}

/// A pull reads from where a push wrote to, and writes to where the push read
/// from: the contents of a directory come back as its contents, a single file as
/// that file.  So it is with what scp sends and fetches of a directory as a whole.
pub proof fn law_pull_reads_what_push_wrote(
    s: SyncerView,
    sp: SyncPathView,
    home: Option<Seq<char>>,
    is_dir: bool,
    contents: ContentsView,
    k: int,
)
    requires
        0 <= k < contents.children().len(),
    ensures
        ({
            let local = expanded(sp.local, home);
            let written = s.destination(sp, Direction::Push, local, is_dir);
            let read = s.source(sp, Direction::Pull, local, is_dir);
            let back = s.destination(sp, Direction::Pull, local, is_dir);
            &&& written == s.target(s.remote_path(sp.remote))
            &&& if is_dir {
                read == written + "/"@ && back == local + "/"@
            } else {
                read == written && back == local && back == s.source(sp, Direction::Push, local, false)
            }
        }),
        ({
            let local = expanded(sp.local, home);
            let child = contents.children()[k];
            let at = s.connection_args("-P"@, home).len() + 1;
            let sent = s.send_steps(sp, local, contents, home)[0]->args;
            let fetched = s.fetch_steps(sp, contents, home)[0]->args;
            &&& sent[at + k] == path::inside(local, child)
            &&& sent.last() == s.target(s.remote_path(sp.remote))
            &&& fetched[at + k] == s.target(
                setup::backslashed(path::inside(s.remote_path(sp.remote), child)),
            )
            &&& fetched.last() == local
        }),
{
}

/// A push makes a directory of the path on the container only where a directory
/// is pushed; for a single file it makes the directory that the file lies in.
pub proof fn law_single_files_stay_files(
    s: SyncerView,
    sp: SyncPathView,
    backend: Backend,
    remote_is_dir: bool,
    contents: ContentsView,
    stage: Seq<char>,
    rules: Seq<Seq<char>>,
    home: Option<Seq<char>>,
)
    ensures
        ({
            let state = LocalState { present: true, is_dir: false };
            let pushed = s.plan(sp, Direction::Push, backend, state, remote_is_dir, contents, stage, rules, home);
            let remote_path = s.remote_path(sp.remote);
            &&& pushed.steps[0] == s.mkdir_step(path::parent(remote_path), home)
            &&& path::parent(remote_path) != remote_path
            &&& pushed.steps.len() <= 2
            &&& forall|i: int|
                0 < i < pushed.steps.len() ==> {
                    let args = (#[trigger] pushed.steps[i])->args;
                    &&& args[args.len() - 2] == expanded(sp.local, home)
                    &&& args[args.len() - 1] == s.target(remote_path)
                }
        }),
{
    let remote_path = s.remote_path(sp.remote);
    reveal_strlit("/profiles/");
    assert(remote_path.len() > 0);
    lemma_parent_is_shorter(remote_path);
    let state = LocalState { present: true, is_dir: false };
    let pushed = s.plan(sp, Direction::Push, backend, state, remote_is_dir, contents, stage, rules, home);
    let steps = s.transfer_steps(sp, Direction::Push, backend, false, contents, stage, rules, home);
    assert(pushed.steps == seq![s.mkdir_step(path::parent(remote_path), home)] + steps);
    assert forall|i: int| 0 < i < pushed.steps.len() implies {
        let args = (#[trigger] pushed.steps[i])->args;
        &&& args[args.len() - 2] == expanded(sp.local, home)
        &&& args[args.len() - 1] == s.target(remote_path)
    } by {
        assert(pushed.steps[i] == steps[i - 1]);
    }
}

proof fn lemma_parent_is_shorter(p: Seq<char>)
    ensures
        path::last_slash(p) < p.len(),
        p.len() > 0 ==> path::parent(p).len() < p.len(),
    decreases p.len(),
{
    if p.len() > 0 && p.last() != '/' {
        lemma_parent_is_shorter(p.drop_last());
    }
}

/// A push of a path that is not there runs nothing and so cannot fail; any other
/// push searches the path for machine-specific files first.
pub proof fn law_missing_paths_are_skipped(
    s: SyncerView,
    sp: SyncPathView,
    backend: Backend,
    state: LocalState,
    remote_is_dir: bool,
    contents: ContentsView,
    stage: Seq<char>,
    rules: Seq<Seq<char>>,
    home: Option<Seq<char>>,
)
    ensures
        ({
            let pushed = s.plan(sp, Direction::Push, backend, state, remote_is_dir, contents, stage, rules, home);
            &&& pushed.scan <==> state.present
            &&& pushed.steps.len() == 0 <==> !state.present
        }),
{
}

} // verus!
