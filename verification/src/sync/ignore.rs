//! What is never transferred, and what is worth a warning.
//!
//! Three layers of patterns are excluded from a transfer: the built-in
//! machine-specific ones (with those that the configuration adds), the global
//! `syncignore` file and the `.syncignore` file of the synced directory.
//!
//! Before a push, small text files are searched for the name and the id of this
//! machine.  Hits are reported; they are not excluded.

use vstd::prelude::*;
use vstd::string::*;
use vstd::utf8::*;
use crate::path;
use crate::sync::pattern;
use crate::text;

verus! {

// ── Built-in exclusions ──────────────────────────────────────────────────────

/// Patterns that are machine-specific by their very nature.
pub open spec fn builtin_patterns() -> Seq<Seq<char>> {
    seq![
        ".cache/"@,
        "*.log"@,
        "*.pid"@,
        "*.lock"@,
        "*~"@,
        "*.swp"@,
        "*.swo"@,
        "*.tmp"@,
        "monitors.xml"@,
        ".config/monitors.xml"@,
        ".config/xrandr/"@,
        ".local/share/xorg/"@,
        "pulse/*.tdb"@,
        ".config/pulse/*.tdb"@,
        ".config/pipewire/media-session.d/volumes.conf"@,
        "recently-used.xbel"@,
        ".local/share/recently-used.xbel"@,
        ".local/share/gvfs-metadata/"@,
        ".local/share/gnome-shell/"@,
        "tracker/"@,
        ".local/share/tracker/"@,
        ".local/share/baloo/"@,
        ".local/share/networkmanagement/"@,
        "dconf/"@,
        ".config/dconf/user"@,
        ".local/share/thumbnails/"@,
        ".local/share/Trash/"@,
        ".DS_Store"@,
        "Thumbs.db"@,
        "desktop.ini"@,
    ]
}

/// Patterns that are machine-specific by their very nature.
pub fn machine_specific_patterns() -> (r: Vec<String>)
    ensures
        text::strs(r@) == builtin_patterns(),
{
    broadcast use text::lemma_strs_push;

    let mut v: Vec<String> = Vec::new();
    // Caches and temporary files.
    v.push(".cache/".to_string());
    v.push("*.log".to_string());
    v.push("*.pid".to_string());
    v.push("*.lock".to_string());
    v.push("*~".to_string());
    v.push("*.swp".to_string());
    v.push("*.swo".to_string());
    v.push("*.tmp".to_string());
    // Display and hardware.
    v.push("monitors.xml".to_string());
    v.push(".config/monitors.xml".to_string());
    v.push(".config/xrandr/".to_string());
    v.push(".local/share/xorg/".to_string());
    // Audio devices and volumes.
    v.push("pulse/*.tdb".to_string());
    v.push(".config/pulse/*.tdb".to_string());
    v.push(".config/pipewire/media-session.d/volumes.conf".to_string());
    // Session state.
    v.push("recently-used.xbel".to_string());
    v.push(".local/share/recently-used.xbel".to_string());
    v.push(".local/share/gvfs-metadata/".to_string());
    v.push(".local/share/gnome-shell/".to_string());
    // File indexers.
    v.push("tracker/".to_string());
    v.push(".local/share/tracker/".to_string());
    v.push(".local/share/baloo/".to_string());
    // Network and desktop settings.
    v.push(".local/share/networkmanagement/".to_string());
    v.push("dconf/".to_string());
    v.push(".config/dconf/user".to_string());
    // Thumbnails and trash.
    v.push(".local/share/thumbnails/".to_string());
    v.push(".local/share/Trash/".to_string());
    // Noise of other platforms.
    v.push(".DS_Store".to_string());
    v.push("Thumbs.db".to_string());
    v.push("desktop.ini".to_string());
    assert(text::strs(v@) =~= builtin_patterns());
    v
}

// ── Ignore files ─────────────────────────────────────────────────────────────

/// Whether a trimmed line is a pattern: neither blank nor a comment.
pub open spec fn is_pattern(line: Seq<char>) -> bool {
    line.len() > 0 && line[0] != '#'
}

/// The patterns among `lines`, trimmed, in order.
pub open spec fn patterns_in(lines: Seq<Seq<char>>) -> Seq<Seq<char>>
    decreases lines.len(),
{
    if lines.len() == 0 {
        seq![]
    } else {
        let earlier = patterns_in(lines.drop_last());
        let line = text::trimmed(lines.last());
        if is_pattern(line) {
            earlier.push(line)
        } else {
            earlier
        }
    }
}

/// The patterns of an ignore file.
pub open spec fn file_patterns(contents: Option<Seq<char>>) -> Seq<Seq<char>> {
    match contents {
        Some(c) => patterns_in(text::lines_of(c)),
        None => seq![],
    }
}

/// The patterns of an ignore file, given its contents: blank lines and `#`
/// comments are skipped.  Every other line is an exclusion; a `!` at its
/// beginning is a character of the pattern.
pub fn parse_ignore_file(contents: &str) -> (r: Vec<String>)
    ensures
        text::strs(r@) == file_patterns(Some(contents@)),
{
    broadcast use text::lemma_strs_push;

    let lines = text::lines(contents);
    let ghost all = text::strs(lines@);
    let mut out: Vec<String> = Vec::new();
    let mut i: usize = 0;
    assert(text::strs(out@) =~= patterns_in(all.take(0)));
    while i < lines.len()
        invariant
            i <= lines@.len(),
            all == text::strs(lines@),
            text::strs(out@) == patterns_in(all.take(i as int)),
        decreases lines@.len() - i,
    {
        let line = text::trim(lines[i].as_str());
        assert(all.take(i + 1).drop_last() =~= all.take(i as int));
        let cs = text::chars_of(line.as_str());
        if cs.len() > 0 && cs[0] != '#' {
            out.push(line);
        }
        i += 1;
    }
    assert(all.take(all.len() as int) =~= all);
    out
}

/// The global ignore file, beside the configuration file.
pub fn global_ignore_file(config_dir: &str) -> (r: String)
    ensures
        r@ == path::joined(config_dir@, "syncignore"@),
{
    path::join(config_dir, "syncignore")
}

/// The ignore file of a synced directory.
pub fn local_ignore_file(local: &str) -> (r: String)
    ensures
        r@ == path::joined(local@, ".syncignore"@),
{
    path::join(local, ".syncignore")
}

/// Every pattern in an ignore file is trimmed, not blank and no comment, and
/// comes from a line of the file.
pub proof fn law_ignore_file_patterns(contents: Seq<char>, k: int)
    requires
        0 <= k < file_patterns(Some(contents)).len(),
    ensures
        is_pattern(file_patterns(Some(contents))[k]),
        exists|i: int|
            0 <= i < text::lines_of(contents).len() && file_patterns(Some(contents))[k] == text::trimmed(
                #[trigger] text::lines_of(contents)[i],
            ),
{
    lemma_patterns_in(text::lines_of(contents), k);
}

proof fn lemma_patterns_in(lines: Seq<Seq<char>>, k: int)
    requires
        0 <= k < patterns_in(lines).len(),
    ensures
        is_pattern(patterns_in(lines)[k]),
        exists|i: int| 0 <= i < lines.len() && patterns_in(lines)[k] == text::trimmed(#[trigger] lines[i]),
    decreases lines.len(),
{
    if lines.len() > 0 {
        let earlier = patterns_in(lines.drop_last());
        if k < earlier.len() {
            lemma_patterns_in(lines.drop_last(), k);
            let i = choose|i: int|
                0 <= i < lines.drop_last().len() && earlier[k] == text::trimmed(#[trigger] lines.drop_last()[i]);
            assert(lines[i] == lines.drop_last()[i]);
        } else {
            assert(lines[lines.len() - 1] == lines.last());
        }
    }
}

/// No pattern of an ignore file is missed: every line that is neither blank nor a
/// comment once it is trimmed gives its pattern.
pub proof fn law_no_pattern_is_missed(contents: Seq<char>, i: int)
    requires
        0 <= i < text::lines_of(contents).len(),
        is_pattern(text::trimmed(text::lines_of(contents)[i])),
    ensures
        file_patterns(Some(contents)).contains(text::trimmed(text::lines_of(contents)[i])),
{
    lemma_pattern_found(text::lines_of(contents), i);
}

proof fn lemma_pattern_found(lines: Seq<Seq<char>>, i: int)
    requires
        0 <= i < lines.len(),
        is_pattern(text::trimmed(lines[i])),
    ensures
        patterns_in(lines).contains(text::trimmed(lines[i])),
    decreases lines.len(),
{
    let earlier = patterns_in(lines.drop_last());
    let all = patterns_in(lines);
    let p = text::trimmed(lines[i]);
    if i < lines.len() - 1 {
        lemma_pattern_found(lines.drop_last(), i);
        let k = choose|k: int| 0 <= k < earlier.len() && earlier[k] == p;
        assert(all[k] == p);
    } else {
        assert(all[all.len() - 1] == p);
    }
}

// ── Rules of one transfer ────────────────────────────────────────────────────

/// The patterns excluded from one transfer.
#[derive(Debug)]
pub struct IgnoreRules {
    pub patterns: Vec<String>,
}

impl View for IgnoreRules {
    type V = Seq<Seq<char>>;

    open spec fn view(&self) -> Seq<Seq<char>> {
        text::strs(self.patterns@)
    }
}

impl Clone for IgnoreRules {
    fn clone(&self) -> (r: Self)
        ensures
            r@ == self@,
    {
        let mut patterns: Vec<String> = Vec::new();
        text::extend(&mut patterns, &self.patterns);
        assert(text::strs(patterns@) =~= self@);
        IgnoreRules { patterns }
    }
}

impl Default for IgnoreRules {
    /// No patterns at all.
    fn default() -> (r: Self)
        ensures
            r@.len() == 0,
    {
        IgnoreRules { patterns: Vec::new() }
    }
}

/// The rsync option that excludes a pattern.
pub open spec fn exclude_option(pattern: Seq<char>) -> Seq<char> {
    "--exclude="@ + pattern
}

/// The rsync options that exclude `patterns`, in order.
pub open spec fn exclude_options(patterns: Seq<Seq<char>>) -> Seq<Seq<char>> {
    patterns.map_values(|p: Seq<char>| exclude_option(p))
}

/// Appends the rsync options that exclude `patterns`.
pub fn push_exclude_options(args: &mut Vec<String>, patterns: &Vec<String>)
    ensures
        text::strs(final(args)@) == text::strs(old(args)@) + exclude_options(text::strs(patterns@)),
{
    broadcast use text::lemma_strs_push;

    let ghost before = text::strs(args@);
    let ghost all = exclude_options(text::strs(patterns@));
    let mut i: usize = 0;
    assert(before + all.take(0) =~= before);
    while i < patterns.len()
        invariant
            i <= patterns@.len(),
            all == exclude_options(text::strs(patterns@)),
            text::strs(args@) == before + all.take(i as int),
        decreases patterns@.len() - i,
    {
        args.push("--exclude=".to_string().concat(patterns[i].as_str()));
        assert((before + all.take(i as int)).push(all[i as int]) =~= before + all.take(i + 1));
        i += 1;
    }
    assert(all.take(all.len() as int) =~= all);
}

impl IgnoreRules {
    /// The rules of one transfer: the built-in patterns, those that the
    /// configuration adds, those of the global ignore file and those of the
    /// ignore file of the synced directory.  A file that is absent or cannot be
    /// read is `None`.
    pub fn load(extra_patterns: &Vec<String>, global: Option<&str>, local: Option<&str>) -> (r: IgnoreRules)
        ensures
            r@ == builtin_patterns() + text::strs(extra_patterns@) + file_patterns(text::opt_ref(global))
                + file_patterns(text::opt_ref(local)),
    {
        let mut patterns = machine_specific_patterns();
        text::extend(&mut patterns, extra_patterns);
        if let Some(contents) = global {
            let more = parse_ignore_file(contents);
            text::extend(&mut patterns, &more);
        }
        assert(text::strs(patterns@) =~= builtin_patterns() + text::strs(extra_patterns@) + file_patterns(
            text::opt_ref(global),
        ));
        if let Some(contents) = local {
            let more = parse_ignore_file(contents);
            text::extend(&mut patterns, &more);
        }
        assert(text::strs(patterns@) =~= builtin_patterns() + text::strs(extra_patterns@) + file_patterns(
            text::opt_ref(global),
        ) + file_patterns(text::opt_ref(local)));
        IgnoreRules { patterns }
    }

    /// The rsync options that exclude the patterns.
    pub fn to_rsync_args(&self) -> (r: Vec<String>)
        ensures
            text::strs(r@) == exclude_options(self@),
    {
        let mut args: Vec<String> = Vec::new();
        push_exclude_options(&mut args, &self.patterns);
        assert(text::strs(args@) =~= exclude_options(self@));
        args
    }
}

// ── Excluded files ───────────────────────────────────────────────────────────

/// Whether one of the patterns covers a path, given from the root of the
/// transfer.
pub open spec fn is_covered(patterns: Seq<Seq<char>>, relative: Seq<char>, is_dir: bool) -> bool {
    exists|k: int| 0 <= k < patterns.len() && pattern::covers(#[trigger] patterns[k], relative, is_dir)
}

/// Whether the patterns exclude a path, given from the root of the transfer: one
/// of them covers it or a directory that it lies in.
pub open spec fn excluded(patterns: Seq<Seq<char>>, relative: Seq<char>, is_dir: bool) -> bool {
    ||| is_covered(patterns, relative, is_dir)
    ||| exists|i: int|
        0 <= i < relative.len() && relative[i] == '/' && #[trigger] is_covered(patterns, relative.take(i), true)
}

/// The paths that the patterns do not exclude, in order; they are all
/// directories, or all files.
pub open spec fn kept(patterns: Seq<Seq<char>>, paths: Seq<Seq<char>>, is_dir: bool) -> Seq<Seq<char>>
    decreases paths.len(),
{
    if paths.len() == 0 {
        seq![]
    } else {
        let earlier = kept(patterns, paths.drop_last(), is_dir);
        if excluded(patterns, paths.last(), is_dir) {
            earlier
        } else {
            earlier.push(paths.last())
        }
    }
}

fn covers_one(patterns: &Vec<String>, relative: &str, is_dir: bool) -> (r: bool)
    ensures
        r == is_covered(text::strs(patterns@), relative@, is_dir),
{
    let ghost all = text::strs(patterns@);
    let mut k: usize = 0;
    while k < patterns.len()
        invariant
            k <= patterns@.len(),
            all == text::strs(patterns@),
            forall|j: int| 0 <= j < k ==> !pattern::covers(#[trigger] all[j], relative@, is_dir),
        decreases patterns@.len() - k,
    {
        assert(all[k as int] == patterns@[k as int]@);
        if pattern::covers_path(patterns[k].as_str(), relative, is_dir) {
            return true;
        }
        k += 1;
    }
    false
}

/// Whether the patterns exclude a path, given from the root of the transfer.
pub fn is_excluded(patterns: &Vec<String>, relative: &str, is_dir: bool) -> (r: bool)
    ensures
        r == excluded(text::strs(patterns@), relative@, is_dir),
{
    if covers_one(patterns, relative, is_dir) {
        return true;
    }
    let cs = text::chars_of(relative);
    let mut i: usize = 0;
    while i < cs.len()
        invariant
            i <= cs@.len(),
            cs@ == relative@,
            forall|j: int|
                0 <= j < i && relative@[j] == '/' ==> !#[trigger] is_covered(
                    text::strs(patterns@),
                    relative@.take(j),
                    true,
                ),
        decreases cs@.len() - i,
    {
        if cs[i] == '/' {
            let dir = text::string_of(&cs, 0, i);
            assert(dir@ =~= relative@.take(i as int));
            if covers_one(patterns, dir.as_str(), true) {
                return true;
            }
        }
        i += 1;
    }
    false
}

/// The paths that the patterns do not exclude, in order.
pub fn keep(patterns: &Vec<String>, paths: &Vec<String>, is_dir: bool) -> (r: Vec<String>)
    ensures
        text::strs(r@) == kept(text::strs(patterns@), text::strs(paths@), is_dir),
{
    broadcast use text::lemma_strs_push;

    let ghost all = text::strs(paths@);
    let mut out: Vec<String> = Vec::new();
    let mut i: usize = 0;
    assert(text::strs(out@) =~= kept(text::strs(patterns@), all.take(0), is_dir));
    while i < paths.len()
        invariant
            i <= paths@.len(),
            all == text::strs(paths@),
            text::strs(out@) == kept(text::strs(patterns@), all.take(i as int), is_dir),
        decreases paths@.len() - i,
    {
        assert(all.take(i + 1).drop_last() =~= all.take(i as int));
        assert(all[i as int] == paths@[i as int]@);
        if !is_excluded(patterns, paths[i].as_str(), is_dir) {
            out.push(paths[i].clone());
        }
        i += 1;
    }
    assert(all.take(all.len() as int) =~= all);
    out
}

/// A path is kept exactly if it is among the paths and not excluded.
pub proof fn law_kept_paths(patterns: Seq<Seq<char>>, paths: Seq<Seq<char>>, is_dir: bool, p: Seq<char>)
    ensures
        kept(patterns, paths, is_dir).contains(p) <==> paths.contains(p) && !excluded(patterns, p, is_dir),
    decreases paths.len(),
{
    if paths.len() > 0 {
        let fewer = paths.drop_last();
        let earlier = kept(patterns, fewer, is_dir);
        law_kept_paths(patterns, fewer, is_dir, p);
        if paths.contains(p) {
            let i = choose|i: int| 0 <= i < paths.len() && paths[i] == p;
            if i < fewer.len() {
                assert(fewer[i] == p);
            }
        }
        if fewer.contains(p) {
            let i = choose|i: int| 0 <= i < fewer.len() && fewer[i] == p;
            assert(paths[i] == p);
        }
        assert(paths[paths.len() - 1] == paths.last());
        if earlier.contains(p) {
            let i = choose|i: int| 0 <= i < earlier.len() && earlier[i] == p;
            assert(earlier.push(paths.last())[i] == p);
        }
        if !excluded(patterns, paths.last(), is_dir) {
            let all = kept(patterns, paths, is_dir);
            assert(earlier.push(paths.last())[earlier.len() as int] == paths.last());
            if all.contains(p) && p != paths.last() {
                let i = choose|i: int| 0 <= i < all.len() && all[i] == p;
                assert(earlier[i] == p);
            }
        }
    }
}

/// Where no path is left out, all are kept as they are.
pub proof fn lemma_kept_whole(patterns: Seq<Seq<char>>, paths: Seq<Seq<char>>, is_dir: bool)
    ensures
        kept(patterns, paths, is_dir).len() <= paths.len(),
        kept(patterns, paths, is_dir).len() == paths.len() ==> kept(patterns, paths, is_dir) == paths,
    decreases paths.len(),
{
    if paths.len() > 0 {
        lemma_kept_whole(patterns, paths.drop_last(), is_dir);
        assert(paths.drop_last().push(paths.last()) =~= paths);
    } else {
        assert(kept(patterns, paths, is_dir) =~= paths);
    }
}

/// Two lists of patterns together exclude a path exactly if one of them does.
pub proof fn law_lists_exclude_together(
    patterns: Seq<Seq<char>>,
    more: Seq<Seq<char>>,
    relative: Seq<char>,
    is_dir: bool,
)
    ensures
        excluded(patterns + more, relative, is_dir) <==> excluded(patterns, relative, is_dir) || excluded(
            more,
            relative,
            is_dir,
        ),
{
    lemma_covered_concat(patterns, more, relative, is_dir);
    assert forall|i: int| 0 <= i < relative.len() && relative[i] == '/' implies #[trigger] is_covered(
        patterns + more,
        relative.take(i),
        true,
    ) == (is_covered(patterns, relative.take(i), true) || is_covered(more, relative.take(i), true)) by {
        lemma_covered_concat(patterns, more, relative.take(i), true);
    }
    if exists|i: int|
        0 <= i < relative.len() && relative[i] == '/' && #[trigger] is_covered(patterns, relative.take(i), true) {
        let i = choose|i: int|
            0 <= i < relative.len() && relative[i] == '/' && #[trigger] is_covered(patterns, relative.take(i), true);
        assert(is_covered(patterns + more, relative.take(i), true));
    }
    if exists|i: int|
        0 <= i < relative.len() && relative[i] == '/' && #[trigger] is_covered(more, relative.take(i), true) {
        let i = choose|i: int|
            0 <= i < relative.len() && relative[i] == '/' && #[trigger] is_covered(more, relative.take(i), true);
        assert(is_covered(patterns + more, relative.take(i), true));
    }
}

proof fn lemma_covered_concat(a: Seq<Seq<char>>, b: Seq<Seq<char>>, relative: Seq<char>, is_dir: bool)
    ensures
        is_covered(a + b, relative, is_dir) == (is_covered(a, relative, is_dir) || is_covered(b, relative, is_dir)),
{
    let ab = a + b;
    if is_covered(a, relative, is_dir) {
        let k = choose|k: int| 0 <= k < a.len() && pattern::covers(#[trigger] a[k], relative, is_dir);
        assert(ab[k] == a[k]);
    }
    if is_covered(b, relative, is_dir) {
        let k = choose|k: int| 0 <= k < b.len() && pattern::covers(#[trigger] b[k], relative, is_dir);
        assert(ab[a.len() + k] == b[k]);
    }
    if is_covered(ab, relative, is_dir) {
        let k = choose|k: int| 0 <= k < ab.len() && pattern::covers(#[trigger] ab[k], relative, is_dir);
        if k < a.len() {
            assert(a[k] == ab[k]);
        } else {
            assert(b[k - a.len()] == ab[k]);
        }
    }
}

/// What lies in an excluded directory is excluded.
pub proof fn law_excluded_directories_hide_their_contents(
    patterns: Seq<Seq<char>>,
    dir: Seq<char>,
    inner: Seq<char>,
    is_dir: bool,
)
    requires
        excluded(patterns, dir, true),
    ensures
        excluded(patterns, dir + seq!['/'] + inner, is_dir),
{
    let whole = dir + seq!['/'] + inner;
    if is_covered(patterns, dir, true) {
        assert(whole.take(dir.len() as int) =~= dir);
        assert(whole[dir.len() as int] == '/');
        assert(is_covered(patterns, whole.take(dir.len() as int), true));
    } else {
        let i = choose|i: int|
            0 <= i < dir.len() && dir[i] == '/' && #[trigger] is_covered(patterns, dir.take(i), true);
        assert(whole.take(i) =~= dir.take(i));
        assert(whole[i] == '/');
        assert(is_covered(patterns, whole.take(i), true));
    }
}

/// A pattern that is a plain name followed by a slash excludes all that lies in
/// directories of that name, wherever they stand.
pub proof fn law_named_directories_are_excluded(
    patterns: Seq<Seq<char>>,
    name: Seq<char>,
    before: Seq<char>,
    inner: Seq<char>,
    is_dir: bool,
)
    requires
        pattern::is_plain(name),
        name.len() > 0,
        !name.contains('/'),
        patterns.contains(name.push('/')),
    ensures
        excluded(patterns, name + seq!['/'] + inner, is_dir),
        excluded(patterns, before + seq!['/'] + name + seq!['/'] + inner, is_dir),
{
    let k = choose|k: int| 0 <= k < patterns.len() && patterns[k] == name.push('/');
    pattern::law_plain_names_cover_wherever_they_stand(before, name, true);
    assert(pattern::covers(patterns[k], name, true));
    law_excluded_directories_hide_their_contents(patterns, name, inner, is_dir);
    assert(pattern::covers(patterns[k], before + seq!['/'] + name, true));
    law_excluded_directories_hide_their_contents(patterns, before + seq!['/'] + name, inner, is_dir);
}

/// A pattern that is a plain name excludes the files of that name, wherever they
/// stand.
pub proof fn law_named_files_are_excluded(
    patterns: Seq<Seq<char>>,
    name: Seq<char>,
    before: Seq<char>,
    is_dir: bool,
)
    requires
        pattern::is_plain(name),
        name.len() > 0,
        !name.contains('/'),
        patterns.contains(name),
    ensures
        excluded(patterns, name, is_dir),
        excluded(patterns, before + seq!['/'] + name, is_dir),
{
    let k = choose|k: int| 0 <= k < patterns.len() && patterns[k] == name;
    pattern::law_plain_names_cover_wherever_they_stand(before, name, is_dir);
    assert(pattern::covers(patterns[k], name, is_dir));
    assert(pattern::covers(patterns[k], before + seq!['/'] + name, is_dir));
}

/// A pattern that is a star and a plain ending excludes the files whose names end
/// so, wherever they stand.
pub proof fn law_named_endings_are_excluded(
    patterns: Seq<Seq<char>>,
    start: Seq<char>,
    ending: Seq<char>,
    before: Seq<char>,
    is_dir: bool,
)
    requires
        pattern::is_plain(ending),
        ending.len() > 0,
        !start.contains('/'),
        !ending.contains('/'),
        patterns.contains(seq!['*'] + ending),
    ensures
        excluded(patterns, start + ending, is_dir),
        excluded(patterns, before + seq!['/'] + (start + ending), is_dir),
{
    let star = seq!['*'] + ending;
    let name = start + ending;
    let whole = before + seq!['/'] + name;
    let k = choose|k: int| 0 <= k < patterns.len() && patterns[k] == star;
    pattern::law_star_describes_endings(ending, name);
    assert(name.skip(start.len() as int) =~= ending);
    assert forall|i: int| 0 <= i < start.len() implies name[i] != '/' by {
        assert(start.contains(start[i]));
    }
    assert(star[0] == '*');
    assert(star.contains('*'));
    assert(pattern::describes(star, name));
    assert(ending.contains(ending.last()));
    assert(star.last() == ending.last());
    assert(name.skip(0) =~= name);
    assert(pattern::begins_component(name, 0));
    assert(pattern::stands_for(star, name.skip(0)));
    assert(pattern::covers(patterns[k], name, is_dir));
    let at = before.len() + 1;
    assert(whole.skip(at as int) =~= name);
    assert(whole[at - 1] == '/');
    assert(pattern::begins_component(whole, at as int));
    assert(pattern::stands_for(star, whole.skip(at as int)));
    assert(pattern::covers(patterns[k], whole, is_dir));
}

/// Whatever the rules of a transfer add, the monitor layout, the recent documents
/// and all that lies in the directories of the file indexer, of `dconf` and of the
/// caches stay on the machine, wherever the transfer begins.
pub proof fn law_machine_files_stay(rules: Seq<Seq<char>>, name: Seq<char>, before: Seq<char>, inner: Seq<char>)
    requires
        builtin_patterns().is_prefix_of(rules),
    ensures
        name == "monitors.xml"@ || name == "recently-used.xbel"@ ==> excluded(rules, name, false) && excluded(
            rules,
            before + seq!['/'] + name,
            false,
        ),
        name == "tracker"@ || name == "dconf"@ || name == ".cache"@ ==> excluded(
            rules,
            name + seq!['/'] + inner,
            false,
        ) && excluded(rules, before + seq!['/'] + name + seq!['/'] + inner, false),
{
    reveal_strlit("monitors.xml");
    reveal_strlit("recently-used.xbel");
    reveal_strlit("tracker");
    reveal_strlit("tracker/");
    reveal_strlit("dconf");
    reveal_strlit("dconf/");
    reveal_strlit(".cache");
    reveal_strlit(".cache/");
    let own = builtin_patterns();
    assert(own[0] == ".cache/"@ && own[8] == "monitors.xml"@ && own[15] == "recently-used.xbel"@);
    assert(own[19] == "tracker/"@ && own[23] == "dconf/"@);
    assert forall|i: int| 0 <= i < own.len() implies own[i] == #[trigger] rules[i] by {
        assert(rules.take(own.len() as int)[i] == rules[i]);
    }
    assert(rules[0] == own[0] && rules[8] == own[8] && rules[15] == own[15]);
    assert(rules[19] == own[19] && rules[23] == own[23]);
    law_named_files_are_excluded(rules, "monitors.xml"@, before, false);
    law_named_files_are_excluded(rules, "recently-used.xbel"@, before, false);
    assert("tracker"@.push('/') =~= "tracker/"@);
    assert("dconf"@.push('/') =~= "dconf/"@);
    assert(".cache"@.push('/') =~= ".cache/"@);
    law_named_directories_are_excluded(rules, "tracker"@, before, inner, false);
    law_named_directories_are_excluded(rules, "dconf"@, before, inner, false);
    law_named_directories_are_excluded(rules, ".cache"@, before, inner, false);
}

// ── Machine fingerprint ──────────────────────────────────────────────────────

/// The name and the id of this machine, given what the system files that hold
/// them contain; empty where a file cannot be read.
pub fn machine_fingerprint(hostname: Option<&str>, machine_id: Option<&str>) -> (r: (String, String))
    ensures
        r.0@ == fingerprint_part(text::opt_ref(hostname)),
        r.1@ == fingerprint_part(text::opt_ref(machine_id)),
{
    let h = match hostname {
        Some(s) => text::trim(s),
        None => String::new(),
    };
    let m = match machine_id {
        Some(s) => text::trim(s),
        None => String::new(),
    };
    (h, m)
}

pub open spec fn fingerprint_part(contents: Option<Seq<char>>) -> Seq<char> {
    match contents {
        Some(s) => text::trimmed(s),
        None => seq![],
    }
}

/// Files larger than this are not searched.
pub const MAX_SCAN_BYTES: u64 = 65536;

/// `std::str::from_utf8`: the text that the bytes encode, if they are valid
/// UTF-8.
#[verifier::external_body]
fn utf8_text(bytes: &[u8]) -> (r: Option<&str>)
    ensures
        r is Some <==> valid_utf8(bytes@),
        r matches Some(s) ==> s.spec_bytes() == bytes@,
{
    std::str::from_utf8(bytes).ok()
}

/// Whether a file of the given size and contents is a small text that holds the
/// name or the id of the machine.
pub open spec fn has_fingerprint(
    size: Option<u64>,
    bytes: Option<Seq<u8>>,
    hostname: Seq<char>,
    machine_id: Seq<char>,
) -> bool {
    match (size, bytes) {
        (Some(n), Some(b)) => {
            &&& n <= MAX_SCAN_BYTES
            &&& valid_utf8(b)
            &&& {
                ||| hostname.len() > 0 && text::occurs(decode_utf8(b), hostname)
                ||| machine_id.len() > 0 && text::occurs(decode_utf8(b), machine_id)
            }
        },
        _ => false,
    }
}

/// Whether a file of the given size is small enough to be searched.
pub fn is_searchable(size: Option<u64>) -> (r: bool)
    ensures
        r == (size matches Some(n) && n <= MAX_SCAN_BYTES),
{
    match size {
        Some(n) => n <= MAX_SCAN_BYTES,
        None => false,
    }
}

pub open spec fn bytes_view(bytes: Option<Vec<u8>>) -> Option<Seq<u8>> {
    match bytes {
        Some(b) => Some(b@),
        None => None,
    }
}

/// Whether a file of the given size and contents is a small text that holds the
/// name or the id of the machine.  What could not be determined is `None`.
pub fn contains_fingerprint(
    size: Option<u64>,
    bytes: &Option<Vec<u8>>,
    hostname: &str,
    machine_id: &str,
) -> (r: bool)
    ensures
        r == has_fingerprint(size, bytes_view(*bytes), hostname@, machine_id@),
{
    broadcast use encode_utf8_decode_utf8;

    if !is_searchable(size) {
        return false;
    }
    match bytes {
        Some(b) => match utf8_text(b.as_slice()) {
            Some(t) => {
                assert(t@ == decode_utf8(b@)) by {
                    assert(decode_utf8(encode_utf8(t@)) == t@);
                }
                (!hostname.is_empty() && text::contains(t, hostname)) || (!machine_id.is_empty() && text::contains(
                    t,
                    machine_id,
                ))
            },
            None => false,
        },
        None => false,
    }
}

// ── Searching a directory ────────────────────────────────────────────────────

/// What a directory entry is, symbolic links followed.
#[derive(Debug, Clone, Copy, PartialEq, Eq, Structural)]
pub enum EntryKind {
    Dir,
    File,
    Other,
}

/// A directory entry.
#[derive(Debug)]
pub struct Entry {
    pub path: String,
    /// The last component of the path; empty where it is not valid text.
    pub name: String,
    pub kind: EntryKind,
}

/// The mathematical content of an [`Entry`].
pub ghost struct EntryView {
    pub path: Seq<char>,
    pub name: Seq<char>,
    pub kind: EntryKind,
}

impl View for Entry {
    type V = EntryView;

    open spec fn view(&self) -> EntryView {
        EntryView { path: self.path@, name: self.name@, kind: self.kind }
    }
}

/// Whether a directory of this name is left out of the search.
pub open spec fn is_noisy(name: Seq<char>) -> bool {
    ||| name == ".cache"@
    ||| name == ".git"@
    ||| name == ".local"@
    ||| name == "node_modules"@
    ||| name == "__pycache__"@
}

/// Whether a directory of this name is left out of the search.
pub fn is_noisy_dir(name: &str) -> (r: bool)
    ensures
        r == is_noisy(name@),
{
    text::str_eq(name, ".cache") || text::str_eq(name, ".git") || text::str_eq(name, ".local") || text::str_eq(
        name,
        "node_modules",
    ) || text::str_eq(name, "__pycache__")
}

/// A search in progress.
#[derive(Debug)]
pub struct Scan {
    hostname: String,
    machine_id: String,
    /// Entries still to visit; the last one comes next.
    pending: Vec<Entry>,
    found: Vec<String>,
}

/// What a search needs next.
#[derive(Debug)]
pub enum ScanStep {
    /// The entries of this directory, to be handed to [`Scan::listed`].
    List(String),
    /// The size and contents of this file, to be handed to [`Scan::inspected`].
    Read(String),
    /// Nothing: the search is over.
    Finished,
}

/// The mathematical content of a [`ScanStep`].
pub ghost enum ScanStepView {
    List(Seq<char>),
    Read(Seq<char>),
    Finished,
}

impl View for ScanStep {
    type V = ScanStepView;

    open spec fn view(&self) -> ScanStepView {
        match self {
            ScanStep::List(p) => ScanStepView::List(p@),
            ScanStep::Read(p) => ScanStepView::Read(p@),
            ScanStep::Finished => ScanStepView::Finished,
        }
    }
}

/// The mathematical content of a [`Scan`]: `pending` is in visiting order.
pub ghost struct ScanView {
    pub hostname: Seq<char>,
    pub machine_id: Seq<char>,
    pub pending: Seq<EntryView>,
    pub found: Seq<Seq<char>>,
}

spec fn in_order(v: Seq<Entry>) -> Seq<EntryView> {
    Seq::new(v.len(), |i: int| v[v.len() - 1 - i]@)
}

impl View for Scan {
    type V = ScanView;

    closed spec fn view(&self) -> ScanView {
        ScanView {
            hostname: self.hostname@,
            machine_id: self.machine_id@,
            pending: in_order(self.pending@),
            found: text::strs(self.found@),
        }
    }
}

/// Whether an entry is visited at all.
pub open spec fn is_visited(e: EntryView) -> bool {
    e.kind == EntryKind::File || (e.kind == EntryKind::Dir && !is_noisy(e.name))
}

/// `pending` from its first visited entry on.
pub open spec fn skip_unvisited(pending: Seq<EntryView>) -> Seq<EntryView>
    decreases pending.len(),
{
    if pending.len() == 0 || is_visited(pending[0]) {
        pending
    } else {
        skip_unvisited(pending.skip(1))
    }
}

impl ScanView {
    /// The search of `root`, which is a directory, a file or something else.
    pub open spec fn of(root: Seq<char>, kind: EntryKind, hostname: Seq<char>, machine_id: Seq<char>) -> ScanView {
        ScanView {
            hostname,
            machine_id,
            pending: if hostname.len() == 0 && machine_id.len() == 0 {
                seq![]
            } else {
                seq![EntryView { path: root, name: seq![], kind }]
            },
            found: seq![],
        }
    }

    /// What the search needs next.
    pub open spec fn step(self) -> ScanStepView {
        let rest = skip_unvisited(self.pending);
        if rest.len() == 0 {
            ScanStepView::Finished
        } else if rest[0].kind == EntryKind::Dir {
            ScanStepView::List(rest[0].path)
        } else {
            ScanStepView::Read(rest[0].path)
        }
    }

    /// The search once it has said what it needs next.
    pub open spec fn advanced(self) -> ScanView {
        let rest = skip_unvisited(self.pending);
        ScanView {
            pending: if rest.len() == 0 {
                seq![]
            } else {
                rest.skip(1)
            },
            ..self
        }
    }

    /// The search once it has been given the entries of a directory.
    pub open spec fn listed(self, entries: Seq<EntryView>) -> ScanView {
        ScanView { pending: entries + self.pending, ..self }
    }

    /// The search once it has been given the size and contents of a file.
    pub open spec fn inspected(self, file: Seq<char>, size: Option<u64>, bytes: Option<Seq<u8>>) -> ScanView {
        ScanView {
            found: if has_fingerprint(size, bytes, self.hostname, self.machine_id) {
                self.found.push(file)
            } else {
                self.found
            },
            ..self
        }
    }
}

/// Begins the search of a file, or of a directory with all that it holds, for
/// files that hold the name or the id of this machine.  The search asks for one directory listing or file at a time
/// ([`Scan::next_step`]); once it is finished, [`Scan::into_found`] gives the
/// files.
pub fn find_machine_specific_files(root: &str, kind: EntryKind, hostname: &str, machine_id: &str) -> (r: Scan)
    ensures
        r@ == ScanView::of(root@, kind, hostname@, machine_id@),
{
    let mut pending: Vec<Entry> = Vec::new();
    if !(hostname.is_empty() && machine_id.is_empty()) {
        pending.push(Entry { path: root.to_string(), name: String::new(), kind });
    }
    let found: Vec<String> = Vec::new();
    let r = Scan { hostname: hostname.to_string(), machine_id: machine_id.to_string(), pending, found };
    assert(text::strs(r.found@) =~= seq![]);
    assert(r@.pending =~= ScanView::of(root@, kind, hostname@, machine_id@).pending);
    r
}

impl Scan {
    /// What the search needs next.
    pub fn next_step(&mut self) -> (r: ScanStep)
        ensures
            r@ == old(self)@.step(),
            final(self)@ == old(self)@.advanced(),
    {
        let ghost before = self@;
        loop
            invariant
                before == old(self)@,
                self@.hostname == before.hostname,
                self@.machine_id == before.machine_id,
                self@.found == before.found,
                skip_unvisited(self@.pending) == skip_unvisited(before.pending),
            decreases self.pending@.len(),
        {
            let ghost now = self.pending@;
            match self.pending.pop() {
                None => {
                    assert(self@.pending =~= seq![]);
                    return ScanStep::Finished;
                },
                Some(e) => {
                    assert(in_order(now)[0] == e@);
                    assert(in_order(now).skip(1) =~= in_order(self.pending@));
                    match e.kind {
                        EntryKind::Dir => {
                            if !is_noisy_dir(e.name.as_str()) {
                                return ScanStep::List(e.path);
                            }
                        },
                        EntryKind::File => {
                            return ScanStep::Read(e.path);
                        },
                        EntryKind::Other => {},
                    }
                },
            }
        }
    }

    /// Takes the entries of the directory that was asked for, in the order in
    /// which they are to be visited; none where it cannot be listed.
    pub fn listed(&mut self, entries: Vec<Entry>)
        ensures
            final(self)@ == old(self)@.listed(entries_view(entries@)),
    {
        let mut left = entries;
        let ghost all = entries_view(entries@);
        let ghost before = self@;
        assert(left@.take(left@.len() as int) =~= left@);
        while left.len() > 0
            invariant
                left@.len() <= all.len(),
                all == entries_view(entries@),
                left@ == entries@.take(left@.len() as int),
                self@.hostname == before.hostname,
                self@.machine_id == before.machine_id,
                self@.found == before.found,
                self@.pending =~= all.skip(left@.len() as int) + before.pending,
            decreases left@.len(),
        {
            let ghost n = left@.len();
            let ghost was = self.pending@;
            if let Some(e) = left.pop() {
                assert(e@ == all[n - 1]);
                self.pending.push(e);
                assert(in_order(self.pending@) =~= seq![e@] + in_order(was));
                assert(all.skip(n - 1) =~= seq![all[n - 1]] + all.skip(n as int));
            }
        }
        assert(all.skip(0) =~= all);
    }

    /// Takes the size and the contents of the file that was asked for; `None`
    /// for what could not be read.
    pub fn inspected(&mut self, file: String, size: Option<u64>, bytes: &Option<Vec<u8>>)
        ensures
            final(self)@ == old(self)@.inspected(file@, size, bytes_view(*bytes)),
    {
        broadcast use text::lemma_strs_push;

        if contains_fingerprint(size, bytes, self.hostname.as_str(), self.machine_id.as_str()) {
            self.found.push(file);
        }
    }

    /// The files found so far, in the order in which they were visited.
    pub fn into_found(self) -> (r: Vec<String>)
        ensures
            text::strs(r@) == self@.found,
    {
        self.found
    }
}

/// The contents of a list of entries.
pub open spec fn entries_view(v: Seq<Entry>) -> Seq<EntryView> {
    v.map_values(|e: Entry| e@)
}

/// A file tree.
pub ghost enum Node {
    Dir { path: Seq<char>, name: Seq<char>, entries: Seq<Node> },
    File { path: Seq<char>, name: Seq<char>, size: Option<u64>, bytes: Option<Seq<u8>> },
    Other { path: Seq<char>, name: Seq<char> },
}

impl Node {
    /// The node as a directory entry.
    pub open spec fn entry(self) -> EntryView {
        match self {
            Node::Dir { path, name, .. } => EntryView { path, name, kind: EntryKind::Dir },
            Node::File { path, name, .. } => EntryView { path, name, kind: EntryKind::File },
            Node::Other { path, name } => EntryView { path, name, kind: EntryKind::Other },
        }
    }

    /// The files in the tree that hold the fingerprint, directory by directory,
    /// noisy directories left out.
    pub open spec fn flagged(self, hostname: Seq<char>, machine_id: Seq<char>) -> Seq<Seq<char>>
        decreases self,
    {
        match self {
            Node::Dir { name, entries, .. } => if is_noisy(name) {
                seq![]
            } else {
                flagged_all(entries, hostname, machine_id)
            },
            Node::File { path, size, bytes, .. } => if has_fingerprint(size, bytes, hostname, machine_id) {
                seq![path]
            } else {
                seq![]
            },
            Node::Other { .. } => seq![],
        }
    }
}

/// The files in the trees that hold the fingerprint.
pub open spec fn flagged_all(nodes: Seq<Node>, hostname: Seq<char>, machine_id: Seq<char>) -> Seq<Seq<char>>
    decreases nodes,
{
    if nodes.len() == 0 {
        seq![]
    } else {
        nodes[0].flagged(hostname, machine_id) + flagged_all(
            nodes.subrange(1, nodes.len() as int),
            hostname,
            machine_id,
        )
    }
}

/// The nodes as directory entries.
pub open spec fn entries_of(nodes: Seq<Node>) -> Seq<EntryView> {
    nodes.map_values(|n: Node| n.entry())
}

/// What a search will have found in the end, if `nodes` is what it has still to
/// visit.
pub open spec fn outcome(scan: ScanView, nodes: Seq<Node>) -> Seq<Seq<char>> {
    scan.found + flagged_all(nodes, scan.hostname, scan.machine_id)
}

/// The number of nodes in the tree.
pub open spec fn size_of_tree(node: Node) -> nat
    decreases node,
{
    match node {
        Node::Dir { entries, .. } => 1 + size_of_trees(entries),
        _ => 1,
    }
}

/// The number of nodes in the trees.
pub open spec fn size_of_trees(nodes: Seq<Node>) -> nat
    decreases nodes,
{
    if nodes.len() == 0 {
        0
    } else {
        size_of_tree(nodes[0]) + size_of_trees(nodes.subrange(1, nodes.len() as int))
    }
}

proof fn lemma_size_concat(a: Seq<Node>, b: Seq<Node>)
    ensures
        size_of_trees(a + b) == size_of_trees(a) + size_of_trees(b),
    decreases a.len(),
{
    if a.len() == 0 {
        assert(a + b =~= b);
    } else {
        let rest = a.subrange(1, a.len() as int);
        lemma_size_concat(rest, b);
        assert((a + b)[0] == a[0]);
        assert((a + b).subrange(1, (a + b).len() as int) =~= rest + b);
    }
}

/// Every step of a search over a fixed file tree keeps its outcome and brings it
/// nearer to its end, and a finished search has found exactly its outcome.  With
/// [`law_search_begins_at_the_root`]: whatever the tree, a search ends with
/// exactly the flagged files, in the order of the tree.
///
/// Given a search and the nodes that it has still to visit, the step that it
/// asks for is about one of them, `told.0`; `told.1` are the nodes that it has
/// still to visit once it knows that node's entries or contents.
pub proof fn law_search_is_exact(scan: ScanView, nodes: Seq<Node>) -> (told: (Node, Seq<Node>))
    requires
        scan.pending == entries_of(nodes),
    ensures
        scan.step() != ScanStepView::Finished ==> nodes.contains(told.0) && size_of_trees(told.1) < size_of_trees(
            nodes,
        ),
        match scan.step() {
            ScanStepView::Finished => outcome(scan, nodes) == scan.found,
            ScanStepView::List(dir) => {
                &&& told.0 matches Node::Dir { path, name, entries }
                &&& path == dir
                &&& !is_noisy(name)
                &&& scan.advanced().listed(entries_of(entries)).pending == entries_of(told.1)
                &&& outcome(scan.advanced().listed(entries_of(entries)), told.1) == outcome(scan, nodes)
            },
            ScanStepView::Read(file) => {
                &&& told.0 matches Node::File { path, size, bytes, .. }
                &&& path == file
                &&& scan.advanced().inspected(file, size, bytes).pending == entries_of(told.1)
                &&& outcome(scan.advanced().inspected(file, size, bytes), told.1) == outcome(scan, nodes)
            },
        },
    decreases nodes.len(),
{
    let h = scan.hostname;
    let m = scan.machine_id;
    if nodes.len() == 0 {
        assert(outcome(scan, nodes) =~= scan.found);
        (Node::Other { path: seq![], name: seq![] }, nodes)
    } else {
        let first = nodes[0];
        let rest = nodes.subrange(1, nodes.len() as int);
        assert(nodes.contains(first));
        assert(scan.pending[0] == first.entry());
        assert(scan.pending.skip(1) =~= entries_of(rest));
        assert(flagged_all(nodes, h, m) == first.flagged(h, m) + flagged_all(rest, h, m));
        assert(size_of_trees(nodes) == size_of_tree(first) + size_of_trees(rest));
        if !is_visited(first.entry()) {
            assert(first.flagged(h, m) =~= seq![]);
            let shorter = ScanView { pending: entries_of(rest), ..scan };
            assert(outcome(shorter, rest) =~= outcome(scan, nodes));
            let told = law_search_is_exact(shorter, rest);
            assert(shorter.step() == scan.step());
            assert(shorter.advanced() == scan.advanced());
            if rest.contains(told.0) {
                let i = choose|i: int| 0 <= i < rest.len() && rest[i] == told.0;
                assert(nodes[i + 1] == told.0);
            }
            told
        } else {
            assert(scan.advanced().pending =~= entries_of(rest));
            match first {
                Node::Dir { entries, .. } => {
                    let next = entries + rest;
                    let told = scan.advanced().listed(entries_of(entries));
                    assert(told.pending =~= entries_of(next));
                    lemma_flagged_all_concat(entries, rest, h, m);
                    lemma_size_concat(entries, rest);
                    assert(size_of_tree(first) == 1 + size_of_trees(entries));
                    assert(first.flagged(h, m) == flagged_all(entries, h, m));
                    assert(outcome(told, next) =~= outcome(scan, nodes));
                    (first, next)
                },
                Node::File { path, size, bytes, .. } => {
                    let told = scan.advanced().inspected(path, size, bytes);
                    assert(first.flagged(h, m) =~= (if has_fingerprint(size, bytes, h, m) {
                        seq![path]
                    } else {
                        seq![]
                    }));
                    assert(outcome(told, rest) =~= outcome(scan, nodes));
                    (first, rest)
                },
                Node::Other { .. } => (first, rest),
            }
        }
    }
}

/// A search begins with the outcome that its root holds, whether that is a
/// directory or a file; without any fingerprint to look for it is finished at
/// once.
pub proof fn law_search_begins_at_the_root(
    root: Seq<char>,
    kind: EntryKind,
    node: Node,
    hostname: Seq<char>,
    machine_id: Seq<char>,
)
    requires
        node.entry() == (EntryView { path: root, name: seq![], kind }),
    ensures
        hostname.len() > 0 || machine_id.len() > 0 ==> {
            let scan = ScanView::of(root, kind, hostname, machine_id);
            &&& scan.pending == entries_of(seq![node])
            &&& outcome(scan, seq![node]) == (match node {
                Node::Dir { entries, .. } => flagged_all(entries, hostname, machine_id),
                Node::File { size, bytes, .. } => if has_fingerprint(size, bytes, hostname, machine_id) {
                    seq![root]
                } else {
                    seq![]
                },
                Node::Other { .. } => seq![],
            })
        },
        hostname.len() == 0 && machine_id.len() == 0 ==> ScanView::of(root, kind, hostname, machine_id).step()
            == ScanStepView::Finished,
{
    let scan = ScanView::of(root, kind, hostname, machine_id);
    let nodes = seq![node];
    if hostname.len() > 0 || machine_id.len() > 0 {
        reveal_strlit(".cache");
        reveal_strlit(".git");
        reveal_strlit(".local");
        reveal_strlit("node_modules");
        reveal_strlit("__pycache__");
        assert(!is_noisy(seq![])) by {
            let none = Seq::<char>::empty();
            assert(none.len() != ".cache"@.len());
            assert(none.len() != ".git"@.len());
            assert(none.len() != ".local"@.len());
            assert(none.len() != "node_modules"@.len());
            assert(none.len() != "__pycache__"@.len());
        }
        assert(scan.pending =~= entries_of(nodes));
        assert(nodes.subrange(1, 1) =~= seq![]);
        reveal_with_fuel(flagged_all, 2);
        assert(outcome(scan, nodes) =~= node.flagged(hostname, machine_id));
    }
}

/// The search of a file reads that file first, and flags it exactly if it holds
/// the fingerprint.
pub proof fn law_files_are_searched_too(
    root: Seq<char>,
    hostname: Seq<char>,
    machine_id: Seq<char>,
    size: Option<u64>,
    bytes: Option<Seq<u8>>,
)
    requires
        hostname.len() > 0 || machine_id.len() > 0,
    ensures
        ({
            let scan = ScanView::of(root, EntryKind::File, hostname, machine_id);
            let done = scan.advanced().inspected(root, size, bytes);
            &&& scan.step() == ScanStepView::Read(root)
            &&& done.step() == ScanStepView::Finished
            &&& done.found == (if has_fingerprint(size, bytes, hostname, machine_id) {
                seq![root]
            } else {
                seq![]
            })
        }),
{
    let scan = ScanView::of(root, EntryKind::File, hostname, machine_id);
    assert(scan.advanced().pending =~= seq![]);
    assert(seq![].push(root) =~= seq![root]);
}

proof fn lemma_flagged_all_concat(a: Seq<Node>, b: Seq<Node>, hostname: Seq<char>, machine_id: Seq<char>)
    ensures
        flagged_all(a + b, hostname, machine_id) == flagged_all(a, hostname, machine_id) + flagged_all(
            b,
            hostname,
            machine_id,
        ),
    decreases a.len(),
{
    if a.len() == 0 {
        assert(a + b =~= b);
        assert(flagged_all(a, hostname, machine_id) + flagged_all(b, hostname, machine_id) =~= flagged_all(
            b,
            hostname,
            machine_id,
        ));
    } else {
        let a1 = a.subrange(1, a.len() as int);
        let ab = a + b;
        assert(ab.subrange(1, ab.len() as int) =~= a1 + b);
        lemma_flagged_all_concat(a1, b, hostname, machine_id);
        assert(flagged_all(ab, hostname, machine_id) =~= flagged_all(a, hostname, machine_id) + flagged_all(
            b,
            hostname,
            machine_id,
        ));
    }
}

} // verus!
