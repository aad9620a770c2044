use dps::sync::ignore::{
    contains_fingerprint, find_machine_specific_files, global_ignore_file, is_excluded, is_noisy_dir, is_searchable, keep,
    local_ignore_file, machine_fingerprint, machine_specific_patterns, parse_ignore_file, Entry, EntryKind,
    IgnoreRules, ScanStep, MAX_SCAN_BYTES,
};

fn strings(v: &[&str]) -> Vec<String> {
    v.iter().map(|s| s.to_string()).collect()
}

#[test]
fn ignore_files_skip_blanks_and_comments() {
    let contents = "# comment\n\n  *.log  \n.env\r\n\t\n#x\nsecrets/\n  # indented comment\n";
    assert_eq!(parse_ignore_file(contents), strings(&["*.log", ".env", "secrets/"]));
    assert_eq!(parse_ignore_file(""), strings(&[]));
}

#[test]
fn rules_come_in_order() {
    let built_in = machine_specific_patterns();
    let rules = IgnoreRules::load(&strings(&["extra"]), Some("global\n"), Some("#no\nlocal\n"));
    let mut expected = built_in.clone();
    expected.extend(strings(&["extra", "global", "local"]));
    assert_eq!(rules.patterns, expected);
    assert_eq!(IgnoreRules::load(&strings(&[]), None, None).patterns, built_in);
}

#[test]
fn rules_become_rsync_options() {
    let rules = IgnoreRules { patterns: strings(&["*.log", "a b"]) };
    assert_eq!(rules.to_rsync_args(), strings(&["--exclude=*.log", "--exclude=a b"]));
}

#[test]
fn built_in_patterns_cover_the_known_files() {
    let p = machine_specific_patterns();
    assert_eq!(p.len(), 30);
    for known in [
        ".cache/",
        ".config/monitors.xml",
        ".local/share/recently-used.xbel",
        ".config/pulse/*.tdb",
        ".local/share/tracker/",
        ".config/dconf/user",
        "monitors.xml",
        "recently-used.xbel",
        "pulse/*.tdb",
        "tracker/",
        "dconf/",
    ] {
        assert!(p.contains(&known.to_string()), "{}", known);
    }
}

#[test]
fn built_in_patterns_hold_wherever_the_transfer_begins() {
    let p = machine_specific_patterns();
    for file in [
        "monitors.xml",
        ".config/monitors.xml",
        "dconf/user",
        ".config/dconf/db/site",
        "pulse/card.tdb",
        "recently-used.xbel",
        "tracker/meta.db",
        ".cache/x/y",
        "deep/down/.cache/z",
        "x.log",
        "sub/x.log",
        "notes~",
        ".local/share/Trash/files/a",
    ] {
        assert!(is_excluded(&p, file, false), "{}", file);
    }
    for file in ["monitors.xml.bak", "dconf", "logbook", "x.log.txt", "pulse/sub/card.tdb", "tracker", "vimrc"] {
        assert!(!is_excluded(&p, file, false), "{}", file);
    }
    assert!(is_excluded(&p, "dconf", true));
}

#[test]
fn excluded_files_are_left_out_in_order() {
    let patterns = strings(&["*.log", "tmp/", "/top"]);
    let files = strings(&["b", "a.log", "tmp/x", "top", "sub/top", "a"]);
    assert_eq!(keep(&patterns, &files, false), strings(&["b", "sub/top", "a"]));
    assert_eq!(keep(&strings(&[]), &files, false), files);
    assert_eq!(keep(&patterns, &strings(&["tmp", "d"]), true), strings(&["d"]));
    assert_eq!(parse_ignore_file("!keep.log\n"), strings(&["!keep.log"]));
}

#[test]
fn rules_can_be_empty_and_copied() {
    assert!(IgnoreRules::default().patterns.is_empty());
    let rules = IgnoreRules { patterns: strings(&["a", "b"]) };
    assert_eq!(rules.clone().patterns, rules.patterns);
}

#[test]
fn ignore_file_locations() {
    assert_eq!(global_ignore_file("/home/u/.config/dps"), "/home/u/.config/dps/syncignore");
    assert_eq!(local_ignore_file("/home/u/.vim"), "/home/u/.vim/.syncignore");
}

#[test]
fn fingerprints_are_trimmed() {
    assert_eq!(machine_fingerprint(Some("laptop\n"), Some(" abc \n")), ("laptop".to_string(), "abc".to_string()));
    assert_eq!(machine_fingerprint(None, None), (String::new(), String::new()));
}

#[test]
fn fingerprints_are_found_in_small_texts() {
    let text = Some(b"PS1=laptop> ".to_vec());
    assert!(contains_fingerprint(Some(12), &text, "laptop", "abc"));
    assert!(contains_fingerprint(Some(12), &Some(b"id abc".to_vec()), "laptop", "abc"));
    assert!(!contains_fingerprint(Some(12), &Some(b"nothing".to_vec()), "laptop", "abc"));
    assert!(!contains_fingerprint(Some(12), &text, "", "abc"));
    assert!(!contains_fingerprint(Some(12), &text, "", ""));
    assert!(!contains_fingerprint(None, &text, "laptop", "abc"));
    assert!(!contains_fingerprint(Some(12), &None, "laptop", "abc"));
}

#[test]
fn large_and_binary_files_are_not_searched() {
    let text = Some(b"laptop".to_vec());
    assert!(contains_fingerprint(Some(MAX_SCAN_BYTES), &text, "laptop", ""));
    assert!(!contains_fingerprint(Some(MAX_SCAN_BYTES + 1), &text, "laptop", ""));
    assert!(is_searchable(Some(65536)) && !is_searchable(Some(65537)) && !is_searchable(None));
    // Not UTF-8: the wrapper of the decoder says so.
    assert!(!contains_fingerprint(Some(9), &Some(b"laptop\xff\xfe".to_vec()), "laptop", ""));
    assert!(contains_fingerprint(Some(9), &Some("héllo laptop".as_bytes().to_vec()), "laptop", ""));
}

#[test]
fn noisy_directories() {
    for name in [".cache", ".git", ".local", "node_modules", "__pycache__"] {
        assert!(is_noisy_dir(name));
    }
    assert!(!is_noisy_dir(".config"));
    assert!(!is_noisy_dir(""));
}

fn entry(path: &str, name: &str, kind: EntryKind) -> Entry {
    Entry { path: path.to_string(), name: name.to_string(), kind }
}

#[test]
fn a_file_is_searched_itself() {
    let mut scan = find_machine_specific_files("/home/u/.bashrc", EntryKind::File, "laptop", "");
    assert!(matches!(scan.next_step(), ScanStep::Read(p) if p == "/home/u/.bashrc"));
    scan.inspected("/home/u/.bashrc".to_string(), Some(12), &Some(b"PS1=laptop> ".to_vec()));
    assert!(matches!(scan.next_step(), ScanStep::Finished));
    assert_eq!(scan.into_found(), strings(&["/home/u/.bashrc"]));
    let mut scan = find_machine_specific_files("/dev/null", EntryKind::Other, "laptop", "");
    assert!(matches!(scan.next_step(), ScanStep::Finished));
}

#[test]
fn search_visits_the_tree_in_order() {
    let mut scan = find_machine_specific_files("/r", EntryKind::Dir, "laptop", "");
    assert!(matches!(scan.next_step(), ScanStep::List(p) if p == "/r"));
    scan.listed(vec![
        entry("/r/a", "a", EntryKind::File),
        entry("/r/.git", ".git", EntryKind::Dir),
        entry("/r/d", "d", EntryKind::Dir),
        entry("/r/socket", "socket", EntryKind::Other),
        entry("/r/z", "z", EntryKind::File),
    ]);
    assert!(matches!(scan.next_step(), ScanStep::Read(p) if p == "/r/a"));
    scan.inspected("/r/a".to_string(), Some(6), &Some(b"laptop".to_vec()));
    assert!(matches!(scan.next_step(), ScanStep::List(p) if p == "/r/d"));
    scan.listed(vec![entry("/r/d/b", "b", EntryKind::File)]);
    assert!(matches!(scan.next_step(), ScanStep::Read(p) if p == "/r/d/b"));
    scan.inspected("/r/d/b".to_string(), Some(2), &Some(b"no".to_vec()));
    assert!(matches!(scan.next_step(), ScanStep::Read(p) if p == "/r/z"));
    scan.inspected("/r/z".to_string(), Some(9), &Some(b"my laptop".to_vec()));
    assert!(matches!(scan.next_step(), ScanStep::Finished));
    assert_eq!(scan.into_found(), strings(&["/r/a", "/r/z"]));
}

#[test]
fn search_without_a_fingerprint_finds_nothing() {
    let mut scan = find_machine_specific_files("/r", EntryKind::Dir, "", "");
    assert!(matches!(scan.next_step(), ScanStep::Finished));
    assert_eq!(scan.into_found(), strings(&[]));
}

#[test]
fn a_noisy_root_is_searched_all_the_same() {
    let mut scan = find_machine_specific_files("/home/u/.local", EntryKind::Dir, "laptop", "abc");
    assert!(matches!(scan.next_step(), ScanStep::List(p) if p == "/home/u/.local"));
}
