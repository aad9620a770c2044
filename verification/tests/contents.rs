use dps::sync::contents::{parse_listing, Contents, Walk};
use dps::sync::ignore::{Entry, EntryKind};

fn strings(v: &[&str]) -> Vec<String> {
    v.iter().map(|s| s.to_string()).collect()
}

fn named(name: &str, kind: EntryKind) -> Entry {
    Entry { path: format!("/somewhere/{name}"), name: name.to_string(), kind }
}

#[test]
fn listings_tell_directories_from_files() {
    let c = parse_listing("./a/\0./a/b c/\0./a/x\n\0./y\0cut");
    assert_eq!(c.dirs, strings(&["a", "a/b c"]));
    assert_eq!(c.files, strings(&["a/x\n", "y"]));
    let none = parse_listing("");
    assert!(none.dirs.is_empty() && none.files.is_empty());
}

#[test]
fn a_walk_finds_everything() {
    let mut walk = Walk::new();
    assert_eq!(walk.next_dir(), Some(String::new()));
    walk.listed(
        "",
        &vec![
            named("a", EntryKind::Dir),
            named("x", EntryKind::File),
            named("pipe", EntryKind::Other),
            named("b", EntryKind::Dir),
        ],
    );
    assert_eq!(walk.next_dir(), Some("b".to_string()));
    walk.listed("b", &vec![named("c", EntryKind::Dir), named("y", EntryKind::File)]);
    assert_eq!(walk.next_dir(), Some("b/c".to_string()));
    walk.listed("b/c", &vec![]);
    assert_eq!(walk.next_dir(), Some("a".to_string()));
    walk.listed("a", &vec![named("z", EntryKind::File)]);
    assert_eq!(walk.next_dir(), None);
    let c = walk.into_contents();
    assert_eq!(c.dirs, strings(&["a", "b", "b/c"]));
    assert_eq!(c.files, strings(&["x", "b/y", "a/z"]));
}

#[test]
fn contents_without_what_is_excluded() {
    let c = Contents { dirs: strings(&["d", "d/tmp", "e"]), files: strings(&["d/tmp/x", "d/a.log", "d/b", "tmp"]) };
    let kept = c.without(&strings(&["*.log", "tmp/"]));
    assert_eq!(kept.dirs, strings(&["d", "e"]));
    assert_eq!(kept.files, strings(&["d/b", "tmp"]));
    assert_eq!(kept.children(), strings(&["d", "e", "tmp"]));
    let only = Contents { dirs: vec![], files: strings(&["deep/down", "deep/up"]) };
    assert_eq!(only.children(), strings(&["deep"]));
}
