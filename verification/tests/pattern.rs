use dps::sync::pattern::covers_path;

fn file(pattern: &str, path: &str) -> bool {
    covers_path(pattern, path, false)
}

#[test]
fn stars_stop_at_slashes() {
    assert!(file("*.log", "a.log") && file("*.log", ".log") && file("*.log", "d/a.log"));
    assert!(!file("*.log", "a.log.txt") && !file("*.log", "a.logs"));
    assert!(file("a*c", "abbc") && !file("a*c", "ab/c"));
    assert!(file("a**c", "ab/c") && file("a/**/z", "a/b/c/z"));
    assert!(file("a*b*c", "a1b2b3c") && !file("a*b*c", "a1b2b3"));
}

#[test]
fn question_marks_and_brackets_stand_for_one_character() {
    assert!(file("?.c", "x.c") && !file("?.c", "xy.c") && !file("a?b", "a/b"));
    assert!(file("[abc].c", "b.c") && !file("[abc].c", "d.c"));
    assert!(file("[a-f0-9]", "e") && file("[a-f0-9]", "7") && !file("[a-f0-9]", "g"));
    assert!(file("[!a-f]", "g") && !file("[!a-f]", "c") && file("[^x]", "y"));
    assert!(file("[]]", "]") && file("[!]]", "x") && !file("[!]]", "]"));
    assert!(file("[a-]", "-") && file("[a-]", "a") && !file("x[!a]y", "x/y"));
    assert!(!file("[abc", "a") && !file("[abc", "[abc") && !file("[", "[") && !file("[!", "[!"));
}

#[test]
fn a_backslash_takes_the_meaning_away() {
    assert!(file("\\*", "*") && !file("\\*", "x"));
    assert!(file("a\\[b", "a[b") && file("*\\b", "ab"));
    // Without a wildcard it stands for itself.
    assert!(file("\\", "\\") && file("a\\b", "a\\b") && !file("a\\b", "ab"));
}

#[test]
fn slashes_tie_patterns() {
    assert!(file("/top", "top") && !file("/top", "sub/top"));
    assert!(file("b/c", "b/c") && file("b/c", "a/b/c") && !file("b/c", "ab/c") && !file("b/c", "b/c/d"));
    assert!(covers_path("dir/", "dir", true) && covers_path("dir/", "a/dir", true) && !file("dir/", "dir"));
    assert!(covers_path("/dir/", "dir", true) && !covers_path("/dir/", "a/dir", true));
    assert!(covers_path("dir", "dir", true) && file("dir", "dir"));
    assert!(!file("", "x") && !covers_path("/", "x", true) && !file("x", ""));
}
