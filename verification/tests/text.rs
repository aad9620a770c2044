use dps::number::{clock_text, parse_number, to_decimal, to_signed, NumberError};
use dps::path;
use dps::text;

#[test]
fn trims_unicode_white_space() {
    assert_eq!(text::trim(" \t\u{a0}hello world\u{2003}\r\n"), "hello world");
    assert_eq!(text::trim("\u{200b}x"), "\u{200b}x".trim());
    assert_eq!(text::trim("   "), "");
    assert!(text::is_blank("\n\t "));
    assert!(!text::is_blank(" x "));
}

#[test]
fn strips_repeated_affixes() {
    assert_eq!(text::trim_start_char("///a/b", '/'), "a/b");
    assert_eq!(text::trim_end_char("line\n\n", '\n'), "line");
    assert_eq!(text::trim_start_prefix("~/~/x", "~/"), "x");
    assert_eq!(text::strip_prefix("~/x", "~/"), Some("x".to_string()));
    assert_eq!(text::strip_prefix("x", "~/"), None);
}

#[test]
fn splits_lines_like_the_standard_library() {
    for s in ["", "\n", "a", "a\n", "a\r\nb\n\nc", "a\rb\r", "x\n\r\n"] {
        let expected: Vec<String> = s.lines().map(String::from).collect();
        assert_eq!(text::lines(s), expected);
    }
}

#[test]
fn picks_words() {
    assert_eq!(text::word("Uid:\t1000\t1000", 0), Some("Uid:".to_string()));
    assert_eq!(text::word("Uid:\t1000\t1000", 1), Some("1000".to_string()));
    assert_eq!(text::word("  one  ", 1), None);
}

#[test]
fn finds_and_replaces() {
    assert!(text::contains("a laptop-7 b", "laptop-7"));
    assert!(!text::contains("a laptop b", "laptop-7"));
    assert_eq!(text::replace_char("it's", '\'', "'\\''"), "it'\\''s");
    assert_eq!(text::before_char("10.0.0.5/24", '/'), "10.0.0.5");
    assert_eq!(text::before_char("10.0.0.5", '/'), "10.0.0.5");
    assert_eq!(text::join(&vec!["a".to_string(), "b".to_string(), "c".to_string()], ","), "a,b,c");
}

#[test]
fn pushes_characters() {
    // `String::push` is what builds these texts.
    assert_eq!(text::string_of(&vec!['a', 'é', '─', 'z'], 1, 3), "é─");
}

#[test]
fn writes_numbers() {
    assert_eq!(to_decimal(0), "0");
    assert_eq!(to_decimal(18446744073709551615), "18446744073709551615");
    assert_eq!(to_signed(-1), "-1");
    assert_eq!(to_signed(i32::MIN), "-2147483648");
    assert_eq!(to_signed(255), "255");
}

#[test]
fn reads_numbers() {
    assert_eq!(parse_number("8006", 65535), Ok(8006));
    assert_eq!(parse_number("+7", 65535), Ok(7));
    assert_eq!(parse_number("65535", 65535), Ok(65535));
    assert_eq!(parse_number("65536", 65535), Err(NumberError::TooLarge));
    assert_eq!(parse_number("", 65535), Err(NumberError::Empty));
    assert_eq!(parse_number("-1", 65535), Err(NumberError::InvalidDigit));
    assert_eq!(parse_number("+", 65535), Err(NumberError::InvalidDigit));
    assert_eq!(parse_number("12 ", 65535), Err(NumberError::InvalidDigit));
    for s in ["", "x", "70000", "-5", "8 "] {
        let theirs = s.parse::<u16>().unwrap_err().to_string();
        assert_eq!(parse_number(s, 65535).unwrap_err().to_string(), theirs);
    }
}

#[test]
fn writes_the_time_of_day() {
    assert_eq!(clock_text(0), "00:00:00");
    assert_eq!(clock_text(86399), "23:59:59");
    assert_eq!(clock_text(1_700_000_000), "22:13:20");
}

#[test]
fn joins_paths_like_the_standard_library() {
    for (a, b) in [("/home/u", "x"), ("/home/u/", "x"), ("", "x"), ("/home/u", "/etc"), ("/", "x"), ("a", "")] {
        let expected = std::path::Path::new(a).join(b);
        assert_eq!(path::join(a, b), expected.to_str().unwrap());
    }
}

#[test]
fn compares_paths_component_by_component() {
    for (p, base) in [
        ("/home/u/.config/x", "/home/u/.config"),
        ("/home/u/.configx", "/home/u/.config"),
        ("/a/./b//c", "/a/b"),
        ("a/b", "a/b/"),
        ("./a", "a"),
        ("a/../b", "a"),
        ("/", "/"),
        ("", ""),
    ] {
        let expected = std::path::Path::new(p).starts_with(base);
        assert_eq!(path::starts_with(p, base), expected, "{} under {}", p, base);
    }
}

#[test]
fn a_path_lies_under_itself_and_under_its_ancestors() {
    assert!(path::starts_with("/a/b/c", "/a/b/c"));
    assert!(path::starts_with("/a/b/c", "/a/b") && path::starts_with("/a/b", "/a"));
    assert!(path::starts_with("/a/b/c", "/a"));
}
