//! Text helpers, decimal numbers and path strings.
use genie::host::{first_word, split_char};
use genie::numbers::{format_u64, parse_u64, parse_usize};
use genie::paths::{find_file, join_path, replace_char, DirEntry, Listing};
use genie::text::{concat3, lines, same_text, starts_with, trim};

#[test]
fn trim_removes_surrounding_whitespace() {
    assert_eq!(trim("  hello world \n\t"), "hello world");
    assert_eq!(trim(" \n "), "");
    assert_eq!(trim("x"), "x");
    assert_eq!(trim("\u{3000}\u{85}a b\u{2009}\u{A0}"), "a b");
    assert_eq!(trim("\u{200B}x"), "\u{200B}x");
}

#[test]
fn lines_split_like_str_lines() {
    assert_eq!(lines("a\nb\r\nc"), vec!["a", "b", "c"]);
    assert_eq!(lines("a\n"), vec!["a"]);
    assert_eq!(lines(""), Vec::<String>::new());
    assert_eq!(lines("\n\nx"), vec!["", "", "x"]);
    assert_eq!(lines("last\r"), vec!["last\r"]);
}

#[test]
fn small_text_helpers() {
    assert!(same_text("abc", "abc"));
    assert!(!same_text("abc", "abd"));
    assert!(starts_with("MemTotal: 5", "MemTotal:"));
    assert!(!starts_with("Mem", "MemTotal:"));
    assert_eq!(concat3("a", "-", "b"), "a-b");
}

#[test]
fn parse_u64_follows_str_parse() {
    assert_eq!(parse_u64("0"), Some(0));
    assert_eq!(parse_u64("+42"), Some(42));
    assert_eq!(parse_u64("18446744073709551615"), Some(u64::MAX));
    assert_eq!(parse_u64("18446744073709551616"), None);
    assert_eq!(parse_u64(""), None);
    assert_eq!(parse_u64("+"), None);
    assert_eq!(parse_u64("12a"), None);
    assert_eq!(parse_u64(" 12"), None);
    assert_eq!(parse_u64("-1"), None);
    for s in ["0", "+42", "18446744073709551616", "", "+", "12a", " 12", "-1", "007"] {
        assert_eq!(parse_u64(s), s.parse::<u64>().ok(), "input {s:?}");
    }
}

#[test]
fn parse_usize_matches_std() {
    for s in ["15", "+3", "x", "", "99999999999999999999999"] {
        assert_eq!(parse_usize(s), s.parse::<usize>().ok(), "input {s:?}");
    }
}

#[test]
fn format_u64_is_decimal() {
    assert_eq!(format_u64(0), "0");
    assert_eq!(format_u64(7), "7");
    assert_eq!(format_u64(1234567890), "1234567890");
    assert_eq!(format_u64(u64::MAX), u64::MAX.to_string());
}

#[test]
fn decimal_round_trip_on_values() {
    for n in [0u64, 9, 10, 99, 100, 65536, u64::MAX] {
        assert_eq!(parse_u64(&format_u64(n)), Some(n));
    }
}

#[test]
fn join_path_like_pathbuf_join() {
    assert_eq!(join_path("/home/u", ".genie"), "/home/u/.genie");
    assert_eq!(join_path("/home/u/", ".genie"), "/home/u/.genie");
    assert_eq!(join_path("", "x"), "x");
    assert_eq!(join_path("/a", "/b"), "/b");
    for (b, r) in [("/home/u", ".genie"), ("/a/", "b"), ("", "x"), ("/a", "/b"), ("rel", "x/y")] {
        let expected = std::path::Path::new(b).join(r).to_string_lossy().into_owned();
        assert_eq!(join_path(b, r), expected);
    }
}

#[test]
fn replace_char_replaces_every_occurrence() {
    assert_eq!(replace_char("a/b/c", '/', "--"), "a--b--c");
    assert_eq!(replace_char("abc", '/', "--"), "abc");
    assert_eq!(replace_char("", '/', "--"), "");
}

#[test]
fn first_word_like_split_whitespace() {
    assert_eq!(first_word("   16384 kB"), Some("16384".to_string()));
    assert_eq!(first_word("word"), Some("word".to_string()));
    assert_eq!(first_word("  \t "), None);
    assert_eq!(first_word(""), None);
}

#[test]
fn split_char_like_str_split() {
    assert_eq!(split_char("/usr/bin:/bin", ':'), vec!["/usr/bin", "/bin"]);
    assert_eq!(split_char("", ':'), vec![""]);
    assert_eq!(split_char("a::b:", ':'), vec!["a", "", "b", ""]);
}

fn file(path: &str, name: &str) -> DirEntry {
    DirEntry {
        path: path.to_string(),
        name: Some(name.to_string()),
        is_file: true,
        is_dir: false,
        contents: Listing::Unreadable,
    }
}

fn dir(path: &str, name: &str, contents: Listing) -> DirEntry {
    DirEntry { path: path.to_string(), name: Some(name.to_string()), is_file: false, is_dir: true, contents }
}

#[test]
fn find_file_searches_subdirectories_to_a_depth() {
    let deep = Listing::Entries(vec![dir(
        "/s/abc",
        "abc",
        Listing::Entries(vec![file("/s/abc/w.litertlm", "w.litertlm")]),
    )]);
    assert_eq!(find_file(&deep, "w.litertlm", 3), Some("/s/abc/w.litertlm".to_string()));
    assert_eq!(find_file(&deep, "w.litertlm", 0), None);
    assert_eq!(find_file(&deep, "other", 3), None);
    assert_eq!(find_file(&Listing::Unreadable, "w.litertlm", 3), None);
    let flat = Listing::Entries(vec![file("/s/a", "a"), file("/s/w.litertlm", "w.litertlm")]);
    assert_eq!(find_file(&flat, "w.litertlm", 0), Some("/s/w.litertlm".to_string()));
}
