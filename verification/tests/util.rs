use tapir::util::{
    ceil_char_boundary, edit_diff, floor_char_boundary, normalize_for_match, truncate,
    truncate_head, truncate_line, truncate_tail,
};

#[test]
fn test_truncate_short() {
    assert_eq!(truncate("hello", 10), "hello");
}

#[test]
fn test_truncate_long() {
    let result = truncate("hello world", 5);
    assert!(result.starts_with("hello"));
    assert!(result.contains("truncated"));
}

#[test]
fn test_floor_char_boundary_ascii() {
    assert_eq!(floor_char_boundary("hello", 3), 3);
}

#[test]
fn test_floor_char_boundary_multibyte() {
    // "café": c(1) a(1) f(1) é(2) = 5 bytes
    // byte 4 is mid-char (inside 'é'), should snap back to 3
    let s = "café";
    assert_eq!(floor_char_boundary(s, 4), 3);
    // byte 3 is a valid boundary (before 'é')
    assert_eq!(floor_char_boundary(s, 3), 3);
}

#[test]
fn test_floor_char_boundary_beyond() {
    assert_eq!(floor_char_boundary("hi", 100), 2);
}

#[test]
fn test_truncate_head_no_truncation() {
    let (out, truncated) = truncate_head("a\nb\nc\n", 10, 1000);
    assert_eq!(out, "a\nb\nc\n");
    assert!(!truncated);
}

#[test]
fn test_truncate_head_by_lines() {
    let input = "line1\nline2\nline3\nline4\nline5\n";
    let (out, truncated) = truncate_head(input, 2, 100_000);
    assert!(truncated);
    assert!(out.starts_with("line1\nline2\n"));
    assert!(out.contains("5 lines"));
}

#[test]
fn test_truncate_head_by_bytes() {
    let input = "abcdefghij\nklmnop\n";
    let (out, truncated) = truncate_head(input, 1000, 11);
    assert!(truncated);
    assert!(out.starts_with("abcdefghij\n"));
}

#[test]
fn test_truncate_tail_no_truncation() {
    let (out, truncated) = truncate_tail("a\nb\n", 10, 1000);
    assert_eq!(out, "a\nb\n");
    assert!(!truncated);
}

#[test]
fn test_truncate_tail_by_lines() {
    let input = "line1\nline2\nline3\nline4\nline5";
    let (out, truncated) = truncate_tail(input, 2, 100_000);
    assert!(truncated);
    assert!(out.contains("line4"));
    assert!(out.contains("line5"));
    assert!(!out.contains("line3"));
}

#[test]
fn test_truncate_line_short() {
    assert_eq!(truncate_line("hello", 10), "hello");
}

#[test]
fn test_truncate_line_long() {
    let input = "a".repeat(20);
    let out = truncate_line(&input, 10);
    assert_eq!(out, format!("{}...", "a".repeat(10)));
}

#[test]
fn test_ceil_char_boundary_ascii() {
    assert_eq!(ceil_char_boundary("hello", 3), 3);
}

#[test]
fn test_ceil_char_boundary_multibyte() {
    let s = "café";
    // byte 4 is mid-char (inside 'é'), should snap to 5
    assert_eq!(ceil_char_boundary(s, 4), 5);
}

#[test]
fn test_ceil_char_boundary_beyond() {
    assert_eq!(ceil_char_boundary("hi", 100), 2);
}

#[test]
fn test_normalize_for_match_smart_quotes() {
    let input = "\u{201C}hello\u{201D} \u{2018}world\u{2019}";
    assert_eq!(normalize_for_match(input), "\"hello\" 'world'");
}

#[test]
fn test_normalize_for_match_dashes() {
    let input = "a\u{2013}b\u{2014}c";
    assert_eq!(normalize_for_match(input), "a-b-c");
}

#[test]
fn test_normalize_for_match_whitespace() {
    let input = "  hello   world  ";
    assert_eq!(normalize_for_match(input), "hello world");
}

#[test]
fn test_edit_diff_basic() {
    let file = "line1\nline2\nline3\nline4\nline5\n";
    let diff = edit_diff("test.rs", file, "line3", "line3a");
    assert!(diff.contains("-line3"));
    assert!(diff.contains("+line3a"));
    assert!(diff.contains("--- test.rs"));
}

#[test]
fn truncate_gives_the_exact_note() {
    assert_eq!(
        truncate("hello world", 5),
        "hello...\n(truncated, 11 bytes total)"
    );
    assert_eq!(truncate("hello", 5), "hello");
    assert_eq!(truncate("", 0), "");
    assert_eq!(truncate("x", 0), "...\n(truncated, 1 bytes total)");
}

#[test]
fn truncate_never_splits_a_character() {
    assert_eq!(truncate("café!", 4), "caf...\n(truncated, 6 bytes total)");
    assert_eq!(truncate("café!", 5), "café...\n(truncated, 6 bytes total)");
    assert_eq!(truncate("\u{1F600}", 3), "...\n(truncated, 4 bytes total)");
}

#[test]
fn boundaries_agree_with_std() {
    let s = "a\u{e9}\u{20ac}\u{1F600}z";
    for i in 0..=s.len() + 2 {
        let mut floor = i.min(s.len());
        while !s.is_char_boundary(floor) {
            floor -= 1;
        }
        let mut ceil = i.min(s.len());
        while !s.is_char_boundary(ceil) {
            ceil += 1;
        }
        assert_eq!(floor_char_boundary(s, i), floor, "floor at {i}");
        assert_eq!(ceil_char_boundary(s, i), ceil, "ceil at {i}");
    }
    assert_eq!(floor_char_boundary("", 0), 0);
    assert_eq!(ceil_char_boundary("", 3), 0);
}

#[test]
fn truncate_line_counts_characters() {
    assert_eq!(truncate_line("\u{e9}\u{e9}\u{e9}", 2), "\u{e9}\u{e9}...");
    assert_eq!(truncate_line("\u{e9}\u{e9}", 2), "\u{e9}\u{e9}");
    assert_eq!(truncate_line("abc", 0), "...");
    assert_eq!(truncate_line("", 0), "");
}

#[test]
fn truncate_head_gives_the_exact_text() {
    let input = "line1\nline2\nline3\nline4\nline5\n";
    assert_eq!(
        truncate_head(input, 2, 100_000),
        ("line1\nline2\n... (5 lines, 30 bytes total)".to_string(), true)
    );
    assert_eq!(
        truncate_head("abcdefghij\nklmnop\n", 1000, 11),
        ("abcdefghij\n... (2 lines, 18 bytes total)".to_string(), true)
    );
    assert_eq!(
        truncate_head("abcdefghij\nklmnop\n", 1000, 10),
        ("... (2 lines, 18 bytes total)".to_string(), true)
    );
    assert_eq!(
        truncate_head("a\nb", 0, 100),
        ("... (2 lines, 3 bytes total)".to_string(), true)
    );
    assert_eq!(truncate_head("", 0, 0), (String::new(), false));
    assert_eq!(truncate_head("a\r\nb\r\n", 2, 6), ("a\r\nb\r\n".to_string(), false));
}

#[test]
fn truncate_tail_gives_the_exact_text() {
    let input = "line1\nline2\nline3\nline4\nline5";
    assert_eq!(
        truncate_tail(input, 2, 100_000),
        ("... (5 lines, 29 bytes total)\nline4\nline5".to_string(), true)
    );
    assert_eq!(
        truncate_tail("abc\ndef\n", 10, 5),
        ("... (2 lines, 8 bytes total)\n\ndef\n".to_string(), true)
    );
    assert_eq!(
        truncate_tail("a\u{e9}\u{e9}", 10, 3),
        ("... (1 lines, 5 bytes total)\n\u{e9}".to_string(), true)
    );
    assert_eq!(
        truncate_tail("a\nb", 0, 100),
        ("... (2 lines, 3 bytes total)\n".to_string(), true)
    );
}

#[test]
fn normalize_handles_edges() {
    assert_eq!(normalize_for_match(""), "");
    assert_eq!(normalize_for_match(" \t\n"), "");
    assert_eq!(normalize_for_match("a\u{a0}\u{3000}b\n"), "a b");
    assert_eq!(normalize_for_match("\u{2014} x"), "- x");
}

#[test]
fn edit_diff_gives_the_exact_text() {
    let file = "line1\nline2\nline3\nline4\nline5\n";
    assert_eq!(
        edit_diff("test.rs", file, "line3", "line3a"),
        "--- test.rs\n+++ test.rs\n@@ -1,5 +1,5 @@\n line1\n line2\n-line3\n+line3a\n line4\n line5\n"
    );
    assert_eq!(edit_diff("test.rs", file, "absent", "x"), "");
    assert_eq!(
        edit_diff("f", "a\nb\nc\nd\ne\nf\ng\nh\ni\n", "e\nf", "E"),
        "--- f\n+++ f\n@@ -2,8 +2,7 @@\n b\n c\n d\n-e\n-f\n+E\n g\n h\n i\n"
    );
    assert_eq!(
        edit_diff("f", "only", "only", ""),
        "--- f\n+++ f\n@@ -1,1 +1,0 @@\n-only\n"
    );
    assert_eq!(
        edit_diff("f", "a\nb\n", "", "x"),
        "--- f\n+++ f\n@@ -1,2 +1,2 @@\n-a\n+x\n b\n"
    );
}
