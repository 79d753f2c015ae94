use tapir::readline::{
    add_history, apply_completion, common_prefix, completion_for, decode_byte, line_text,
    load_history, render_line, split_path_prefix, typed_path, EditOutcome, Key, KeyState,
    LineEdit,
};

fn strings(items: &[&str]) -> Vec<String> {
    items.iter().map(|s| s.to_string()).collect()
}

#[test]
fn common_prefixes() {
    assert_eq!(common_prefix(&strings(&["src/main.rs", "src/map.rs", "src/ma"])), "src/ma");
    assert_eq!(common_prefix(&strings(&["abc"])), "abc");
    assert_eq!(common_prefix(&[]), "");
    assert_eq!(common_prefix(&strings(&["abc", "xyz"])), "");
    assert_eq!(common_prefix(&strings(&["abc", ""])), "");
    assert_eq!(common_prefix(&strings(&["caf\u{e9}", "caf\u{e8}"])), "caf");
    assert_eq!(common_prefix(&strings(&["ab", "abc", "abd"])), "ab");
}

#[test]
fn typed_paths_are_split() {
    assert_eq!(
        split_path_prefix("/w", "src/ma"),
        ("/w/src".to_string(), "ma".to_string())
    );
    assert_eq!(split_path_prefix("/w", ""), ("/w".to_string(), String::new()));
    assert_eq!(split_path_prefix("/w", "ma"), ("/w".to_string(), "ma".to_string()));
    assert_eq!(split_path_prefix("/w", "/ma"), ("/w".to_string(), "ma".to_string()));
    assert_eq!(
        split_path_prefix("/w", "/etc/pa"),
        ("/etc".to_string(), "pa".to_string())
    );
    assert_eq!(
        split_path_prefix("/w", "a/b/"),
        ("/w/a/b".to_string(), String::new())
    );
}

#[test]
fn entries_complete_what_was_typed() {
    assert_eq!(
        completion_for("main.rs", false, "src/ma"),
        Some("src/main.rs".to_string())
    );
    assert_eq!(completion_for("map", true, "src/ma"), Some("src/map/".to_string()));
    assert_eq!(completion_for("lib.rs", false, "src/ma"), None);
    assert_eq!(completion_for(".git", true, ""), None);
    assert_eq!(completion_for(".git", true, "."), Some(".git/".to_string()));
    assert_eq!(completion_for(".git", true, "sub/.g"), Some("sub/.git/".to_string()));
    assert_eq!(completion_for("a", false, ""), Some("a".to_string()));
}

#[test]
fn the_history_keeps_the_last_hundred() {
    let mut history = Vec::new();
    assert!(add_history(&mut history, "one"));
    assert!(!add_history(&mut history, "one"));
    assert!(add_history(&mut history, "two"));
    assert!(add_history(&mut history, "one"));
    assert_eq!(history, strings(&["one", "two", "one"]));
    let mut history: Vec<String> = (0..100).map(|i| format!("l{i}")).collect();
    assert!(add_history(&mut history, "new"));
    assert_eq!(history.len(), 100);
    assert_eq!(history[0], "l1");
    assert_eq!(history[99], "new");
    let lines: Vec<String> = (0..150)
        .map(|i| if i % 3 == 0 { String::new() } else { format!("l{i}") })
        .collect();
    let loaded = load_history(&lines);
    assert_eq!(loaded.len(), 100);
    assert_eq!(loaded[99], "l149");
    assert_eq!(loaded[0], "l1");
    assert_eq!(load_history(&strings(&["", "a", "", "b"])), strings(&["a", "b"]));
    assert!(load_history(&lines[..0].to_vec()).is_empty());
}

fn keys(bytes: &[u8], line_empty: bool) -> Vec<Key> {
    let mut state = KeyState::Ground;
    let mut out = Vec::new();
    for &b in bytes {
        let (next, key) = decode_byte(state, b, line_empty);
        state = next;
        if let Some(k) = key {
            out.push(k);
        }
    }
    out
}

#[test]
fn bytes_become_keys() {
    assert_eq!(keys(b"a", true), vec![Key::Insert(b'a')]);
    assert_eq!(keys(&[4], true), vec![Key::Quit]);
    assert_eq!(keys(&[4], false), vec![]);
    assert_eq!(keys(&[3, 13, 10, 127, 8], false), vec![
        Key::Cancel,
        Key::Enter,
        Key::Enter,
        Key::Backspace,
        Key::Backspace
    ]);
    assert_eq!(
        keys(&[16, 14, 15, 1, 5, 21, 11, 23, 7, 9], false),
        vec![
            Key::Up,
            Key::Down,
            Key::ToggleOutput,
            Key::Home,
            Key::LineEnd,
            Key::KillLine,
            Key::KillToEnd,
            Key::KillWord,
            Key::OpenEditor,
            Key::Complete
        ]
    );
    assert_eq!(
        keys(b"\x1b[A\x1b[B\x1b[C\x1b[D\x1b[H\x1b[F\x1b[3~", false),
        vec![
            Key::Up,
            Key::Down,
            Key::Right,
            Key::Left,
            Key::Home,
            Key::LineEnd,
            Key::Delete
        ]
    );
    assert_eq!(
        keys(b"\x1b[1;5C\x1b[1;5D\x1b[1;2Cx", false),
        vec![Key::WordRight, Key::WordLeft, Key::Insert(b'x')]
    );
    assert_eq!(keys(b"\x1bOx\x1b[Zy", false), vec![Key::Insert(b'x'), Key::Insert(b'y')]);
    assert_eq!(keys(&[0, 2, 6, 31], false), vec![]);
    assert_eq!(keys(&[200, 32], false), vec![Key::Insert(200), Key::Insert(32)]);
}

fn typed(text: &str, history: &Vec<String>) -> LineEdit {
    let mut line = LineEdit::new(history.len());
    for &b in text.as_bytes() {
        assert_eq!(line.apply_key(Key::Insert(b), history), EditOutcome::Redraw);
    }
    line
}

#[test]
fn the_line_is_edited() {
    let history = Vec::new();
    let mut line = typed("hello world", &history);
    assert_eq!(line.cursor, 11);
    assert_eq!(line.apply_key(Key::Right, &history), EditOutcome::Nothing);
    assert_eq!(line.apply_key(Key::WordLeft, &history), EditOutcome::Redraw);
    assert_eq!(line.cursor, 6);
    assert_eq!(line.apply_key(Key::Backspace, &history), EditOutcome::Redraw);
    assert_eq!(line_text(&line.buf), "helloworld");
    assert_eq!(line.cursor, 5);
    assert_eq!(line.apply_key(Key::Insert(b'_'), &history), EditOutcome::Redraw);
    assert_eq!(line_text(&line.buf), "hello_world");
    assert_eq!(line.apply_key(Key::Delete, &history), EditOutcome::Redraw);
    assert_eq!(line_text(&line.buf), "hello_orld");
    assert_eq!(line.apply_key(Key::Home, &history), EditOutcome::Redraw);
    assert_eq!(line.apply_key(Key::Left, &history), EditOutcome::Nothing);
    assert_eq!(line.apply_key(Key::Backspace, &history), EditOutcome::Nothing);
    assert_eq!(line.apply_key(Key::LineEnd, &history), EditOutcome::Redraw);
    assert_eq!(line.apply_key(Key::Delete, &history), EditOutcome::Nothing);
    assert_eq!(line.cursor, 10);
    assert_eq!(line.apply_key(Key::Left, &history), EditOutcome::Redraw);
    assert_eq!(line.apply_key(Key::Left, &history), EditOutcome::Redraw);
    assert_eq!(line.apply_key(Key::KillToEnd, &history), EditOutcome::Redraw);
    assert_eq!(line_text(&line.buf), "hello_or");
    assert_eq!(line.apply_key(Key::Enter, &history), EditOutcome::Submit);
    assert_eq!(line.apply_key(Key::Cancel, &history), EditOutcome::NewLine);
    assert!(line.buf.is_empty());
    assert_eq!(line.cursor, 0);
    assert_eq!(line.apply_key(Key::Quit, &history), EditOutcome::Quit);
    assert_eq!(line.apply_key(Key::ToggleOutput, &history), EditOutcome::ToggleOutput);
    assert_eq!(line.apply_key(Key::OpenEditor, &history), EditOutcome::OpenEditor);
    assert_eq!(line.apply_key(Key::Complete, &history), EditOutcome::Complete);
}

#[test]
fn words_are_moved_over_and_killed() {
    let history = Vec::new();
    let mut line = typed("one  two   three", &history);
    line.apply_key(Key::Home, &history);
    line.apply_key(Key::WordRight, &history);
    assert_eq!(line.cursor, 3);
    line.apply_key(Key::WordRight, &history);
    assert_eq!(line.cursor, 8);
    line.apply_key(Key::WordRight, &history);
    assert_eq!(line.cursor, 16);
    line.apply_key(Key::WordRight, &history);
    assert_eq!(line.cursor, 16);
    line.apply_key(Key::WordLeft, &history);
    assert_eq!(line.cursor, 11);
    line.apply_key(Key::Left, &history);
    line.apply_key(Key::KillWord, &history);
    assert_eq!(line_text(&line.buf), "one   three");
    assert_eq!(line.cursor, 5);
    line.apply_key(Key::KillWord, &history);
    assert_eq!(line_text(&line.buf), " three");
    assert_eq!(line.cursor, 0);
    line.apply_key(Key::KillWord, &history);
    assert_eq!(line_text(&line.buf), " three");
    line.apply_key(Key::KillLine, &history);
    assert!(line.buf.is_empty());
}

#[test]
fn the_history_is_walked() {
    let history = strings(&["first", "second"]);
    let mut line = typed("draft", &history);
    assert_eq!(line.apply_key(Key::Down, &history), EditOutcome::Nothing);
    assert_eq!(line.apply_key(Key::Up, &history), EditOutcome::Redraw);
    assert_eq!(line_text(&line.buf), "second");
    assert_eq!(line.cursor, 6);
    assert_eq!(line.saved_line, "draft");
    assert_eq!(line.apply_key(Key::Up, &history), EditOutcome::Redraw);
    assert_eq!(line_text(&line.buf), "first");
    assert_eq!(line.apply_key(Key::Up, &history), EditOutcome::Nothing);
    assert_eq!(line.apply_key(Key::Down, &history), EditOutcome::Redraw);
    assert_eq!(line_text(&line.buf), "second");
    assert_eq!(line.apply_key(Key::Down, &history), EditOutcome::Redraw);
    assert_eq!(line_text(&line.buf), "draft");
    assert_eq!(line.hist_idx, 2);
    line.set_text("edited elsewhere");
    assert_eq!(line.cursor, 16);
}

#[test]
fn the_line_is_shown_with_its_cursor() {
    let history = Vec::new();
    let mut line = typed("hello", &history);
    assert_eq!(render_line("> ", &line), "\r\x1b[K> hello");
    line.apply_key(Key::Left, &history);
    line.apply_key(Key::Left, &history);
    assert_eq!(render_line("5% > ", &line), "\r\x1b[K5% > hello\x1b[2D");
    line.buf = vec![b'a', 0xff, b'b'];
    line.cursor = 3;
    assert_eq!(render_line("", &line), "\r\x1b[Ka\u{fffd}b");
}

#[test]
fn paths_behind_an_at_are_completed() {
    let history = Vec::new();
    let mut line = typed("see @src/ma and more", &history);
    for _ in 0..9 {
        line.apply_key(Key::Left, &history);
    }
    assert_eq!(typed_path(&line), Some((4, "src/ma".to_string())));
    assert!(!apply_completion(&mut line, 4, &strings(&[])));
    assert_eq!(line_text(&line.buf), "see @src/ma and more");
    assert!(!apply_completion(&mut line, 4, &strings(&["src/main.rs"])));
    assert_eq!(line_text(&line.buf), "see @src/main.rs and more");
    assert_eq!(line.cursor, 16);
    let mut line = typed("@s", &history);
    assert!(apply_completion(&mut line, 0, &strings(&["src/", "scripts/"])));
    assert_eq!(line_text(&line.buf), "@s");
    assert!(apply_completion(&mut line, 0, &strings(&["src/main.rs", "src/map.rs"])));
    assert_eq!(line_text(&line.buf), "@src/ma");
    assert_eq!(line.cursor, 7);
    assert_eq!(typed_path(&typed("no at here", &history)), None);
    assert_eq!(typed_path(&typed("a@b@c", &history)), Some((3, "c".to_string())));
    assert_eq!(typed_path(&typed("@", &history)), Some((0, String::new())));
    let mut broken = typed("@", &history);
    broken.buf.push(0xff);
    broken.cursor = 2;
    assert_eq!(typed_path(&broken), None);
}
