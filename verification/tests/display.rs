use tapir::display::{ToolOutput, ToolOutputLog};

const MARK: &str = "    \x1b[2m\u{23bf}\x1b[0m\n";

#[test]
fn short_output_is_shown_whole() {
    let output = ToolOutput {
        header: "bash: ls".to_string(),
        output: "a\nb\nc\n".to_string(),
        expanded: false,
    };
    assert_eq!(output.render(), format!("{MARK}     a\n     b\n     c\n"));
}

#[test]
fn long_output_is_folded() {
    let mut output = ToolOutput {
        header: "bash: ls".to_string(),
        output: "1\n2\n3\n4\n5".to_string(),
        expanded: false,
    };
    assert_eq!(
        output.render(),
        format!("{MARK}     1\n     2\n     3\n     \x1b[2m\u{2026} +2 lines (ctrl+o to expand)\x1b[0m\n")
    );
    output.expanded = true;
    assert_eq!(
        output.render(),
        format!("{MARK}     1\n     2\n     3\n     4\n     5\n")
    );
}

#[test]
fn empty_output_shows_the_mark_alone() {
    let output = ToolOutput {
        header: String::new(),
        output: String::new(),
        expanded: false,
    };
    assert_eq!(output.render(), MARK);
}

#[test]
fn the_log_shows_and_toggles_its_last_entry() {
    let mut log = ToolOutputLog::new();
    assert_eq!(log.print_last(), None);
    assert_eq!(log.toggle_last(), None);
    log.push("read: a".to_string(), "x".to_string());
    log.push("bash: seq 4".to_string(), "1\n2\n3\n4\n".to_string());
    assert_eq!(
        log.print_last(),
        Some(format!(
            "{MARK}     1\n     2\n     3\n     \x1b[2m\u{2026} +1 lines (ctrl+o to expand)\x1b[0m\n"
        ))
    );
    assert_eq!(
        log.toggle_last(),
        Some((
            "* bash: seq 4\n".to_string(),
            format!("{MARK}     1\n     2\n     3\n     4\n")
        ))
    );
    assert!(log.entries[1].expanded);
    assert!(!log.entries[0].expanded);
    let (_, shown) = log.toggle_last().unwrap();
    assert!(shown.contains("+1 lines"));
    log.clear();
    assert!(log.entries.is_empty());
    assert_eq!(log.print_last(), None);
}
