use tapir::command::{
    action_outcome, classify_input, command_action, handle_command, line_kind, load_token_pct,
    meta_path, note_first_prompt, parse_command, prompt, shell_message_text,
    skill_first_prompt, skill_line_text, skill_message_text, Command, CommandAction,
    InputResult, LineKind, ShellInput, HELP_TEXT, HOTKEYS_TEXT,
};

#[test]
fn shell_escapes_are_told_apart() {
    assert_eq!(classify_input("!!ls -l"), ShellInput::Discard("ls -l".to_string()));
    assert_eq!(classify_input("!ls"), ShellInput::Send("ls".to_string()));
    assert_eq!(classify_input("ls !"), ShellInput::Text("ls !".to_string()));
    assert_eq!(classify_input("!"), ShellInput::Send(String::new()));
    assert_eq!(classify_input("!!"), ShellInput::Discard(String::new()));
    assert_eq!(classify_input("!!!x"), ShellInput::Discard("!x".to_string()));
    assert_eq!(classify_input(""), ShellInput::Text(String::new()));
}

#[test]
fn commands_are_read_with_their_argument() {
    assert_eq!(parse_command("/help"), Command::Help);
    assert_eq!(parse_command("/quit"), Command::Quit);
    assert_eq!(parse_command("/exit now"), Command::Quit);
    assert_eq!(parse_command("/new"), Command::New);
    assert_eq!(parse_command("/resume"), Command::Resume);
    assert_eq!(parse_command("/session"), Command::Session);
    assert_eq!(parse_command("/hotkeys"), Command::Hotkeys);
    assert_eq!(parse_command("/skills"), Command::Skills);
    assert_eq!(
        parse_command("/name   my session  "),
        Command::Name {
            arg: "my session".to_string()
        }
    );
    assert_eq!(parse_command("/name"), Command::Name { arg: String::new() });
    assert_eq!(parse_command("/name "), Command::Name { arg: String::new() });
    assert_eq!(
        parse_command("/model model-x"),
        Command::Model {
            arg: "model-x".to_string()
        }
    );
    assert_eq!(
        parse_command("/skill:pdf-tools  merge a.pdf b.pdf"),
        Command::Skill {
            name: "pdf-tools".to_string(),
            arg: "merge a.pdf b.pdf".to_string()
        }
    );
    assert_eq!(
        parse_command("/skill:"),
        Command::Skill {
            name: String::new(),
            arg: String::new()
        }
    );
    assert_eq!(
        parse_command("/helpme"),
        Command::Unknown {
            word: "/helpme".to_string()
        }
    );
    assert_eq!(
        parse_command("/HELP"),
        Command::Unknown {
            word: "/HELP".to_string()
        }
    );
    assert_eq!(
        parse_command("/name\tx"),
        Command::Unknown {
            word: "/name\tx".to_string()
        }
    );
}

#[test]
fn commands_depend_on_the_moment() {
    assert_eq!(handle_command("/new", true), CommandAction::AlreadyNew);
    assert_eq!(handle_command("/new", false), CommandAction::StartNew);
    assert_eq!(handle_command("/resume", true), CommandAction::Resume);
    assert_eq!(handle_command("/resume", false), CommandAction::ResumeTooLate);
    assert_eq!(handle_command("/name", false), CommandAction::ShowName);
    assert_eq!(
        handle_command("/name x", false),
        CommandAction::SetName {
            name: "x".to_string()
        }
    );
    assert_eq!(handle_command("/model", true), CommandAction::ShowModels);
    assert_eq!(
        handle_command("/model m", true),
        CommandAction::SwitchModel {
            name: "m".to_string()
        }
    );
    assert_eq!(
        command_action(Command::Unknown { word: "/x".to_string() }, false),
        CommandAction::Unknown {
            word: "/x".to_string()
        }
    );
    assert_eq!(handle_command("/help", false), CommandAction::ShowHelp);
    assert_eq!(handle_command("/session", false), CommandAction::ShowSession);
    assert_eq!(handle_command("/hotkeys", false), CommandAction::ShowHotkeys);
    assert_eq!(handle_command("/skills", false), CommandAction::ShowSkills);
    assert_eq!(
        handle_command("/skill:a b", false),
        CommandAction::RunSkill {
            name: "a".to_string(),
            arg: "b".to_string()
        }
    );
}

#[test]
fn actions_tell_the_loop_how_to_go_on() {
    assert_eq!(action_outcome(&CommandAction::Quit, false), InputResult::Quit);
    assert_eq!(action_outcome(&CommandAction::StartNew, true), InputResult::New);
    assert_eq!(action_outcome(&CommandAction::Resume, true), InputResult::Ready);
    assert_eq!(action_outcome(&CommandAction::Resume, false), InputResult::Continue);
    let skill = CommandAction::RunSkill {
        name: "a".to_string(),
        arg: String::new(),
    };
    assert_eq!(action_outcome(&skill, true), InputResult::Ready);
    assert_eq!(action_outcome(&skill, false), InputResult::Continue);
    for action in [
        CommandAction::ShowHelp,
        CommandAction::AlreadyNew,
        CommandAction::ResumeTooLate,
        CommandAction::ShowName,
        CommandAction::ShowSession,
        CommandAction::ShowModels,
        CommandAction::ShowHotkeys,
        CommandAction::ShowSkills,
    ] {
        assert_eq!(action_outcome(&action, true), InputResult::Continue);
    }
}

#[test]
fn lines_are_sorted_by_kind() {
    assert_eq!(line_kind(None), LineKind::End);
    assert_eq!(line_kind(Some("")), LineKind::End);
    assert_eq!(line_kind(Some("?")), LineKind::Help);
    assert_eq!(line_kind(Some("/help")), LineKind::Command);
    assert_eq!(line_kind(Some("/")), LineKind::Command);
    assert_eq!(line_kind(Some("??")), LineKind::Input);
    assert_eq!(line_kind(Some(" /help")), LineKind::Input);
    assert_eq!(line_kind(Some("!ls")), LineKind::Input);
}

#[test]
fn messages_for_the_model_are_put_together() {
    assert_eq!(
        shell_message_text("ls", "a\nb\n"),
        "Shell command: ls\nOutput:\na\nb\n"
    );
    assert_eq!(
        skill_message_text("pdf", "# Body", ""),
        "<skill name=\"pdf\">\n# Body\n</skill>"
    );
    assert_eq!(
        skill_message_text("pdf", "# Body", "merge"),
        "<skill name=\"pdf\">\n# Body\n</skill>\n\nUser: merge"
    );
}

#[test]
fn the_first_prompt_is_noted_once() {
    let mut first = "No prompt".to_string();
    note_first_prompt(&mut first, "fix the bug");
    assert_eq!(first, "fix the bug");
    note_first_prompt(&mut first, "something else");
    assert_eq!(first, "fix the bug");
    let mut first = "No prompt".to_string();
    note_first_prompt(&mut first, &"x".repeat(101));
    assert_eq!(
        first,
        format!("{}...\n(truncated, 101 bytes total)", "x".repeat(100))
    );
}

#[test]
fn the_prompt_shows_the_fill() {
    assert_eq!(prompt(None), "\x1b[1m>\x1b[0m ");
    assert_eq!(prompt(Some(0)), "0% \x1b[1m>\x1b[0m ");
    assert_eq!(prompt(Some(87)), "87% \x1b[1m>\x1b[0m ");
}

#[test]
fn skills_are_listed_in_columns() {
    assert_eq!(
        skill_line_text("pdf-tools", "PDF processing"),
        "  pdf-tools            PDF processing"
    );
    assert_eq!(
        skill_line_text("a-name-of-more-than-twenty", "d"),
        "  a-name-of-more-than-twenty d"
    );
    assert_eq!(
        skill_line_text("s", &"x".repeat(60)),
        format!("  s                    {}", "x".repeat(60))
    );
    assert_eq!(
        skill_line_text("s", &"x".repeat(61)),
        format!("  s                    {}...", "x".repeat(57))
    );
    assert_eq!(
        skill_line_text("s", &"\u{e9}".repeat(31)),
        format!("  s                    {}...", "\u{e9}".repeat(28))
    );
    assert_eq!(skill_line_text("", ""), format!("  {} ", " ".repeat(20)));
}

#[test]
fn the_fill_is_kept_beside_the_transcript() {
    assert_eq!(meta_path("/s/id.jsonl"), "/s/id.jsonl.meta");
    assert_eq!(load_token_pct("42"), Some(42));
    assert_eq!(load_token_pct(" 7\n"), Some(7));
    assert_eq!(load_token_pct("+7"), Some(7));
    assert_eq!(load_token_pct(""), None);
    assert_eq!(load_token_pct("4 2"), None);
    assert_eq!(load_token_pct("-1"), None);
    assert_eq!(load_token_pct("4294967296"), None);
    assert_eq!(load_token_pct("4294967295"), Some(u32::MAX));
    assert_eq!(skill_first_prompt("pdf"), "/skill:pdf");
}

#[test]
fn help_names_every_command() {
    for word in [
        "/resume", "/new", "/model", "/name", "/session", "/quit", "/exit", "/help", "/hotkeys",
        "/skills", "/skill:name", "!cmd", "!!cmd",
    ] {
        assert!(HELP_TEXT.contains(word), "{word}");
    }
    assert_eq!(HELP_TEXT.lines().count(), 14);
    assert!(HELP_TEXT.starts_with("  /resume          Resume last session\n"));
    assert!(HOTKEYS_TEXT.starts_with("  Navigation:\n    Left/Right       Move cursor\n"));
    assert!(HOTKEYS_TEXT.ends_with("    Ctrl-O           Toggle tool output\n"));
    assert_eq!(HOTKEYS_TEXT.lines().count(), 22);
}
