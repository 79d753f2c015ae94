use crate::text::{
    byte_len, byte_len_of, chars_of, decimal, find_char, index_of, is_match_at, matches_at,
    parse_u64, parsed_u64, push_decimal, push_range, same_text, string_of, trim_range, trim_text,
    trimmed,
};
use crate::util::{fit_chars, fit_prefix, truncate, truncated};
use vstd::prelude::*;
use vstd::string::StringExecFns;

verus! {

/// What happened after reading one line of user input.
#[derive(Clone, Copy, Debug, PartialEq, Eq, Structural)]
pub enum InputResult {
    /// A user message was added: proceed to the model.
    Ready,
    /// A command was handled: prompt again.
    Continue,
    /// The user wants to quit.
    Quit,
    /// A new session was asked for.
    New,
}

/// A line of input, told apart by its shell escape.
#[derive(Debug, PartialEq)]
pub enum ShellInput {
    /// Plain text for the model.
    Text(String),
    /// A shell command whose output goes to the model.
    Send(String),
    /// A shell command whose output is only shown.
    Discard(String),
}

/// Tells a line of input apart by its shell escape: `!!` before a command
/// whose output is only shown, `!` before one whose output goes to the
/// model, anything else is text.
pub fn classify_input(line: &str) -> (input: ShellInput)
    ensures
        matches_at(line@, "!!"@, 0) ==> (input matches ShellInput::Discard(cmd) && cmd@
            == line@.skip("!!"@.len() as int)),
        !matches_at(line@, "!!"@, 0) && matches_at(line@, "!"@, 0) ==> (input matches ShellInput::Send(
            cmd,
        ) && cmd@ == line@.skip("!"@.len() as int)),
        !matches_at(line@, "!!"@, 0) && !matches_at(line@, "!"@, 0) ==> (input matches ShellInput::Text(
            text,
        ) && text@ == line@),
{
    let chars = chars_of(line);
    let twice = chars_of("!!");
    let once = chars_of("!");
    if is_match_at(&chars, &twice, 0) {
        let mut rest: Vec<char> = Vec::new();
        push_range(&mut rest, &chars, twice.len(), chars.len());
        assert(rest@ =~= line@.skip("!!"@.len() as int));
        ShellInput::Discard(string_of(&rest))
    } else if is_match_at(&chars, &once, 0) {
        let mut rest: Vec<char> = Vec::new();
        push_range(&mut rest, &chars, once.len(), chars.len());
        assert(rest@ =~= line@.skip("!"@.len() as int));
        ShellInput::Send(string_of(&rest))
    } else {
        ShellInput::Text(String::from_str(line))
    }
}

/// The message that carries a shell command and its output to the model.
pub open spec fn shell_message(cmd: Seq<char>, output: Seq<char>) -> Seq<char> {
    "Shell command: "@ + cmd + "\nOutput:\n"@ + output
}

/// The message that carries a shell command and its output to the model.
pub fn shell_message_text(cmd: &str, output: &str) -> (text: String)
    ensures
        text@ == shell_message(cmd@, output@),
{
    let mut text = String::from_str("Shell command: ");
    text.append(cmd);
    text.append("\nOutput:\n");
    text.append(output);
    text
}

/// The message that carries the body of a skill to the model, and behind
/// it what the user added, if anything.
pub open spec fn skill_message(name: Seq<char>, body: Seq<char>, arg: Seq<char>) -> Seq<char> {
    "<skill name=\""@ + name + "\">\n"@ + body + "\n</skill>"@ + if arg.len() == 0 {
        Seq::empty()
    } else {
        "\n\nUser: "@ + arg
    }
}

/// The message that carries the body of a skill to the model.
pub fn skill_message_text(name: &str, body: &str, arg: &str) -> (text: String)
    ensures
        text@ == skill_message(name@, body@, arg@),
{
    let mut text = String::from_str("<skill name=\"");
    text.append(name);
    text.append("\">\n");
    text.append(body);
    text.append("\n</skill>");
    if !arg.is_empty() {
        text.append("\n\nUser: ");
        text.append(arg);
        assert(text@ =~= skill_message(name@, body@, arg@));
    } else {
        assert(text@ =~= skill_message(name@, body@, arg@));
    }
    text
}

/// Longest first prompt that the index keeps in full.
pub const FIRST_PROMPT_LIMIT: usize = 100;

/// The first prompt of a session after the input `text`: the input, cut
/// down where it is long, where the session had none yet.
pub open spec fn first_prompt_after(current: Seq<char>, text: Seq<char>) -> Seq<char> {
    if current == "No prompt"@ {
        truncated(text, FIRST_PROMPT_LIMIT as nat)
    } else {
        current
    }
}

/// Records the first prompt of a session, where it has none yet.
pub fn note_first_prompt(current: &mut String, text: &str)
    ensures
        final(current)@ == first_prompt_after(old(current)@, text@),
{
    if same_text(current.as_str(), "No prompt") {
        *current = truncate(text, FIRST_PROMPT_LIMIT);
    }
}

/// The prompt before a line of input: the share of the context that is
/// filled, where it is known, and a bold `>`.
pub open spec fn prompt_text(token_pct: Option<u32>) -> Seq<char> {
    match token_pct {
        Some(p) => decimal(p as nat) + "% \x1b[1m>\x1b[0m "@,
        None => "\x1b[1m>\x1b[0m "@,
    }
}

/// The prompt before a line of input.
pub fn prompt(token_pct: Option<u32>) -> (text: String)
    ensures
        text@ == prompt_text(token_pct),
{
    match token_pct {
        Some(p) => {
            let mut text = String::new();
            push_decimal(&mut text, p as u64);
            text.append("% \x1b[1m>\x1b[0m ");
            assert(text@ =~= prompt_text(token_pct));
            text
        },
        None => String::from_str("\x1b[1m>\x1b[0m "),
    }
}

/// The command word of a line: what stands before its first space.
pub open spec fn command_word(line: Seq<char>) -> Seq<char> {
    line.take(index_of(line, ' '))
}

/// The argument of a line: what stands behind its first space, without
/// the white space at its ends; nothing where the line has no space.
pub open spec fn command_arg(line: Seq<char>) -> Seq<char> {
    if index_of(line, ' ') < line.len() {
        trimmed(line.skip(index_of(line, ' ') + 1))
    } else {
        Seq::empty()
    }
}

/// What a slash command asks for.
#[derive(Debug, PartialEq)]
pub enum Command {
    Skill { name: String, arg: String },
    Help,
    Quit,
    New,
    Resume,
    Name { arg: String },
    Session,
    Model { arg: String },
    Hotkeys,
    Skills,
    Unknown { word: String },
}

/// Whether the command `command` is what the word and the argument of a
/// line ask for.
pub open spec fn is_command_of(command: Command, word: Seq<char>, arg: Seq<char>) -> bool {
    if matches_at(word, "/skill:"@, 0) {
        command matches Command::Skill { name, arg: a } && name@ == word.skip(
            "/skill:"@.len() as int,
        ) && a@ == arg
    } else if word == "/help"@ {
        command is Help
    } else if word == "/quit"@ || word == "/exit"@ {
        command is Quit
    } else if word == "/new"@ {
        command is New
    } else if word == "/resume"@ {
        command is Resume
    } else if word == "/name"@ {
        command matches Command::Name { arg: a } && a@ == arg
    } else if word == "/session"@ {
        command is Session
    } else if word == "/model"@ {
        command matches Command::Model { arg: a } && a@ == arg
    } else if word == "/hotkeys"@ {
        command is Hotkeys
    } else if word == "/skills"@ {
        command is Skills
    } else {
        command matches Command::Unknown { word: w } && w@ == word
    }
}

/// Reads a slash command from a line of input.
pub fn parse_command(line: &str) -> (command: Command)
    ensures
        is_command_of(command, command_word(line@), command_arg(line@)),
{
    let chars = chars_of(line);
    let space = find_char(&chars, 0, chars.len(), ' ');
    assert(chars@.subrange(0, chars.len() as int) =~= line@);
    let mut word_chars: Vec<char> = Vec::new();
    push_range(&mut word_chars, &chars, 0, space);
    assert(word_chars@ =~= command_word(line@));
    let mut arg_chars: Vec<char> = Vec::new();
    if space < chars.len() {
        let bounds = trim_range(&chars, space + 1, chars.len());
        push_range(&mut arg_chars, &chars, bounds.0, bounds.1);
        assert(chars@.subrange(space + 1, chars.len() as int) =~= line@.skip(space + 1));
    }
    assert(arg_chars@ =~= command_arg(line@));
    let word = string_of(&word_chars);
    let arg = string_of(&arg_chars);
    let prefix = chars_of("/skill:");
    if is_match_at(&word_chars, &prefix, 0) {
        let mut name: Vec<char> = Vec::new();
        push_range(&mut name, &word_chars, prefix.len(), word_chars.len());
        assert(name@ =~= word_chars@.skip("/skill:"@.len() as int));
        Command::Skill { name: string_of(&name), arg }
    } else if same_text(word.as_str(), "/help") {
        Command::Help
    } else if same_text(word.as_str(), "/quit") || same_text(word.as_str(), "/exit") {
        Command::Quit
    } else if same_text(word.as_str(), "/new") {
        Command::New
    } else if same_text(word.as_str(), "/resume") {
        Command::Resume
    } else if same_text(word.as_str(), "/name") {
        Command::Name { arg }
    } else if same_text(word.as_str(), "/session") {
        Command::Session
    } else if same_text(word.as_str(), "/model") {
        Command::Model { arg }
    } else if same_text(word.as_str(), "/hotkeys") {
        Command::Hotkeys
    } else if same_text(word.as_str(), "/skills") {
        Command::Skills
    } else {
        Command::Unknown { word }
    }
}

/// What is done about a slash command.
#[derive(Debug, PartialEq)]
pub enum CommandAction {
    /// Load the skill and send its body with the argument.
    RunSkill { name: String, arg: String },
    ShowHelp,
    Quit,
    /// Say that the session is new already.
    AlreadyNew,
    /// End this session and begin another.
    StartNew,
    /// Say that a session is resumed only before its first prompt.
    ResumeTooLate,
    /// Load the session that was modified last.
    Resume,
    /// Show the name of the session.
    ShowName,
    /// Give the session a name.
    SetName { name: String },
    ShowSession,
    ShowModels,
    SwitchModel { name: String },
    ShowHotkeys,
    ShowSkills,
    /// Say that the command is not known, and show the help.
    Unknown { word: String },
}

/// Whether `action` is what is done about `command`, before the first
/// prompt of a session or behind it.
pub open spec fn is_action_of(action: CommandAction, command: Command, at_startup: bool) -> bool {
    match command {
        Command::Skill { name, arg } => action matches CommandAction::RunSkill { name: n, arg: a }
            && n == name && a == arg,
        Command::Help => action is ShowHelp,
        Command::Quit => action is Quit,
        Command::New => if at_startup {
            action is AlreadyNew
        } else {
            action is StartNew
        },
        Command::Resume => if at_startup {
            action is Resume
        } else {
            action is ResumeTooLate
        },
        Command::Name { arg } => if arg@.len() == 0 {
            action is ShowName
        } else {
            action matches CommandAction::SetName { name } && name == arg
        },
        Command::Session => action is ShowSession,
        Command::Model { arg } => if arg@.len() == 0 {
            action is ShowModels
        } else {
            action matches CommandAction::SwitchModel { name } && name == arg
        },
        Command::Hotkeys => action is ShowHotkeys,
        Command::Skills => action is ShowSkills,
        Command::Unknown { word } => action matches CommandAction::Unknown { word: w } && w == word,
    }
}

/// Decides what is done about a slash command.
pub fn command_action(command: Command, at_startup: bool) -> (action: CommandAction)
    ensures
        is_action_of(action, command, at_startup),
{
    match command {
        Command::Skill { name, arg } => CommandAction::RunSkill { name, arg },
        Command::Help => CommandAction::ShowHelp,
        Command::Quit => CommandAction::Quit,
        Command::New => if at_startup {
            CommandAction::AlreadyNew
        } else {
            CommandAction::StartNew
        },
        Command::Resume => if at_startup {
            CommandAction::Resume
        } else {
            CommandAction::ResumeTooLate
        },
        Command::Name { arg } => if arg.as_str().is_empty() {
            CommandAction::ShowName
        } else {
            CommandAction::SetName { name: arg }
        },
        Command::Session => CommandAction::ShowSession,
        Command::Model { arg } => if arg.as_str().is_empty() {
            CommandAction::ShowModels
        } else {
            CommandAction::SwitchModel { name: arg }
        },
        Command::Hotkeys => CommandAction::ShowHotkeys,
        Command::Skills => CommandAction::ShowSkills,
        Command::Unknown { word } => CommandAction::Unknown { word },
    }
}

/// Decides what is done about a line that begins with a slash.
pub fn handle_command(line: &str, at_startup: bool) -> (action: CommandAction)
    ensures
        exists|command: Command|
            is_command_of(command, command_word(line@), command_arg(line@)) && is_action_of(
                action,
                command,
                at_startup,
            ),
{
    let command = parse_command(line);
    command_action(command, at_startup)
}

/// What the input loop does once an action is carried out; `done` says
/// whether a skill or a session was loaded with success.
pub open spec fn outcome_of(action: CommandAction, done: bool) -> InputResult {
    match action {
        CommandAction::Quit => InputResult::Quit,
        CommandAction::StartNew => InputResult::New,
        CommandAction::RunSkill { .. } | CommandAction::Resume => if done {
            InputResult::Ready
        } else {
            InputResult::Continue
        },
        _ => InputResult::Continue,
    }
}

/// Tells the input loop how to go on once an action is carried out.
pub fn action_outcome(action: &CommandAction, done: bool) -> (result: InputResult)
    ensures
        result == outcome_of(*action, done),
{
    match action {
        CommandAction::Quit => InputResult::Quit,
        CommandAction::StartNew => InputResult::New,
        CommandAction::RunSkill { .. } | CommandAction::Resume => if done {
            InputResult::Ready
        } else {
            InputResult::Continue
        },
        _ => InputResult::Continue,
    }
}

/// The kinds of line that the input loop tells apart.
#[derive(Clone, Copy, Debug, PartialEq, Eq, Structural)]
pub enum LineKind {
    /// No line, or an empty one: the user is done.
    End,
    /// A single question mark: show the help.
    Help,
    /// A slash command.
    Command,
    /// Text or a shell escape.
    Input,
}

/// The kind of a line of input; `None` stands for the end of the input.
pub fn line_kind(line: Option<&str>) -> (kind: LineKind)
    ensures
        kind == match line {
            None => LineKind::End,
            Some(l) => if l@.len() == 0 {
                LineKind::End
            } else if l@ == "?"@ {
                LineKind::Help
            } else if matches_at(l@, "/"@, 0) {
                LineKind::Command
            } else {
                LineKind::Input
            },
        },
{
    match line {
        None => LineKind::End,
        Some(l) => {
            if l.is_empty() {
                LineKind::End
            } else if same_text(l, "?") {
                LineKind::Help
            } else {
                let chars = chars_of(l);
                let slash = chars_of("/");
                if is_match_at(&chars, &slash, 0) {
                    LineKind::Command
                } else {
                    LineKind::Input
                }
            }
        },
    }
}

/// What the user is told of the commands.
pub const HELP_TEXT: &'static str =
    "  /resume          Resume last session\n  /new             Start a new session\n  /model [name]    Show or switch model\n  /name <name>     Set session display name\n  /session         Show session info\n  /quit, /exit     Quit tapir\n  /help            Show this help\n\n  !cmd             Run cmd, send output to LLM\n  !!cmd            Run cmd, don't send to LLM\n\n  /hotkeys         Show keyboard shortcuts\n  /skills          List available skills\n  /skill:name      Load and execute a skill\n";

/// What the user is told of the keys.
pub const HOTKEYS_TEXT: &'static str =
    "  Navigation:\n    Left/Right       Move cursor\n    Ctrl+Left/Right  Move by word\n    Ctrl-A / Home    Beginning of line\n    Ctrl-E / End     End of line\n    Up / Ctrl-P      Previous history\n    Down / Ctrl-N    Next history\n\n  Editing:\n    Backspace        Delete char before cursor\n    Delete           Delete char at cursor\n    Ctrl-U           Clear entire line\n    Ctrl-K           Delete to end of line\n    Ctrl-W           Delete word backward\n    Ctrl-G           Open external editor\n    Tab              Complete @path\n\n  Control:\n    Enter            Submit input\n    Ctrl-C           Cancel current line\n    Ctrl-D           Quit (on empty line)\n    Ctrl-O           Toggle tool output\n";

/// Longest description of a skill that is listed in full, in bytes.
pub const SKILL_LINE_LIMIT: usize = 60;

/// Bytes of a longer description that are listed.
pub const SKILL_LINE_KEPT: usize = 57;

/// The description of a skill as it is listed: whole up to sixty bytes,
/// else its first whole characters within 57 bytes and three dots.
pub open spec fn listed_description(description: Seq<char>) -> Seq<char> {
    if byte_len(description) > SKILL_LINE_LIMIT {
        description.take(fit_chars(description, SKILL_LINE_KEPT as nat) as int) + "..."@
    } else {
        description
    }
}

/// The name of a skill as it is listed: with spaces behind it up to
/// twenty characters.
pub open spec fn listed_name(name: Seq<char>) -> Seq<char> {
    if name.len() >= 20 {
        name
    } else {
        name + Seq::new((20 - name.len()) as nat, |i: int| ' ')
    }
}

/// The line of a skill in the list of skills.
pub open spec fn skill_line(name: Seq<char>, description: Seq<char>) -> Seq<char> {
    "  "@ + listed_name(name) + " "@ + listed_description(description)
}

/// Writes the line of a skill in the list of skills.
pub fn skill_line_text(name: &str, description: &str) -> (line: String)
    ensures
        line@ == skill_line(name@, description@),
{
    let mut line = String::from_str("  ");
    line.append(name);
    let n = chars_of(name);
    let mut i: usize = n.len();
    let ghost pad = Seq::new((20 - name@.len()) as nat, |i: int| ' ');
    assert("  "@ + name@ + pad.take(0) =~= "  "@ + name@);
    while i < 20
        invariant
            n.len() <= i,
            n@ == name@,
            n.len() < 20 ==> i <= 20,
            n.len() < 20 ==> pad == Seq::new((20 - name@.len()) as nat, |i: int| ' '),
            n.len() < 20 ==> line@ == "  "@ + name@ + pad.take(i - n.len()),
            n.len() >= 20 ==> line@ == "  "@ + name@,
        decreases 20 - i,
    {
        line.push(' ');
        assert(pad.take(i + 1 - n.len()) =~= pad.take(i - n.len()).push(' '));
        assert(line@ =~= "  "@ + name@ + pad.take(i + 1 - n.len()));
        i += 1;
    }
    proof {
        if n.len() < 20 {
            assert(pad.take(20 - n.len()) =~= pad);
        }
        assert(line@ =~= "  "@ + listed_name(name@));
    }
    line.append(" ");
    if byte_len_of(description) > SKILL_LINE_LIMIT {
        let d = chars_of(description);
        let fit = fit_prefix(&d, SKILL_LINE_KEPT);
        let mut head: Vec<char> = Vec::new();
        push_range(&mut head, &d, 0, fit.0);
        assert(head@ =~= description@.take(fit.0 as int));
        let head_text = string_of(&head);
        line.append(head_text.as_str());
        line.append("...");
        assert(line@ =~= skill_line(name@, description@));
    } else {
        line.append(description);
        assert(line@ =~= skill_line(name@, description@));
    }
    line
}

/// The fill of the context that a file keeps: the number of 32 bits that
/// stands in it between white space.
pub open spec fn kept_token_pct(text: Seq<char>) -> Option<u32> {
    match parsed_u64(trimmed(text)) {
        Some(n) => if n <= u32::MAX {
            Some(n as u32)
        } else {
            None
        },
        None => None,
    }
}

/// Reads the fill of the context from the file that keeps it.
pub fn load_token_pct(text: &str) -> (pct: Option<u32>)
    ensures
        pct == kept_token_pct(text@),
{
    let inner = trim_text(text);
    match parse_u64(inner.as_str()) {
        Some(n) => if n <= u32::MAX as u64 {
            Some(n as u32)
        } else {
            None
        },
        None => None,
    }
}

/// The path of the file that keeps the fill of the context of the session
/// whose transcript is at `session`.
pub fn meta_path(session: &str) -> (path: String)
    ensures
        path@ == session@ + ".meta"@,
{
    let mut path = String::from_str(session);
    path.append(".meta");
    path
}

/// The first prompt that a session gets from the skill `name`.
pub fn skill_first_prompt(name: &str) -> (prompt: String)
    ensures
        prompt@ == "/skill:"@ + name@,
{
    let mut prompt = String::from_str("/skill:");
    prompt.append(name);
    prompt
}

} // verus!
