use crate::session::{join_path, joined};
use crate::text::{
    chars_of, count_leading_space, is_match_at, leading_space, matches_at, push_range, same_text,
    string_of, texts,
};
use crate::tool::{is_within, path_within};
use vstd::prelude::*;
use vstd::string::StringExecFns;

verus! {

/// The system prompt, and the files of instructions that went into it.
#[derive(Debug, PartialEq)]
pub struct SystemPrompt {
    pub prompt: String,
    pub context_files: Vec<String>,
}

/// The base prompt where no file gives another.
pub const DEFAULT_PROMPT: &'static str =
    "You are a coding assistant. You help users with software engineering tasks including solving bugs, adding features, refactoring code, and explaining code.\n\n# Tools\n\nYou have seven tools:\n- read_file: Read file contents with line numbers. Supports offset (1-indexed) and limit parameters for reading specific sections of large files.\n- write_file: Write content to a file (create or overwrite)\n- edit_file: Replace a unique string in a file. Supports fuzzy matching for whitespace and unicode variations (smart quotes, dashes) when exact match fails.\n- bash: Run a shell command\n- ls: List directory contents\n- find: Find files by glob pattern (uses fd)\n- grep: Search file contents by regex (uses ripgrep)\n\nAll file paths are sandboxed to the working directory. Paths outside it will be rejected.\n\n# Guidelines\n\n- Read files before modifying them. Understand existing code before suggesting changes.\n- Use edit_file for targeted changes to existing files. Use write_file only for new files or complete rewrites.\n- Use ls, find, and grep to explore the codebase before making changes. Prefer these over bash for file discovery and search.\n- Do not create files unless necessary. Prefer editing existing files to creating new ones.\n- Keep changes minimal and focused. Only make changes that are directly requested or clearly necessary.\n- Do not add features, refactor code, or make improvements beyond what was asked.\n- Do not add error handling, comments, or type annotations to code you did not change.\n- Run tests after making changes when a test command is available.\n\n# Executing actions with care\n\nConsider the reversibility of your actions. You can freely read files and run non-destructive commands. But for actions that are hard to reverse or could be destructive, explain what you intend to do and why before proceeding.\n\nExamples of risky actions:\n- Deleting files or directories\n- Overwriting files with significant content\n- Running commands that modify system state\n- Git operations like force-push, reset --hard, or branch deletion\n\nWhen you encounter unexpected state (unfamiliar files, uncommitted changes, lock files), investigate before overwriting or deleting.\n\n# Security\n\nBe careful not to introduce security vulnerabilities such as command injection, XSS, SQL injection, and other common vulnerabilities. Prioritize writing safe, secure, and correct code.\n\n# Style\n\n- Be concise. Explain what you are doing briefly.\n- When referencing code, include file paths to help the user navigate.\n- Do not give time estimates for tasks.";

/// Whether a text holds anything but white space.
pub open spec fn is_blank(s: Seq<char>) -> bool {
    leading_space(s) == s.len()
}

/// What was read of a file of instructions, where that is worth having:
/// nothing where the file could not be read or holds white space only.
pub fn non_blank(content: Option<String>) -> (kept: Option<String>)
    ensures
        match content {
            Some(text) => if is_blank(text@) {
                kept is None
            } else {
                kept == Some(text)
            },
            None => kept is None,
        },
{
    match content {
        Some(text) => {
            let chars = chars_of(text.as_str());
            let lead = count_leading_space(&chars, 0, chars.len());
            assert(chars@.subrange(0, chars.len() as int) =~= text@);
            if lead == chars.len() {
                None
            } else {
                Some(text)
            }
        },
        None => None,
    }
}

/// `text` with `extra` behind it, after an empty line; `text` alone where
/// there is no `extra`.
pub open spec fn appended(text: Seq<char>, extra: Option<Seq<char>>) -> Seq<char> {
    match extra {
        Some(e) => text + "\n\n"@ + e,
        None => text,
    }
}

/// What an optional string stands for.
pub open spec fn text_of(s: Option<String>) -> Option<Seq<char>> {
    match s {
        Some(t) => Some(t@),
        None => None,
    }
}

/// The base prompt: that of the project where it has one, else that of
/// the user, else the default; and behind it what the project and then the
/// user append.
pub open spec fn base_prompt_text(
    project_system: Option<Seq<char>>,
    global_system: Option<Seq<char>>,
    project_append: Option<Seq<char>>,
    global_append: Option<Seq<char>>,
) -> Seq<char> {
    appended(
        appended(
            match project_system {
                Some(p) => p,
                None => match global_system {
                    Some(g) => g,
                    None => DEFAULT_PROMPT@,
                },
            },
            project_append,
        ),
        global_append,
    )
}

/// Puts the base prompt together from the files that set and extend it.
pub fn load_base_prompt(
    project_system: Option<String>,
    global_system: Option<String>,
    project_append: Option<String>,
    global_append: Option<String>,
) -> (prompt: String)
    ensures
        prompt@ == base_prompt_text(
            text_of(project_system),
            text_of(global_system),
            text_of(project_append),
            text_of(global_append),
        ),
{
    let mut prompt = match project_system {
        Some(p) => p,
        None => match global_system {
            Some(g) => g,
            None => String::from_str(DEFAULT_PROMPT),
        },
    };
    match project_append {
        Some(extra) => {
            prompt.append("\n\n");
            prompt.append(extra.as_str());
        },
        None => {},
    }
    match global_append {
        Some(extra) => {
            prompt.append("\n\n");
            prompt.append(extra.as_str());
        },
        None => {},
    }
    prompt
}

/// The texts `parts`, with an empty line between each two.
pub open spec fn joined_parts(parts: Seq<Seq<char>>) -> Seq<char>
    decreases parts.len(),
{
    if parts.len() == 0 {
        Seq::empty()
    } else if parts.len() == 1 {
        parts[0]
    } else {
        joined_parts(parts.drop_last()) + "\n\n"@ + parts.last()
    }
}

/// Joins the instructions that were found, with an empty line between
/// each two.
pub fn join_context(parts: &Vec<String>) -> (context: String)
    ensures
        context@ == joined_parts(texts(parts@)),
{
    let ghost all = texts(parts@);
    let mut context = String::new();
    let mut i: usize = 0;
    assert(all.take(0) =~= Seq::<Seq<char>>::empty());
    while i < parts.len()
        invariant
            i <= parts.len(),
            all == texts(parts@),
            context@ == joined_parts(all.take(i as int)),
        decreases parts.len() - i,
    {
        assert(all.take(i + 1).drop_last() =~= all.take(i as int));
        assert(all.take(i + 1).last() == parts@[i as int]@);
        if i > 0 {
            context.append("\n\n");
        }
        context.append(parts[i].as_str());
        proof {
            if i == 0 {
                assert(all.take(1)[0] == parts@[0]@);
                assert(context@ =~= parts@[0]@);
            }
        }
        i += 1;
    }
    assert(all.take(parts.len() as int) =~= all);
    context
}

/// The whole system prompt: the base prompt, the working directory, and
/// behind a rule the instructions that were found, where there are any.
pub open spec fn system_prompt_text(base: Seq<char>, working_dir: Seq<char>, context: Seq<char>) -> Seq<
    char,
> {
    base + "\n\nWorking directory: "@ + working_dir + if context.len() == 0 {
        Seq::empty()
    } else {
        "\n\n---\n\n"@ + context
    }
}

/// Puts the whole system prompt together.
pub fn load_system_prompt(base: String, working_dir: &str, context: &str, context_files: Vec<String>) -> (sp:
    SystemPrompt)
    ensures
        sp.prompt@ == system_prompt_text(base@, working_dir@, context@),
        sp.context_files == context_files,
{
    let mut prompt = base;
    prompt.append("\n\nWorking directory: ");
    prompt.append(working_dir);
    if !context.is_empty() {
        prompt.append("\n\n---\n\n");
        prompt.append(context);
        assert(prompt@ =~= system_prompt_text(base@, working_dir@, context@));
    } else {
        assert(prompt@ =~= system_prompt_text(base@, working_dir@, context@));
    }
    SystemPrompt { prompt, context_files }
}

/// The name of the file that holds the instructions of a directory.
pub const CONTEXT_FILE: &'static str = "AGENTS.md";

/// The instructions of a directory: those of its first file where it has
/// any, else those of its second file; each with the path of its file.
/// `first` and `second` are what was read of the files `first_name` and
/// `second_name` of the directory.
pub fn read_context_in(
    dir: &str,
    first_name: &str,
    first: Option<String>,
    second_name: &str,
    second: Option<String>,
) -> (found: Option<(String, String)>)
    ensures
        match first {
            Some(text) => found matches Some(pair) && pair.0 == text && pair.1@ == joined(
                dir@,
                first_name@,
            ),
            None => match second {
                Some(text) => found matches Some(pair) && pair.0 == text && pair.1@ == joined(
                    dir@,
                    second_name@,
                ),
                None => found is None,
            },
        },
{
    match first {
        Some(text) => Some((text, join_path(dir, first_name))),
        None => match second {
            Some(text) => Some((text, join_path(dir, second_name))),
            None => None,
        },
    }
}

/// What is left of `path` behind the directory `base` that it lies in.
pub open spec fn relative_to(base: Seq<char>, path: Seq<char>) -> Seq<char> {
    if path == base {
        Seq::empty()
    } else if base.len() > 0 && base.last() == '/' && matches_at(path, base, 0) {
        path.skip(base.len() as int)
    } else {
        path.skip(base.len() as int + 1)
    }
}

/// A path as it is shown: behind `./` where it lies in the working
/// directory, behind `~/` where it lies in the home directory, else whole.
pub open spec fn shown_path(path: Seq<char>, working_dir: Seq<char>, home: Option<Seq<char>>) -> Seq<
    char,
> {
    if is_within(working_dir, path) {
        "./"@ + relative_to(working_dir, path)
    } else {
        match home {
            Some(h) => if is_within(h, path) {
                "~/"@ + relative_to(h, path)
            } else {
                path
            },
            None => path,
        }
    }
}

fn push_relative(out: &mut String, base: &str, path: &str)
    requires
        is_within(base@, path@),
    ensures
        final(out)@ == old(out)@ + relative_to(base@, path@),
{
    let b = chars_of(base);
    let p = chars_of(path);
    if same_text(path, base) {
        assert(old(out)@ + Seq::<char>::empty() =~= old(out)@);
        return ;
    }
    let from: usize = if b.len() > 0 && b[b.len() - 1] == '/' && is_match_at(&p, &b, 0) {
        b.len()
    } else {
        assert(matches_at(path@, base@ + seq!['/'], 0));
        assert((base@ + seq!['/']).len() == b.len() + 1);
        assert(b.len() + 1 <= p.len());
        b.len() + 1
    };
    let mut rest: Vec<char> = Vec::new();
    push_range(&mut rest, &p, from, p.len());
    assert(rest@ =~= relative_to(base@, path@));
    let rest_text = string_of(&rest);
    out.append(rest_text.as_str());
}

/// Writes a path as it is shown.
pub fn display_path(path: &str, working_dir: &str, home: Option<&str>) -> (shown: String)
    ensures
        shown@ == shown_path(
            path@,
            working_dir@,
            match home {
                Some(h) => Some(h@),
                None => None,
            },
        ),
{
    if path_within(working_dir, path) {
        let mut shown = String::from_str("./");
        push_relative(&mut shown, working_dir, path);
        return shown;
    }
    match home {
        Some(h) => {
            if path_within(h, path) {
                let mut shown = String::from_str("~/");
                push_relative(&mut shown, h, path);
                shown
            } else {
                String::from_str(path)
            }
        },
        None => String::from_str(path),
    }
}

/// The directories `dirs` without the directory `not`.
pub open spec fn without(dirs: Seq<Seq<char>>, not: Seq<char>) -> Seq<Seq<char>>
    decreases dirs.len(),
{
    if dirs.len() == 0 {
        Seq::empty()
    } else if dirs.last() == not {
        without(dirs.drop_last(), not)
    } else {
        without(dirs.drop_last(), not).push(dirs.last())
    }
}

/// The directories whose instructions go into the prompt, in their
/// order: the home directory of the agent, then the ancestors of the
/// working directory from the root down, then the working directory;
/// none of them twice where one of them is the home directory.
pub open spec fn context_dirs_of(home_dir: Seq<char>, ancestors: Seq<Seq<char>>, working_dir: Seq<char>) -> Seq<
    Seq<char>,
> {
    seq![home_dir] + without(ancestors, home_dir) + without(seq![working_dir], home_dir)
}

/// Lists the directories whose instructions go into the prompt.
/// `ancestors` are the ancestors of the working directory, from the root
/// down.
pub fn context_dirs(home_dir: &str, ancestors: &Vec<String>, working_dir: &str) -> (dirs: Vec<String>)
    ensures
        texts(dirs@) == context_dirs_of(home_dir@, texts(ancestors@), working_dir@),
{
    let ghost all = texts(ancestors@);
    let mut dirs: Vec<String> = Vec::new();
    dirs.push(String::from_str(home_dir));
    let mut i: usize = 0;
    assert(all.take(0) =~= Seq::<Seq<char>>::empty());
    assert(texts(dirs@) =~= seq![home_dir@] + without(all.take(0), home_dir@));
    while i < ancestors.len()
        invariant
            i <= ancestors.len(),
            all == texts(ancestors@),
            texts(dirs@) == seq![home_dir@] + without(all.take(i as int), home_dir@),
        decreases ancestors.len() - i,
    {
        let ghost before = texts(dirs@);
        assert(all.take(i + 1).drop_last() =~= all.take(i as int));
        assert(all.take(i + 1).last() == ancestors@[i as int]@);
        if !same_text(ancestors[i].as_str(), home_dir) {
            dirs.push(ancestors[i].clone());
            assert(texts(dirs@) =~= before.push(ancestors@[i as int]@));
            assert(texts(dirs@) =~= seq![home_dir@] + without(all.take(i + 1), home_dir@));
        }
        i += 1;
    }
    assert(all.take(ancestors.len() as int) =~= all);
    let ghost before = texts(dirs@);
    let ghost last = seq![working_dir@];
    assert(last.drop_last() =~= Seq::<Seq<char>>::empty());
    if !same_text(working_dir, home_dir) {
        dirs.push(String::from_str(working_dir));
        assert(without(last, home_dir@) =~= seq![working_dir@]);
        assert(texts(dirs@) =~= before + seq![working_dir@]);
    } else {
        assert(without(last, home_dir@) =~= Seq::<Seq<char>>::empty());
        assert(before + Seq::<Seq<char>>::empty() =~= before);
    }
    dirs
}

} // verus!
