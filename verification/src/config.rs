use crate::error::Error;
use crate::session::{join_path, joined};
use crate::skill::{format_skills, Skill, skills_text};
use crate::text::{chars_of, parse_u64, parsed_u64, string_of};
use vstd::prelude::*;
use vstd::string::StringExecFns;

verus! {

/// The most tokens that an answer may take where no limit is named.
pub const DEFAULT_MAX_TOKENS: u32 = 16384;

/// The address of the service where none is named.
pub const DEFAULT_API_URL: &'static str = "https://api.anthropic.com/v1/messages";

/// The context window that is assumed of a model of which nothing is
/// known.
pub const DEFAULT_CONTEXT_WINDOW: u32 = 200_000;

/// A path as the name of a directory: a hyphen for each slash.
pub open spec fn encoded_path(path: Seq<char>) -> Seq<char> {
    Seq::new(
        path.len(),
        |i: int|
            if path[i] == '/' {
                '-'
            } else {
                path[i]
            },
    )
}

/// Encodes a path for use as the name of a directory.
pub fn encode_path(path: &str) -> (name: String)
    ensures
        name@ == encoded_path(path@),
{
    let chars = chars_of(path);
    let mut out: Vec<char> = Vec::new();
    let mut i: usize = 0;
    while i < chars.len()
        invariant
            i <= chars.len(),
            chars@ == path@,
            out@ == encoded_path(path@).take(i as int),
        decreases chars.len() - i,
    {
        let c = chars[i];
        if c == '/' {
            out.push('-');
        } else {
            out.push(c);
        }
        assert(out@ =~= encoded_path(path@).take(i + 1));
        i += 1;
    }
    assert(out@ =~= encoded_path(path@));
    string_of(&out)
}

/// The directory that keeps the sessions of a working directory.
pub fn session_dir(tapir_dir: &str, working_dir: &str) -> (dir: String)
    ensures
        dir@ == joined(joined(tapir_dir@, "sessions"@), encoded_path(working_dir@)),
{
    let sessions = join_path(tapir_dir, "sessions");
    let name = encode_path(working_dir);
    join_path(sessions.as_str(), name.as_str())
}

/// A text setting: what the environment gives, else what the file gives,
/// else the default.
pub fn resolve_text(env: Option<String>, file: Option<String>, default: &str) -> (value: String)
    ensures
        value@ == match env {
            Some(e) => e@,
            None => match file {
                Some(f) => f@,
                None => default@,
            },
        },
{
    match env {
        Some(e) => e,
        None => match file {
            Some(f) => f,
            None => String::from_str(default),
        },
    }
}

/// The number of 32 bits that `text` writes in decimal.
pub open spec fn parsed_u32(text: Seq<char>) -> Option<u32> {
    match parsed_u64(text) {
        Some(n) => if n <= u32::MAX {
            Some(n as u32)
        } else {
            None
        },
        None => None,
    }
}

/// A number setting: what the environment gives, where that is a number,
/// else what the file gives, else the default.
pub fn resolve_number(env: Option<&str>, file: Option<u32>, default: u32) -> (value: u32)
    ensures
        value == match (match env {
            Some(e) => parsed_u32(e@),
            None => None,
        }) {
            Some(n) => n,
            None => match file {
                Some(f) => f,
                None => default,
            },
        },
{
    let from_env: Option<u32> = match env {
        Some(e) => match parse_u64(e) {
            Some(n) => if n <= u32::MAX as u64 {
                Some(n as u32)
            } else {
                None
            },
            None => None,
        },
        None => None,
    };
    match from_env {
        Some(n) => n,
        None => match file {
            Some(f) => f,
            None => default,
        },
    }
}

/// The credential: what the environment gives, else what the file gives;
/// without either there is no session.
pub fn resolve_api_key(env: Option<String>, file: Option<String>) -> (key: Result<String, Error>)
    ensures
        match env {
            Some(e) => key == Ok::<String, Error>(e),
            None => match file {
                Some(f) => key == Ok::<String, Error>(f),
                None => key == Err::<String, Error>(Error::NoApiKey),
            },
        },
{
    match env {
        Some(e) => Ok(e),
        None => match file {
            Some(f) => Ok(f),
            None => Err(Error::NoApiKey),
        },
    }
}

/// The system prompt of a session, and the whole prompt with the skills,
/// once it is made.
#[derive(Debug, PartialEq)]
pub struct Prompt {
    pub system_prompt: String,
    pub full_prompt: Option<String>,
}

/// The whole prompt: the system prompt, and behind an empty line the list
/// of the skills, where there are any.
pub open spec fn whole_prompt(system_prompt: Seq<char>, skills: Seq<Skill>) -> Seq<char> {
    if skills_text(skills).len() == 0 {
        system_prompt
    } else {
        system_prompt + "\n\n"@ + skills_text(skills)
    }
}

impl Prompt {
    /// Makes the whole prompt, unless it is made already.
    pub fn ensure_full_prompt(&mut self, skills: &[Skill])
        ensures
            final(self).system_prompt == old(self).system_prompt,
            old(self).full_prompt is Some ==> final(self).full_prompt == old(self).full_prompt,
            old(self).full_prompt is None ==> (final(self).full_prompt matches Some(full) && full@
                == whole_prompt(old(self).system_prompt@, skills@)),
    {
        if self.full_prompt.is_some() {
            return ;
        }
        let listed = format_skills(skills);
        let mut full = self.system_prompt.clone();
        if !listed.as_str().is_empty() {
            full.append("\n\n");
            full.append(listed.as_str());
        }
        self.full_prompt = Some(full);
    }

    /// The whole prompt where it is made, else the system prompt.
    pub fn full_prompt(&self) -> (prompt: &str)
        ensures
            prompt@ == match self.full_prompt {
                Some(full) => full@,
                None => self.system_prompt@,
            },
    {
        match &self.full_prompt {
            Some(full) => full.as_str(),
            None => self.system_prompt.as_str(),
        }
    }
}

/// What the arguments of the program ask for.
#[derive(Debug, PartialEq)]
pub enum Invocation {
    /// Run, with the configuration file that is named, if one is.
    Run { config_path: Option<String> },
    /// Print the version and end.
    ShowVersion,
    /// End with these lines of complaint.
    Refuse { lines: Vec<String> },
}

/// The version of the program, as it prints it.
pub const VERSION: &'static str = "tapir v0.1.0";

/// Reads the arguments of the program, without its name.
pub fn parse_args(args: &Vec<String>) -> (asked: Invocation)
    ensures
        args@.len() == 0 ==> asked == (Invocation::Run { config_path: None }),
        args@.len() > 0 && args@[0]@ == "-V"@ ==> asked is ShowVersion,
        args@.len() > 0 && args@[0]@ != "-V"@ && args@[0]@ == "-c"@ ==> {
            if args@.len() == 1 {
                asked matches Invocation::Refuse { lines } && lines@.len() == 1 && lines@[0]@
                    == "error: -c requires a path"@
            } else if args@.len() > 2 {
                asked matches Invocation::Refuse { lines } && lines@.len() == 1 && lines@[0]@
                    == "error: unexpected argument: "@ + args@[2]@
            } else {
                asked matches Invocation::Run { config_path: Some(path) } && path == args@[1]
            }
        },
        args@.len() > 0 && args@[0]@ != "-V"@ && args@[0]@ != "-c"@ ==> (asked matches Invocation::Refuse {
            lines,
        } && lines@.len() == 2 && lines@[0]@ == "error: unknown argument: "@ + args@[0]@
            && lines@[1]@ == "usage: tapir [-V] [-c config.json]"@),
{
    if args.len() == 0 {
        return Invocation::Run { config_path: None };
    }
    if crate::text::same_text(args[0].as_str(), "-V") {
        return Invocation::ShowVersion;
    }
    if crate::text::same_text(args[0].as_str(), "-c") {
        if args.len() == 1 {
            let mut lines: Vec<String> = Vec::new();
            lines.push(String::from_str("error: -c requires a path"));
            return Invocation::Refuse { lines };
        }
        if args.len() > 2 {
            let mut line = String::from_str("error: unexpected argument: ");
            line.append(args[2].as_str());
            let mut lines: Vec<String> = Vec::new();
            lines.push(line);
            return Invocation::Refuse { lines };
        }
        return Invocation::Run { config_path: Some(args[1].clone()) };
    }
    let mut line = String::from_str("error: unknown argument: ");
    line.append(args[0].as_str());
    let mut lines: Vec<String> = Vec::new();
    lines.push(line);
    lines.push(String::from_str("usage: tapir [-V] [-c config.json]"));
    Invocation::Refuse { lines }
}

} // verus!
