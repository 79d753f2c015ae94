use crate::error::Error;
use crate::json::{Json, json_from_text, JsonView, parse_json};
use crate::session::{join_path, joined};
use crate::text::{
    byte_len, byte_len_of, char_width, chars_of, decimal, find_from, find_index, is_match_at,
    is_space, is_whitespace, lemma_byte_len_take_next, lemma_find_index, lines, matches_at,
    push_decimal, push_decimal_wide, push_range, push_signed, same_text, signed_decimal,
    split_lines, string_of, strip_trailing, texts, trimmed_len, utf8_width,
};
pub use crate::tooldefs::definitions;
use crate::util::{
    edit_diff, edit_diff_text, fit_chars, fit_prefix, head_truncated, line_truncated,
    normalize_chars, normalized, plain_char, range_bytes, tail_truncated, to_plain_char,
    truncate_head, truncate_line, truncate_tail,
};
use vstd::prelude::*;
use vstd::string::StringExecFns;

verus! {

/// How far the scan of `s` gets that starts at index `i` and ends where
/// the text seen so far, made ready for loose comparison, takes `target`
/// bytes or more. `norm_pos` is what it takes so far, `prev_ws` whether
/// the last character was white space, `started` whether one was not.
pub open spec fn scan_chars(
    s: Seq<char>,
    i: int,
    norm_pos: nat,
    prev_ws: bool,
    started: bool,
    target: nat,
) -> int
    decreases s.len() - i,
{
    if i < 0 || i >= s.len() || norm_pos >= target {
        i
    } else if is_space(plain_char(s[i])) {
        scan_chars(
            s,
            i + 1,
            if !prev_ws && started {
                norm_pos + 1
            } else {
                norm_pos
            },
            true,
            started,
            target,
        )
    } else {
        scan_chars(s, i + 1, norm_pos + utf8_width(plain_char(s[i])), false, true, target)
    }
}

/// How many characters of `original` stand before the byte offset
/// `norm_offset` of the text made ready for loose comparison.
pub open spec fn original_index(original: Seq<char>, norm_offset: nat) -> int {
    scan_chars(original, 0, 0, false, false, norm_offset)
}

/// The byte offset in `original` that goes with the byte offset
/// `norm_offset` in the text made ready for loose comparison.
pub open spec fn original_offset(original: Seq<char>, norm_offset: nat) -> nat {
    byte_len(original.take(original_index(original, norm_offset)))
}

/// Maps a byte offset in the text made ready for loose comparison back to
/// the byte offset in the original text that goes with it.
pub fn map_norm_offset_to_original(original: &str, norm_offset: usize) -> (offset: usize)
    ensures
        offset == original_offset(original@, norm_offset as nat),
{
    let chars = chars_of(original);
    let total = byte_len_of(original);
    let k = scan_to_wide(&chars, norm_offset as u128);
    let offset = range_bytes(&chars, 0, k);
    assert(chars@.subrange(0, k as int) =~= original@.take(k as int));
    offset
}

/// How often `needle` stands in `hay` from `from` on, where a place
/// counts only behind the end of the place before it.
pub open spec fn match_count(hay: Seq<char>, needle: Seq<char>, from: int) -> nat
    decreases hay.len() - from,
{
    if needle.len() == 0 || from < 0 || from + needle.len() > hay.len() {
        0
    } else if matches_at(hay, needle, from) {
        1 + match_count(hay, needle, from + needle.len())
    } else {
        match_count(hay, needle, from + 1)
    }
}

proof fn lemma_match_count_skip(hay: Seq<char>, needle: Seq<char>, from: int, to: int)
    requires
        0 <= from <= to,
        needle.len() > 0,
        forall|j: int| from <= j < to ==> !matches_at(hay, needle, j),
    ensures
        match_count(hay, needle, from) == match_count(hay, needle, to),
    decreases to - from,
{
    if from < to {
        lemma_match_count_skip(hay, needle, from + 1, to);
        if from + needle.len() > hay.len() {
            assert(match_count(hay, needle, to) == 0);
        }
    }
}

proof fn lemma_match_count_none(hay: Seq<char>, needle: Seq<char>, from: int)
    requires
        0 <= from,
        needle.len() > 0,
        forall|j: int| from <= j ==> !matches_at(hay, needle, j),
    ensures
        match_count(hay, needle, from) == 0,
    decreases hay.len() - from,
{
    if from + needle.len() <= hay.len() {
        lemma_match_count_none(hay, needle, from + 1);
    }
}

/// The text with `new` in the one place where `old` stands in `content`
/// when both are compared loosely; nothing where `old` is empty then, or
/// stands in no place or in more than one.
pub open spec fn fuzzy_replaced(content: Seq<char>, old: Seq<char>, new: Seq<char>) -> Option<
    Seq<char>,
> {
    let hay = normalized(content);
    let needle = normalized(old);
    if needle.len() == 0 || match_count(hay, needle, 0) != 1 {
        None
    } else {
        let at = byte_len(hay.take(find_index(hay, needle, 0)));
        Some(
            content.take(original_index(content, at)) + new + content.skip(
                original_index(content, at + byte_len(needle)),
            ),
        )
    }
}

/// Replaces `old` by `new` in `content` where `old` stands in exactly one
/// place when both are compared loosely.
pub fn fuzzy_replace(content: &str, old: &str, new: &str) -> (replaced: Option<String>)
    ensures
        match replaced {
            Some(text) => fuzzy_replaced(content@, old@, new@) == Some(text@),
            None => fuzzy_replaced(content@, old@, new@) is None,
        },
{
    let chars = chars_of(content);
    let old_chars = chars_of(old);
    let hay = normalize_chars(&chars);
    let needle = normalize_chars(&old_chars);
    if needle.len() == 0 {
        return None;
    }
    let first = find_from(&hay, &needle, 0);
    let at = match first {
        Some(i) => i,
        None => {
            proof {
                lemma_match_count_none(hay@, needle@, 0);
            }
            return None;
        },
    };
    proof {
        lemma_find_index(hay@, needle@, 0, Some(at as int));
        lemma_match_count_skip(hay@, needle@, 0, at as int);
    }
    assert(matches_at(hay@, needle@, at as int));
    assert(at + needle.len() <= hay.len());
    let second = find_from(&hay, &needle, at + needle.len());
    match second {
        Some(j) => {
            proof {
                lemma_match_count_skip(hay@, needle@, at + needle.len(), j as int);
            }
            return None;
        },
        None => {
            proof {
                lemma_match_count_none(hay@, needle@, at + needle.len());
            }
        },
    }
    let total = byte_len_of(content);
    let ghost hay_total = byte_len(hay@);
    // Byte offsets in the text made ready for comparison, as far as they
    // fit: behind the largest offset the scan covers the whole text anyway.
    let norm_pos = bytes_upto(&hay, at);
    let needle_bytes = bytes_upto(&needle, needle.len());
    assert(needle@.take(needle.len() as int) =~= needle@);
    let start = scan_to_wide(&chars, norm_pos);
    let end = scan_to_wide(&chars, norm_pos + needle_bytes);
    let mut out: Vec<char> = Vec::new();
    push_range(&mut out, &chars, 0, start);
    let new_chars = chars_of(new);
    push_range(&mut out, &new_chars, 0, new_chars.len());
    push_range(&mut out, &chars, end, chars.len());
    proof {
        assert(chars@.subrange(0, start as int) =~= content@.take(start as int));
        assert(new_chars@.subrange(0, new_chars.len() as int) =~= new@);
        assert(chars@.subrange(end as int, chars.len() as int) =~= content@.skip(end as int));
    }
    Some(string_of(&out))
}

fn bytes_upto(chars: &Vec<char>, to: usize) -> (n: u128)
    requires
        to <= chars.len(),
    ensures
        n == byte_len(chars@.take(to as int)),
        n <= 4 * to,
{
    let mut n: u128 = 0;
    let mut i: usize = 0;
    assert(chars@.take(0) =~= Seq::<char>::empty());
    while i < to
        invariant
            i <= to <= chars.len(),
            n == byte_len(chars@.take(i as int)),
            n <= 4 * i,
        decreases to - i,
    {
        proof {
            lemma_byte_len_take_next(chars@, i as int);
        }
        n = n + char_width(chars[i]) as u128;
        i += 1;
    }
    n
}

fn scan_to_wide(chars: &Vec<char>, norm_offset: u128) -> (k: usize)
    ensures
        k == original_index(chars@, norm_offset as nat),
        k <= chars.len(),
{
    let mut norm_pos: u128 = 0;
    let mut prev_ws = false;
    let mut started = false;
    let mut i: usize = 0;
    while i < chars.len() && norm_pos < norm_offset
        invariant
            i <= chars.len(),
            norm_pos <= 4 * i,
            original_index(chars@, norm_offset as nat) == scan_chars(
                chars@,
                i as int,
                norm_pos as nat,
                prev_ws,
                started,
                norm_offset as nat,
            ),
        decreases chars.len() - i,
    {
        let mapped = to_plain_char(chars[i]);
        if is_whitespace(mapped) {
            if !prev_ws && started {
                norm_pos = norm_pos + 1;
            }
            prev_ws = true;
        } else {
            norm_pos = norm_pos + char_width(mapped) as u128;
            prev_ws = false;
            started = true;
        }
        i += 1;
    }
    i
}

/// Whether the resolved path `path` lies in the resolved directory `base`:
/// it is the directory, or it goes on behind the directory with a slash.
pub open spec fn is_within(base: Seq<char>, path: Seq<char>) -> bool {
    path == base || matches_at(path, base + seq!['/'], 0) || (base.len() > 0 && base.last() == '/'
        && matches_at(path, base, 0))
}

/// Whether the resolved path `path` lies in the resolved directory `base`.
pub fn path_within(base: &str, path: &str) -> (inside: bool)
    ensures
        inside == is_within(base@, path@),
{
    if same_text(base, path) {
        return true;
    }
    let b = chars_of(base);
    let p = chars_of(path);
    if b.len() > 0 && b[b.len() - 1] == '/' && is_match_at(&p, &b, 0) {
        return true;
    }
    let mut with_slash: Vec<char> = Vec::new();
    push_range(&mut with_slash, &b, 0, b.len());
    with_slash.push('/');
    assert(with_slash@ =~= base@ + seq!['/']);
    is_match_at(&p, &with_slash, 0)
}

/// Whether a path starts at the root.
pub fn is_absolute(path: &str) -> (absolute: bool)
    ensures
        absolute == (path@.len() > 0 && path@[0] == '/'),
{
    let p = chars_of(path);
    p.len() > 0 && p[0] == '/'
}

/// The path that a tool means by `path`: the path itself where it starts
/// at the root, else the path below the working directory.
pub fn candidate_path(working_dir: &str, path: &str) -> (candidate: String)
    ensures
        candidate@ == if path@.len() > 0 && path@[0] == '/' {
            path@
        } else {
            joined(working_dir@, path@)
        },
{
    if is_absolute(path) {
        String::from_str(path)
    } else {
        join_path(working_dir, path)
    }
}

/// What checking the path of a tool gives, from what resolving the path
/// and the working directory gave: the resolved path where it lies in the
/// working directory, else the text of the refusal. A path that cannot be
/// resolved is refused first, then a working directory that cannot.
pub open spec fn checked_path(
    path: Seq<char>,
    resolved: Result<Seq<char>, Seq<char>>,
    working: Result<Seq<char>, Seq<char>>,
) -> Result<Seq<char>, Seq<char>> {
    match resolved {
        Err(e) => Err("cannot resolve path "@ + path + ": "@ + e),
        Ok(canonical) => match working {
            Err(e) => Err("cannot resolve working dir: "@ + e),
            Ok(base) => if is_within(base, canonical) {
                Ok(canonical)
            } else {
                Err("path "@ + path + " is outside working directory"@)
            },
        },
    }
}

/// What a `Result` of strings stands for.
pub open spec fn result_text(r: Result<String, String>) -> Result<Seq<char>, Seq<char>> {
    match r {
        Ok(s) => Ok(s@),
        Err(e) => Err(e@),
    }
}

/// Whether `got` is the path or the refusal that `want` describes.
pub open spec fn is_checked(got: Result<String, Error>, want: Result<Seq<char>, Seq<char>>) -> bool {
    match got {
        Ok(p) => want == Ok::<Seq<char>, Seq<char>>(p@),
        Err(Error::Security(text)) => want == Err::<Seq<char>, Seq<char>>(text@),
        Err(_) => false,
    }
}

/// Checks that the path that a tool wants to read lies in the working
/// directory. `resolved` is what resolving the path gave, `working` what
/// resolving the working directory gave.
pub fn safe_path(path: &str, resolved: Result<String, String>, working: Result<String, String>) -> (checked:
    Result<String, Error>)
    ensures
        is_checked(checked, checked_path(path@, result_text(resolved), result_text(working))),
{
    let canonical = match resolved {
        Ok(c) => c,
        Err(e) => {
            let mut text = String::from_str("cannot resolve path ");
            text.append(path);
            text.append(": ");
            text.append(e.as_str());
            return Err(Error::Security(text));
        },
    };
    let base = match working {
        Ok(b) => b,
        Err(e) => {
            let mut text = String::from_str("cannot resolve working dir: ");
            text.append(e.as_str());
            return Err(Error::Security(text));
        },
    };
    if !path_within(base.as_str(), canonical.as_str()) {
        let mut text = String::from_str("path ");
        text.append(path);
        text.append(" is outside working directory");
        return Err(Error::Security(text));
    }
    Ok(canonical)
}

/// What checking the path of a file to write gives, from what resolving
/// its parent directory and the working directory gave: the file's name
/// below the resolved parent, where that lies in the working directory.
/// `parent` is absent for a path without parent, `file_name` for a path
/// without file name.
pub open spec fn checked_write_path(
    path: Seq<char>,
    parent: Option<Result<Seq<char>, Seq<char>>>,
    working: Result<Seq<char>, Seq<char>>,
    file_name: Option<Seq<char>>,
) -> Result<Seq<char>, Seq<char>> {
    match parent {
        None => Err("no parent directory for "@ + path),
        Some(Err(e)) => Err("cannot resolve parent of "@ + path + ": "@ + e),
        Some(Ok(dir)) => match working {
            Err(e) => Err("cannot resolve working dir: "@ + e),
            Ok(base) => if !is_within(base, dir) {
                Err("path "@ + path + " is outside working directory"@)
            } else {
                match file_name {
                    None => Err("no filename in "@ + path),
                    Some(name) => Ok(joined(dir, name)),
                }
            },
        },
    }
}

/// Checks that the file that a tool wants to write lies in the working
/// directory.
pub fn safe_path_for_write(
    path: &str,
    parent: Option<Result<String, String>>,
    working: Result<String, String>,
    file_name: Option<&str>,
) -> (checked: Result<String, Error>)
    ensures
        is_checked(
            checked,
            checked_write_path(
                path@,
                match parent {
                    Some(r) => Some(result_text(r)),
                    None => None,
                },
                result_text(working),
                match file_name {
                    Some(n) => Some(n@),
                    None => None,
                },
            ),
        ),
{
    let dir = match parent {
        None => {
            let mut text = String::from_str("no parent directory for ");
            text.append(path);
            return Err(Error::Security(text));
        },
        Some(Err(e)) => {
            let mut text = String::from_str("cannot resolve parent of ");
            text.append(path);
            text.append(": ");
            text.append(e.as_str());
            return Err(Error::Security(text));
        },
        Some(Ok(d)) => d,
    };
    let base = match working {
        Ok(b) => b,
        Err(e) => {
            let mut text = String::from_str("cannot resolve working dir: ");
            text.append(e.as_str());
            return Err(Error::Security(text));
        },
    };
    if !path_within(base.as_str(), dir.as_str()) {
        let mut text = String::from_str("path ");
        text.append(path);
        text.append(" is outside working directory");
        return Err(Error::Security(text));
    }
    match file_name {
        None => {
            let mut text = String::from_str("no filename in ");
            text.append(path);
            Err(Error::Security(text))
        },
        Some(name) => Ok(join_path(dir.as_str(), name)),
    }
}

/// Most lines of a file that are read at once.
pub const READ_MAX_LINES: usize = 2000;

/// Most bytes of a file that are read at once.
pub const READ_MAX_BYTES: usize = 50_000;

/// Most lines of the output of a command that are kept.
pub const BASH_MAX_LINES: usize = 1000;

/// Most bytes of the output of a command that are kept.
pub const BASH_MAX_BYTES: usize = 30_000;

/// Most entries of a directory that are listed.
pub const LS_MAX_ENTRIES: usize = 500;

/// Most bytes that the listing of a directory takes.
pub const LS_MAX_BYTES: usize = 30_000;

/// Most characters of a matching line that are shown.
pub const GREP_LINE_MAX_CHARS: usize = 500;

/// Seconds that a command may run where the model names no limit.
pub const BASH_DEFAULT_TIMEOUT: u64 = 120;

/// Most seconds that a command may run.
pub const BASH_MAX_TIMEOUT: u64 = 600;

/// What a tool is asked to do.
#[derive(Debug, PartialEq)]
pub enum ToolRequest {
    ReadFile { path: String, offset: Option<u64>, limit: Option<u64> },
    WriteFile { path: String, content: String },
    EditFile { path: String, old_string: String, new_string: String },
    Bash { command: String, timeout_secs: u64 },
    Ls { dir: Option<String> },
    Find { pattern: String, dir: Option<String> },
    Grep { pattern: String, context: u64, target: Option<String> },
}

/// What a `ToolRequest` stands for.
pub enum ToolRequestView {
    ReadFile { path: Seq<char>, offset: Option<u64>, limit: Option<u64> },
    WriteFile { path: Seq<char>, content: Seq<char> },
    EditFile { path: Seq<char>, old_string: Seq<char>, new_string: Seq<char> },
    Bash { command: Seq<char>, timeout_secs: u64 },
    Ls { dir: Option<Seq<char>> },
    Find { pattern: Seq<char>, dir: Option<Seq<char>> },
    Grep { pattern: Seq<char>, context: u64, target: Option<Seq<char>> },
}

/// What an optional string stands for.
pub open spec fn option_text(s: Option<String>) -> Option<Seq<char>> {
    match s {
        Some(t) => Some(t@),
        None => None,
    }
}

impl View for ToolRequest {
    type V = ToolRequestView;

    open spec fn view(&self) -> ToolRequestView {
        match self {
            ToolRequest::ReadFile { path, offset, limit } => ToolRequestView::ReadFile {
                path: path@,
                offset: *offset,
                limit: *limit,
            },
            ToolRequest::WriteFile { path, content } => ToolRequestView::WriteFile {
                path: path@,
                content: content@,
            },
            ToolRequest::EditFile { path, old_string, new_string } => ToolRequestView::EditFile {
                path: path@,
                old_string: old_string@,
                new_string: new_string@,
            },
            ToolRequest::Bash { command, timeout_secs } => ToolRequestView::Bash {
                command: command@,
                timeout_secs: *timeout_secs,
            },
            ToolRequest::Ls { dir } => ToolRequestView::Ls { dir: option_text(*dir) },
            ToolRequest::Find { pattern, dir } => ToolRequestView::Find {
                pattern: pattern@,
                dir: option_text(*dir),
            },
            ToolRequest::Grep { pattern, context, target } => ToolRequestView::Grep {
                pattern: pattern@,
                context: *context,
                target: option_text(*target),
            },
        }
    }
}

/// The seconds that a command may run: what the model asks for, no less
/// than one and no more than ten minutes, and two minutes where it asks
/// for nothing.
pub open spec fn bash_timeout(asked: Option<u64>) -> u64 {
    match asked {
        None => BASH_DEFAULT_TIMEOUT,
        Some(n) => if n < 1 {
            1
        } else if n > BASH_MAX_TIMEOUT {
            BASH_MAX_TIMEOUT
        } else {
            n
        },
    }
}

/// What the tool `name` is asked to do with `input`, or what its input
/// lacks. The first text that the tool needs and the input lacks is
/// named; a tool that is not known is refused.
pub open spec fn tool_request(name: Seq<char>, input: JsonView) -> Result<ToolRequestView, Seq<char>> {
    if name == "read_file"@ {
        match input.text_field("path"@) {
            None => Err("missing path"@),
            Some(path) => Ok(
                ToolRequestView::ReadFile {
                    path,
                    offset: input.unsigned_field("offset"@),
                    limit: input.unsigned_field("limit"@),
                },
            ),
        }
    } else if name == "write_file"@ {
        match (input.text_field("path"@), input.text_field("content"@)) {
            (None, _) => Err("missing path"@),
            (Some(_), None) => Err("missing content"@),
            (Some(path), Some(content)) => Ok(ToolRequestView::WriteFile { path, content }),
        }
    } else if name == "edit_file"@ {
        match (
            input.text_field("path"@),
            input.text_field("old_string"@),
            input.text_field("new_string"@),
        ) {
            (None, _, _) => Err("missing path"@),
            (Some(_), None, _) => Err("missing old_string"@),
            (Some(_), Some(_), None) => Err("missing new_string"@),
            (Some(path), Some(old_string), Some(new_string)) => Ok(
                ToolRequestView::EditFile { path, old_string, new_string },
            ),
        }
    } else if name == "bash"@ {
        match input.text_field("command"@) {
            None => Err("missing command"@),
            Some(command) => Ok(
                ToolRequestView::Bash {
                    command,
                    timeout_secs: bash_timeout(input.unsigned_field("timeout"@)),
                },
            ),
        }
    } else if name == "ls"@ {
        Ok(ToolRequestView::Ls { dir: input.text_field("path"@) })
    } else if name == "find"@ {
        match input.text_field("pattern"@) {
            None => Err("missing pattern"@),
            Some(pattern) => Ok(
                ToolRequestView::Find { pattern, dir: input.text_field("path"@) },
            ),
        }
    } else if name == "grep"@ {
        match input.text_field("pattern"@) {
            None => Err("missing pattern"@),
            Some(pattern) => Ok(
                ToolRequestView::Grep {
                    pattern,
                    context: match input.unsigned_field("context"@) {
                        Some(n) => n,
                        None => 2,
                    },
                    target: input.text_field("path"@),
                },
            ),
        }
    } else {
        Err("unknown tool"@)
    }
}

fn text_of(input: &Json, key: &str) -> (found: Option<String>)
    ensures
        option_text(found) == input@.text_field(key@),
{
    match input.get_str(key) {
        Some(s) => Some(String::from_str(s)),
        None => None,
    }
}

fn lacking(name: &str, what: &str) -> (e: Error)
    ensures
        e matches Error::Tool { name: n, message } && n@ == name@ && message@ == what@,
{
    Error::Tool { name: String::from_str(name), message: String::from_str(what) }
}

/// Whether `got` is the request or the refusal that `want` describes for
/// the tool `name`.
pub open spec fn is_planned(
    got: Result<ToolRequest, Error>,
    name: Seq<char>,
    want: Result<ToolRequestView, Seq<char>>,
) -> bool {
    match got {
        Ok(request) => want == Ok::<ToolRequestView, Seq<char>>(request@),
        Err(Error::Tool { name: n, message }) => n@ == name && want == Err::<
            ToolRequestView,
            Seq<char>,
        >(message@),
        Err(_) => false,
    }
}

/// Reads from the input of a tool invocation what the tool is asked to
/// do.
pub fn plan_tool(name: &str, input: &Json) -> (planned: Result<ToolRequest, Error>)
    ensures
        is_planned(planned, name@, tool_request(name@, input@)),
{
    if same_text(name, "read_file") {
        match text_of(input, "path") {
            None => Err(lacking(name, "missing path")),
            Some(path) => Ok(
                ToolRequest::ReadFile {
                    path,
                    offset: input.get_u64("offset"),
                    limit: input.get_u64("limit"),
                },
            ),
        }
    } else if same_text(name, "write_file") {
        match (text_of(input, "path"), text_of(input, "content")) {
            (None, _) => Err(lacking(name, "missing path")),
            (Some(_), None) => Err(lacking(name, "missing content")),
            (Some(path), Some(content)) => Ok(ToolRequest::WriteFile { path, content }),
        }
    } else if same_text(name, "edit_file") {
        match (text_of(input, "path"), text_of(input, "old_string"), text_of(input, "new_string")) {
            (None, _, _) => Err(lacking(name, "missing path")),
            (Some(_), None, _) => Err(lacking(name, "missing old_string")),
            (Some(_), Some(_), None) => Err(lacking(name, "missing new_string")),
            (Some(path), Some(old_string), Some(new_string)) => Ok(
                ToolRequest::EditFile { path, old_string, new_string },
            ),
        }
    } else if same_text(name, "bash") {
        match text_of(input, "command") {
            None => Err(lacking(name, "missing command")),
            Some(command) => {
                let timeout_secs = match input.get_u64("timeout") {
                    None => BASH_DEFAULT_TIMEOUT,
                    Some(n) => if n < 1 {
                        1
                    } else if n > BASH_MAX_TIMEOUT {
                        BASH_MAX_TIMEOUT
                    } else {
                        n
                    },
                };
                Ok(ToolRequest::Bash { command, timeout_secs })
            },
        }
    } else if same_text(name, "ls") {
        Ok(ToolRequest::Ls { dir: text_of(input, "path") })
    } else if same_text(name, "find") {
        match text_of(input, "pattern") {
            None => Err(lacking(name, "missing pattern")),
            Some(pattern) => Ok(ToolRequest::Find { pattern, dir: text_of(input, "path") }),
        }
    } else if same_text(name, "grep") {
        match text_of(input, "pattern") {
            None => Err(lacking(name, "missing pattern")),
            Some(pattern) => {
                let context = match input.get_u64("context") {
                    Some(n) => n,
                    None => 2,
                };
                Ok(ToolRequest::Grep { pattern, context, target: text_of(input, "path") })
            },
        }
    } else {
        Err(lacking(name, "unknown tool"))
    }
}

/// What is reported of a command that ended: its output, then its error
/// output behind `stderr: `, then its exit code where it failed, each on
/// a line of its own; and a note where there is nothing to report.
pub open spec fn output_text(stdout: Seq<char>, stderr: Seq<char>, success: bool, code: Option<i32>) -> Seq<
    char,
> {
    let first = stdout;
    let second = if stderr.len() == 0 {
        first
    } else if first.len() == 0 {
        "stderr: "@ + stderr
    } else {
        first + "\n"@ + "stderr: "@ + stderr
    };
    let third = if success {
        second
    } else if second.len() == 0 {
        "exit code: "@ + signed_decimal(
            match code {
                Some(c) => c as int,
                None => -1,
            },
        )
    } else {
        second + "\n"@ + "exit code: "@ + signed_decimal(
            match code {
                Some(c) => c as int,
                None => -1,
            },
        )
    };
    if third.len() == 0 {
        "(no output, exit code 0)"@
    } else {
        third
    }
}

/// Writes what is reported of a command that ended.
pub fn format_output(stdout: &str, stderr: &str, success: bool, code: Option<i32>) -> (text: String)
    ensures
        text@ == output_text(stdout@, stderr@, success, code),
{
    let mut text = String::from_str(stdout);
    if !stderr.is_empty() {
        if !text.as_str().is_empty() {
            text.append("\n");
        }
        text.append("stderr: ");
        text.append(stderr);
    }
    let ghost second = text@;
    assert(second =~= if stderr@.len() == 0 {
        stdout@
    } else if stdout@.len() == 0 {
        "stderr: "@ + stderr@
    } else {
        stdout@ + "\n"@ + "stderr: "@ + stderr@
    }) by {
        reveal_strlit("stderr: ");
        reveal_strlit("\n");
    }
    if !success {
        let shown: i64 = match code {
            Some(c) => c as i64,
            None => -1,
        };
        if !text.as_str().is_empty() {
            text.append("\n");
        }
        text.append("exit code: ");
        push_signed(&mut text, shown);
        proof {
            reveal_strlit("exit code: ");
            reveal_strlit("\n");
        }
    }
    let ghost third = text@;
    if text.as_str().is_empty() {
        text.append("(no output, exit code 0)");
        assert(text@ =~= "(no output, exit code 0)"@);
    }
    proof {
        assert(text@ =~= output_text(stdout@, stderr@, success, code));
    }
    text
}

/// The mark of a command that ran out of time.
pub open spec fn timeout_mark(secs: u64) -> Seq<char> {
    "(timed out after "@ + decimal(secs as nat) + "s)"@
}

/// What is reported of a command that ran out of time: what it wrote
/// until it was killed, where that could be had, and the mark.
pub open spec fn timed_out_text(report: Option<Seq<char>>, secs: u64) -> Seq<char> {
    match report {
        Some(text) => if text.len() == 0 {
            timeout_mark(secs)
        } else {
            text + "\n"@ + timeout_mark(secs)
        },
        None => timeout_mark(secs),
    }
}

/// Writes what is reported of a command that ran out of time; `report` is
/// the report of the command as it ended when it was killed, where it
/// could be had.
pub fn timed_out(report: Option<String>, secs: u64) -> (text: String)
    ensures
        text@ == timed_out_text(option_text(report), secs),
{
    let mut text = match report {
        Some(t) => t,
        None => String::new(),
    };
    let ghost before = text@;
    if !text.as_str().is_empty() {
        text.append("\n");
    }
    text.append("(timed out after ");
    push_decimal(&mut text, secs);
    text.append("s)");
    proof {
        if before.len() == 0 {
            assert(text@ =~= timeout_mark(secs));
        } else {
            assert(text@ =~= before + "\n"@ + timeout_mark(secs));
        }
    }
    text
}

/// What the wait for a command sees, each fifth of a second.
#[derive(Debug, PartialEq)]
pub enum BashEvent {
    /// The command ended; its report, or the text of the failure to wait
    /// for it.
    Ended(Result<String, String>),
    /// The command still runs.
    Running { interrupted: bool, timed_out: bool },
    /// The one that waited for the command is gone.
    Lost,
}

/// What the wait for a command does next.
#[derive(Debug, PartialEq)]
pub enum BashStep {
    /// Go on waiting.
    Wait,
    /// The command is done with this result.
    Done(Result<String, Error>),
    /// Kill the command, wait for its end, and report the cancellation.
    KillCancelled,
    /// Kill the command, wait up to five seconds for what it wrote, and
    /// report that it ran out of time.
    KillTimedOut,
}

/// Decides what the wait for a command does next. Cancellation comes
/// before the time limit.
pub fn bash_step(event: BashEvent) -> (step: BashStep)
    ensures
        match event {
            BashEvent::Ended(Ok(report)) => step == BashStep::Done(Ok(report)),
            BashEvent::Ended(Err(text)) => step == BashStep::Done(Err(Error::Io(text))),
            BashEvent::Running { interrupted, timed_out } => if interrupted {
                step is KillCancelled
            } else if timed_out {
                step is KillTimedOut
            } else {
                step is Wait
            },
            BashEvent::Lost => step matches BashStep::Done(Err(Error::Tool { name, message }))
                && name@ == "bash"@ && message@ == "command thread panicked"@,
        },
{
    match event {
        BashEvent::Ended(Ok(report)) => BashStep::Done(Ok(report)),
        BashEvent::Ended(Err(text)) => BashStep::Done(Err(Error::Io(text))),
        BashEvent::Running { interrupted, timed_out } => if interrupted {
            BashStep::KillCancelled
        } else if timed_out {
            BashStep::KillTimedOut
        } else {
            BashStep::Wait
        },
        BashEvent::Lost => BashStep::Done(Err(lacking("bash", "command thread panicked"))),
    }
}

/// The failure that a cancelled command is reported as.
pub fn bash_cancelled() -> (e: Error)
    ensures
        e matches Error::Tool { name, message } && name@ == "bash"@ && message@ == "(cancelled)"@,
{
    lacking("bash", "(cancelled)")
}

/// The output of a command as it goes back to the model: its last lines,
/// where it is long.
pub fn bash_output(output: &str) -> (text: String)
    ensures
        text@ == tail_truncated(output@, BASH_MAX_LINES as nat, BASH_MAX_BYTES as nat).0,
{
    truncate_tail(output, BASH_MAX_LINES, BASH_MAX_BYTES).0
}

/// The lines `ls[from..to]`, each behind its number and a tab; the first
/// line of `ls` has the number 1.
pub open spec fn numbered_lines(ls: Seq<Seq<char>>, from: int, to: int) -> Seq<char>
    decreases to - from,
{
    if from >= to {
        Seq::empty()
    } else {
        numbered_lines(ls, from, to - 1) + decimal(to as nat) + "\t"@ + ls[to - 1] + "\n"@
    }
}

/// The index of the first line that is read: the line before the one that
/// the model names, or the first where it names none.
pub open spec fn first_line_read(offset: Option<u64>, count: nat) -> nat {
    let start = match offset {
        Some(o) => if o >= 1 {
            (o - 1) as nat
        } else {
            0
        },
        None => 0,
    };
    if start > count {
        count
    } else {
        start
    }
}

/// The index behind the last line that is read.
pub open spec fn last_line_read(offset: Option<u64>, limit: Option<u64>, count: nat) -> nat {
    let start = first_line_read(offset, count);
    match limit {
        Some(l) => if l < count - start {
            start + l as nat
        } else {
            count
        },
        None => count,
    }
}

/// The hint behind a file that was not read whole.
pub open spec fn read_hint(count: nat) -> Seq<char> {
    "\nHint: use offset/limit to read specific sections (file has "@ + decimal(count) + " lines)"@
}

/// What reading a file gives the model: the lines that it asked for, with
/// their numbers; cut down where they are many, and then with a hint.
pub open spec fn read_output(content: Seq<char>, offset: Option<u64>, limit: Option<u64>) -> Seq<char> {
    let ls = lines(content);
    let numbered = numbered_lines(
        ls,
        first_line_read(offset, ls.len()) as int,
        last_line_read(offset, limit, ls.len()) as int,
    );
    let shown = head_truncated(numbered, READ_MAX_LINES as nat, READ_MAX_BYTES as nat);
    if shown.1 {
        shown.0 + read_hint(ls.len())
    } else {
        shown.0
    }
}

/// Writes what reading a file gives the model.
pub fn read_file_output(content: &str, offset: Option<u64>, limit: Option<u64>) -> (out: String)
    ensures
        out@ == read_output(content@, offset, limit),
{
    let chars = chars_of(content);
    let ls = split_lines(&chars);
    let count = ls.len();
    assert(texts(ls@).len() == ls.len());
    let wanted: u64 = match offset {
        Some(o) => if o >= 1 {
            o - 1
        } else {
            0
        },
        None => 0,
    };
    let start: usize = if wanted > count as u64 {
        count
    } else {
        wanted as usize
    };
    let end: usize = match limit {
        Some(l) => if l < (count - start) as u64 {
            start + l as usize
        } else {
            count
        },
        None => count,
    };
    let mut numbered = String::new();
    let mut i: usize = start;
    let ghost all = texts(ls@);
    while i < end
        invariant
            start <= i <= end <= ls.len(),
            all == texts(ls@),
            numbered@ == numbered_lines(all, start as int, i as int),
        decreases end - i,
    {
        push_decimal_wide(&mut numbered, i as u128 + 1);
        numbered.append("\t");
        numbered.append(ls[i].as_str());
        numbered.append("\n");
        assert(numbered@ =~= numbered_lines(all, start as int, i + 1));
        i += 1;
    }
    let shown = truncate_head(numbered.as_str(), READ_MAX_LINES, READ_MAX_BYTES);
    if shown.1 {
        let mut out = shown.0;
        out.append("\nHint: use offset/limit to read specific sections (file has ");
        push_decimal_wide(&mut out, count as u128);
        out.append(" lines)");
        assert(out@ =~= shown.0@ + read_hint(count as nat));
        out
    } else {
        shown.0
    }
}

/// What writing a file gives the model.
pub open spec fn written_text(bytes: nat, path: Seq<char>) -> Seq<char> {
    "Wrote "@ + decimal(bytes) + " bytes to "@ + path
}

/// Writes what writing a file gives the model.
pub fn write_file_output(content: &str, path: &str) -> (out: String)
    ensures
        out@ == written_text(byte_len(content@), path@),
{
    let mut out = String::from_str("Wrote ");
    push_decimal_wide(&mut out, byte_len_of(content) as u128);
    out.append(" bytes to ");
    out.append(path);
    out
}

/// The name under which an entry of a directory is listed: with a slash
/// behind it where it is a directory.
pub fn entry_name(name: &str, is_dir: bool) -> (shown: String)
    ensures
        shown@ == if is_dir {
            name@ + "/"@
        } else {
            name@
        },
{
    let mut shown = String::from_str(name);
    if is_dir {
        shown.append("/");
    }
    shown
}

/// The note behind a listing that was cut short.
pub open spec fn listing_note(total: nat, shown: nat) -> Seq<char> {
    "\n... ("@ + decimal(total) + " entries total, showing "@ + decimal(shown) + ")"@
}

/// The listing of the entries `entries[from..]`, where `bytes` bytes are
/// listed already: one entry on each line, up to 500 entries and 30000
/// bytes, and a note where entries are left.
pub open spec fn listing_from(entries: Seq<Seq<char>>, from: int, bytes: nat) -> Seq<char>
    decreases entries.len() - from,
{
    if from < 0 || from >= entries.len() {
        Seq::empty()
    } else if from >= LS_MAX_ENTRIES || bytes + byte_len(entries[from]) + 1 > LS_MAX_BYTES {
        listing_note(entries.len(), from as nat)
    } else {
        entries[from] + "\n"@ + listing_from(
            entries,
            from + 1,
            bytes + byte_len(entries[from]) + 1,
        )
    }
}

/// The listing of a directory, or a note where it is empty.
pub open spec fn listing_text(entries: Seq<Seq<char>>) -> Seq<char> {
    if listing_from(entries, 0, 0).len() == 0 {
        "(empty directory)"@
    } else {
        listing_from(entries, 0, 0)
    }
}

/// Writes the listing of a directory from its entries, which come in the
/// order in which they are to be listed.
pub fn format_listing(entries: &Vec<String>) -> (out: String)
    ensures
        out@ == listing_text(texts(entries@)),
{
    let total = entries.len();
    let mut out = String::new();
    let mut bytes: usize = 0;
    let mut i: usize = 0;
    let ghost all = texts(entries@);
    let mut cut = false;
    while i < total && !cut
        invariant
            i <= total,
            total == entries.len(),
            all == texts(entries@),
            bytes <= LS_MAX_BYTES,
            !cut ==> listing_from(all, 0, 0) == out@ + listing_from(all, i as int, bytes as nat),
            cut ==> listing_from(all, 0, 0) == out@,
        decreases total - i + if cut { 0int } else { 1int },
    {
        let n = byte_len_of(entries[i].as_str());
        assert(all[i as int] == entries@[i as int]@);
        if i >= LS_MAX_ENTRIES || n >= LS_MAX_BYTES - bytes {
            let ghost before = out@;
            out.append("\n... (");
            push_decimal_wide(&mut out, total as u128);
            out.append(" entries total, showing ");
            push_decimal_wide(&mut out, i as u128);
            out.append(")");
            assert(out@ =~= before + listing_note(total as nat, i as nat));
            cut = true;
        } else {
            let ghost before = out@;
            out.append(entries[i].as_str());
            out.append("\n");
            assert(out@ + listing_from(all, i + 1, (bytes + n + 1) as nat) =~= before + (all[i as int]
                + "\n"@ + listing_from(all, i + 1, (bytes + n + 1) as nat)));
            bytes = bytes + n + 1;
            i += 1;
        }
    }
    proof {
        if !cut {
            assert(out@ + Seq::<char>::empty() =~= out@);
        }
    }
    if out.as_str().is_empty() {
        out.append("(empty directory)");
        assert(out@ =~= "(empty directory)"@);
    }
    out
}

/// What a search for files gives the model: the error output where the
/// search failed with one, a note where it found nothing, else what it
/// found, cut down where that is long.
pub open spec fn found_text(success: bool, stdout: Seq<char>, stderr: Seq<char>) -> Seq<char> {
    if !success && stderr.len() > 0 {
        "stderr: "@ + stderr
    } else if stdout.len() == 0 {
        "No files found matching pattern."@
    } else {
        head_truncated(stdout, READ_MAX_LINES as nat, READ_MAX_BYTES as nat).0
    }
}

/// Writes what a search for files gives the model.
pub fn find_output(success: bool, stdout: &str, stderr: &str) -> (out: String)
    ensures
        out@ == found_text(success, stdout@, stderr@),
{
    if !success && !stderr.is_empty() {
        let mut out = String::from_str("stderr: ");
        out.append(stderr);
        out
    } else if stdout.is_empty() {
        String::from_str("No files found matching pattern.")
    } else {
        truncate_head(stdout, READ_MAX_LINES, READ_MAX_BYTES).0
    }
}

/// How often `old` stands in `content`, counted as the search of the
/// standard library counts: an empty text stands before each character and
/// at the end.
pub open spec fn occurrences(content: Seq<char>, old: Seq<char>) -> nat {
    if old.len() == 0 {
        content.len() + 1
    } else {
        match_count(content, old, 0)
    }
}

/// `content` with `new` in the place of the first `old`.
pub open spec fn replaced_first(content: Seq<char>, old: Seq<char>, new: Seq<char>) -> Seq<char> {
    let at = find_index(content, old, 0);
    if at > content.len() {
        content
    } else {
        content.take(at) + new + content.skip(at + old.len())
    }
}

/// An edit that can be made: the new content of the file, and what the
/// model is told.
#[derive(Debug, PartialEq)]
pub struct EditPlan {
    pub updated: String,
    pub message: String,
}

/// The region of `content` that a loose match is shown as: as many bytes
/// as `old` has from where the match starts, as far as whole characters
/// and the content go.
pub open spec fn fuzzy_region(content: Seq<char>, old: Seq<char>) -> Seq<char> {
    let hay = normalized(content);
    let needle = normalized(old);
    let at = find_index(hay, needle, 0);
    let norm_pos = if at > hay.len() {
        0
    } else {
        byte_len(hay.take(at))
    };
    let rest = content.skip(original_index(content, norm_pos));
    rest.take(fit_chars(rest, byte_len(old)) as int)
}

/// What an edit of the file at `path` comes to: the content with `new` in
/// the place of `old`, where `old` stands in it exactly once, or stands in
/// it exactly once when both are compared loosely; else the text of the
/// refusal.
pub open spec fn edit_plan(path: Seq<char>, content: Seq<char>, old: Seq<char>, new: Seq<char>) -> Result<
    (Seq<char>, Seq<char>),
    Seq<char>,
> {
    if occurrences(content, old) == 1 {
        Ok(
            (
                replaced_first(content, old, new),
                "Edited "@ + path + "\n"@ + edit_diff_text(path, content, old, new),
            ),
        )
    } else if occurrences(content, old) > 1 {
        Err(
            "old_string appears "@ + decimal(occurrences(content, old)) + " times in "@ + path
                + " (must be unique)"@,
        )
    } else {
        match fuzzy_replaced(content, old, new) {
            Some(updated) => Ok(
                (
                    updated,
                    "Edited "@ + path + " (fuzzy match)\n"@ + edit_diff_text(
                        path,
                        content,
                        fuzzy_region(content, old),
                        new,
                    ),
                ),
            ),
            None => Err("old_string not found in "@ + path),
        }
    }
}

fn count_matches(hay: &Vec<char>, needle: &Vec<char>) -> (n: usize)
    requires
        needle.len() > 0,
    ensures
        n == match_count(hay@, needle@, 0),
{
    let mut n: usize = 0;
    let mut from: usize = 0;
    loop
        invariant
            needle.len() > 0,
            from <= hay.len(),
            n <= from,
            n + match_count(hay@, needle@, from as int) == match_count(hay@, needle@, 0),
        decreases hay.len() - from,
    {
        match find_from(hay, needle, from) {
            None => {
                proof {
                    lemma_match_count_none(hay@, needle@, from as int);
                }
                return n;
            },
            Some(at) => {
                proof {
                    lemma_match_count_skip(hay@, needle@, from as int, at as int);
                }
                assert(matches_at(hay@, needle@, at as int));
                n += 1;
                from = at + needle.len();
            },
        }
    }
}

/// Plans the edit of a file: finds the one place of `old` in `content`,
/// exactly or loosely, and puts `new` there.
pub fn plan_edit(name: &str, path: &str, content: &str, old: &str, new: &str) -> (planned: Result<
    EditPlan,
    Error,
>)
    ensures
        match planned {
            Ok(plan) => edit_plan(path@, content@, old@, new@) == Ok::<
                (Seq<char>, Seq<char>),
                Seq<char>,
            >((plan.updated@, plan.message@)),
            Err(Error::Tool { name: n, message }) => n@ == name@ && edit_plan(
                path@,
                content@,
                old@,
                new@,
            ) == Err::<(Seq<char>, Seq<char>), Seq<char>>(message@),
            Err(_) => false,
        },
{
    let chars = chars_of(content);
    let old_chars = chars_of(old);
    let count: u128 = if old_chars.len() == 0 {
        chars.len() as u128 + 1
    } else {
        count_matches(&chars, &old_chars) as u128
    };
    if count == 1 {
        let found = find_from(&chars, &old_chars, 0);
        proof {
            lemma_find_index(
                chars@,
                old_chars@,
                0,
                match found {
                    Some(i) => Some(i as int),
                    None => None,
                },
            );
        }
        let at = match found {
            Some(i) => i,
            None => {
                proof {
                    if old_chars.len() > 0 {
                        lemma_match_count_none(chars@, old_chars@, 0);
                    } else {
                        assert(matches_at(chars@, old_chars@, 0)) by {
                            assert(chars@.subrange(0, 0) =~= old_chars@);
                        }
                    }
                    assert(false);
                }
                0
            },
        };
        assert(matches_at(chars@, old_chars@, at as int));
        let mut updated: Vec<char> = Vec::new();
        push_range(&mut updated, &chars, 0, at);
        let new_chars = chars_of(new);
        push_range(&mut updated, &new_chars, 0, new_chars.len());
        push_range(&mut updated, &chars, at + old_chars.len(), chars.len());
        proof {
            assert(new_chars@.subrange(0, new_chars.len() as int) =~= new@);
            assert(updated@ =~= replaced_first(content@, old@, new@));
        }
        let diff = edit_diff(path, content, old, new);
        let mut message = String::from_str("Edited ");
        message.append(path);
        message.append("\n");
        message.append(diff.as_str());
        return Ok(EditPlan { updated: string_of(&updated), message });
    }
    if count > 1 {
        let mut message = String::from_str("old_string appears ");
        push_decimal_wide(&mut message, count);
        message.append(" times in ");
        message.append(path);
        message.append(" (must be unique)");
        return Err(Error::Tool { name: String::from_str(name), message });
    }
    match fuzzy_replace(content, old, new) {
        Some(updated) => {
            let hay = normalize_chars(&chars);
            let needle = normalize_chars(&old_chars);
            let found = find_from(&hay, &needle, 0);
            proof {
                lemma_find_index(
                    hay@,
                    needle@,
                    0,
                    match found {
                        Some(i) => Some(i as int),
                        None => None,
                    },
                );
            }
            let norm_pos: u128 = match found {
                Some(at) => bytes_upto(&hay, at),
                None => 0,
            };
            let start = scan_to_wide(&chars, norm_pos);
            let mut rest: Vec<char> = Vec::new();
            push_range(&mut rest, &chars, start, chars.len());
            assert(rest@ =~= content@.skip(start as int));
            let fit = fit_prefix(&rest, byte_len_of(old));
            let mut region: Vec<char> = Vec::new();
            push_range(&mut region, &rest, 0, fit.0);
            assert(region@ =~= fuzzy_region(content@, old@));
            let region_text = string_of(&region);
            let diff = edit_diff(path, content, region_text.as_str(), new);
            let mut message = String::from_str("Edited ");
            message.append(path);
            message.append(" (fuzzy match)\n");
            message.append(diff.as_str());
            Ok(EditPlan { updated, message })
        },
        None => {
            let mut message = String::from_str("old_string not found in ");
            message.append(path);
            Err(Error::Tool { name: String::from_str(name), message })
        },
    }
}

/// The text at `doc[outer][inner]`, or no text where the document has
/// none there.
pub open spec fn nested_text(doc: JsonView, outer: Seq<char>, inner: Seq<char>) -> Seq<char> {
    match doc.field(outer) {
        Some(part) => match part.text_field(inner) {
            Some(t) => t,
            None => Seq::empty(),
        },
        None => Seq::empty(),
    }
}

/// The path of a match as it is shown: without the working directory and
/// the slash behind it, where it starts with them.
pub open spec fn shown_path(path: Seq<char>, wd: Seq<char>) -> Seq<char> {
    if matches_at(path, wd, 0) {
        if matches_at(path, seq!['/'], wd.len() as int) {
            path.skip(wd.len() as int + 1)
        } else {
            path.skip(wd.len() as int)
        }
    } else {
        path
    }
}

/// The matches that were written so far, and the file of the last.
pub struct RgView {
    pub output: Seq<char>,
    pub current_path: Option<Seq<char>>,
}

/// The matches that were written so far, and the file of the last.
#[derive(Debug, PartialEq)]
pub struct RgState {
    pub output: String,
    pub current_path: Option<String>,
}

impl View for RgState {
    type V = RgView;

    open spec fn view(&self) -> RgView {
        RgView { output: self.output@, current_path: option_text(self.current_path) }
    }
}

/// The line of a match or of a line of context beside one.
pub open spec fn match_line(number: u64, is_match: bool, text: Seq<char>) -> Seq<char> {
    "  "@ + decimal(number as nat) + (if is_match {
        ":"@
    } else {
        "-"@
    }) + line_truncated(strip_trailing(text, '\n'), GREP_LINE_MAX_CHARS as nat) + "\n"@
}

/// What is written after one record of the search: nothing for a record
/// that is neither a match nor context; else the line of the record, and
/// before it the path of its file where the file is not that of the record
/// before, with an empty line between two files.
pub open spec fn after_record(state: RgView, doc: JsonView, wd: Seq<char>) -> RgView {
    let kind = match doc.text_field("type"@) {
        Some(k) => k,
        None => Seq::empty(),
    };
    if kind != "match"@ && kind != "context"@ {
        state
    } else {
        let data = match doc.field("data"@) {
            Some(d) => d,
            None => JsonView::Null,
        };
        let path = shown_path(nested_text(data, "path"@, "text"@), wd);
        let number = match data.unsigned_field("line_number"@) {
            Some(n) => n,
            None => 0,
        };
        let line = match_line(number, kind == "match"@, nested_text(data, "lines"@, "text"@));
        if state.current_path == Some(path) {
            RgView { output: state.output + line, current_path: state.current_path }
        } else if state.current_path is Some {
            RgView {
                output: state.output + "\n"@ + path + "\n"@ + line,
                current_path: Some(path),
            }
        } else {
            RgView { output: state.output + path + "\n"@ + line, current_path: Some(path) }
        }
    }
}

fn nested(doc: &Json, outer: &str, inner: &str) -> (text: String)
    ensures
        text@ == nested_text(doc@, outer@, inner@),
{
    match doc.get(outer) {
        Some(part) => match part.get_str(inner) {
            Some(t) => String::from_str(t),
            None => String::new(),
        },
        None => String::new(),
    }
}

fn display_path(path: &str, wd: &str) -> (shown: String)
    ensures
        shown@ == shown_path(path@, wd@),
{
    let p = chars_of(path);
    let w = chars_of(wd);
    if is_match_at(&p, &w, 0) {
        let mut slash: Vec<char> = Vec::new();
        slash.push('/');
        assert(slash@ =~= seq!['/']);
        let behind_slash = is_match_at(&p, &slash, w.len());
        assert(behind_slash ==> w.len() + 1 <= p.len());
        let from: usize = if behind_slash {
            w.len() + 1
        } else {
            w.len()
        };
        let mut rest: Vec<char> = Vec::new();
        push_range(&mut rest, &p, from, p.len());
        assert(rest@ =~= path@.skip(from as int));
        string_of(&rest)
    } else {
        String::from_str(path)
    }
}

fn push_match_line(out: &mut String, number: u64, is_match: bool, text: &str)
    ensures
        final(out)@ == old(out)@ + match_line(number, is_match, text@),
{
    out.append("  ");
    push_decimal(out, number);
    if is_match {
        out.append(":");
    } else {
        out.append("-");
    }
    let chars = chars_of(text);
    let kept = trimmed_len(&chars, chars.len(), '\n');
    assert(chars@.take(chars.len() as int) =~= text@);
    let mut line: Vec<char> = Vec::new();
    push_range(&mut line, &chars, 0, kept);
    assert(line@ =~= strip_trailing(text@, '\n'));
    let line_text = string_of(&line);
    let shown = truncate_line(line_text.as_str(), GREP_LINE_MAX_CHARS);
    out.append(shown.as_str());
    out.append("\n");
    assert(out@ =~= old(out)@ + match_line(number, is_match, text@));
}

/// Takes one record of the search into what is written of it.
pub fn rg_record(state: &mut RgState, doc: &Json, wd: &str)
    ensures
        final(state)@ == after_record(old(state)@, doc@, wd@),
{
    let kind = match doc.get_str("type") {
        Some(k) => String::from_str(k),
        None => String::new(),
    };
    let is_match = same_text(kind.as_str(), "match");
    if !is_match && !same_text(kind.as_str(), "context") {
        return ;
    }
    let null = Json::Null;
    let data = match doc.get("data") {
        Some(d) => d,
        None => &null,
    };
    let path_text = nested(data, "path", "text");
    let path = display_path(path_text.as_str(), wd);
    let number = match data.get_u64("line_number") {
        Some(n) => n,
        None => 0,
    };
    let text = nested(data, "lines", "text");
    let same_file = match &state.current_path {
        Some(current) => same_text(current.as_str(), path.as_str()),
        None => false,
    };
    if !same_file {
        if state.current_path.is_some() {
            state.output.push('\n');
        }
        state.output.append(path.as_str());
        state.output.push('\n');
        state.current_path = Some(path);
    }
    push_match_line(&mut state.output, number, is_match, text.as_str());
    proof {
        reveal_strlit("\n");
        assert(state@.output =~= after_record(old(state)@, doc@, wd@).output);
    }
}

/// What is written of the records on the lines `ls`; a line that is no
/// JSON counts for nothing.
pub open spec fn rg_records(ls: Seq<Seq<char>>, wd: Seq<char>) -> RgView
    decreases ls.len(),
{
    if ls.len() == 0 {
        RgView { output: Seq::empty(), current_path: None }
    } else {
        match json_from_text(ls.last()) {
            Ok(doc) => after_record(rg_records(ls.drop_last(), wd), doc, wd),
            Err(_) => rg_records(ls.drop_last(), wd),
        }
    }
}

/// What a search in files gives the model, from the records of the search
/// program: the matches, file by file, cut down where they are many; or a
/// note where there are none.
pub open spec fn rg_text(json_output: Seq<char>, wd: Seq<char>) -> Seq<char> {
    let output = rg_records(lines(json_output), wd).output;
    if output.len() == 0 {
        "No matches found."@
    } else {
        head_truncated(output, READ_MAX_LINES as nat, READ_MAX_BYTES as nat).0
    }
}

/// Writes what a search in files gives the model, from the records that
/// the search program wrote, one JSON document on each line.
pub fn format_rg_json(json_output: &str, working_dir: &str) -> (out: String)
    ensures
        out@ == rg_text(json_output@, working_dir@),
{
    let chars = chars_of(json_output);
    let ls = split_lines(&chars);
    let ghost all = texts(ls@);
    let mut state = RgState { output: String::new(), current_path: None };
    let mut i: usize = 0;
    assert(all.take(0) =~= Seq::<Seq<char>>::empty());
    while i < ls.len()
        invariant
            i <= ls.len(),
            all == texts(ls@),
            state@ == rg_records(all.take(i as int), working_dir@),
        decreases ls.len() - i,
    {
        assert(all.take(i + 1).drop_last() =~= all.take(i as int));
        assert(all.take(i + 1).last() == ls@[i as int]@);
        match parse_json(ls[i].as_str()) {
            Ok(doc) => {
                rg_record(&mut state, &doc, working_dir);
            },
            Err(_) => {},
        }
        i += 1;
    }
    assert(all.take(ls.len() as int) =~= all);
    if state.output.as_str().is_empty() {
        return String::from_str("No matches found.");
    }
    truncate_head(state.output.as_str(), READ_MAX_LINES, READ_MAX_BYTES).0
}

/// Writes what a search in files gives the model, from what the search
/// program wrote.
pub fn grep_output(stdout: &str, working_dir: &str) -> (out: String)
    ensures
        out@ == if stdout@.len() == 0 {
            "No matches found."@
        } else {
            rg_text(stdout@, working_dir@)
        },
{
    if stdout.is_empty() {
        String::from_str("No matches found.")
    } else {
        format_rg_json(stdout, working_dir)
    }
}

} // verus!
