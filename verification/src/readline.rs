use crate::session::joined;
use crate::text::{
    chars_of, decimal, matches_at, push_decimal_wide, push_range, same_text, string_of, texts,
};
use crate::tool::candidate_path;
use vstd::prelude::*;
use vstd::string::{StringExecFns, StrSliceExecFns};
use vstd::utf8::{encode_utf8, valid_utf8};

verus! {

/// Most lines that the history keeps.
pub const HISTORY_SIZE: usize = 100;

/// How many characters `a` and `b` have in common at their start.
pub open spec fn common_len(a: Seq<char>, b: Seq<char>) -> nat
    decreases a.len(),
{
    if a.len() == 0 || b.len() == 0 || a[0] != b[0] {
        0
    } else {
        1 + common_len(a.drop_first(), b.drop_first())
    }
}

proof fn lemma_common_len(a: Seq<char>, b: Seq<char>, k: int)
    requires
        0 <= k <= a.len(),
        k <= b.len(),
        a.take(k) == b.take(k),
        k == a.len() || k == b.len() || a[k] != b[k],
    ensures
        common_len(a, b) == k,
    decreases a.len(),
{
    if k > 0 {
        assert(a[0] == a.take(k)[0]);
        assert(b[0] == b.take(k)[0]);
        assert(a.drop_first().take(k - 1) =~= a.take(k).drop_first());
        assert(b.drop_first().take(k - 1) =~= b.take(k).drop_first());
        lemma_common_len(a.drop_first(), b.drop_first(), k - 1);
    }
}

/// How many characters all of `items` have in common at their start.
pub open spec fn common_prefix_len(items: Seq<Seq<char>>) -> nat
    decreases items.len(),
{
    if items.len() == 0 {
        0
    } else if items.len() == 1 {
        items[0].len()
    } else {
        let before = common_prefix_len(items.drop_last());
        let last = common_len(items[0], items.last());
        if last < before {
            last
        } else {
            before
        }
    }
}

/// What all of `items` start with.
pub open spec fn common_prefix_text(items: Seq<Seq<char>>) -> Seq<char> {
    if items.len() == 0 {
        Seq::empty()
    } else {
        items[0].take(common_prefix_len(items) as int)
    }
}

fn shared_len(a: &Vec<char>, b: &Vec<char>) -> (k: usize)
    ensures
        k == common_len(a@, b@),
        k <= a.len(),
        k <= b.len(),
{
    let mut k: usize = 0;
    assert(a@.take(0) =~= b@.take(0));
    while k < a.len() && k < b.len() && a[k] == b[k]
        invariant
            k <= a.len(),
            k <= b.len(),
            a@.take(k as int) == b@.take(k as int),
        decreases a.len() - k,
    {
        assert(a@.take(k + 1) =~= a@.take(k as int).push(a@[k as int]));
        assert(b@.take(k + 1) =~= b@.take(k as int).push(b@[k as int]));
        k += 1;
    }
    proof {
        lemma_common_len(a@, b@, k as int);
    }
    k
}

/// Finds what all of `items` start with.
pub fn common_prefix(items: &[String]) -> (prefix: String)
    ensures
        prefix@ == common_prefix_text(texts(items@)),
{
    if items.len() == 0 {
        return String::new();
    }
    let ghost all = texts(items@);
    let first = chars_of(items[0].as_str());
    let mut len: usize = first.len();
    let mut i: usize = 1;
    assert(all.take(1).len() == 1);
    assert(all.take(1)[0] == items@[0]@);
    while i < items.len()
        invariant
            1 <= i <= items.len(),
            all == texts(items@),
            first@ == items@[0]@,
            len == common_prefix_len(all.take(i as int)),
            len <= first.len(),
        decreases items.len() - i,
    {
        let ghost upto = all.take(i + 1);
        assert(upto.drop_last() =~= all.take(i as int));
        assert(upto.last() == items@[i as int]@);
        assert(upto[0] == items@[0]@);
        let item = chars_of(items[i].as_str());
        let shared = shared_len(&first, &item);
        if shared < len {
            len = shared;
        }
        i += 1;
    }
    assert(all.take(items.len() as int) =~= all);
    let mut out: Vec<char> = Vec::new();
    push_range(&mut out, &first, 0, len);
    assert(out@ =~= first@.take(len as int));
    string_of(&out)
}

/// Index of the last `c` in `s`, or -1 where there is none.
pub open spec fn last_index_of(s: Seq<char>, c: char) -> int
    decreases s.len(),
{
    if s.len() == 0 {
        -1
    } else if s.last() == c {
        s.len() - 1
    } else {
        last_index_of(s.drop_last(), c)
    }
}

fn rfind_char(chars: &Vec<char>, c: char) -> (at: Option<usize>)
    ensures
        match at {
            Some(i) => last_index_of(chars@, c) == i && i < chars.len(),
            None => last_index_of(chars@, c) == -1,
        },
{
    let mut i: usize = chars.len();
    assert(chars@.take(i as int) =~= chars@);
    while i > 0
        invariant
            i <= chars.len(),
            last_index_of(chars@, c) == last_index_of(chars@.take(i as int), c),
        decreases i,
    {
        assert(chars@.take(i as int).drop_last() =~= chars@.take(i - 1));
        if chars[i - 1] == c {
            return Some(i - 1);
        }
        i -= 1;
    }
    None
}

/// The directory in which the completions of `partial` are looked for.
pub open spec fn completion_dir(working_dir: Seq<char>, partial: Seq<char>) -> Seq<char> {
    let slash = last_index_of(partial, '/');
    if slash <= 0 {
        working_dir
    } else if partial[0] == '/' {
        partial.take(slash)
    } else {
        joined(working_dir, partial.take(slash))
    }
}

/// What the names of the completions of `partial` start with.
pub open spec fn completion_prefix(partial: Seq<char>) -> Seq<char> {
    partial.skip(last_index_of(partial, '/') + 1)
}

/// Splits what was typed of a path into the directory to list and what
/// the names looked for start with.
pub fn split_path_prefix(working_dir: &str, partial: &str) -> (split: (String, String))
    ensures
        split.0@ == completion_dir(working_dir@, partial@),
        split.1@ == completion_prefix(partial@),
{
    let chars = chars_of(partial);
    match rfind_char(&chars, '/') {
        Some(i) => {
            let mut dir_part: Vec<char> = Vec::new();
            push_range(&mut dir_part, &chars, 0, i);
            assert(dir_part@ =~= partial@.take(i as int));
            let mut prefix: Vec<char> = Vec::new();
            push_range(&mut prefix, &chars, i + 1, chars.len());
            assert(prefix@ =~= partial@.skip(i + 1));
            let dir = if i == 0 {
                String::from_str(working_dir)
            } else {
                let part = string_of(&dir_part);
                assert(part@[0] == partial@[0]);
                candidate_path(working_dir, part.as_str())
            };
            (dir, string_of(&prefix))
        },
        None => {
            assert(partial@.skip(0) =~= partial@);
            (String::from_str(working_dir), String::from_str(partial))
        },
    }
}

/// The directory part of what was typed: up to its last slash, the slash
/// included.
pub open spec fn typed_dir(partial: Seq<char>) -> Seq<char> {
    partial.take(last_index_of(partial, '/') + 1)
}

/// The completion that the entry `name` of the directory gives for what
/// was typed: none where the entry does not start with what the name was
/// to start with, or is hidden and no dot was typed; else the directory
/// part that was typed, the name, and a slash behind a directory.
pub open spec fn completion_of(name: Seq<char>, is_dir: bool, partial: Seq<char>) -> Option<Seq<char>> {
    let prefix = completion_prefix(partial);
    if matches_at(name, seq!['.'], 0) && !matches_at(prefix, seq!['.'], 0) {
        None
    } else if !matches_at(name, prefix, 0) {
        None
    } else if is_dir {
        Some(typed_dir(partial) + name + seq!['/'])
    } else {
        Some(typed_dir(partial) + name)
    }
}

/// Makes the completion that an entry of the directory gives for what was
/// typed.
pub fn completion_for(name: &str, is_dir: bool, partial: &str) -> (completion: Option<String>)
    ensures
        match completion {
            Some(c) => completion_of(name@, is_dir, partial@) == Some(c@),
            None => completion_of(name@, is_dir, partial@) is None,
        },
{
    let chars = chars_of(partial);
    let from: usize = match rfind_char(&chars, '/') {
        Some(i) => i + 1,
        None => 0,
    };
    let mut prefix: Vec<char> = Vec::new();
    push_range(&mut prefix, &chars, from, chars.len());
    assert(prefix@ =~= completion_prefix(partial@));
    let n = chars_of(name);
    let mut dot: Vec<char> = Vec::new();
    dot.push('.');
    assert(dot@ =~= seq!['.']);
    if crate::text::is_match_at(&n, &dot, 0) && !crate::text::is_match_at(&prefix, &dot, 0) {
        return None;
    }
    if !crate::text::is_match_at(&n, &prefix, 0) {
        return None;
    }
    let mut out: Vec<char> = Vec::new();
    push_range(&mut out, &chars, 0, from);
    assert(out@ =~= typed_dir(partial@));
    push_range(&mut out, &n, 0, n.len());
    assert(n@.subrange(0, n.len() as int) =~= name@);
    if is_dir {
        out.push('/');
    }
    Some(string_of(&out))
}

/// The history after the line `line`: unchanged where it ends with that
/// line, else longer by it, and without its first line where it would be
/// longer than a hundred.
pub open spec fn history_after(history: Seq<Seq<char>>, line: Seq<char>) -> Seq<Seq<char>> {
    if history.len() > 0 && history.last() == line {
        history
    } else if history.len() + 1 > HISTORY_SIZE {
        history.push(line).drop_first()
    } else {
        history.push(line)
    }
}

/// Takes a line into the history. Tells whether the history changed, so
/// that the line is to be written to the file of the history.
pub fn add_history(history: &mut Vec<String>, line: &str) -> (added: bool)
    ensures
        texts(final(history)@) == history_after(texts(old(history)@), line@),
        added == !(old(history)@.len() > 0 && old(history)@.last()@ == line@),
{
    let n = history.len();
    if n > 0 && same_text(history[n - 1].as_str(), line) {
        return false;
    }
    let ghost before = texts(history@);
    history.push(String::from_str(line));
    assert(texts(history@) =~= before.push(line@));
    if history.len() > HISTORY_SIZE {
        history.remove(0);
        assert(texts(history@) =~= before.push(line@).drop_first());
    }
    true
}

/// The lines of `lines` that are not empty.
pub open spec fn filled_lines(lines: Seq<Seq<char>>) -> Seq<Seq<char>>
    decreases lines.len(),
{
    if lines.len() == 0 {
        Seq::empty()
    } else if lines.last().len() == 0 {
        filled_lines(lines.drop_last())
    } else {
        filled_lines(lines.drop_last()).push(lines.last())
    }
}

/// The history that the lines of its file give: the last hundred of those
/// that are not empty.
pub open spec fn loaded_history(lines: Seq<Seq<char>>) -> Seq<Seq<char>> {
    let filled = filled_lines(lines);
    if filled.len() > HISTORY_SIZE {
        filled.skip(filled.len() - HISTORY_SIZE)
    } else {
        filled
    }
}

/// Makes the history from the lines of its file.
pub fn load_history(lines: &Vec<String>) -> (history: Vec<String>)
    ensures
        texts(history@) == loaded_history(texts(lines@)),
{
    let ghost all = texts(lines@);
    let mut filled: Vec<String> = Vec::new();
    let mut i: usize = 0;
    assert(all.take(0) =~= Seq::<Seq<char>>::empty());
    assert(texts(filled@) =~= Seq::<Seq<char>>::empty());
    while i < lines.len()
        invariant
            i <= lines.len(),
            all == texts(lines@),
            texts(filled@) == filled_lines(all.take(i as int)),
        decreases lines.len() - i,
    {
        assert(all.take(i + 1).drop_last() =~= all.take(i as int));
        assert(all.take(i + 1).last() == lines@[i as int]@);
        if !lines[i].as_str().is_empty() {
            let ghost before = texts(filled@);
            filled.push(lines[i].clone());
            assert(texts(filled@) =~= before.push(lines@[i as int]@));
        }
        i += 1;
    }
    assert(all.take(lines.len() as int) =~= all);
    if filled.len() > HISTORY_SIZE {
        let from = filled.len() - HISTORY_SIZE;
        let mut kept: Vec<String> = Vec::new();
        let mut k: usize = from;
        while k < filled.len()
            invariant
                from <= k <= filled.len(),
                kept.len() == k - from,
                forall|j: int| 0 <= j < k - from ==> (#[trigger] kept@[j])@ == filled@[from + j]@,
            decreases filled.len() - k,
        {
            kept.push(filled[k].clone());
            k += 1;
        }
        assert(texts(kept@) =~= texts(filled@).skip(from as int));
        kept
    } else {
        filled
    }
}

/// The text that the bytes `bytes` are shown as: what
/// `String::from_utf8_lossy` makes of them.
pub uninterp spec fn lossy_text(bytes: Seq<u8>) -> Seq<char>;

/// `String::from_utf8_lossy`: the text of `bytes`, with a replacement
/// character for what is no UTF-8. The result is a function of the bytes
/// alone; nothing else is claimed of it.
#[verifier::external_body]
fn lossy(bytes: &Vec<u8>) -> (text: String)
    ensures
        text@ == lossy_text(bytes@),
{
    String::from_utf8_lossy(bytes).into_owned()
}

/// The text that the bytes of a line are shown as.
pub fn line_text(bytes: &Vec<u8>) -> (text: String)
    ensures
        text@ == lossy_text(bytes@),
{
    lossy(bytes)
}

/// A key as the editor of the line understands it.
#[derive(Clone, Copy, Debug, PartialEq, Eq, Structural)]
pub enum Key {
    /// The end of the input was asked for.
    Quit,
    /// The line is given up.
    Cancel,
    Enter,
    Backspace,
    Up,
    Down,
    Right,
    Left,
    WordRight,
    WordLeft,
    Delete,
    Home,
    LineEnd,
    ToggleOutput,
    KillLine,
    KillToEnd,
    KillWord,
    OpenEditor,
    Complete,
    Insert(u8),
}

/// How far the bytes of a key are read.
#[derive(Clone, Copy, Debug, PartialEq, Eq, Structural)]
pub enum KeyState {
    /// Between two keys.
    Ground,
    /// Behind an escape.
    Escape,
    /// Behind an escape and a bracket.
    Bracket,
    /// Behind `ESC [ 1`, with `seen` of the three bytes that follow.
    Extended { seen: u8, first: u8, second: u8 },
    /// Behind `ESC [ 3`, before the byte that ends the key.
    Tilde,
}

/// The key that a single byte stands for between two keys, if any.
/// `line_empty` says whether the line is empty, for only then does the
/// byte 4 ask for the end.
pub open spec fn plain_key(byte: u8, line_empty: bool) -> Option<Key> {
    if byte == 4 {
        if line_empty {
            Some(Key::Quit)
        } else {
            None
        }
    } else if byte == 3 {
        Some(Key::Cancel)
    } else if byte == 13 || byte == 10 {
        Some(Key::Enter)
    } else if byte == 127 || byte == 8 {
        Some(Key::Backspace)
    } else if byte == 16 {
        Some(Key::Up)
    } else if byte == 14 {
        Some(Key::Down)
    } else if byte == 15 {
        Some(Key::ToggleOutput)
    } else if byte == 1 {
        Some(Key::Home)
    } else if byte == 5 {
        Some(Key::LineEnd)
    } else if byte == 21 {
        Some(Key::KillLine)
    } else if byte == 11 {
        Some(Key::KillToEnd)
    } else if byte == 23 {
        Some(Key::KillWord)
    } else if byte == 7 {
        Some(Key::OpenEditor)
    } else if byte == 9 {
        Some(Key::Complete)
    } else if byte >= 32 {
        Some(Key::Insert(byte))
    } else {
        None
    }
}

/// The state behind one more byte, and the key that the byte completes,
/// if any.
pub open spec fn after_byte(state: KeyState, byte: u8, line_empty: bool) -> (KeyState, Option<Key>) {
    match state {
        KeyState::Ground => if byte == 27 {
            (KeyState::Escape, None)
        } else {
            (KeyState::Ground, plain_key(byte, line_empty))
        },
        KeyState::Escape => if byte == 0x5b {
            (KeyState::Bracket, None)
        } else {
            (KeyState::Ground, None)
        },
        KeyState::Bracket => if byte == 0x41 {
            (KeyState::Ground, Some(Key::Up))
        } else if byte == 0x42 {
            (KeyState::Ground, Some(Key::Down))
        } else if byte == 0x43 {
            (KeyState::Ground, Some(Key::Right))
        } else if byte == 0x44 {
            (KeyState::Ground, Some(Key::Left))
        } else if byte == 0x31 {
            (KeyState::Extended { seen: 0, first: 0, second: 0 }, None)
        } else if byte == 0x33 {
            (KeyState::Tilde, None)
        } else if byte == 0x48 {
            (KeyState::Ground, Some(Key::Home))
        } else if byte == 0x46 {
            (KeyState::Ground, Some(Key::LineEnd))
        } else {
            (KeyState::Ground, None)
        },
        KeyState::Extended { seen, first, second } => if seen == 0 {
            (KeyState::Extended { seen: 1, first: byte, second: 0 }, None)
        } else if seen == 1 {
            (KeyState::Extended { seen: 2, first, second: byte }, None)
        } else if first == 0x3b && second == 0x35 && byte == 0x43 {
            (KeyState::Ground, Some(Key::WordRight))
        } else if first == 0x3b && second == 0x35 && byte == 0x44 {
            (KeyState::Ground, Some(Key::WordLeft))
        } else {
            (KeyState::Ground, None)
        },
        KeyState::Tilde => (KeyState::Ground, Some(Key::Delete)),
    }
}

/// Takes in one byte of the keyboard.
pub fn decode_byte(state: KeyState, byte: u8, line_empty: bool) -> (next: (KeyState, Option<Key>))
    ensures
        next == after_byte(state, byte, line_empty),
{
    match state {
        KeyState::Ground => {
            if byte == 27 {
                (KeyState::Escape, None)
            } else {
                let key = if byte == 4 {
                    if line_empty {
                        Some(Key::Quit)
                    } else {
                        None
                    }
                } else if byte == 3 {
                    Some(Key::Cancel)
                } else if byte == 13 || byte == 10 {
                    Some(Key::Enter)
                } else if byte == 127 || byte == 8 {
                    Some(Key::Backspace)
                } else if byte == 16 {
                    Some(Key::Up)
                } else if byte == 14 {
                    Some(Key::Down)
                } else if byte == 15 {
                    Some(Key::ToggleOutput)
                } else if byte == 1 {
                    Some(Key::Home)
                } else if byte == 5 {
                    Some(Key::LineEnd)
                } else if byte == 21 {
                    Some(Key::KillLine)
                } else if byte == 11 {
                    Some(Key::KillToEnd)
                } else if byte == 23 {
                    Some(Key::KillWord)
                } else if byte == 7 {
                    Some(Key::OpenEditor)
                } else if byte == 9 {
                    Some(Key::Complete)
                } else if byte >= 32 {
                    Some(Key::Insert(byte))
                } else {
                    None
                };
                (KeyState::Ground, key)
            }
        },
        KeyState::Escape => {
            if byte == 0x5b {
                (KeyState::Bracket, None)
            } else {
                (KeyState::Ground, None)
            }
        },
        KeyState::Bracket => {
            if byte == 0x41 {
                (KeyState::Ground, Some(Key::Up))
            } else if byte == 0x42 {
                (KeyState::Ground, Some(Key::Down))
            } else if byte == 0x43 {
                (KeyState::Ground, Some(Key::Right))
            } else if byte == 0x44 {
                (KeyState::Ground, Some(Key::Left))
            } else if byte == 0x31 {
                (KeyState::Extended { seen: 0, first: 0, second: 0 }, None)
            } else if byte == 0x33 {
                (KeyState::Tilde, None)
            } else if byte == 0x48 {
                (KeyState::Ground, Some(Key::Home))
            } else if byte == 0x46 {
                (KeyState::Ground, Some(Key::LineEnd))
            } else {
                (KeyState::Ground, None)
            }
        },
        KeyState::Extended { seen, first, second } => {
            if seen == 0 {
                (KeyState::Extended { seen: 1, first: byte, second: 0 }, None)
            } else if seen == 1 {
                (KeyState::Extended { seen: 2, first, second: byte }, None)
            } else if first == 0x3b && second == 0x35 && byte == 0x43 {
                (KeyState::Ground, Some(Key::WordRight))
            } else if first == 0x3b && second == 0x35 && byte == 0x44 {
                (KeyState::Ground, Some(Key::WordLeft))
            } else {
                (KeyState::Ground, None)
            }
        },
        KeyState::Tilde => (KeyState::Ground, Some(Key::Delete)),
    }
}

/// The line that is being edited.
#[derive(Debug, PartialEq)]
pub struct LineEdit {
    pub buf: Vec<u8>,
    /// Where the next byte goes: an index into `buf`, or its length.
    pub cursor: usize,
    /// The line of the history that is shown, or the length of the
    /// history while the line is the user's own.
    pub hist_idx: usize,
    /// The user's own line, kept while the history is shown.
    pub saved_line: String,
}

/// What a `LineEdit` stands for.
pub struct LineView {
    pub buf: Seq<u8>,
    pub cursor: int,
    pub hist_idx: int,
    pub saved_line: Seq<char>,
}

impl View for LineEdit {
    type V = LineView;

    open spec fn view(&self) -> LineView {
        LineView {
            buf: self.buf@,
            cursor: self.cursor as int,
            hist_idx: self.hist_idx as int,
            saved_line: self.saved_line@,
        }
    }
}

/// Whether a line is sound with a history of `history_len` lines: the
/// cursor in the line, the line shown in the history or just behind it.
pub open spec fn line_ok(line: LineView, history_len: int) -> bool {
    0 <= line.cursor <= line.buf.len() && 0 <= line.hist_idx <= history_len
}

/// What the editor does once a key is taken in.
#[derive(Clone, Copy, Debug, PartialEq, Eq, Structural)]
pub enum EditOutcome {
    /// Nothing is to be shown.
    Nothing,
    /// The line is to be shown anew.
    Redraw,
    /// The line is to be shown anew on the next row.
    NewLine,
    /// The line is complete.
    Submit,
    /// The input has ended.
    Quit,
    /// The output of the last tool is to be expanded or collapsed.
    ToggleOutput,
    /// The line is to be edited in the user's editor.
    OpenEditor,
    /// The path that is being typed is to be completed.
    Complete,
}

/// Where the cursor stands after a move to the right by one word: behind
/// the spaces at the cursor and the word behind them.
pub open spec fn skip_right(buf: Seq<u8>, cursor: int, in_spaces: bool) -> int
    decreases buf.len() - cursor, if in_spaces { 1int } else { 0int },
{
    if cursor < 0 || cursor >= buf.len() {
        cursor
    } else if in_spaces {
        if buf[cursor] == 0x20 {
            skip_right(buf, cursor + 1, true)
        } else {
            skip_right(buf, cursor, false)
        }
    } else if buf[cursor] != 0x20 {
        skip_right(buf, cursor + 1, false)
    } else {
        cursor
    }
}

/// Where the cursor stands after a move to the left by one word: before
/// the spaces before the cursor and the word before them.
pub open spec fn skip_left(buf: Seq<u8>, cursor: int, in_spaces: bool) -> int
    decreases cursor, if in_spaces { 1int } else { 0int },
{
    if cursor <= 0 || cursor > buf.len() {
        cursor
    } else if in_spaces {
        if buf[cursor - 1] == 0x20 {
            skip_left(buf, cursor - 1, true)
        } else {
            skip_left(buf, cursor, false)
        }
    } else if buf[cursor - 1] != 0x20 {
        skip_left(buf, cursor - 1, false)
    } else {
        cursor
    }
}

/// The line with the bytes `bytes`, the cursor behind them.
pub open spec fn with_text(line: LineView, bytes: Seq<u8>) -> LineView {
    LineView { buf: bytes, cursor: bytes.len() as int, ..line }
}

/// The line after a key, with a history of the lines `history`. A byte
/// is inserted unless the line is as long as a line can be.
pub open spec fn after_key(line: LineView, key: Key, history: Seq<Seq<char>>) -> LineView {
    match key {
        Key::Cancel | Key::KillLine => LineView { buf: Seq::empty(), cursor: 0, ..line },
        Key::Backspace => if line.cursor > 0 {
            LineView { buf: line.buf.remove(line.cursor - 1), cursor: line.cursor - 1, ..line }
        } else {
            line
        },
        Key::Up => if line.hist_idx > 0 {
            with_text(
                LineView {
                    hist_idx: line.hist_idx - 1,
                    saved_line: if line.hist_idx == history.len() {
                        lossy_text(line.buf)
                    } else {
                        line.saved_line
                    },
                    ..line
                },
                encode_utf8(history[line.hist_idx - 1]),
            )
        } else {
            line
        },
        Key::Down => if line.hist_idx < history.len() {
            with_text(
                LineView { hist_idx: line.hist_idx + 1, ..line },
                if line.hist_idx + 1 == history.len() {
                    encode_utf8(line.saved_line)
                } else {
                    encode_utf8(history[line.hist_idx + 1])
                },
            )
        } else {
            line
        },
        Key::Right => if line.cursor < line.buf.len() {
            LineView { cursor: line.cursor + 1, ..line }
        } else {
            line
        },
        Key::Left => if line.cursor > 0 {
            LineView { cursor: line.cursor - 1, ..line }
        } else {
            line
        },
        Key::WordRight => LineView { cursor: skip_right(line.buf, line.cursor, true), ..line },
        Key::WordLeft => LineView { cursor: skip_left(line.buf, line.cursor, true), ..line },
        Key::Delete => if line.cursor < line.buf.len() {
            LineView { buf: line.buf.remove(line.cursor), ..line }
        } else {
            line
        },
        Key::Home => LineView { cursor: 0, ..line },
        Key::LineEnd => LineView { cursor: line.buf.len() as int, ..line },
        Key::KillToEnd => LineView { buf: line.buf.take(line.cursor), ..line },
        Key::KillWord => LineView {
            buf: line.buf.take(skip_left(line.buf, line.cursor, true)) + line.buf.skip(line.cursor),
            cursor: skip_left(line.buf, line.cursor, true),
            ..line
        },
        Key::Insert(byte) => if line.buf.len() < usize::MAX {
            LineView { buf: line.buf.insert(line.cursor, byte), cursor: line.cursor + 1, ..line }
        } else {
            line
        },
        Key::Quit | Key::Enter | Key::ToggleOutput | Key::OpenEditor | Key::Complete => line,
    }
}

/// What the editor does once a key is taken in. A key that moves the
/// cursor or changes the line has the line shown anew, but for those that
/// find nothing to do.
pub open spec fn outcome_of(line: LineView, key: Key, history_len: int) -> EditOutcome {
    match key {
        Key::Quit => EditOutcome::Quit,
        Key::Cancel => EditOutcome::NewLine,
        Key::Enter => EditOutcome::Submit,
        Key::ToggleOutput => EditOutcome::ToggleOutput,
        Key::OpenEditor => EditOutcome::OpenEditor,
        Key::Complete => EditOutcome::Complete,
        Key::Backspace | Key::Left => if line.cursor > 0 {
            EditOutcome::Redraw
        } else {
            EditOutcome::Nothing
        },
        Key::Up => if line.hist_idx > 0 {
            EditOutcome::Redraw
        } else {
            EditOutcome::Nothing
        },
        Key::Down => if line.hist_idx < history_len {
            EditOutcome::Redraw
        } else {
            EditOutcome::Nothing
        },
        Key::Right | Key::Delete => if line.cursor < line.buf.len() {
            EditOutcome::Redraw
        } else {
            EditOutcome::Nothing
        },
        _ => EditOutcome::Redraw,
    }
}

fn word_right(buf: &Vec<u8>, cursor: usize) -> (at: usize)
    requires
        cursor <= buf.len(),
    ensures
        at == skip_right(buf@, cursor as int, true),
        cursor <= at <= buf.len(),
{
    let mut at: usize = cursor;
    while at < buf.len() && buf[at] == 0x20
        invariant
            cursor <= at <= buf.len(),
            skip_right(buf@, cursor as int, true) == skip_right(buf@, at as int, true),
        decreases buf.len() - at,
    {
        at += 1;
    }
    while at < buf.len() && buf[at] != 0x20
        invariant
            cursor <= at <= buf.len(),
            skip_right(buf@, cursor as int, true) == skip_right(buf@, at as int, false),
        decreases buf.len() - at,
    {
        at += 1;
    }
    at
}

fn word_left(buf: &Vec<u8>, cursor: usize) -> (at: usize)
    requires
        cursor <= buf.len(),
    ensures
        at == skip_left(buf@, cursor as int, true),
        at <= cursor,
{
    let mut at: usize = cursor;
    while at > 0 && buf[at - 1] == 0x20
        invariant
            at <= cursor <= buf.len(),
            skip_left(buf@, cursor as int, true) == skip_left(buf@, at as int, true),
        decreases at,
    {
        at -= 1;
    }
    while at > 0 && buf[at - 1] != 0x20
        invariant
            at <= cursor <= buf.len(),
            skip_left(buf@, cursor as int, true) == skip_left(buf@, at as int, false),
        decreases at,
    {
        at -= 1;
    }
    at
}

impl LineEdit {
    /// An empty line, behind a history of `history_len` lines.
    pub fn new(history_len: usize) -> (line: LineEdit)
        ensures
            line@.buf.len() == 0,
            line@.cursor == 0,
            line@.hist_idx == history_len,
            line@.saved_line.len() == 0,
            line_ok(line@, history_len as int),
    {
        LineEdit { buf: Vec::new(), cursor: 0, hist_idx: history_len, saved_line: String::new() }
    }

    /// Puts `text` in the place of the line, the cursor behind it.
    pub fn set_text(&mut self, text: &str)
        ensures
            final(self)@ == with_text(old(self)@, encode_utf8(text@)),
    {
        self.buf = text.as_bytes_vec();
        self.cursor = self.buf.len();
    }

    /// Takes in one key.
    pub fn apply_key(&mut self, key: Key, history: &Vec<String>) -> (outcome: EditOutcome)
        requires
            line_ok(old(self)@, history.len() as int),
        ensures
            final(self)@ == after_key(old(self)@, key, texts(history@)),
            outcome == outcome_of(old(self)@, key, history.len() as int),
            line_ok(final(self)@, history.len() as int),
    {
        match key {
            Key::Quit => EditOutcome::Quit,
            Key::Enter => EditOutcome::Submit,
            Key::ToggleOutput => EditOutcome::ToggleOutput,
            Key::OpenEditor => EditOutcome::OpenEditor,
            Key::Complete => EditOutcome::Complete,
            Key::Cancel => {
                self.buf.clear();
                self.cursor = 0;
                EditOutcome::NewLine
            },
            Key::KillLine => {
                self.buf.clear();
                self.cursor = 0;
                EditOutcome::Redraw
            },
            Key::Backspace => {
                if self.cursor > 0 {
                    self.cursor -= 1;
                    self.buf.remove(self.cursor);
                    EditOutcome::Redraw
                } else {
                    EditOutcome::Nothing
                }
            },
            Key::Up => {
                if self.hist_idx > 0 {
                    if self.hist_idx == history.len() {
                        self.saved_line = lossy(&self.buf);
                    }
                    self.hist_idx -= 1;
                    assert(texts(history@)[self.hist_idx as int] == history@[self.hist_idx as int]@);
                    self.buf = history[self.hist_idx].as_str().as_bytes_vec();
                    self.cursor = self.buf.len();
                    EditOutcome::Redraw
                } else {
                    EditOutcome::Nothing
                }
            },
            Key::Down => {
                if self.hist_idx < history.len() {
                    self.hist_idx += 1;
                    if self.hist_idx == history.len() {
                        self.buf = self.saved_line.as_str().as_bytes_vec();
                    } else {
                        assert(texts(history@)[self.hist_idx as int]
                            == history@[self.hist_idx as int]@);
                        self.buf = history[self.hist_idx].as_str().as_bytes_vec();
                    }
                    self.cursor = self.buf.len();
                    EditOutcome::Redraw
                } else {
                    EditOutcome::Nothing
                }
            },
            Key::Right => {
                if self.cursor < self.buf.len() {
                    self.cursor += 1;
                    EditOutcome::Redraw
                } else {
                    EditOutcome::Nothing
                }
            },
            Key::Left => {
                if self.cursor > 0 {
                    self.cursor -= 1;
                    EditOutcome::Redraw
                } else {
                    EditOutcome::Nothing
                }
            },
            Key::WordRight => {
                self.cursor = word_right(&self.buf, self.cursor);
                EditOutcome::Redraw
            },
            Key::WordLeft => {
                self.cursor = word_left(&self.buf, self.cursor);
                EditOutcome::Redraw
            },
            Key::Delete => {
                if self.cursor < self.buf.len() {
                    self.buf.remove(self.cursor);
                    EditOutcome::Redraw
                } else {
                    EditOutcome::Nothing
                }
            },
            Key::Home => {
                self.cursor = 0;
                EditOutcome::Redraw
            },
            Key::LineEnd => {
                self.cursor = self.buf.len();
                EditOutcome::Redraw
            },
            Key::KillToEnd => {
                self.buf.truncate(self.cursor);
                assert(self.buf@ =~= old(self).buf@.take(old(self).cursor as int));
                EditOutcome::Redraw
            },
            Key::KillWord => {
                let at = word_left(&self.buf, self.cursor);
                let mut kept: Vec<u8> = Vec::new();
                let mut i: usize = 0;
                while i < at
                    invariant
                        i <= at <= self.cursor <= self.buf.len(),
                        self.buf == old(self).buf,
                        self.cursor == old(self).cursor,
                        kept@ == self.buf@.take(i as int),
                    decreases at - i,
                {
                    kept.push(self.buf[i]);
                    assert(self.buf@.take(i + 1) =~= self.buf@.take(i as int).push(self.buf@[i as int]));
                    i += 1;
                }
                let mut k: usize = self.cursor;
                while k < self.buf.len()
                    invariant
                        at <= self.cursor <= k <= self.buf.len(),
                        self.buf == old(self).buf,
                        self.cursor == old(self).cursor,
                        kept@ == self.buf@.take(at as int) + self.buf@.subrange(
                            self.cursor as int,
                            k as int,
                        ),
                    decreases self.buf.len() - k,
                {
                    kept.push(self.buf[k]);
                    assert(self.buf@.subrange(self.cursor as int, k + 1) =~= self.buf@.subrange(
                        self.cursor as int,
                        k as int,
                    ).push(self.buf@[k as int]));
                    k += 1;
                }
                assert(self.buf@.subrange(self.cursor as int, self.buf.len() as int)
                    =~= self.buf@.skip(self.cursor as int));
                self.buf = kept;
                self.cursor = at;
                EditOutcome::Redraw
            },
            Key::Insert(byte) => {
                if self.buf.len() < usize::MAX {
                    self.buf.insert(self.cursor, byte);
                    self.cursor += 1;
                }
                EditOutcome::Redraw
            },
        }
    }
}

/// What is written to show the line anew: the row is cleared, the prompt
/// and the line are written, and the cursor goes back to its place.
pub open spec fn shown_line(prompt: Seq<char>, buf: Seq<u8>, cursor: int) -> Seq<char> {
    "\r\x1b[K"@ + prompt + lossy_text(buf) + if buf.len() - cursor > 0 {
        "\x1b["@ + decimal((buf.len() - cursor) as nat) + "D"@
    } else {
        Seq::empty()
    }
}

/// Writes what shows the line anew.
pub fn render_line(prompt: &str, line: &LineEdit) -> (shown: String)
    requires
        line.cursor <= line.buf.len(),
    ensures
        shown@ == shown_line(prompt@, line.buf@, line.cursor as int),
{
    let mut shown = String::from_str("\r\x1b[K");
    shown.append(prompt);
    let text = lossy(&line.buf);
    shown.append(text.as_str());
    let back = line.buf.len() - line.cursor;
    if back > 0 {
        shown.append("\x1b[");
        push_decimal_wide(&mut shown, back as u128);
        shown.append("D");
        assert(shown@ =~= shown_line(prompt@, line.buf@, line.cursor as int));
    } else {
        assert(shown@ =~= shown_line(prompt@, line.buf@, line.cursor as int));
    }
    shown
}

/// `std::str::from_utf8`: the text that `bytes` encode, where they are
/// UTF-8, and nothing where they are not.
#[verifier::external_body]
fn utf8_text(bytes: &Vec<u8>) -> (text: Option<String>)
    ensures
        match text {
            Some(t) => encode_utf8(t@) == bytes@,
            None => !valid_utf8(bytes@),
        },
{
    std::str::from_utf8(bytes).ok().map(|t| t.to_string())
}

/// Index of the last byte `b` in `bytes`, or -1 where there is none.
pub open spec fn last_byte(bytes: Seq<u8>, b: u8) -> int
    decreases bytes.len(),
{
    if bytes.len() == 0 {
        -1
    } else if bytes.last() == b {
        bytes.len() - 1
    } else {
        last_byte(bytes.drop_last(), b)
    }
}

/// Finds the `@` before the cursor behind which a path is being typed,
/// and what is typed of the path so far, where that is text.
pub fn typed_path(line: &LineEdit) -> (typed: Option<(usize, String)>)
    requires
        line.cursor <= line.buf.len(),
    ensures
        match typed {
            Some((at, partial)) => at == last_byte(line.buf@.take(line.cursor as int), 0x40) && at
                < line.cursor && encode_utf8(partial@) == line.buf@.subrange(
                at + 1,
                line.cursor as int,
            ),
            None => last_byte(line.buf@.take(line.cursor as int), 0x40) == -1 || !valid_utf8(
                line.buf@.subrange(
                    last_byte(line.buf@.take(line.cursor as int), 0x40) + 1,
                    line.cursor as int,
                ),
            ),
        },
{
    let ghost before = line.buf@.take(line.cursor as int);
    let mut i: usize = line.cursor;
    assert(before.take(i as int) =~= before);
    while i > 0 && line.buf[i - 1] != 0x40
        invariant
            i <= line.cursor <= line.buf.len(),
            before == line.buf@.take(line.cursor as int),
            last_byte(before, 0x40) == last_byte(before.take(i as int), 0x40),
        decreases i,
    {
        assert(before.take(i as int).drop_last() =~= before.take(i - 1));
        assert(before.take(i as int).last() == line.buf@[i - 1]);
        i -= 1;
    }
    if i == 0 {
        assert(before.take(0) =~= Seq::<u8>::empty());
        return None;
    }
    assert(before.take(i as int).last() == line.buf@[i - 1]);
    let at = i - 1;
    let mut part: Vec<u8> = Vec::new();
    let mut k: usize = i;
    while k < line.cursor
        invariant
            i <= k <= line.cursor <= line.buf.len(),
            part@ == line.buf@.subrange(i as int, k as int),
        decreases line.cursor - k,
    {
        part.push(line.buf[k]);
        assert(line.buf@.subrange(i as int, k + 1) =~= line.buf@.subrange(i as int, k as int).push(
            line.buf@[k as int],
        ));
        k += 1;
    }
    match utf8_text(&part) {
        Some(partial) => Some((at, partial)),
        None => None,
    }
}

/// The line with `text` in the place of what is typed of the path behind
/// the `@` at `at`, the cursor behind it.
pub open spec fn with_path(line: LineView, at: int, text: Seq<char>) -> LineView {
    LineView {
        buf: line.buf.take(at + 1) + encode_utf8(text) + line.buf.skip(line.cursor),
        cursor: at + 1 + encode_utf8(text).len(),
        ..line
    }
}

/// The line after the completions `completions` were found for the path
/// typed behind the `@` at `at`: unchanged without a completion; with the
/// one completion in the place of what is typed; and among more than one,
/// with what they all start with, where that is longer than what is typed.
pub open spec fn after_completion(line: LineView, at: int, completions: Seq<Seq<char>>) -> LineView {
    if completions.len() == 0 {
        line
    } else if completions.len() == 1 {
        with_path(line, at, completions[0])
    } else if encode_utf8(common_prefix_text(completions)).len() > (if valid_utf8(
        line.buf.subrange(at + 1, line.cursor),
    ) {
        line.cursor - at - 1
    } else {
        0
    }) {
        with_path(line, at, common_prefix_text(completions))
    } else {
        line
    }
}

fn replace_path(line: &mut LineEdit, at: usize, text: &str)
    requires
        at < old(line).cursor <= old(line).buf.len(),
        old(line).buf.len() + encode_utf8(text@).len() <= usize::MAX,
    ensures
        final(line)@ == with_path(old(line)@, at as int, text@),
        final(line).cursor <= final(line).buf.len(),
{
    let bytes = text.as_bytes_vec();
    let mut next: Vec<u8> = Vec::new();
    let mut i: usize = 0;
    while i < at + 1
        invariant
            i <= at + 1 <= line.cursor <= line.buf.len(),
            *line == *old(line),
            next@ == line.buf@.take(i as int),
        decreases at + 1 - i,
    {
        next.push(line.buf[i]);
        assert(line.buf@.take(i + 1) =~= line.buf@.take(i as int).push(line.buf@[i as int]));
        i += 1;
    }
    let mut j: usize = 0;
    while j < bytes.len()
        invariant
            j <= bytes.len(),
            *line == *old(line),
            next@ == line.buf@.take(at + 1) + bytes@.take(j as int),
        decreases bytes.len() - j,
    {
        next.push(bytes[j]);
        assert(bytes@.take(j + 1) =~= bytes@.take(j as int).push(bytes@[j as int]));
        j += 1;
    }
    assert(bytes@.take(bytes.len() as int) =~= bytes@);
    let mut k: usize = line.cursor;
    while k < line.buf.len()
        invariant
            line.cursor <= k <= line.buf.len(),
            *line == *old(line),
            next@ == line.buf@.take(at + 1) + bytes@ + line.buf@.subrange(
                line.cursor as int,
                k as int,
            ),
        decreases line.buf.len() - k,
    {
        next.push(line.buf[k]);
        assert(line.buf@.subrange(line.cursor as int, k + 1) =~= line.buf@.subrange(
            line.cursor as int,
            k as int,
        ).push(line.buf@[k as int]));
        k += 1;
    }
    assert(line.buf@.subrange(line.cursor as int, line.buf.len() as int) =~= line.buf@.skip(
        line.cursor as int,
    ));
    line.buf = next;
    line.cursor = at + 1 + bytes.len();
}

/// Takes the completions that were found for the path typed behind the
/// `@` at `at` into the line. Tells whether the completions are to be
/// shown, which they are where there is more than one.
pub fn apply_completion(line: &mut LineEdit, at: usize, completions: &Vec<String>) -> (show: bool)
    requires
        at < old(line).cursor <= old(line).buf.len(),
        forall|i: int|
            0 <= i < completions.len() ==> old(line).buf.len() + encode_utf8(
                (#[trigger] completions@[i])@,
            ).len() <= usize::MAX,
    ensures
        final(line)@ == after_completion(old(line)@, at as int, texts(completions@)),
        final(line).cursor <= final(line).buf.len(),
        show == (completions.len() > 1),
{
    if completions.len() == 0 {
        return false;
    }
    assert(texts(completions@)[0] == completions@[0]@);
    if completions.len() == 1 {
        replace_path(line, at, completions[0].as_str());
        return false;
    }
    let common = common_prefix(completions.as_slice());
    let mut part: Vec<u8> = Vec::new();
    let mut k: usize = at + 1;
    while k < line.cursor
        invariant
            at + 1 <= k <= line.cursor <= line.buf.len(),
            *line == *old(line),
            part@ == line.buf@.subrange(at + 1, k as int),
        decreases line.cursor - k,
    {
        part.push(line.buf[k]);
        assert(line.buf@.subrange(at + 1, k + 1) =~= line.buf@.subrange(at + 1, k as int).push(
            line.buf@[k as int],
        ));
        k += 1;
    }
    let typed: usize = match utf8_text(&part) {
        Some(_) => {
            proof {
                vstd::utf8::encode_utf8_valid_utf8(
                    choose|t: Seq<char>| encode_utf8(t) == part@,
                );
            }
            line.cursor - at - 1
        },
        None => 0,
    };
    let common_bytes = common.as_str().as_bytes_vec();
    proof {
        lemma_common_prefix_fits(texts(completions@));
        crate::text::lemma_byte_len_is_encoded_len(common@);
        crate::text::lemma_byte_len_is_encoded_len(completions@[0]@);
    }
    if common_bytes.len() > typed {
        replace_path(line, at, common.as_str());
    }
    true
}

/// What all of `items` start with takes no more bytes than the first of
/// them.
proof fn lemma_common_prefix_fits(items: Seq<Seq<char>>)
    requires
        items.len() > 0,
    ensures
        common_prefix_len(items) <= items[0].len(),
        crate::text::byte_len(common_prefix_text(items)) <= crate::text::byte_len(items[0]),
    decreases items.len(),
{
    if items.len() > 1 {
        lemma_common_prefix_fits(items.drop_last());
        assert(items.drop_last()[0] == items[0]);
    }
    let k = common_prefix_len(items) as int;
    crate::text::lemma_byte_len_monotonic(items[0], k, items[0].len() as int);
    assert(items[0].take(items[0].len() as int) =~= items[0]);
}

} // verus!
