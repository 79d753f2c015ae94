use crate::error::Error;
use crate::json::{Json, json_from_text, json_object, JsonView, parse_json};
use crate::signal::Interrupt;
use crate::sse::{
    BlockStart, BlockStartView, decoded_event, Delta, DeltaView, empty_frame, line_texts,
    next_frame, SseEvent, SseEventView, SseReader,
};
use crate::text::{
    byte_len, byte_len_of, chars_of, decimal, lines, prefixed_lines, push_decimal,
    push_prefixed_lines, same_text, split_lines, texts,
};
use crate::types::{block_views, ContentBlock, ContentBlockView, StopReason, Usage};
use vstd::prelude::*;
use vstd::string::StringExecFns;

verus! {

/// The text of the member `key` of a tool's input, or `?` where it has
/// no such text.
pub open spec fn text_or_unknown(input: JsonView, key: Seq<char>) -> Seq<char> {
    match input.text_field(key) {
        Some(t) => t,
        None => "?"@,
    }
}

/// The one line that names a tool call to the operator.
pub open spec fn header_of(name: Seq<char>, input: JsonView) -> Seq<char> {
    if name == "read_file"@ {
        "read: "@ + text_or_unknown(input, "path"@)
    } else if name == "write_file"@ {
        "write: "@ + text_or_unknown(input, "path"@)
    } else if name == "edit_file"@ {
        "edit: "@ + text_or_unknown(input, "path"@)
    } else if name == "bash"@ {
        "bash: "@ + text_or_unknown(input, "command"@)
    } else {
        name
    }
}

fn push_text_or_unknown(out: &mut String, input: &Json, key: &str)
    ensures
        final(out)@ == old(out)@ + text_or_unknown(input@, key@),
{
    match input.get_str(key) {
        Some(t) => out.append(t),
        None => out.append("?"),
    }
}

/// The one line that names a tool call to the operator.
pub fn tool_call_header(name: &str, input: &Json) -> (header: String)
    ensures
        header@ == header_of(name@, input@),
{
    if same_text(name, "read_file") {
        let mut out = String::from_str("read: ");
        push_text_or_unknown(&mut out, input, "path");
        out
    } else if same_text(name, "write_file") {
        let mut out = String::from_str("write: ");
        push_text_or_unknown(&mut out, input, "path");
        out
    } else if same_text(name, "edit_file") {
        let mut out = String::from_str("edit: ");
        push_text_or_unknown(&mut out, input, "path");
        out
    } else if same_text(name, "bash") {
        let mut out = String::from_str("bash: ");
        push_text_or_unknown(&mut out, input, "command");
        out
    } else {
        String::from_str(name)
    }
}

/// The lines of the member `key` of a tool's input, each behind `mark`;
/// nothing where the input has no such text.
pub open spec fn marked_lines(input: JsonView, key: Seq<char>, mark: Seq<char>) -> Seq<char> {
    match input.text_field(key) {
        Some(t) => prefixed_lines(mark, lines(t)),
        None => Seq::empty(),
    }
}

/// What the operator is shown of a tool call: its header, and for an edit
/// the lines that go and the lines that come.
pub open spec fn tool_call_notice(name: Seq<char>, input: JsonView) -> Seq<char> {
    "* "@ + header_of(name, input) + "\n"@ + if name == "edit_file"@ {
        marked_lines(input, "old_string"@, "- "@) + marked_lines(input, "new_string"@, "+ "@)
    } else {
        Seq::empty()
    }
}

fn push_marked_lines(out: &mut String, input: &Json, key: &str, mark: &str)
    ensures
        final(out)@ == old(out)@ + marked_lines(input@, key@, mark@),
{
    match input.get_str(key) {
        Some(t) => {
            let chars = chars_of(t);
            let split = split_lines(&chars);
            push_prefixed_lines(out, mark, &split, 0, split.len());
            assert(texts(split@).subrange(0, split.len() as int) =~= lines(t@));
        },
        None => {
            assert(old(out)@ + Seq::<char>::empty() =~= old(out)@);
        },
    }
}

/// Appends to `notes` what the operator is shown of a tool call.
pub fn push_tool_call_notice(notes: &mut String, name: &str, input: &Json)
    ensures
        final(notes)@ == old(notes)@ + tool_call_notice(name@, input@),
{
    let header = tool_call_header(name, input);
    notes.append("* ");
    notes.append(header.as_str());
    notes.append("\n");
    if same_text(name, "edit_file") {
        let ghost before = notes@;
        push_marked_lines(notes, input, "old_string", "- ");
        push_marked_lines(notes, input, "new_string", "+ ");
        assert(notes@ =~= old(notes)@ + tool_call_notice(name@, input@));
    } else {
        assert(notes@ =~= old(notes)@ + tool_call_notice(name@, input@));
    }
}

/// What the operator is shown when a block of reasoning is complete.
pub open spec fn thinking_notice(thinking: Seq<char>) -> Seq<char> {
    "* thinking (~"@ + decimal(byte_len(thinking) / 4) + " tokens)\n"@
}

/// The mark before a line of the model's text: `< ` before the first
/// line of a block, two spaces before every other.
pub open spec fn line_mark(first_line: bool) -> Seq<char> {
    if first_line {
        "< "@
    } else {
        "  "@
    }
}

/// What is written to the terminal for a fragment of text, with the two
/// flags as they stand behind it: whether the next character starts a
/// line, and whether the block is still in its first line.
pub open spec fn echoed(s: Seq<char>, at_line_start: bool, first_line: bool) -> (
    Seq<char>,
    bool,
    bool,
)
    decreases s.len(),
{
    if s.len() == 0 {
        (Seq::empty(), at_line_start, first_line)
    } else {
        let before = echoed(s.drop_last(), at_line_start, first_line);
        let c = s.last();
        (
            (if before.1 {
                before.0 + line_mark(before.2)
            } else {
                before.0
            }).push(c),
            c == '\n',
            before.2 && c != '\n',
        )
    }
}

/// The block that is being put together from fragments.
#[derive(Debug, PartialEq)]
pub enum BlockState {
    /// Not inside any content block.
    Idle,
    /// Inside a block of reasoning.
    Thinking { thinking: String, signature: String },
    /// Inside a block of text.
    Text { buf: String, at_line_start: bool, first_line: bool },
    /// Inside a tool invocation.
    ToolUse { id: String, name: String, json: String },
}

/// What a `BlockState` stands for.
pub enum BlockStateView {
    Idle,
    Thinking { thinking: Seq<char>, signature: Seq<char> },
    Text { buf: Seq<char>, at_line_start: bool, first_line: bool },
    ToolUse { id: Seq<char>, name: Seq<char>, json: Seq<char> },
}

impl View for BlockState {
    type V = BlockStateView;

    open spec fn view(&self) -> BlockStateView {
        match self {
            BlockState::Idle => BlockStateView::Idle,
            BlockState::Thinking { thinking, signature } => BlockStateView::Thinking {
                thinking: thinking@,
                signature: signature@,
            },
            BlockState::Text { buf, at_line_start, first_line } => BlockStateView::Text {
                buf: buf@,
                at_line_start: *at_line_start,
                first_line: *first_line,
            },
            BlockState::ToolUse { id, name, json } => BlockStateView::ToolUse {
                id: id@,
                name: name@,
                json: json@,
            },
        }
    }
}

/// A turn of the model while its answer streams in: the blocks that are
/// complete, the one that is open, and what is to be shown to the operator.
#[derive(Debug)]
pub struct Turn {
    pub content: Vec<ContentBlock>,
    pub usage: Usage,
    pub stop_reason: StopReason,
    pub interrupted: bool,
    pub block: BlockState,
    /// Text for the terminal's output that has not been written yet.
    pub out: String,
    /// Lines for the operator that have not been written yet.
    pub notes: String,
    /// Whether the answer's first event is still awaited.
    pub waiting: bool,
}

/// What a `Turn` stands for.
pub struct TurnView {
    pub content: Seq<ContentBlockView>,
    pub usage: Usage,
    pub stop_reason: StopReason,
    pub interrupted: bool,
    pub block: BlockStateView,
    pub out: Seq<char>,
    pub notes: Seq<char>,
    pub waiting: bool,
}

impl View for Turn {
    type V = TurnView;

    open spec fn view(&self) -> TurnView {
        TurnView {
            content: block_views(self.content@),
            usage: self.usage,
            stop_reason: self.stop_reason,
            interrupted: self.interrupted,
            block: self.block@,
            out: self.out@,
            notes: self.notes@,
            waiting: self.waiting,
        }
    }
}

/// A finished turn.
#[derive(Debug, PartialEq)]
pub struct StreamResult {
    pub content: Vec<ContentBlock>,
    pub stop_reason: StopReason,
    pub usage: Usage,
    pub interrupted: bool,
}

/// What a `StreamResult` stands for.
pub struct StreamResultView {
    pub content: Seq<ContentBlockView>,
    pub stop_reason: StopReason,
    pub usage: Usage,
    pub interrupted: bool,
}

impl View for StreamResult {
    type V = StreamResultView;

    open spec fn view(&self) -> StreamResultView {
        StreamResultView {
            content: block_views(self.content@),
            stop_reason: self.stop_reason,
            usage: self.usage,
            interrupted: self.interrupted,
        }
    }
}

/// The turn before any event: nothing complete, no block open, the stop
/// reason that of a natural end.
pub open spec fn initial_turn() -> TurnView {
    TurnView {
        content: Seq::empty(),
        usage: Usage {
            input_tokens: 0,
            output_tokens: 0,
            cache_creation_input_tokens: 0,
            cache_read_input_tokens: 0,
        },
        stop_reason: StopReason::EndTurn,
        interrupted: false,
        block: BlockStateView::Idle,
        out: Seq::empty(),
        notes: Seq::empty(),
        waiting: true,
    }
}

/// The input of a tool invocation, from what reading its text as JSON
/// gave: the document, or an empty object where the text is no JSON.
pub open spec fn tool_input(parsed: Result<JsonView, Seq<char>>) -> JsonView {
    match parsed {
        Ok(doc) => doc,
        Err(_) => JsonView::Object(Seq::empty()),
    }
}

/// The block that begins with `start`, still empty.
pub open spec fn opened(start: BlockStartView) -> BlockStateView {
    match start {
        BlockStartView::Thinking => BlockStateView::Thinking {
            thinking: Seq::empty(),
            signature: Seq::empty(),
        },
        BlockStartView::Text => BlockStateView::Text {
            buf: Seq::empty(),
            at_line_start: true,
            first_line: true,
        },
        BlockStartView::ToolUse { id, name } => BlockStateView::ToolUse {
            id,
            name,
            json: Seq::empty(),
        },
    }
}

/// The open block after the fragment `delta`: longer by it where the
/// fragment is of the block's kind, unchanged where it is not.
pub open spec fn extended(block: BlockStateView, delta: DeltaView) -> BlockStateView {
    match (block, delta) {
        (
            BlockStateView::Thinking { thinking, signature },
            DeltaView::Thinking(s),
        ) => BlockStateView::Thinking { thinking: thinking + s, signature },
        (
            BlockStateView::Thinking { thinking, signature },
            DeltaView::Signature(s),
        ) => BlockStateView::Thinking { thinking, signature: signature + s },
        (
            BlockStateView::Text { buf, at_line_start, first_line },
            DeltaView::Text(s),
        ) => BlockStateView::Text {
            buf: buf + s,
            at_line_start: echoed(s, at_line_start, first_line).1,
            first_line: echoed(s, at_line_start, first_line).2,
        },
        (BlockStateView::ToolUse { id, name, json }, DeltaView::InputJson(s)) => BlockStateView::ToolUse {
            id,
            name,
            json: json + s,
        },
        _ => block,
    }
}

/// What the fragment `delta` writes to the terminal: a fragment of text
/// inside a block of text is echoed, nothing else is.
pub open spec fn delta_echo(block: BlockStateView, delta: DeltaView) -> Seq<char> {
    match (block, delta) {
        (BlockStateView::Text { at_line_start, first_line, .. }, DeltaView::Text(s)) => echoed(
            s,
            at_line_start,
            first_line,
        ).0,
        _ => Seq::empty(),
    }
}

/// The turn once its open block, if any, is complete: the block joins the
/// content, the operator is told, and no block is open.
pub open spec fn closed(t: TurnView) -> TurnView {
    match t.block {
        BlockStateView::Idle => t,
        BlockStateView::Thinking { thinking, signature } => TurnView {
            content: t.content.push(ContentBlockView::Thinking { thinking, signature }),
            notes: t.notes + thinking_notice(thinking),
            block: BlockStateView::Idle,
            ..t
        },
        BlockStateView::Text { buf, at_line_start, .. } => TurnView {
            content: t.content.push(ContentBlockView::Text { text: buf }),
            out: if at_line_start {
                t.out
            } else {
                t.out + "\n"@
            },
            block: BlockStateView::Idle,
            ..t
        },
        BlockStateView::ToolUse { id, name, json } => TurnView {
            content: t.content.push(
                ContentBlockView::ToolUse { id, name, input: tool_input(json_from_text(json)) },
            ),
            notes: t.notes + tool_call_notice(name, tool_input(json_from_text(json))),
            block: BlockStateView::Idle,
            ..t
        },
    }
}

/// The turn after one event.
pub open spec fn after_event(t: TurnView, e: SseEventView) -> TurnView {
    let t = TurnView { waiting: false, ..t };
    match e {
        SseEventView::MessageStart { input_tokens, cache_creation, cache_read } => TurnView {
            usage: Usage {
                input_tokens,
                output_tokens: t.usage.output_tokens,
                cache_creation_input_tokens: cache_creation,
                cache_read_input_tokens: cache_read,
            },
            ..t
        },
        SseEventView::ContentBlockStart { block, .. } => TurnView {
            block: opened(block),
            ..closed(t)
        },
        SseEventView::ContentBlockDelta { delta, .. } => TurnView {
            block: extended(t.block, delta),
            out: t.out + delta_echo(t.block, delta),
            ..t
        },
        SseEventView::ContentBlockStop { .. } => closed(t),
        SseEventView::MessageDelta { stop_reason, output_tokens } => TurnView {
            stop_reason,
            usage: Usage {
                input_tokens: t.usage.input_tokens,
                output_tokens,
                cache_creation_input_tokens: t.usage.cache_creation_input_tokens,
                cache_read_input_tokens: t.usage.cache_read_input_tokens,
            },
            ..t
        },
        SseEventView::MessageStop => t,
        SseEventView::Ping => t,
    }
}

/// The turn once the stream has ended without `MessageStop`. Where that
/// is due to cancellation, the turn counts as interrupted, and a block of
/// text that is open and not empty joins the content as far as it came.
pub open spec fn at_end(t: TurnView, cancelled: bool) -> TurnView {
    let t = TurnView { waiting: false, ..t };
    if !cancelled {
        t
    } else {
        match t.block {
            BlockStateView::Text { buf, at_line_start, .. } => if buf.len() > 0 {
                TurnView {
                    interrupted: true,
                    content: t.content.push(ContentBlockView::Text { text: buf }),
                    out: if at_line_start {
                        t.out
                    } else {
                        t.out + "\n"@
                    },
                    notes: t.notes + "\n* interrupted\n"@,
                    ..t
                }
            } else {
                TurnView { interrupted: true, notes: t.notes + "\n* interrupted\n"@, ..t }
            },
            _ => TurnView { interrupted: true, notes: t.notes + "\n* interrupted\n"@, ..t },
        }
    }
}

/// No event and no end of the stream takes a finished block away: what
/// the turn held before, it holds after, at the same places; and at most
/// one block joins by one event.
pub proof fn lemma_content_only_grows(t: TurnView, e: SseEventView, cancelled: bool)
    ensures
        t.content.is_prefix_of(after_event(t, e).content),
        after_event(t, e).content.len() <= t.content.len() + 1,
        t.content.is_prefix_of(at_end(t, cancelled).content),
        at_end(t, cancelled).content.len() <= t.content.len() + 1,
{
    assert(t.content.is_prefix_of(closed(t).content));
}

/// Behind the end of a block no block is open, and a block that begins
/// is the only one that is open: the one before it was finished first.
pub proof fn lemma_one_block_at_a_time(t: TurnView, index: u32, block: crate::sse::BlockStartView)
    ensures
        after_event(t, SseEventView::ContentBlockStop { index }).block is Idle,
        after_event(t, SseEventView::ContentBlockStart { index, block }).block == opened(block),
        after_event(t, SseEventView::ContentBlockStart { index, block }).content == closed(
            t,
        ).content,
{
}

/// The result that a turn ends with.
pub open spec fn result_of(t: TurnView) -> StreamResultView {
    StreamResultView {
        content: t.content,
        stop_reason: t.stop_reason,
        usage: t.usage,
        interrupted: t.interrupted,
    }
}

/// The tool invocation that ends with the given id and name, from what
/// reading its input text as JSON gave.
pub fn tool_use_block(id: String, name: String, parsed: Result<Json, String>) -> (block:
    ContentBlock)
    ensures
        block@ == (ContentBlockView::ToolUse {
            id: id@,
            name: name@,
            input: tool_input(
                match parsed {
                    Ok(doc) => Ok(doc@),
                    Err(message) => Err(message@),
                },
            ),
        }),
{
    let input = match parsed {
        Ok(doc) => doc,
        Err(_) => {
            let empty = json_object(Vec::new());
            assert(empty@->Object_0 =~= Seq::empty());
            empty
        },
    };
    ContentBlock::ToolUse { id, name, input }
}

/// Echoes a fragment of text: returns what is written to the terminal and
/// the two flags as they stand behind it.
pub fn echo_text(s: &str, at_line_start: bool, first_line: bool) -> (shown: (String, bool, bool))
    ensures
        (shown.0@, shown.1, shown.2) == echoed(s@, at_line_start, first_line),
{
    let mut out = String::new();
    let mut at_start = at_line_start;
    let mut first = first_line;
    assert(s@.take(0) =~= Seq::<char>::empty());
    for c in it: s.chars()
        invariant
            it.seq() == s@,
            (out@, at_start, first) == echoed(
                s@.take(it.index() as int),
                at_line_start,
                first_line,
            ),
    {
        let ghost k = it.index() as int;
        assert(s@.take(k + 1).drop_last() =~= s@.take(k));
        if at_start {
            if first {
                out.append("< ");
            } else {
                out.append("  ");
            }
        }
        out.push(c);
        at_start = c == '\n';
        first = first && c != '\n';
    }
    assert(s@.take(s@.len() as int) =~= s@);
    (out, at_start, first)
}

/// The block that begins with `start`, still empty.
pub fn open_block(start: BlockStart) -> (block: BlockState)
    ensures
        block@ == opened(start@),
{
    match start {
        BlockStart::Thinking => BlockState::Thinking {
            thinking: String::new(),
            signature: String::new(),
        },
        BlockStart::Text => BlockState::Text {
            buf: String::new(),
            at_line_start: true,
            first_line: true,
        },
        BlockStart::ToolUse { id, name } => BlockState::ToolUse { id, name, json: String::new() },
    }
}

/// Adds the fragment `delta` to the open block; returns the block and
/// what the fragment writes to the terminal.
pub fn extend_block(block: BlockState, delta: Delta) -> (next: (BlockState, String))
    ensures
        next.0@ == extended(block@, delta@),
        next.1@ == delta_echo(block@, delta@),
{
    match (block, delta) {
        (BlockState::Thinking { thinking, signature }, Delta::Thinking(s)) => {
            let mut thinking = thinking;
            thinking.append(s.as_str());
            (BlockState::Thinking { thinking, signature }, String::new())
        },
        (BlockState::Thinking { thinking, signature }, Delta::Signature(s)) => {
            let mut signature = signature;
            signature.append(s.as_str());
            (BlockState::Thinking { thinking, signature }, String::new())
        },
        (BlockState::Text { buf, at_line_start, first_line }, Delta::Text(s)) => {
            let mut buf = buf;
            buf.append(s.as_str());
            let shown = echo_text(s.as_str(), at_line_start, first_line);
            (BlockState::Text { buf, at_line_start: shown.1, first_line: shown.2 }, shown.0)
        },
        (BlockState::ToolUse { id, name, json }, Delta::InputJson(s)) => {
            let mut json = json;
            json.append(s.as_str());
            (BlockState::ToolUse { id, name, json }, String::new())
        },
        (block, _) => (block, String::new()),
    }
}

impl Turn {
    /// The turn before any event.
    pub fn new() -> (turn: Turn)
        ensures
            turn@ == initial_turn(),
    {
        let turn = Turn {
            content: Vec::new(),
            usage: Usage::default(),
            stop_reason: StopReason::EndTurn,
            interrupted: false,
            block: BlockState::Idle,
            out: String::new(),
            notes: String::new(),
            waiting: true,
        };
        assert(turn@.content =~= initial_turn().content);
        turn
    }

    /// Completes the open block, if any.
    pub fn close_block(&mut self)
        ensures
            final(self)@ == closed(old(self)@),
    {
        let mut block = BlockState::Idle;
        core::mem::swap(&mut self.block, &mut block);
        let ghost before = block_views(self.content@);
        match block {
            BlockState::Idle => {},
            BlockState::Thinking { thinking, signature } => {
                let tokens = byte_len_of(thinking.as_str()) / 4;
                self.notes.append("* thinking (~");
                push_decimal(&mut self.notes, tokens as u64);
                self.notes.append(" tokens)\n");
                self.content.push(ContentBlock::Thinking { thinking, signature });
                assert(self.notes@ =~= old(self).notes@ + thinking_notice(thinking@));
            },
            BlockState::Text { buf, at_line_start, .. } => {
                if !at_line_start {
                    self.out.append("\n");
                }
                self.content.push(ContentBlock::Text { text: buf });
            },
            BlockState::ToolUse { id, name, json } => {
                let block = tool_use_block(id, name, parse_json(json.as_str()));
                if let ContentBlock::ToolUse { name, input, .. } = &block {
                    push_tool_call_notice(&mut self.notes, name.as_str(), input);
                }
                self.content.push(block);
            },
        }
        assert(block_views(self.content@) =~= closed(old(self)@).content);
    }

    /// Takes in one event. Tells whether the event ends the answer.
    pub fn apply(&mut self, event: SseEvent) -> (ended: bool)
        ensures
            final(self)@ == after_event(old(self)@, event@),
            ended == (event is MessageStop),
    {
        self.waiting = false;
        match event {
            SseEvent::MessageStart { input_tokens, cache_creation, cache_read } => {
                self.usage.input_tokens = input_tokens;
                self.usage.cache_creation_input_tokens = cache_creation;
                self.usage.cache_read_input_tokens = cache_read;
                false
            },
            SseEvent::ContentBlockStart { block, .. } => {
                self.close_block();
                self.block = open_block(block);
                false
            },
            SseEvent::ContentBlockDelta { delta, .. } => {
                let mut block = BlockState::Idle;
                core::mem::swap(&mut self.block, &mut block);
                let next = extend_block(block, delta);
                self.block = next.0;
                self.out.append(next.1.as_str());
                false
            },
            SseEvent::ContentBlockStop { .. } => {
                self.close_block();
                false
            },
            SseEvent::MessageDelta { stop_reason, output_tokens } => {
                self.stop_reason = stop_reason;
                self.usage.output_tokens = output_tokens;
                false
            },
            SseEvent::MessageStop => true,
            SseEvent::Ping => false,
        }
    }

    /// Takes in the end of the stream, where no `MessageStop` came before
    /// it; `cancelled` says whether cancellation was asked for.
    pub fn end_of_stream(&mut self, cancelled: bool)
        ensures
            final(self)@ == at_end(old(self)@, cancelled),
    {
        self.waiting = false;
        if cancelled {
            self.interrupted = true;
            if let BlockState::Text { buf, at_line_start, .. } = &self.block {
                if !buf.as_str().is_empty() {
                    if !*at_line_start {
                        self.out.append("\n");
                    }
                    let text = buf.clone();
                    self.content.push(ContentBlock::Text { text });
                }
            }
            self.notes.append("\n* interrupted\n");
            assert(block_views(self.content@) =~= at_end(old(self)@, cancelled).content);
        }
    }

    /// The result that the turn ends with.
    pub fn into_result(self) -> (result: StreamResult)
        ensures
            result@ == result_of(self@),
    {
        StreamResult {
            content: self.content,
            stop_reason: self.stop_reason,
            usage: self.usage,
            interrupted: self.interrupted,
        }
    }
}

/// The turn that the events of the lines from `from` on make of `t`, up to
/// the first `MessageStop` or to the end of the lines, or the message of
/// the first event that cannot be decoded.
pub open spec fn streamed(t: TurnView, lines: Seq<Seq<char>>, from: int) -> Result<
    TurnView,
    Seq<char>,
>
    decreases lines.len() - from,
{
    match next_frame(empty_frame(), lines, from) {
        None => Ok(at_end(t, false)),
        Some((frame, behind)) => match decoded_event(
            frame.event_type,
            json_from_text(frame.data),
        ) {
            Err(message) => Err(message),
            Ok(e) => if e is MessageStop || behind <= from || behind > lines.len() {
                Ok(after_event(t, e))
            } else {
                streamed(after_event(t, e), lines, behind)
            },
        },
    }
}

/// The result of a whole answer: that of a turn cut short where
/// cancellation is asked for, for then no line is read; else that of the
/// turn that the events of the lines make.
pub open spec fn response_of(lines: Seq<Seq<char>>, from: int, cancelled: bool) -> Result<
    StreamResultView,
    Seq<char>,
> {
    if cancelled {
        Ok(result_of(at_end(initial_turn(), true)))
    } else {
        match streamed(initial_turn(), lines, from) {
            Ok(t) => Ok(result_of(t)),
            Err(message) => Err(message),
        }
    }
}

proof fn lemma_next_frame_advances(frame: crate::sse::FrameView, lines: Seq<Seq<char>>, from: int)
    requires
        0 <= from,
    ensures
        next_frame(frame, lines, from) matches Some((_, behind)) ==> from < behind <= lines.len(),
    decreases lines.len() - from,
{
    if from < lines.len() {
        let line = crate::sse::line_content(lines[from]);
        if !crate::sse::dispatches(frame, line) {
            lemma_next_frame_advances(crate::sse::after_line(frame, line), lines, from + 1);
        }
    }
}

/// Reads one whole answer from `reader` and puts its turn together.
pub fn stream_response(reader: &mut SseReader, flag: &Interrupt) -> (result: Result<
    StreamResult,
    Error,
>)
    requires
        old(reader).next <= old(reader).lines.len(),
    ensures
        final(reader).lines == old(reader).lines,
        final(reader).next <= final(reader).lines.len(),
        match result {
            Ok(r) => response_of(line_texts(old(reader).lines@), old(reader).next as int, flag.raised)
                == Ok::<StreamResultView, Seq<char>>(r@),
            Err(Error::Json(message)) => response_of(
                line_texts(old(reader).lines@),
                old(reader).next as int,
                flag.raised,
            ) == Err::<StreamResultView, Seq<char>>(message@),
            Err(_) => false,
        },
{
    let mut turn = Turn::new();
    if flag.raised {
        turn.end_of_stream(true);
        return Ok(turn.into_result());
    }
    let ghost all = line_texts(reader.lines@);
    loop
        invariant
            !flag.raised,
            reader.lines == old(reader).lines,
            all == line_texts(reader.lines@),
            old(reader).next <= reader.next <= reader.lines.len(),
            streamed(initial_turn(), all, old(reader).next as int) == streamed(
                turn@,
                all,
                reader.next as int,
            ),
        decreases reader.lines.len() - reader.next,
    {
        let ghost from = reader.next as int;
        proof {
            lemma_next_frame_advances(empty_frame(), all, from);
        }
        match reader.next_event(flag) {
            Err(e) => {
                return Err(e);
            },
            Ok(None) => {
                turn.end_of_stream(false);
                return Ok(turn.into_result());
            },
            Ok(Some(event)) => {
                if turn.apply(event) {
                    return Ok(turn.into_result());
                }
            },
        }
    }
}

} // verus!
