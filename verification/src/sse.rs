use crate::error::Error;
use crate::json::{Json, json_from_text, JsonView, parse_json};
use crate::signal::Interrupt;
use crate::text::{
    chars_of, is_match_at, matches_at, push_range, same_text, string_of, strip_trailing,
    trimmed_len,
};
use crate::types::StopReason;
use vstd::prelude::*;
use vstd::string::StringExecFns;

verus! {

/// One event of a streamed answer.
#[derive(Debug, PartialEq)]
pub enum SseEvent {
    /// The answer begins; the usage known so far.
    MessageStart { input_tokens: u32, cache_creation: u32, cache_read: u32 },
    /// A content block begins.
    ContentBlockStart { index: u32, block: BlockStart },
    /// A fragment of the open content block.
    ContentBlockDelta { index: u32, delta: Delta },
    /// The open content block ends.
    ContentBlockStop { index: u32 },
    /// Why the answer ends, and the tokens it took.
    MessageDelta { stop_reason: StopReason, output_tokens: u32 },
    /// The answer is complete.
    MessageStop,
    /// Nothing happened.
    Ping,
}

/// The kind of content block that begins.
#[derive(Debug, PartialEq)]
pub enum BlockStart {
    Thinking,
    Text,
    ToolUse { id: String, name: String },
}

/// A fragment of a content block.
#[derive(Debug, PartialEq)]
pub enum Delta {
    Thinking(String),
    Signature(String),
    Text(String),
    InputJson(String),
}

/// What a `BlockStart` stands for.
pub enum BlockStartView {
    Thinking,
    Text,
    ToolUse { id: Seq<char>, name: Seq<char> },
}

/// What a `Delta` stands for.
pub enum DeltaView {
    Thinking(Seq<char>),
    Signature(Seq<char>),
    Text(Seq<char>),
    InputJson(Seq<char>),
}

/// What an `SseEvent` stands for.
pub enum SseEventView {
    MessageStart { input_tokens: u32, cache_creation: u32, cache_read: u32 },
    ContentBlockStart { index: u32, block: BlockStartView },
    ContentBlockDelta { index: u32, delta: DeltaView },
    ContentBlockStop { index: u32 },
    MessageDelta { stop_reason: StopReason, output_tokens: u32 },
    MessageStop,
    Ping,
}

impl View for BlockStart {
    type V = BlockStartView;

    open spec fn view(&self) -> BlockStartView {
        match self {
            BlockStart::Thinking => BlockStartView::Thinking,
            BlockStart::Text => BlockStartView::Text,
            BlockStart::ToolUse { id, name } => BlockStartView::ToolUse { id: id@, name: name@ },
        }
    }
}

impl View for Delta {
    type V = DeltaView;

    open spec fn view(&self) -> DeltaView {
        match self {
            Delta::Thinking(s) => DeltaView::Thinking(s@),
            Delta::Signature(s) => DeltaView::Signature(s@),
            Delta::Text(s) => DeltaView::Text(s@),
            Delta::InputJson(s) => DeltaView::InputJson(s@),
        }
    }
}

impl View for SseEvent {
    type V = SseEventView;

    open spec fn view(&self) -> SseEventView {
        match self {
            SseEvent::MessageStart {
                input_tokens,
                cache_creation,
                cache_read,
            } => SseEventView::MessageStart {
                input_tokens: *input_tokens,
                cache_creation: *cache_creation,
                cache_read: *cache_read,
            },
            SseEvent::ContentBlockStart { index, block } => SseEventView::ContentBlockStart {
                index: *index,
                block: block@,
            },
            SseEvent::ContentBlockDelta { index, delta } => SseEventView::ContentBlockDelta {
                index: *index,
                delta: delta@,
            },
            SseEvent::ContentBlockStop { index } => SseEventView::ContentBlockStop { index: *index },
            SseEvent::MessageDelta { stop_reason, output_tokens } => SseEventView::MessageDelta {
                stop_reason: *stop_reason,
                output_tokens: *output_tokens,
            },
            SseEvent::MessageStop => SseEventView::MessageStop,
            SseEvent::Ping => SseEventView::Ping,
        }
    }
}

/// The stop reason that the service calls `name`.
pub open spec fn stop_reason_named(name: Seq<char>) -> Option<StopReason> {
    if name == "end_turn"@ {
        Some(StopReason::EndTurn)
    } else if name == "max_tokens"@ {
        Some(StopReason::MaxTokens)
    } else if name == "stop_sequence"@ {
        Some(StopReason::StopSequence)
    } else if name == "tool_use"@ {
        Some(StopReason::ToolUse)
    } else {
        None
    }
}

/// The stop reason that the service calls `name`.
pub fn stop_reason_of(name: &str) -> (reason: Option<StopReason>)
    ensures
        reason == stop_reason_named(name@),
{
    if same_text(name, "end_turn") {
        Some(StopReason::EndTurn)
    } else if same_text(name, "max_tokens") {
        Some(StopReason::MaxTokens)
    } else if same_text(name, "stop_sequence") {
        Some(StopReason::StopSequence)
    } else if same_text(name, "tool_use") {
        Some(StopReason::ToolUse)
    } else {
        None
    }
}

/// The member `key` of `doc`, where it is an object.
pub open spec fn object_field(doc: JsonView, key: Seq<char>) -> Option<JsonView> {
    match doc.field(key) {
        Some(v) => if v is Object {
            Some(v)
        } else {
            None
        },
        None => None,
    }
}

/// The token count `key` of `doc`: 0 where `doc` has no such member, the
/// member's value where it is a non-negative integer of 32 bits, nothing
/// where it is anything else.
pub open spec fn count_field(doc: JsonView, key: Seq<char>) -> Option<u32> {
    match doc.field(key) {
        None => Some(0u32),
        Some(v) => match v.unsigned() {
            Some(n) => if n <= u32::MAX {
                Some(n as u32)
            } else {
                None
            },
            None => None,
        },
    }
}

/// The member `index` of `doc`, which has to be there and to be a
/// non-negative integer of 32 bits.
pub open spec fn index_field(doc: JsonView) -> Option<u32> {
    match doc.unsigned_field("index"@) {
        Some(n) => if n <= u32::MAX {
            Some(n as u32)
        } else {
            None
        },
        None => None,
    }
}

fn get_object<'a>(doc: &'a Json, key: &str) -> (found: Option<&'a Json>)
    ensures
        match found {
            Some(v) => object_field(doc@, key@) == Some(v@),
            None => object_field(doc@, key@) is None,
        },
{
    match doc.get(key) {
        Some(v) => match v {
            Json::Object(_) => Some(v),
            _ => None,
        },
        None => None,
    }
}

fn get_count(doc: &Json, key: &str) -> (found: Option<u32>)
    ensures
        found == count_field(doc@, key@),
{
    match doc.get(key) {
        None => Some(0),
        Some(v) => match v.as_u64() {
            Some(n) => if n <= u32::MAX as u64 {
                Some(n as u32)
            } else {
                None
            },
            None => None,
        },
    }
}

fn get_index(doc: &Json) -> (found: Option<u32>)
    ensures
        found == index_field(doc@),
{
    match doc.get_u64("index") {
        Some(n) => if n <= u32::MAX as u64 {
            Some(n as u32)
        } else {
            None
        },
        None => None,
    }
}

/// The usage that a `message_start` payload announces.
pub open spec fn message_start_of(doc: JsonView) -> Option<SseEventView> {
    match object_field(doc, "message"@) {
        Some(message) => match object_field(message, "usage"@) {
            Some(usage) => match (
                count_field(usage, "input_tokens"@),
                count_field(usage, "output_tokens"@),
                count_field(usage, "cache_creation_input_tokens"@),
                count_field(usage, "cache_read_input_tokens"@),
            ) {
                (
                    Some(input_tokens),
                    Some(_),
                    Some(cache_creation),
                    Some(cache_read),
                ) => Some(SseEventView::MessageStart { input_tokens, cache_creation, cache_read }),
                _ => None,
            },
            None => None,
        },
        None => None,
    }
}

/// The kind of block that the `content_block` of a start payload names.
pub open spec fn block_start_of(block: JsonView) -> Option<BlockStartView> {
    match block.text_field("type"@) {
        Some(kind) => if kind == "thinking"@ {
            Some(BlockStartView::Thinking)
        } else if kind == "text"@ {
            if block.text_field("text"@) is Some {
                Some(BlockStartView::Text)
            } else {
                None
            }
        } else if kind == "tool_use"@ {
            match (block.text_field("id"@), block.text_field("name"@)) {
                (Some(id), Some(name)) => Some(BlockStartView::ToolUse { id, name }),
                _ => None,
            }
        } else {
            None
        },
        None => None,
    }
}

/// The fragment that the `delta` of a delta payload carries.
pub open spec fn delta_of(delta: JsonView) -> Option<DeltaView> {
    match delta.text_field("type"@) {
        Some(kind) => if kind == "thinking_delta"@ {
            match delta.text_field("thinking"@) {
                Some(s) => Some(DeltaView::Thinking(s)),
                None => None,
            }
        } else if kind == "signature_delta"@ {
            match delta.text_field("signature"@) {
                Some(s) => Some(DeltaView::Signature(s)),
                None => None,
            }
        } else if kind == "text_delta"@ {
            match delta.text_field("text"@) {
                Some(s) => Some(DeltaView::Text(s)),
                None => None,
            }
        } else if kind == "input_json_delta"@ {
            match delta.text_field("partial_json"@) {
                Some(s) => Some(DeltaView::InputJson(s)),
                None => None,
            }
        } else {
            None
        },
        None => None,
    }
}

/// What a `message_delta` payload says of the end of the answer.
pub open spec fn message_delta_of(doc: JsonView) -> Option<SseEventView> {
    match (object_field(doc, "delta"@), object_field(doc, "usage"@)) {
        (Some(delta), Some(usage)) => match delta.text_field("stop_reason"@) {
            Some(name) => match (
                stop_reason_named(name),
                count_field(usage, "input_tokens"@),
                count_field(usage, "output_tokens"@),
                count_field(usage, "cache_creation_input_tokens"@),
                count_field(usage, "cache_read_input_tokens"@),
            ) {
                (Some(stop_reason), Some(_), Some(output_tokens), Some(_), Some(_)) => Some(
                    SseEventView::MessageDelta { stop_reason, output_tokens },
                ),
                _ => None,
            },
            None => None,
        },
        _ => None,
    }
}

/// Whether events of this type carry a payload that is read.
pub open spec fn carries_payload(event_type: Seq<char>) -> bool {
    event_type == "message_start"@ || event_type == "content_block_start"@ || event_type
        == "content_block_delta"@ || event_type == "content_block_stop"@ || event_type
        == "message_delta"@
}

/// The event that a payload of the given type stands for, where it has
/// the members that the type asks for.
pub open spec fn payload_event(event_type: Seq<char>, doc: JsonView) -> Option<SseEventView> {
    if event_type == "message_start"@ {
        message_start_of(doc)
    } else if event_type == "content_block_start"@ {
        match (index_field(doc), object_field(doc, "content_block"@)) {
            (Some(index), Some(block)) => match block_start_of(block) {
                Some(block) => Some(SseEventView::ContentBlockStart { index, block }),
                None => None,
            },
            _ => None,
        }
    } else if event_type == "content_block_delta"@ {
        match (index_field(doc), object_field(doc, "delta"@)) {
            (Some(index), Some(delta)) => match delta_of(delta) {
                Some(delta) => Some(SseEventView::ContentBlockDelta { index, delta }),
                None => None,
            },
            _ => None,
        }
    } else if event_type == "content_block_stop"@ {
        match index_field(doc) {
            Some(index) => Some(SseEventView::ContentBlockStop { index }),
            None => None,
        }
    } else if event_type == "message_delta"@ {
        message_delta_of(doc)
    } else {
        None
    }
}

/// The event without payload that a type stands for: the end of the
/// answer for `message_stop`, and nothing at all for `ping` and for every
/// type that is not known.
pub open spec fn plain_event(event_type: Seq<char>) -> SseEventView {
    if event_type == "message_stop"@ {
        SseEventView::MessageStop
    } else {
        SseEventView::Ping
    }
}

/// The message of the failure to find in a payload what its type asks for.
pub open spec fn malformed_payload(event_type: Seq<char>) -> Seq<char> {
    "malformed payload of event "@ + event_type
}

/// What an event of the given type is decoded to, given what reading its
/// payload as JSON gave: the event, or the message of the failure.
pub open spec fn decoded_event(
    event_type: Seq<char>,
    parsed: Result<JsonView, Seq<char>>,
) -> Result<SseEventView, Seq<char>> {
    if !carries_payload(event_type) {
        Ok(plain_event(event_type))
    } else {
        match parsed {
            Err(message) => Err(message),
            Ok(doc) => match payload_event(event_type, doc) {
                Some(event) => Ok(event),
                None => Err(malformed_payload(event_type)),
            },
        }
    }
}

/// Whether the result `got` of decoding is the one that `want` describes:
/// the same event, or a JSON failure with the same message.
pub open spec fn decodes_to(got: Result<SseEvent, Error>, want: Result<SseEventView, Seq<char>>) -> bool {
    match got {
        Ok(event) => want == Ok::<SseEventView, Seq<char>>(event@),
        Err(Error::Json(message)) => want == Err::<SseEventView, Seq<char>>(message@),
        Err(_) => false,
    }
}

fn read_block_start(block: &Json) -> (found: Option<BlockStart>)
    ensures
        match found {
            Some(b) => block_start_of(block@) == Some(b@),
            None => block_start_of(block@) is None,
        },
{
    match block.get_str("type") {
        Some(kind) => {
            if same_text(kind, "thinking") {
                Some(BlockStart::Thinking)
            } else if same_text(kind, "text") {
                if block.get_str("text").is_some() {
                    Some(BlockStart::Text)
                } else {
                    None
                }
            } else if same_text(kind, "tool_use") {
                match (block.get_str("id"), block.get_str("name")) {
                    (Some(id), Some(name)) => Some(
                        BlockStart::ToolUse {
                            id: String::from_str(id),
                            name: String::from_str(name),
                        },
                    ),
                    _ => None,
                }
            } else {
                None
            }
        },
        None => None,
    }
}

fn read_delta(delta: &Json) -> (found: Option<Delta>)
    ensures
        match found {
            Some(d) => delta_of(delta@) == Some(d@),
            None => delta_of(delta@) is None,
        },
{
    match delta.get_str("type") {
        Some(kind) => {
            if same_text(kind, "thinking_delta") {
                match delta.get_str("thinking") {
                    Some(s) => Some(Delta::Thinking(String::from_str(s))),
                    None => None,
                }
            } else if same_text(kind, "signature_delta") {
                match delta.get_str("signature") {
                    Some(s) => Some(Delta::Signature(String::from_str(s))),
                    None => None,
                }
            } else if same_text(kind, "text_delta") {
                match delta.get_str("text") {
                    Some(s) => Some(Delta::Text(String::from_str(s))),
                    None => None,
                }
            } else if same_text(kind, "input_json_delta") {
                match delta.get_str("partial_json") {
                    Some(s) => Some(Delta::InputJson(String::from_str(s))),
                    None => None,
                }
            } else {
                None
            }
        },
        None => None,
    }
}

fn read_message_start(doc: &Json) -> (found: Option<SseEvent>)
    ensures
        match found {
            Some(e) => message_start_of(doc@) == Some(e@),
            None => message_start_of(doc@) is None,
        },
{
    let message = match get_object(doc, "message") {
        Some(m) => m,
        None => { return None; },
    };
    let usage = match get_object(message, "usage") {
        Some(u) => u,
        None => { return None; },
    };
    match (
        get_count(usage, "input_tokens"),
        get_count(usage, "output_tokens"),
        get_count(usage, "cache_creation_input_tokens"),
        get_count(usage, "cache_read_input_tokens"),
    ) {
        (Some(input_tokens), Some(_), Some(cache_creation), Some(cache_read)) => Some(
            SseEvent::MessageStart { input_tokens, cache_creation, cache_read },
        ),
        _ => None,
    }
}

fn read_message_delta(doc: &Json) -> (found: Option<SseEvent>)
    ensures
        match found {
            Some(e) => message_delta_of(doc@) == Some(e@),
            None => message_delta_of(doc@) is None,
        },
{
    let delta = match get_object(doc, "delta") {
        Some(d) => d,
        None => { return None; },
    };
    let usage = match get_object(doc, "usage") {
        Some(u) => u,
        None => { return None; },
    };
    let name = match delta.get_str("stop_reason") {
        Some(n) => n,
        None => { return None; },
    };
    match (
        stop_reason_of(name),
        get_count(usage, "input_tokens"),
        get_count(usage, "output_tokens"),
        get_count(usage, "cache_creation_input_tokens"),
        get_count(usage, "cache_read_input_tokens"),
    ) {
        (Some(stop_reason), Some(_), Some(output_tokens), Some(_), Some(_)) => Some(
            SseEvent::MessageDelta { stop_reason, output_tokens },
        ),
        _ => None,
    }
}

fn read_payload(event_type: &str, doc: &Json) -> (found: Option<SseEvent>)
    ensures
        match found {
            Some(e) => payload_event(event_type@, doc@) == Some(e@),
            None => payload_event(event_type@, doc@) is None,
        },
{
    if same_text(event_type, "message_start") {
        read_message_start(doc)
    } else if same_text(event_type, "content_block_start") {
        match (get_index(doc), get_object(doc, "content_block")) {
            (Some(index), Some(block)) => match read_block_start(block) {
                Some(block) => Some(SseEvent::ContentBlockStart { index, block }),
                None => None,
            },
            _ => None,
        }
    } else if same_text(event_type, "content_block_delta") {
        match (get_index(doc), get_object(doc, "delta")) {
            (Some(index), Some(delta)) => match read_delta(delta) {
                Some(delta) => Some(SseEvent::ContentBlockDelta { index, delta }),
                None => None,
            },
            _ => None,
        }
    } else if same_text(event_type, "content_block_stop") {
        match get_index(doc) {
            Some(index) => Some(SseEvent::ContentBlockStop { index }),
            None => None,
        }
    } else if same_text(event_type, "message_delta") {
        read_message_delta(doc)
    } else {
        None
    }
}

/// Whether events of this type carry a payload that is read.
pub fn has_payload(event_type: &str) -> (carries: bool)
    ensures
        carries == carries_payload(event_type@),
{
    same_text(event_type, "message_start") || same_text(event_type, "content_block_start")
        || same_text(event_type, "content_block_delta") || same_text(
        event_type,
        "content_block_stop",
    ) || same_text(event_type, "message_delta")
}

/// Decodes an event of the given type from what reading its payload as
/// JSON gave. A type without payload needs none; a type that is not known
/// is decoded as `Ping`.
pub fn event_from_payload(event_type: &str, parsed: Result<Json, String>) -> (event: Result<
    SseEvent,
    Error,
>)
    ensures
        decodes_to(
            event,
            decoded_event(
                event_type@,
                match parsed {
                    Ok(doc) => Ok(doc@),
                    Err(message) => Err(message@),
                },
            ),
        ),
{
    if !has_payload(event_type) {
        if same_text(event_type, "message_stop") {
            Ok(SseEvent::MessageStop)
        } else {
            Ok(SseEvent::Ping)
        }
    } else {
        match parsed {
            Err(message) => Err(Error::Json(message)),
            Ok(doc) => match read_payload(event_type, &doc) {
                Some(event) => Ok(event),
                None => {
                    let mut message = String::from_str("malformed payload of event ");
                    message.append(event_type);
                    Err(Error::Json(message))
                },
            },
        }
    }
}

/// Decodes one event from its type and its payload text.
pub fn parse_event(event_type: &str, data: &str) -> (event: Result<SseEvent, Error>)
    ensures
        decodes_to(event, decoded_event(event_type@, json_from_text(data@))),
{
    if has_payload(event_type) {
        event_from_payload(event_type, parse_json(data))
    } else {
        event_from_payload(event_type, Err(String::new()))
    }
}

/// A type that is not known is decoded as the event that does nothing,
/// whatever its payload holds; it is never a failure.
pub proof fn lemma_unknown_type_is_ping(event_type: Seq<char>, parsed: Result<JsonView, Seq<char>>)
    requires
        !carries_payload(event_type),
        event_type != "message_stop"@,
    ensures
        decoded_event(event_type, parsed) == Ok::<SseEventView, Seq<char>>(SseEventView::Ping),
{
}

/// What a line holds, once its line feeds and then its carriage returns
/// are taken from its end.
pub open spec fn line_content(raw: Seq<char>) -> Seq<char> {
    strip_trailing(strip_trailing(raw, '\n'), '\r')
}

/// The fields of one event, as far as its lines were read.
pub struct FrameView {
    pub event_type: Seq<char>,
    pub data: Seq<char>,
}

/// The fields of one event, as far as its lines were read.
#[derive(Debug, PartialEq)]
pub struct Frame {
    pub event_type: String,
    pub data: String,
}

impl View for Frame {
    type V = FrameView;

    open spec fn view(&self) -> FrameView {
        FrameView { event_type: self.event_type@, data: self.data@ }
    }
}

/// Whether the line `line` ends the event and hands it on: it is blank,
/// and a payload was read.
pub open spec fn dispatches(frame: FrameView, line: Seq<char>) -> bool {
    line.len() == 0 && frame.data.len() > 0
}

/// The fields after a line that does not end the event: a line that
/// starts with `event: ` names the type, one that starts with `data: `
/// adds to the payload, after a line feed where there is payload already,
/// and every other line changes nothing.
pub open spec fn after_line(frame: FrameView, line: Seq<char>) -> FrameView {
    if matches_at(line, "event: "@, 0) {
        FrameView { event_type: line.skip("event: "@.len() as int), data: frame.data }
    } else if matches_at(line, "data: "@, 0) {
        FrameView {
            event_type: frame.event_type,
            data: if frame.data.len() > 0 {
                frame.data + seq!['\n'] + line.skip("data: "@.len() as int)
            } else {
                line.skip("data: "@.len() as int)
            },
        }
    } else {
        frame
    }
}

/// The first event that the lines from `from` on complete, starting
/// from the fields `frame`, and the index of the line behind it.
pub open spec fn next_frame(frame: FrameView, lines: Seq<Seq<char>>, from: int) -> Option<
    (FrameView, int),
>
    decreases lines.len() - from,
{
    if from < 0 || from >= lines.len() {
        None
    } else if dispatches(frame, line_content(lines[from])) {
        Some((frame, from + 1))
    } else {
        next_frame(after_line(frame, line_content(lines[from])), lines, from + 1)
    }
}

impl Frame {
    /// The fields before any line was read.
    pub fn new() -> (frame: Frame)
        ensures
            frame@.event_type.len() == 0,
            frame@.data.len() == 0,
    {
        Frame { event_type: String::new(), data: String::new() }
    }

    /// Takes in one line as it was read, with or without its line ending.
    /// Tells whether the line ends the event; the fields then stay as they
    /// are, for the caller to decode.
    pub fn accept(&mut self, raw: &str) -> (complete: bool)
        ensures
            complete == dispatches(old(self)@, line_content(raw@)),
            complete ==> final(self)@ == old(self)@,
            !complete ==> final(self)@ == after_line(old(self)@, line_content(raw@)),
    {
        let chars = chars_of(raw);
        let without_lf = trimmed_len(&chars, chars.len(), '\n');
        let end = trimmed_len(&chars, without_lf, '\r');
        proof {
            assert(chars@.take(chars@.len() as int) =~= raw@);
        }
        let mut line: Vec<char> = Vec::new();
        push_range(&mut line, &chars, 0, end);
        assert(line@ =~= line_content(raw@));
        if end == 0 {
            proof {
                reveal_strlit("event: ");
                reveal_strlit("data: ");
            }
            return !self.data.as_str().is_empty();
        }
        let event_prefix = chars_of("event: ");
        let data_prefix = chars_of("data: ");
        if is_match_at(&line, &event_prefix, 0) {
            let mut rest: Vec<char> = Vec::new();
            push_range(&mut rest, &line, event_prefix.len(), line.len());
            self.event_type = string_of(&rest);
            assert(rest@ =~= line@.skip("event: "@.len() as int));
        } else if is_match_at(&line, &data_prefix, 0) {
            let mut rest: Vec<char> = Vec::new();
            push_range(&mut rest, &line, data_prefix.len(), line.len());
            assert(rest@ =~= line@.skip("data: "@.len() as int));
            let piece = string_of(&rest);
            if !self.data.as_str().is_empty() {
                self.data.push('\n');
                self.data.append(piece.as_str());
                assert(self.data@ =~= old(self).data@ + seq!['\n'] + rest@);
            } else {
                self.data = piece;
            }
        }
        false
    }
}

/// What the strings of `lines` hold, one by one.
pub open spec fn line_texts(lines: Seq<String>) -> Seq<Seq<char>> {
    Seq::new(lines.len(), |i: int| lines[i]@)
}

/// Reads events from the lines of an answer.
#[derive(Debug)]
pub struct SseReader {
    pub lines: Vec<String>,
    pub next: usize,
}

/// The fields before any line was read.
pub open spec fn empty_frame() -> FrameView {
    FrameView { event_type: Seq::empty(), data: Seq::empty() }
}

impl SseReader {
    /// A reader at the first of the given lines.
    pub fn new(lines: Vec<String>) -> (reader: SseReader)
        ensures
            reader.lines == lines,
            reader.next == 0,
    {
        SseReader { lines, next: 0 }
    }

    /// Reads the next event. `Ok(None)` means that the lines ended before
    /// an event was complete, or that cancellation was asked for, in which
    /// case no line is taken.
    pub fn next_event(&mut self, flag: &Interrupt) -> (event: Result<Option<SseEvent>, Error>)
        requires
            old(self).next <= old(self).lines.len(),
        ensures
            final(self).lines == old(self).lines,
            final(self).next <= final(self).lines.len(),
            flag.raised ==> (event matches Ok(None) && final(self).next == old(self).next),
            !flag.raised ==> match next_frame(
                empty_frame(),
                line_texts(old(self).lines@),
                old(self).next as int,
            ) {
                None => (event matches Ok(None) && final(self).next == old(self).lines.len()),
                Some((frame, behind)) => final(self).next == behind && match event {
                    Ok(Some(e)) => decoded_event(frame.event_type, json_from_text(frame.data))
                        == Ok::<SseEventView, Seq<char>>(e@),
                    Err(Error::Json(message)) => decoded_event(
                        frame.event_type,
                        json_from_text(frame.data),
                    ) == Err::<SseEventView, Seq<char>>(message@),
                    _ => false,
                },
            },
    {
        if flag.raised {
            return Ok(None);
        }
        let mut frame = Frame::new();
        assert(frame@.event_type =~= empty_frame().event_type);
        assert(frame@.data =~= empty_frame().data);
        while self.next < self.lines.len()
            invariant
                !flag.raised,
                self.lines == old(self).lines,
                old(self).next <= self.next <= self.lines.len(),
                next_frame(empty_frame(), line_texts(old(self).lines@), old(self).next as int)
                    == next_frame(frame@, line_texts(self.lines@), self.next as int),
            decreases self.lines.len() - self.next,
        {
            let complete = frame.accept(self.lines[self.next].as_str());
            self.next += 1;
            if complete {
                return match parse_event(frame.event_type.as_str(), frame.data.as_str()) {
                    Ok(e) => Ok(Some(e)),
                    Err(e) => Err(e),
                };
            }
        }
        Ok(None)
    }
}

} // verus!
