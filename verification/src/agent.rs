use crate::command::InputResult;
use crate::error::Error;
use crate::json::{Json, json_text, JsonView, render_json};
use crate::session::SessionEntry;
use crate::signal::Interrupt;
use crate::sse::{Delta, DeltaView, SseEvent, SseEventView};
use crate::stream::{StreamResult, StreamResultView};
use crate::types::{
    block_views, Content, ContentBlock, ContentBlockView, ContentView, copy_blocks, Message,
    message_views, MessageView, Request, Role, StopReason, SystemBlock, ThinkingConfig, ToolDef,
};
use crate::util::{truncate, truncated};
use vstd::prelude::*;
use vstd::string::StringExecFns;

verus! {

/// Input tokens of a turn above which the history is compacted before the
/// next request.
pub const COMPACT_THRESHOLD: u32 = 160_000;

/// Tokens' worth of recent messages that compaction keeps as they are.
pub const KEEP_RECENT_TOKENS: u32 = 40_000;

/// Fewest messages that compaction keeps.
pub const MIN_KEPT: usize = 4;

/// Shortest history that compaction touches.
pub const MIN_HISTORY: usize = 6;

/// Whether compaction runs before the next request.
pub fn needs_compaction(last_input_tokens: u32) -> (due: bool)
    ensures
        due == (last_input_tokens > COMPACT_THRESHOLD),
{
    last_input_tokens > COMPACT_THRESHOLD
}

/// A message at which a turn starts: plain text of the user.
pub open spec fn is_turn_start(m: Message) -> bool {
    m.role == Role::User && m.content is Text
}

/// How many of the newest messages compaction means to keep: the share of
/// the history that the recent-token budget is of the tokens used, rounded
/// up, and never fewer than four.
pub open spec fn keep_count(len: nat, input_tokens: nat) -> nat
    recommends
        input_tokens > 0,
{
    let share = (len * KEEP_RECENT_TOKENS + input_tokens - 1) / (input_tokens as int);
    if share < MIN_KEPT {
        MIN_KEPT as nat
    } else {
        share as nat
    }
}

/// The first index at or behind `from` at which a turn starts, or the
/// length of the history where there is none.
pub open spec fn next_turn_start(messages: Seq<Message>, from: int) -> int
    decreases messages.len() - from,
{
    if from < 0 || from >= messages.len() {
        messages.len() as int
    } else if is_turn_start(messages[from]) {
        from
    } else {
        next_turn_start(messages, from + 1)
    }
}

/// Where the history is cut: 0 for no cut, else the index of the first
/// message that is kept.
pub open spec fn cut_point(messages: Seq<Message>, input_tokens: nat) -> nat {
    let len = messages.len();
    if len < MIN_HISTORY || input_tokens == 0 {
        0
    } else if keep_count(len, input_tokens) >= len {
        0
    } else {
        let at = next_turn_start(messages, len - keep_count(len, input_tokens));
        if at < len {
            at as nat
        } else {
            0
        }
    }
}

/// A history of fewer than six messages is never cut.
pub proof fn lemma_short_history_is_kept(messages: Seq<Message>, input_tokens: nat)
    requires
        messages.len() < 6,
    ensures
        cut_point(messages, input_tokens) == 0,
{
}

proof fn lemma_next_turn_start(messages: Seq<Message>, from: int)
    requires
        0 <= from,
    ensures
        from <= next_turn_start(messages, from) || next_turn_start(messages, from)
            == messages.len(),
        next_turn_start(messages, from) <= messages.len(),
        next_turn_start(messages, from) < messages.len() ==> is_turn_start(
            messages[next_turn_start(messages, from)],
        ),
        forall|j: int|
            from <= j < next_turn_start(messages, from) ==> !is_turn_start(#[trigger] messages[j]),
    decreases messages.len() - from,
{
    if from < messages.len() && !is_turn_start(messages[from]) {
        lemma_next_turn_start(messages, from + 1);
    }
}

/// At least four messages are meant to be kept, and a cut leaves at least
/// one message and at most that many: it never lies behind the end of the
/// history, nor before the messages that were meant to be kept.
pub proof fn lemma_keep_count_bounds(messages: Seq<Message>, input_tokens: nat)
    requires
        input_tokens > 0,
    ensures
        keep_count(messages.len(), input_tokens) >= 4,
        cut_point(messages, input_tokens) <= messages.len(),
        cut_point(messages, input_tokens) != 0 ==> messages.len() - keep_count(
            messages.len(),
            input_tokens,
        ) <= cut_point(messages, input_tokens) < messages.len(),
{
    let len = messages.len();
    let keep = keep_count(len, input_tokens);
    if len >= MIN_HISTORY && keep < len {
        lemma_next_turn_start(messages, len - keep);
    }
}

/// A cut lands on a plain-text message of the user, and on the first one
/// at or behind the place where the kept messages were meant to start.
pub proof fn lemma_cut_is_turn_start(messages: Seq<Message>, input_tokens: nat)
    requires
        cut_point(messages, input_tokens) != 0,
    ensures
        is_turn_start(messages[cut_point(messages, input_tokens) as int]),
        forall|j: int|
            messages.len() - keep_count(messages.len(), input_tokens) <= j < cut_point(
                messages,
                input_tokens,
            ) ==> !is_turn_start(#[trigger] messages[j]),
{
    let len = messages.len();
    let keep = keep_count(len, input_tokens);
    lemma_next_turn_start(messages, len - keep);
}

/// Whether a turn starts at `m`.
pub fn starts_turn(m: &Message) -> (starts: bool)
    ensures
        starts == is_turn_start(*m),
{
    m.role == Role::User && match &m.content {
        Content::Text(_) => true,
        Content::Blocks(_) => false,
    }
}

/// Finds where to cut the history before the next request, given the input
/// tokens that the last turn reported: 0 for no cut, else the index of the
/// first message to keep.
pub fn find_cut_point(messages: &[Message], input_tokens: u32) -> (cut: usize)
    ensures
        cut == cut_point(messages@, input_tokens as nat),
        cut == 0 || (cut < messages.len() && is_turn_start(messages@[cut as int])),
{
    let len: usize = messages.len();
    if len < MIN_HISTORY || input_tokens == 0 {
        return 0;
    }
    let scaled: u128 = (len as u128) * (KEEP_RECENT_TOKENS as u128);
    let share: u128 = (scaled + (input_tokens as u128) - 1) / (input_tokens as u128);
    assert(len * KEEP_RECENT_TOKENS == (len as u128) * (KEEP_RECENT_TOKENS as u128))
        by (nonlinear_arith)
        requires
            len <= usize::MAX,
            KEEP_RECENT_TOKENS == 40_000,
    ;
    let keep: u128 = if share < (MIN_KEPT as u128) {
        MIN_KEPT as u128
    } else {
        share
    };
    assert(keep == keep_count(len as nat, input_tokens as nat));
    if keep >= (len as u128) {
        return 0;
    }
    let target: usize = len - (keep as usize);
    let ghost first = next_turn_start(messages@, target as int);
    assert(cut_point(messages@, input_tokens as nat) == if first < len {
        first as nat
    } else {
        0
    });
    let mut i: usize = target;
    while i < len
        invariant
            0 < target <= i <= len,
            len == messages.len(),
            first == next_turn_start(messages@, i as int),
            cut_point(messages@, input_tokens as nat) == if first < len {
                first as nat
            } else {
                0
            },
        decreases len - i,
    {
        if starts_turn(&messages[i]) {
            return i;
        }
        i += 1;
    }
    0
}

/// The text of the message that stands for the summarised messages.
pub open spec fn summary_text(summary: Seq<char>) -> Seq<char> {
    "<context>\n"@ + summary + "\n</context>"@
}

/// The message of the user that stands for the summarised messages.
pub open spec fn summary_message(summary: Seq<char>) -> MessageView {
    MessageView { role: Role::User, content: ContentView::Text(summary_text(summary)) }
}

/// The fixed answer of the assistant to the summary.
pub open spec fn acknowledgement() -> MessageView {
    MessageView {
        role: Role::Assistant,
        content: ContentView::Text("Understood, continuing from where we left off."@),
    }
}

/// The history after compaction at `cut`: unchanged for 0, else the two
/// messages that stand for everything before the cut, and then every
/// message from the cut on, as it was.
pub open spec fn compacted(history: Seq<MessageView>, cut: int, summary: Seq<char>) -> Seq<
    MessageView,
> {
    if cut == 0 {
        history
    } else {
        seq![summary_message(summary), acknowledgement()] + history.skip(cut)
    }
}

/// Replaces the messages before `cut` by their summary. Nothing changes
/// where `cut` is 0.
pub fn compact(messages: &mut Vec<Message>, cut: usize, summary: &str)
    requires
        cut <= old(messages).len(),
    ensures
        message_views(final(messages)@) == compacted(
            message_views(old(messages)@),
            cut as int,
            summary@,
        ),
        cut > 0 ==> final(messages).len() == old(messages).len() - cut + 2,
        cut > 0 ==> forall|i: int|
            2 <= i < final(messages).len() ==> #[trigger] final(messages)@[i] == old(messages)@[cut
                + i - 2],
{
    if cut == 0 {
        return ;
    }
    let mut kept = messages.split_off(cut);
    messages.clear();
    let mut text = String::from_str("<context>\n");
    text.append(summary);
    text.append("\n</context>");
    messages.push(Message { role: Role::User, content: Content::Text(text) });
    messages.push(
        Message {
            role: Role::Assistant,
            content: Content::Text(
                String::from_str("Understood, continuing from where we left off."),
            ),
        },
    );
    messages.append(&mut kept);
    assert(message_views(messages@) =~= compacted(
        message_views(old(messages)@),
        cut as int,
        summary@,
    ));
}

/// The name of a role in the flattened transcript.
pub open spec fn role_tag(role: Role) -> Seq<char> {
    match role {
        Role::User => "User"@,
        Role::Assistant => "Assistant"@,
    }
}

/// One line of speech in the flattened transcript.
pub open spec fn speech_line(role: Role, text: Seq<char>) -> Seq<char> {
    "["@ + role_tag(role) + "]: "@ + text + "\n"@
}

/// The line of a tool call in the flattened transcript, given the text of
/// its input.
pub open spec fn tool_call_line(name: Seq<char>, input_text: Seq<char>) -> Seq<char> {
    "[Tool call]: "@ + name + "("@ + input_text + ")\n"@
}

/// Longest tool result that the flattened transcript shows in full.
pub const SUMMARY_RESULT_LIMIT: usize = 2000;

/// The line of a tool result in the flattened transcript.
pub open spec fn tool_result_line(content: Seq<char>, is_error: Option<bool>) -> Seq<char> {
    (if is_error == Some(true) {
        "[Tool error]: "@
    } else {
        "[Tool result]: "@
    }) + truncated(content, SUMMARY_RESULT_LIMIT as nat) + "\n"@
}

/// What the flattened transcript holds of one block: nothing of
/// reasoning, one line of everything else.
pub open spec fn block_lines(role: Role, block: ContentBlockView) -> Seq<char> {
    match block {
        ContentBlockView::Thinking { .. } => Seq::empty(),
        ContentBlockView::Text { text } => speech_line(role, text),
        ContentBlockView::ToolUse { name, input, .. } => tool_call_line(name, json_text(input)),
        ContentBlockView::ToolResult { content, is_error, .. } => tool_result_line(
            content,
            is_error,
        ),
    }
}

/// What the flattened transcript holds of a sequence of blocks.
pub open spec fn blocks_lines(role: Role, blocks: Seq<ContentBlockView>) -> Seq<char>
    decreases blocks.len(),
{
    if blocks.len() == 0 {
        Seq::empty()
    } else {
        blocks_lines(role, blocks.drop_last()) + block_lines(role, blocks.last())
    }
}

/// What the flattened transcript holds of one message.
pub open spec fn message_lines(m: MessageView) -> Seq<char> {
    match m.content {
        ContentView::Text(text) => speech_line(m.role, text),
        ContentView::Blocks(blocks) => blocks_lines(m.role, blocks),
    }
}

/// The flattened transcript of a sequence of messages.
pub open spec fn transcript(messages: Seq<MessageView>) -> Seq<char>
    decreases messages.len(),
{
    if messages.len() == 0 {
        Seq::empty()
    } else {
        transcript(messages.drop_last()) + message_lines(messages.last())
    }
}

fn push_role_tag(out: &mut String, role: Role)
    ensures
        final(out)@ == old(out)@ + role_tag(role),
{
    match role {
        Role::User => out.append("User"),
        Role::Assistant => out.append("Assistant"),
    }
}

fn push_speech_line(out: &mut String, role: Role, text: &str)
    ensures
        final(out)@ == old(out)@ + speech_line(role, text@),
{
    out.append("[");
    push_role_tag(out, role);
    out.append("]: ");
    out.append(text);
    out.append("\n");
    assert(out@ =~= old(out)@ + speech_line(role, text@));
}

/// Appends the line of a tool call to `out`, given the text of its input.
pub fn push_tool_call_line(out: &mut String, name: &str, input_text: &str)
    ensures
        final(out)@ == old(out)@ + tool_call_line(name@, input_text@),
{
    out.append("[Tool call]: ");
    out.append(name);
    out.append("(");
    out.append(input_text);
    out.append(")\n");
    assert(out@ =~= old(out)@ + tool_call_line(name@, input_text@));
}

fn push_tool_result_line(out: &mut String, content: &str, is_error: Option<bool>)
    ensures
        final(out)@ == old(out)@ + tool_result_line(content@, is_error),
{
    let failed = match is_error {
        Some(true) => true,
        _ => false,
    };
    if failed {
        out.append("[Tool error]: ");
    } else {
        out.append("[Tool result]: ");
    }
    let display = truncate(content, SUMMARY_RESULT_LIMIT);
    out.append(display.as_str());
    out.append("\n");
    assert(out@ =~= old(out)@ + tool_result_line(content@, is_error));
}

fn push_block_lines(out: &mut String, role: Role, block: &ContentBlock)
    ensures
        final(out)@ == old(out)@ + block_lines(role, block@),
{
    match block {
        ContentBlock::Thinking { .. } => {
            assert(old(out)@ + Seq::<char>::empty() =~= old(out)@);
        },
        ContentBlock::Text { text } => push_speech_line(out, role, text.as_str()),
        ContentBlock::ToolUse { name, input, .. } => {
            let input_text = render_json(input);
            push_tool_call_line(out, name.as_str(), input_text.as_str());
        },
        ContentBlock::ToolResult { content, is_error, .. } => push_tool_result_line(
            out,
            content.as_str(),
            *is_error,
        ),
    }
}

fn push_message_lines(out: &mut String, m: &Message)
    ensures
        final(out)@ == old(out)@ + message_lines(m@),
{
    match &m.content {
        Content::Text(text) => push_speech_line(out, m.role, text.as_str()),
        Content::Blocks(blocks) => {
            let mut k: usize = 0;
            let ghost all = block_views(blocks@);
            assert(all.take(0) =~= Seq::<ContentBlockView>::empty());
            assert(old(out)@ + Seq::<char>::empty() =~= old(out)@);
            while k < blocks.len()
                invariant
                    k <= blocks.len(),
                    all == block_views(blocks@),
                    out@ == old(out)@ + blocks_lines(m.role, all.take(k as int)),
                decreases blocks.len() - k,
            {
                assert(all.take(k + 1).drop_last() =~= all.take(k as int));
                assert(all.take(k + 1).last() == blocks@[k as int]@);
                push_block_lines(out, m.role, &blocks[k]);
                assert(out@ =~= old(out)@ + blocks_lines(m.role, all.take(k + 1)));
                k += 1;
            }
            assert(all.take(blocks.len() as int) =~= all);
        },
    }
}

/// Flattens messages into the transcript that the summary is made from:
/// one line for each text, tool call and tool result, a long tool result
/// cut down, reasoning left out.
pub fn serialize_for_summary(messages: &[Message]) -> (out: String)
    ensures
        out@ == transcript(message_views(messages@)),
{
    let mut out = String::new();
    let mut i: usize = 0;
    let ghost all = message_views(messages@);
    assert(all.take(0) =~= Seq::<MessageView>::empty());
    while i < messages.len()
        invariant
            i <= messages.len(),
            all == message_views(messages@),
            out@ == transcript(all.take(i as int)),
        decreases messages.len() - i,
    {
        assert(all.take(i + 1).drop_last() =~= all.take(i as int));
        assert(all.take(i + 1).last() == messages@[i as int]@);
        push_message_lines(&mut out, &messages[i]);
        i += 1;
    }
    assert(all.take(messages.len() as int) =~= all);
    out
}

/// The instructions that the summary is made under.
pub open spec fn summary_instructions() -> Seq<char> {
    "Summarize this coding session. Capture:\n1. The user's goal\n2. What was accomplished (files read, created, modified)\n3. Key decisions and reasoning\n4. Current state and next steps\n\nBe concise. Preserve critical context needed to continue the work."@
}

/// Most tokens that a summary may take.
pub const SUMMARY_MAX_TOKENS: u32 = 2048;

/// The one message that asks for the summary of `conversation`.
pub fn summary_messages(conversation: &str) -> (messages: Vec<Message>)
    ensures
        message_views(messages@) == seq![
            MessageView { role: Role::User, content: ContentView::Text(conversation@) },
        ],
{
    let mut messages: Vec<Message> = Vec::new();
    messages.push(
        Message { role: Role::User, content: Content::Text(String::from_str(conversation)) },
    );
    assert(message_views(messages@) =~= seq![
        MessageView { role: Role::User, content: ContentView::Text(conversation@) },
    ]);
    messages
}

/// The request that asks `model` for a summary: one system segment with
/// the instructions, the given messages, no tools, no reasoning.
pub fn summary_request<'a>(model: &'a str, messages: &'a [Message], tools: &'a [ToolDef]) -> (request:
    Request<'a>)
    requires
        tools@.len() == 0,
    ensures
        request.model == model,
        request.max_tokens == SUMMARY_MAX_TOKENS,
        request.thinking is None,
        request.system@.len() == 1,
        request.system@[0].kind@ == "text"@,
        request.system@[0].text@ == summary_instructions(),
        request.system@[0].cache_control is None,
        request.messages == messages,
        request.tools@.len() == 0,
        request.stream,
{
    let mut system: Vec<SystemBlock<'a>> = Vec::new();
    system.push(
        SystemBlock::text(
            "Summarize this coding session. Capture:\n1. The user's goal\n2. What was accomplished (files read, created, modified)\n3. Key decisions and reasoning\n4. Current state and next steps\n\nBe concise. Preserve critical context needed to continue the work.",
        ),
    );
    Request {
        model,
        max_tokens: SUMMARY_MAX_TOKENS,
        thinking: None,
        system,
        messages,
        tools,
        stream: true,
    }
}

/// The summary so far after one more event of its answer: longer by a
/// fragment of text, unchanged by anything else.
pub open spec fn summary_after(summary: Seq<char>, e: SseEventView) -> Seq<char> {
    match e {
        SseEventView::ContentBlockDelta { delta: DeltaView::Text(s), .. } => summary + s,
        _ => summary,
    }
}

/// Takes one event of the summary's answer into the summary so far.
/// Tells whether the answer ends with it.
pub fn summary_step(summary: &mut String, event: &SseEvent) -> (ended: bool)
    ensures
        final(summary)@ == summary_after(old(summary)@, event@),
        ended == (event is MessageStop),
{
    match event {
        SseEvent::ContentBlockDelta { delta: Delta::Text(s), .. } => {
            summary.append(s.as_str());
            false
        },
        SseEvent::MessageStop => true,
        _ => false,
    }
}

/// A tool invocation that a turn asks for.
#[derive(Debug, PartialEq)]
pub struct ToolCall {
    pub id: String,
    pub name: String,
    pub input: Json,
}

/// What a `ToolCall` stands for.
pub struct ToolCallView {
    pub id: Seq<char>,
    pub name: Seq<char>,
    pub input: JsonView,
}

impl View for ToolCall {
    type V = ToolCallView;

    open spec fn view(&self) -> ToolCallView {
        ToolCallView { id: self.id@, name: self.name@, input: self.input@ }
    }
}

/// What the calls of `calls` stand for, one by one.
pub open spec fn call_views(calls: Seq<ToolCall>) -> Seq<ToolCallView> {
    Seq::new(calls.len(), |i: int| calls[i]@)
}

/// The tool invocations among `content`, in its order.
pub open spec fn calls_in(content: Seq<ContentBlockView>) -> Seq<ToolCallView>
    decreases content.len(),
{
    if content.len() == 0 {
        Seq::empty()
    } else {
        match content.last() {
            ContentBlockView::ToolUse { id, name, input } => calls_in(content.drop_last()).push(
                ToolCallView { id, name, input },
            ),
            _ => calls_in(content.drop_last()),
        }
    }
}

/// The tool invocations among `content`, in its order.
pub fn tool_calls(content: &Vec<ContentBlock>) -> (calls: Vec<ToolCall>)
    ensures
        call_views(calls@) == calls_in(block_views(content@)),
{
    let mut calls: Vec<ToolCall> = Vec::new();
    let mut i: usize = 0;
    let ghost all = block_views(content@);
    assert(all.take(0) =~= Seq::<ContentBlockView>::empty());
    assert(call_views(calls@) =~= Seq::<ToolCallView>::empty());
    while i < content.len()
        invariant
            i <= content.len(),
            all == block_views(content@),
            call_views(calls@) == calls_in(all.take(i as int)),
        decreases content.len() - i,
    {
        assert(all.take(i + 1).drop_last() =~= all.take(i as int));
        assert(all.take(i + 1).last() == content@[i as int]@);
        if let ContentBlock::ToolUse { id, name, input } = &content[i] {
            let ghost before = call_views(calls@);
            let call = ToolCall { id: id.clone(), name: name.clone(), input: input.copy_of() };
            calls.push(call);
            assert(call_views(calls@) =~= before.push(call@));
        }
        i += 1;
    }
    assert(all.take(content.len() as int) =~= all);
    calls
}

/// Longest tool output that goes back to the model in full.
pub const TOOL_OUTPUT_LIMIT: usize = 50_000;

/// The result of a call that was cancelled before it began.
pub open spec fn cancelled_result(id: Seq<char>) -> ContentBlockView {
    ContentBlockView::ToolResult {
        tool_use_id: id,
        content: "(cancelled)"@,
        is_error: Some(true),
    }
}

/// The result block of a call that ran: its output, cut down where it is
/// long, or the message of its failure, marked as an error.
pub open spec fn result_block(id: Seq<char>, outcome: Result<Seq<char>, Seq<char>>) -> ContentBlockView {
    match outcome {
        Ok(output) => ContentBlockView::ToolResult {
            tool_use_id: id,
            content: truncated(output, TOOL_OUTPUT_LIMIT as nat),
            is_error: None,
        },
        Err(message) => ContentBlockView::ToolResult {
            tool_use_id: id,
            content: message,
            is_error: Some(true),
        },
    }
}

/// What a worker does before it runs its call: where cancellation is
/// already asked for, it answers with the cancelled result and the call
/// never runs.
pub fn worker_start(id: &str, flag: &Interrupt) -> (early: Option<ContentBlock>)
    ensures
        flag.raised ==> (early matches Some(block) && block@ == cancelled_result(id@)),
        !flag.raised ==> early is None,
{
    if flag.raised {
        Some(
            ContentBlock::ToolResult {
                tool_use_id: String::from_str(id),
                content: String::from_str("(cancelled)"),
                is_error: Some(true),
            },
        )
    } else {
        None
    }
}

/// The result block of a call that ran, and for a failure the line that
/// tells the operator of it.
pub fn tool_result(id: &str, outcome: Result<String, Error>) -> (done: (ContentBlock, Option<String>))
    ensures
        done.0@ == result_block(
            id@,
            match outcome {
                Ok(output) => Ok(output@),
                Err(e) => Err(e.text()),
            },
        ),
        match outcome {
            Ok(_) => done.1 is None,
            Err(e) => done.1 matches Some(line) && line@ == "* error: "@ + e.text(),
        },
{
    match outcome {
        Ok(output) => {
            let content = truncate(output.as_str(), TOOL_OUTPUT_LIMIT);
            (
                ContentBlock::ToolResult {
                    tool_use_id: String::from_str(id),
                    content,
                    is_error: None,
                },
                None,
            )
        },
        Err(e) => {
            let message = e.to_string();
            let mut line = String::from_str("* error: ");
            line.append(message.as_str());
            (
                ContentBlock::ToolResult {
                    tool_use_id: String::from_str(id),
                    content: message,
                    is_error: Some(true),
                },
                Some(line),
            )
        },
    }
}

/// Whether one of the tags `tags` names the call `i`.
pub open spec fn is_named(tags: Seq<usize>, i: int) -> bool {
    exists|k: int| 0 <= k < tags.len() && #[trigger] tags[k] == i
}

/// Whether the tags `tags` name each of the `n` calls exactly once.
pub open spec fn names_each_once(tags: Seq<usize>, n: nat) -> bool {
    &&& tags.len() == n
    &&& forall|k: int| 0 <= k < tags.len() ==> #[trigger] tags[k] < n
    &&& forall|j: int, k: int| 0 <= j < k < tags.len() ==> #[trigger] tags[j] != #[trigger] tags[k]
    &&& forall|i: int| 0 <= i < n ==> #[trigger] is_named(tags, i)
}

/// The tags of the finished calls, in the order in which they finished.
pub open spec fn tags_of(finished: Seq<(usize, ContentBlock)>) -> Seq<usize> {
    Seq::new(finished.len(), |i: int| finished[i].0)
}

/// Puts the results of `n` calls into the order in which the calls were
/// made. Each result comes with the index of its call, and they come in
/// the order in which the calls finished. The answer is `None` unless
/// each of the `n` calls is named exactly once.
pub fn collect_in_order(n: usize, finished: &Vec<(usize, ContentBlock)>) -> (results: Option<
    Vec<ContentBlock>,
>)
    ensures
        results is Some <==> names_each_once(tags_of(finished@), n as nat),
        results matches Some(out) ==> out.len() == n && forall|k: int|
            0 <= k < finished.len() ==> (#[trigger] finished@[k]).0 < n && out@[finished@[k].0 as int]@
                == finished@[k].1@,
{
    if finished.len() != n {
        return None;
    }
    let ghost tags = tags_of(finished@);
    let mut places: Vec<Option<usize>> = Vec::new();
    let mut i: usize = 0;
    while i < n
        invariant
            i <= n,
            places.len() == i,
            forall|s: int| 0 <= s < i ==> places@[s] is None,
        decreases n - i,
    {
        places.push(None);
        i += 1;
    }
    let mut k: usize = 0;
    while k < n
        invariant
            k <= n,
            finished.len() == n,
            places.len() == n,
            tags == tags_of(finished@),
            forall|j: int| 0 <= j < k ==> #[trigger] tags[j] < n && places@[tags[j] as int] == Some(
                j as usize,
            ),
            forall|s: int|
                0 <= s < n ==> ((#[trigger] places@[s]) matches Some(j) ==> j < k && tags[j as int]
                    == s),
        decreases n - k,
    {
        let tag = finished[k].0;
        assert(tags[k as int] == tag);
        if tag >= n {
            return None;
        }
        if let Some(j) = places[tag] {
            assert(tags[j as int] == tags[k as int]);
            return None;
        }
        places.set(tag, Some(k));
        k += 1;
    }
    let mut out: Vec<ContentBlock> = Vec::new();
    let mut s: usize = 0;
    while s < n
        invariant
            s <= n,
            finished.len() == n,
            places.len() == n,
            out.len() == s,
            tags == tags_of(finished@),
            forall|j: int| 0 <= j < n ==> #[trigger] tags[j] < n && places@[tags[j] as int] == Some(
                j as usize,
            ),
            forall|t: int|
                0 <= t < n ==> ((#[trigger] places@[t]) matches Some(j) ==> j < n && tags[j as int]
                    == t),
            forall|t: int|
                0 <= t < s ==> ((#[trigger] places@[t]) matches Some(j) && out@[t]@
                    == finished@[j as int].1@),
        decreases n - s,
    {
        match places[s] {
            Some(j) => {
                out.push(finished[j].1.clone());
            },
            None => {
                assert forall|j: int| 0 <= j < n implies #[trigger] tags[j] != s by {
                    if tags[j] == s {
                        assert(places@[tags[j] as int] == Some(j as usize));
                    }
                }
                assert(!is_named(tags, s as int));
                return None;
            },
        }
        s += 1;
    }
    assert forall|j: int, m: int| 0 <= j < m < n implies #[trigger] tags[j] != #[trigger] tags[m] by {
        if tags[j] == tags[m] {
            assert(places@[tags[j] as int] == Some(j as usize));
            assert(places@[tags[m] as int] == Some(m as usize));
        }
    }
    assert forall|t: int| 0 <= t < n implies #[trigger] is_named(tags, t) by {
        let j = places@[t]->Some_0 as int;
        assert(tags[j] == t);
    }
    assert forall|j: int| 0 <= j < finished.len() implies (#[trigger] finished@[j]).0 < n
        && out@[finished@[j].0 as int]@ == finished@[j].1@ by {
        assert(tags[j] < n);
        assert(places@[tags[j] as int] == Some(j as usize));
    }
    Some(out)
}

/// Where the turn loop of a session stands.
#[derive(Clone, Copy, Debug, PartialEq, Eq, Structural)]
pub enum Phase {
    /// Waiting for the user.
    AwaitingInput,
    /// A request is in flight.
    Requesting,
    /// The tools that the last turn asked for are running.
    DispatchingTools,
    /// The loop has ended.
    Terminal,
}

/// What moves the turn loop on.
#[derive(Clone, Copy, Debug, PartialEq, Eq, Structural)]
pub enum LoopEvent {
    /// A message of the user is ready to be sent.
    InputReady,
    /// The user wants to quit.
    QuitRequested,
    /// The user wants a new session.
    NewRequested,
    /// The answer to a request is complete; `empty` says that it holds no
    /// content.
    TurnFinished { stop_reason: StopReason, interrupted: bool, empty: bool },
    /// A request failed for good.
    RequestFailed,
    /// The results of the tools are in the history.
    ToolsFinished,
}

/// How a turn loop ended.
#[derive(Clone, Copy, Debug, PartialEq, Eq, Structural)]
pub enum Exit {
    /// The user quit.
    Quit,
    /// A new session is to begin.
    Restart,
    /// The answer was cut off at the token limit.
    Truncated,
}

/// Whether the tools of a finished turn are run: the turn asks for
/// them and was not interrupted.
pub open spec fn runs_tools(stop_reason: StopReason, interrupted: bool) -> bool {
    !interrupted && stop_reason == StopReason::ToolUse
}

/// The phase behind an event. An event that does not belong to the phase
/// changes nothing, but that a wish to quit ends the loop in any phase.
pub open spec fn phase_after(phase: Phase, event: LoopEvent) -> Phase {
    match (phase, event) {
        (Phase::Terminal, _) => Phase::Terminal,
        (_, LoopEvent::QuitRequested) => Phase::Terminal,
        (Phase::AwaitingInput, LoopEvent::InputReady) => Phase::Requesting,
        (Phase::AwaitingInput, LoopEvent::NewRequested) => Phase::Terminal,
        (Phase::Requesting, LoopEvent::TurnFinished { stop_reason, interrupted, empty }) => if interrupted
            && empty {
            Phase::AwaitingInput
        } else if runs_tools(stop_reason, interrupted) {
            Phase::DispatchingTools
        } else if stop_reason == StopReason::MaxTokens {
            Phase::Terminal
        } else {
            Phase::AwaitingInput
        },
        (Phase::Requesting, LoopEvent::RequestFailed) => Phase::AwaitingInput,
        (Phase::DispatchingTools, LoopEvent::ToolsFinished) => Phase::Requesting,
        _ => phase,
    }
}

/// How the loop ends with an event, where it does.
pub open spec fn exit_after(phase: Phase, event: LoopEvent) -> Option<Exit> {
    if phase == Phase::Terminal || phase_after(phase, event) != Phase::Terminal {
        None
    } else {
        match event {
            LoopEvent::QuitRequested => Some(Exit::Quit),
            LoopEvent::NewRequested => Some(Exit::Restart),
            _ => Some(Exit::Truncated),
        }
    }
}

/// Moves the turn loop on by one event: the phase behind it, and how the
/// loop ends with it, where it does.
pub fn next_phase(phase: Phase, event: LoopEvent) -> (next: (Phase, Option<Exit>))
    ensures
        next.0 == phase_after(phase, event),
        next.1 == exit_after(phase, event),
{
    match phase {
        Phase::Terminal => (Phase::Terminal, None),
        _ => match event {
            LoopEvent::QuitRequested => (Phase::Terminal, Some(Exit::Quit)),
            LoopEvent::InputReady => match phase {
                Phase::AwaitingInput => (Phase::Requesting, None),
                _ => (phase, None),
            },
            LoopEvent::NewRequested => match phase {
                Phase::AwaitingInput => (Phase::Terminal, Some(Exit::Restart)),
                _ => (phase, None),
            },
            LoopEvent::TurnFinished { stop_reason, interrupted, empty } => match phase {
                Phase::Requesting => {
                    if interrupted && empty {
                        (Phase::AwaitingInput, None)
                    } else if !interrupted && stop_reason == StopReason::ToolUse {
                        (Phase::DispatchingTools, None)
                    } else if stop_reason == StopReason::MaxTokens {
                        (Phase::Terminal, Some(Exit::Truncated))
                    } else {
                        (Phase::AwaitingInput, None)
                    }
                },
                _ => (phase, None),
            },
            LoopEvent::RequestFailed => match phase {
                Phase::Requesting => (Phase::AwaitingInput, None),
                _ => (phase, None),
            },
            LoopEvent::ToolsFinished => match phase {
                Phase::DispatchingTools => (Phase::Requesting, None),
                _ => (phase, None),
            },
        },
    }
}

/// Whether the event is the end of a turn that asks for tools and was not
/// interrupted.
pub open spec fn asks_for_tools(event: LoopEvent) -> bool {
    event matches LoopEvent::TurnFinished { stop_reason, interrupted, .. } && runs_tools(
        stop_reason,
        interrupted,
    )
}

/// Tools are dispatched only for a turn that asked for them and was not
/// interrupted, and only while a request is in flight; and the results of
/// tools always lead to the next request.
pub proof fn lemma_tools_follow_requests(phase: Phase, event: LoopEvent)
    ensures
        phase_after(phase, event) == Phase::DispatchingTools && phase != Phase::DispatchingTools
            ==> phase == Phase::Requesting && asks_for_tools(event),
        phase_after(Phase::DispatchingTools, LoopEvent::ToolsFinished) == Phase::Requesting,
{
}

/// Once the loop has ended, nothing moves it.
pub proof fn lemma_terminal_is_final(event: LoopEvent)
    ensures
        phase_after(Phase::Terminal, event) == Phase::Terminal,
        exit_after(Phase::Terminal, event) is None,
{
}

/// The event that a line of input stands for, where it moves the loop.
pub fn input_event(result: InputResult) -> (event: Option<LoopEvent>)
    ensures
        event == match result {
            InputResult::Ready => Some(LoopEvent::InputReady),
            InputResult::Continue => None,
            InputResult::Quit => Some(LoopEvent::QuitRequested),
            InputResult::New => Some(LoopEvent::NewRequested),
        },
{
    match result {
        InputResult::Ready => Some(LoopEvent::InputReady),
        InputResult::Continue => None,
        InputResult::Quit => Some(LoopEvent::QuitRequested),
        InputResult::New => Some(LoopEvent::NewRequested),
    }
}

/// Whether a finished turn joins the history: it does unless it was
/// interrupted before any content came.
pub open spec fn joins_history(result: StreamResultView) -> bool {
    !(result.interrupted && result.content.len() == 0)
}

/// The message of the assistant that a finished turn joins the history
/// as, where it does; so that it can be written to the transcript before
/// it joins the history.
pub fn turn_message(result: &StreamResult) -> (message: Option<Message>)
    ensures
        match message {
            Some(m) => joins_history(result@) && m@ == (MessageView {
                role: Role::Assistant,
                content: ContentView::Blocks(result@.content),
            }),
            None => !joins_history(result@),
        },
{
    if result.interrupted && result.content.len() == 0 {
        None
    } else {
        Some(Message { role: Role::Assistant, content: Content::Blocks(copy_blocks(&result.content)) })
    }
}

/// A plain-text message of the user.
pub fn user_message(text: &str) -> (message: Message)
    ensures
        message@ == (MessageView { role: Role::User, content: ContentView::Text(text@) }),
{
    Message { role: Role::User, content: Content::Text(String::from_str(text)) }
}

/// The message of the user that carries the results of the tools.
pub fn results_message(results: Vec<ContentBlock>) -> (message: Message)
    ensures
        message == (Message { role: Role::User, content: Content::Blocks(results) }),
{
    Message { role: Role::User, content: Content::Blocks(results) }
}

/// The state of one session.
#[derive(Debug)]
pub struct Session {
    pub entry: SessionEntry,
    /// Path of the transcript.
    pub file: String,
    pub messages: Vec<Message>,
    /// How full the context was after the last turn, in percent.
    pub token_pct: Option<u32>,
    pub total_input_tokens: u64,
    pub total_output_tokens: u64,
    /// Input tokens that the last turn reported.
    pub last_input_tokens: u32,
}

impl Session {
    /// A session without messages.
    pub fn new(entry: SessionEntry, file: String) -> (session: Session)
        ensures
            session.entry == entry,
            session.file == file,
            session.messages@.len() == 0,
            session.token_pct is None,
            session.total_input_tokens == 0,
            session.total_output_tokens == 0,
            session.last_input_tokens == 0,
    {
        Session {
            entry,
            file,
            messages: Vec::new(),
            token_pct: None,
            total_input_tokens: 0,
            total_output_tokens: 0,
            last_input_tokens: 0,
        }
    }

    /// Adds a message to the history.
    pub fn push_message(&mut self, msg: Message)
        ensures
            final(self).messages@ == old(self).messages@.push(msg),
            final(self).entry == old(self).entry,
            final(self).file == old(self).file,
            final(self).token_pct == old(self).token_pct,
            final(self).total_input_tokens == old(self).total_input_tokens,
            final(self).total_output_tokens == old(self).total_output_tokens,
            final(self).last_input_tokens == old(self).last_input_tokens,
    {
        self.messages.push(msg);
    }

    /// Adds a plain-text message of the user to the history.
    pub fn add_user_message(&mut self, text: &str)
        ensures
            message_views(final(self).messages@) == message_views(old(self).messages@).push(
                MessageView { role: Role::User, content: ContentView::Text(text@) },
            ),
    {
        let msg = Message { role: Role::User, content: Content::Text(String::from_str(text)) };
        self.messages.push(msg);
        assert(message_views(self.messages@) =~= message_views(old(self).messages@).push(msg@));
    }

    /// Where the history is to be cut before the next request: nowhere
    /// unless the last turn went over the threshold.
    pub fn due_cut(&self) -> (cut: usize)
        ensures
            cut == if self.last_input_tokens > COMPACT_THRESHOLD {
                cut_point(self.messages@, self.last_input_tokens as nat)
            } else {
                0
            },
            cut <= self.messages.len(),
    {
        if needs_compaction(self.last_input_tokens) {
            find_cut_point(self.messages.as_slice(), self.last_input_tokens)
        } else {
            0
        }
    }

    /// Takes a finished turn into the session: the usage is added up, and
    /// the turn joins the history as a message of the assistant, unless it
    /// was interrupted before any content came. Returns the event that
    /// moves the turn loop on.
    pub fn record_turn(&mut self, result: StreamResult) -> (event: LoopEvent)
        requires
            old(self).total_input_tokens + result.usage.input_tokens <= u64::MAX,
            old(self).total_output_tokens + result.usage.output_tokens <= u64::MAX,
        ensures
            final(self).total_input_tokens == old(self).total_input_tokens
                + result.usage.input_tokens,
            final(self).total_output_tokens == old(self).total_output_tokens
                + result.usage.output_tokens,
            final(self).last_input_tokens == result.usage.input_tokens,
            final(self).entry == old(self).entry,
            final(self).file == old(self).file,
            final(self).token_pct == old(self).token_pct,
            event == (LoopEvent::TurnFinished {
                stop_reason: result.stop_reason,
                interrupted: result.interrupted,
                empty: result.content@.len() == 0,
            }),
            result.interrupted && result.content@.len() == 0 ==> final(self).messages@ == old(
                self,
            ).messages@,
            !(result.interrupted && result.content@.len() == 0) ==> final(self).messages@ == old(
                self,
            ).messages@.push(
                Message { role: Role::Assistant, content: Content::Blocks(result.content) },
            ),
    {
        self.last_input_tokens = result.usage.input_tokens;
        self.total_input_tokens = self.total_input_tokens + result.usage.input_tokens as u64;
        self.total_output_tokens = self.total_output_tokens + result.usage.output_tokens as u64;
        let empty = result.content.len() == 0;
        let event = LoopEvent::TurnFinished {
            stop_reason: result.stop_reason,
            interrupted: result.interrupted,
            empty,
        };
        if !(result.interrupted && empty) {
            self.messages.push(
                Message { role: Role::Assistant, content: Content::Blocks(result.content) },
            );
        }
        event
    }

    /// The tool invocations of the last message, where it is one of the
    /// assistant.
    pub fn pending_calls(&self) -> (calls: Vec<ToolCall>)
        ensures
            call_views(calls@) == if self.messages@.len() == 0 {
                Seq::empty()
            } else {
                match self.messages@.last() {
                    Message { role: Role::Assistant, content: Content::Blocks(blocks) } => calls_in(
                        block_views(blocks@),
                    ),
                    _ => Seq::empty(),
                }
            },
    {
        let n = self.messages.len();
        if n == 0 {
            let calls: Vec<ToolCall> = Vec::new();
            assert(call_views(calls@) =~= Seq::empty());
            return calls;
        }
        match &self.messages[n - 1] {
            Message { role: Role::Assistant, content: Content::Blocks(blocks) } => tool_calls(
                blocks,
            ),
            _ => {
                let calls: Vec<ToolCall> = Vec::new();
                assert(call_views(calls@) =~= Seq::empty());
                calls
            },
        }
    }

    /// Adds the results of the tools to the history, as one message of the
    /// user.
    pub fn record_tool_results(&mut self, results: Vec<ContentBlock>)
        ensures
            final(self).messages@ == old(self).messages@.push(
                Message { role: Role::User, content: Content::Blocks(results) },
            ),
    {
        self.messages.push(Message { role: Role::User, content: Content::Blocks(results) });
    }
}

/// Whether `result` is a tool result with the id of `call`.
pub open spec fn answers_call(call: ToolCallView, result: ContentBlockView) -> bool {
    result matches ContentBlockView::ToolResult { tool_use_id, .. } && tool_use_id == call.id
}

/// Whether `results` answers `calls`: one result for each call, in the
/// order of the calls, each with the id of its call.
pub open spec fn answers(calls: Seq<ToolCallView>, results: Seq<ContentBlockView>) -> bool {
    &&& results.len() == calls.len()
    &&& forall|i: int|
        0 <= i < calls.len() ==> answers_call(calls[i], #[trigger] results[i])
}

/// Results that are put into the order of their calls answer the calls,
/// where each worker answered its own call: each call has exactly one
/// result, at its own place, with its own id, whatever the order in which
/// the workers finished.
pub proof fn lemma_ordered_results_answer(
    calls: Seq<ToolCallView>,
    finished: Seq<(usize, ContentBlock)>,
    ordered: Seq<ContentBlock>,
)
    requires
        names_each_once(tags_of(finished), calls.len()),
        ordered.len() == calls.len(),
        forall|k: int|
            0 <= k < finished.len() ==> ordered[(#[trigger] finished[k]).0 as int]@
                == finished[k].1@,
        forall|k: int|
            0 <= k < finished.len() ==> answers_call(
                calls[(#[trigger] finished[k]).0 as int],
                finished[k].1@,
            ),
    ensures
        answers(calls, block_views(ordered)),
{
    let tags = tags_of(finished);
    assert forall|i: int| 0 <= i < calls.len() implies answers_call(
        calls[i],
        #[trigger] block_views(ordered)[i],
    ) by {
        assert(is_named(tags, i));
        let k = choose|k: int| 0 <= k < tags.len() && #[trigger] tags[k] == i;
        assert(finished[k].0 == i);
    }
}

/// What a worker answers carries the id of its call, whether the call ran
/// or was cancelled before it began.
pub proof fn lemma_worker_answers_its_call(call: ToolCallView, outcome: Option<Result<Seq<char>, Seq<char>>>)
    ensures
        answers_call(
            call,
            match outcome {
                Some(ran) => result_block(call.id, ran),
                None => cancelled_result(call.id),
            },
        ),
{
}

/// Whether `results` answers `calls`.
pub fn answers_calls(calls: &Vec<ToolCall>, results: &Vec<ContentBlock>) -> (paired: bool)
    ensures
        paired == answers(call_views(calls@), block_views(results@)),
{
    if calls.len() != results.len() {
        return false;
    }
    let mut i: usize = 0;
    while i < calls.len()
        invariant
            i <= calls.len(),
            calls.len() == results.len(),
            forall|k: int|
                0 <= k < i ==> answers_call(
                    call_views(calls@)[k],
                    #[trigger] block_views(results@)[k],
                ),
        decreases calls.len() - i,
    {
        let same = match &results[i] {
            ContentBlock::ToolResult { tool_use_id, .. } => crate::text::same_text(
                tool_use_id.as_str(),
                calls[i].id.as_str(),
            ),
            _ => false,
        };
        if !same {
            assert(block_views(results@)[i as int] == results@[i as int]@);
            assert(call_views(calls@)[i as int] == calls@[i as int]@);
            return false;
        }
        assert(block_views(results@)[i as int] == results@[i as int]@);
        assert(call_views(calls@)[i as int] == calls@[i as int]@);
        i += 1;
    }
    true
}

/// The reasoning budget of a request: none unless tokens are set aside.
pub fn thinking_config(budget: u32) -> (config: Option<ThinkingConfig>)
    ensures
        budget == 0 ==> config is None,
        budget > 0 ==> (config matches Some(c) && c.kind@ == "enabled"@ && c.budget_tokens
            == budget),
{
    if budget > 0 {
        Some(ThinkingConfig { kind: "enabled", budget_tokens: budget })
    } else {
        None
    }
}

/// The request of one turn: the whole history, the whole system prompt as
/// one segment that the service may reuse, the answer streamed.
pub fn turn_request<'a>(
    model: &'a str,
    max_tokens: u32,
    thinking_budget: u32,
    full_prompt: &'a str,
    messages: &'a [Message],
    tools: &'a [ToolDef],
) -> (request: Request<'a>)
    ensures
        request.model == model,
        request.max_tokens == max_tokens,
        thinking_budget == 0 ==> request.thinking is None,
        thinking_budget > 0 ==> (request.thinking matches Some(c) && c.kind@ == "enabled"@
            && c.budget_tokens == thinking_budget),
        request.system@.len() == 1,
        request.system@[0].kind@ == "text"@,
        request.system@[0].text == full_prompt,
        request.system@[0].cache_control matches Some(mark) && mark.kind@ == "ephemeral"@,
        request.messages == messages,
        request.tools == tools,
        request.stream,
{
    let mut system: Vec<SystemBlock<'a>> = Vec::new();
    system.push(SystemBlock::cached_text(full_prompt));
    Request {
        model,
        max_tokens,
        thinking: thinking_config(thinking_budget),
        system,
        messages,
        tools,
        stream: true,
    }
}

} // verus!
