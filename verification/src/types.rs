use crate::json::{Json, JsonView};
use vstd::prelude::*;
use vstd::string::StringExecFns;

verus! {

/// Who speaks in a message.
#[derive(Clone, Copy, Debug, PartialEq, Eq, Structural)]
pub enum Role {
    User,
    Assistant,
}

/// One unit of model output or tool interaction.
#[derive(Debug, PartialEq)]
pub enum ContentBlock {
    /// Reasoning text with the opaque signature that vouches for it.
    Thinking { thinking: String, signature: String },
    /// Visible text.
    Text { text: String },
    /// A tool invocation that the model asks for.
    ToolUse { id: String, name: String, input: Json },
    /// The answer to the tool invocation with the same call id.
    ToolResult { tool_use_id: String, content: String, is_error: Option<bool> },
}

/// What a message says: plain text, or a sequence of content blocks.
#[derive(Debug, PartialEq)]
pub enum Content {
    Text(String),
    Blocks(Vec<ContentBlock>),
}

/// One entry of the conversation.
#[derive(Debug, PartialEq)]
pub struct Message {
    pub role: Role,
    pub content: Content,
}

/// What a `ContentBlock` stands for.
pub enum ContentBlockView {
    Thinking { thinking: Seq<char>, signature: Seq<char> },
    Text { text: Seq<char> },
    ToolUse { id: Seq<char>, name: Seq<char>, input: JsonView },
    ToolResult { tool_use_id: Seq<char>, content: Seq<char>, is_error: Option<bool> },
}

/// What a `Content` stands for.
pub enum ContentView {
    Text(Seq<char>),
    Blocks(Seq<ContentBlockView>),
}

/// What a `Message` stands for.
pub struct MessageView {
    pub role: Role,
    pub content: ContentView,
}

impl View for ContentBlock {
    type V = ContentBlockView;

    open spec fn view(&self) -> ContentBlockView {
        match self {
            ContentBlock::Thinking { thinking, signature } => ContentBlockView::Thinking {
                thinking: thinking@,
                signature: signature@,
            },
            ContentBlock::Text { text } => ContentBlockView::Text { text: text@ },
            ContentBlock::ToolUse { id, name, input } => ContentBlockView::ToolUse {
                id: id@,
                name: name@,
                input: input@,
            },
            ContentBlock::ToolResult {
                tool_use_id,
                content,
                is_error,
            } => ContentBlockView::ToolResult {
                tool_use_id: tool_use_id@,
                content: content@,
                is_error: *is_error,
            },
        }
    }
}

/// What the blocks of `blocks` stand for, one by one.
pub open spec fn block_views(blocks: Seq<ContentBlock>) -> Seq<ContentBlockView> {
    Seq::new(blocks.len(), |i: int| blocks[i]@)
}

impl View for Content {
    type V = ContentView;

    open spec fn view(&self) -> ContentView {
        match self {
            Content::Text(text) => ContentView::Text(text@),
            Content::Blocks(blocks) => ContentView::Blocks(block_views(blocks@)),
        }
    }
}

impl View for Message {
    type V = MessageView;

    open spec fn view(&self) -> MessageView {
        MessageView { role: self.role, content: self.content@ }
    }
}

/// What the messages of `messages` stand for, one by one.
pub open spec fn message_views(messages: Seq<Message>) -> Seq<MessageView> {
    Seq::new(messages.len(), |i: int| messages[i]@)
}

impl Clone for ContentBlock {
    fn clone(&self) -> (copy: ContentBlock)
        ensures
            copy@ == self@,
    {
        match self {
            ContentBlock::Thinking { thinking, signature } => ContentBlock::Thinking {
                thinking: thinking.clone(),
                signature: signature.clone(),
            },
            ContentBlock::Text { text } => ContentBlock::Text { text: text.clone() },
            ContentBlock::ToolUse { id, name, input } => ContentBlock::ToolUse {
                id: id.clone(),
                name: name.clone(),
                input: input.copy_of(),
            },
            ContentBlock::ToolResult { tool_use_id, content, is_error } => ContentBlock::ToolResult {
                tool_use_id: tool_use_id.clone(),
                content: content.clone(),
                is_error: *is_error,
            },
        }
    }
}

/// Blocks that stand for the same as `blocks`.
pub fn copy_blocks(blocks: &Vec<ContentBlock>) -> (copy: Vec<ContentBlock>)
    ensures
        block_views(copy@) == block_views(blocks@),
{
    let mut copy: Vec<ContentBlock> = Vec::new();
    let mut i: usize = 0;
    while i < blocks.len()
        invariant
            i <= blocks.len(),
            copy.len() == i,
            forall|k: int| 0 <= k < i ==> (#[trigger] copy@[k])@ == blocks@[k]@,
        decreases blocks.len() - i,
    {
        copy.push(blocks[i].clone());
        i += 1;
    }
    assert(block_views(copy@) =~= block_views(blocks@));
    copy
}

impl Clone for Content {
    fn clone(&self) -> (copy: Content)
        ensures
            copy@ == self@,
    {
        match self {
            Content::Text(text) => Content::Text(text.clone()),
            Content::Blocks(blocks) => Content::Blocks(copy_blocks(blocks)),
        }
    }
}

impl Clone for Message {
    fn clone(&self) -> (copy: Message)
        ensures
            copy@ == self@,
    {
        Message { role: self.role, content: self.content.clone() }
    }
}

/// Token counts of one turn.
#[derive(Clone, Copy, Debug, PartialEq, Eq, Structural)]
pub struct Usage {
    pub input_tokens: u32,
    pub output_tokens: u32,
    pub cache_creation_input_tokens: u32,
    pub cache_read_input_tokens: u32,
}

impl Default for Usage {
    fn default() -> (usage: Usage)
        ensures
            usage == (Usage {
                input_tokens: 0,
                output_tokens: 0,
                cache_creation_input_tokens: 0,
                cache_read_input_tokens: 0,
            }),
    {
        Usage {
            input_tokens: 0,
            output_tokens: 0,
            cache_creation_input_tokens: 0,
            cache_read_input_tokens: 0,
        }
    }
}

/// Why the model ended its turn.
#[derive(Clone, Copy, Debug, PartialEq, Eq, Structural)]
pub enum StopReason {
    EndTurn,
    MaxTokens,
    StopSequence,
    ToolUse,
}

/// Marks a request segment as reusable by the service.
#[derive(Debug, PartialEq)]
pub struct CacheControl {
    pub kind: String,
}

impl Clone for CacheControl {
    fn clone(&self) -> (copy: CacheControl)
        ensures
            copy == *self,
    {
        CacheControl { kind: self.kind.clone() }
    }
}

impl CacheControl {
    /// The one kind of marker that the service knows.
    pub fn ephemeral() -> (mark: CacheControl)
        ensures
            mark.kind@ == "ephemeral"@,
    {
        CacheControl { kind: String::from_str("ephemeral") }
    }
}

/// Reasoning budget of a request.
#[derive(Debug, PartialEq)]
pub struct ThinkingConfig {
    pub kind: &'static str,
    pub budget_tokens: u32,
}

/// One segment of the system prompt.
#[derive(Debug, PartialEq)]
pub struct SystemBlock<'a> {
    pub kind: &'static str,
    pub text: &'a str,
    pub cache_control: Option<CacheControl>,
}

impl<'a> SystemBlock<'a> {
    /// A segment of plain text.
    pub fn text(text: &'a str) -> (block: SystemBlock<'a>)
        ensures
            block.kind@ == "text"@,
            block.text == text,
            block.cache_control is None,
    {
        SystemBlock { kind: "text", text, cache_control: None }
    }

    /// A segment of plain text that the service may reuse.
    pub fn cached_text(text: &'a str) -> (block: SystemBlock<'a>)
        ensures
            block.kind@ == "text"@,
            block.text == text,
            block.cache_control matches Some(mark) && mark.kind@ == "ephemeral"@,
    {
        SystemBlock { kind: "text", text, cache_control: Some(CacheControl::ephemeral()) }
    }
}

/// A tool as the service is told of it.
#[derive(Debug, PartialEq)]
pub struct ToolDef {
    pub name: String,
    pub description: String,
    pub input_schema: Json,
    pub cache_control: Option<CacheControl>,
}

/// One request to the service.
#[derive(Debug)]
pub struct Request<'a> {
    pub model: &'a str,
    pub max_tokens: u32,
    pub thinking: Option<ThinkingConfig>,
    pub system: Vec<SystemBlock<'a>>,
    pub messages: &'a [Message],
    pub tools: &'a [ToolDef],
    pub stream: bool,
}

/// A whole answer of the service, as it comes without streaming.
#[derive(Debug)]
pub struct Response {
    pub id: String,
    pub content: Vec<ContentBlock>,
    pub stop_reason: StopReason,
    pub usage: Usage,
}

/// The body of an answer with a status other than 200.
#[derive(Debug, PartialEq)]
pub struct ApiError {
    pub error: ApiErrorDetail,
}

/// What went wrong, in the service's words.
#[derive(Debug, PartialEq)]
pub struct ApiErrorDetail {
    pub kind: String,
    pub message: String,
}

} // verus!
