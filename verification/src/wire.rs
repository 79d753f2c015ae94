use crate::error::Error;
use crate::json::{
    Json, json_array, json_from_text, json_object, json_pretty_text, json_str, json_text,
    json_unsigned, JsonNumberView, JsonView, lemma_array_view, lemma_lookup_at, lemma_lookup_none,
    member, parse_json, render_json, render_json_pretty,
};
use crate::session::{empty_index, SessionEntry, SessionIndex};
use crate::text::{chars_of, lines, same_text, split_lines, texts};
use crate::types::{
    block_views, CacheControl, Content, ContentBlock, ContentBlockView, ContentView, Message,
    message_views, MessageView, Request, Role, SystemBlock, ThinkingConfig, ToolDef,
};
use vstd::prelude::*;
use vstd::string::StringExecFns;

verus! {

/// What a sort of value is called on the wire.
pub open spec fn role_name(role: Role) -> Seq<char> {
    match role {
        Role::User => "user"@,
        Role::Assistant => "assistant"@,
    }
}

/// The role that the wire calls `name`.
pub open spec fn role_named(name: Seq<char>) -> Option<Role> {
    if name == "user"@ {
        Some(Role::User)
    } else if name == "assistant"@ {
        Some(Role::Assistant)
    } else {
        None
    }
}

/// A content block as a document: an object whose `type` names the kind,
/// with the fields of the kind. An empty signature and an absent error
/// flag are left out.
pub open spec fn block_json(block: ContentBlockView) -> JsonView {
    match block {
        ContentBlockView::Thinking { thinking, signature } => if signature.len() == 0 {
            JsonView::Object(
                seq![("type"@, JsonView::Str("thinking"@)), ("thinking"@, JsonView::Str(thinking))],
            )
        } else {
            JsonView::Object(
                seq![
                    ("type"@, JsonView::Str("thinking"@)),
                    ("thinking"@, JsonView::Str(thinking)),
                    ("signature"@, JsonView::Str(signature)),
                ],
            )
        },
        ContentBlockView::Text { text } => JsonView::Object(
            seq![("type"@, JsonView::Str("text"@)), ("text"@, JsonView::Str(text))],
        ),
        ContentBlockView::ToolUse { id, name, input } => JsonView::Object(
            seq![
                ("type"@, JsonView::Str("tool_use"@)),
                ("id"@, JsonView::Str(id)),
                ("name"@, JsonView::Str(name)),
                ("input"@, input),
            ],
        ),
        ContentBlockView::ToolResult { tool_use_id, content, is_error } => match is_error {
            None => JsonView::Object(
                seq![
                    ("type"@, JsonView::Str("tool_result"@)),
                    ("tool_use_id"@, JsonView::Str(tool_use_id)),
                    ("content"@, JsonView::Str(content)),
                ],
            ),
            Some(flag) => JsonView::Object(
                seq![
                    ("type"@, JsonView::Str("tool_result"@)),
                    ("tool_use_id"@, JsonView::Str(tool_use_id)),
                    ("content"@, JsonView::Str(content)),
                    ("is_error"@, JsonView::Bool(flag)),
                ],
            ),
        },
    }
}

/// The content of a message as a document: a string for plain text, an
/// array for blocks.
pub open spec fn content_json(content: ContentView) -> JsonView {
    match content {
        ContentView::Text(text) => JsonView::Str(text),
        ContentView::Blocks(blocks) => JsonView::Array(
            Seq::new(blocks.len(), |i: int| block_json(blocks[i])),
        ),
    }
}

/// A message as a document.
pub open spec fn message_json(m: MessageView) -> JsonView {
    JsonView::Object(
        seq![("role"@, JsonView::Str(role_name(m.role))), ("content"@, content_json(m.content))],
    )
}

/// The signature of a block of reasoning: empty where the document has
/// none, its text where it is a string, and no signature at all where it
/// is anything else.
pub open spec fn signature_of(doc: JsonView) -> Option<Seq<char>> {
    match doc.field("signature"@) {
        None => Some(Seq::empty()),
        Some(JsonView::Str(s)) => Some(s),
        Some(_) => None,
    }
}

/// The error flag of a tool result: absent where the document has none or
/// has `null`, its value where it is a boolean, and no flag at all where
/// it is anything else.
pub open spec fn error_flag_of(doc: JsonView) -> Option<Option<bool>> {
    match doc.field("is_error"@) {
        None => Some(None),
        Some(JsonView::Null) => Some(None),
        Some(JsonView::Bool(flag)) => Some(Some(flag)),
        Some(_) => None,
    }
}

/// The content block that a document stands for, where it has the `type`
/// of one and the fields that the type asks for.
pub open spec fn block_of_json(doc: JsonView) -> Option<ContentBlockView> {
    match doc.text_field("type"@) {
        Some(kind) => if kind == "thinking"@ {
            match (doc.text_field("thinking"@), signature_of(doc)) {
                (Some(thinking), Some(signature)) => Some(
                    ContentBlockView::Thinking { thinking, signature },
                ),
                _ => None,
            }
        } else if kind == "text"@ {
            match doc.text_field("text"@) {
                Some(text) => Some(ContentBlockView::Text { text }),
                None => None,
            }
        } else if kind == "tool_use"@ {
            match (doc.text_field("id"@), doc.text_field("name"@), doc.field("input"@)) {
                (Some(id), Some(name), Some(input)) => Some(
                    ContentBlockView::ToolUse { id, name, input },
                ),
                _ => None,
            }
        } else if kind == "tool_result"@ {
            match (doc.text_field("tool_use_id"@), doc.text_field("content"@), error_flag_of(doc)) {
                (Some(tool_use_id), Some(content), Some(is_error)) => Some(
                    ContentBlockView::ToolResult { tool_use_id, content, is_error },
                ),
                _ => None,
            }
        } else {
            None
        },
        None => None,
    }
}

/// The content that a document stands for: plain text for a string,
/// blocks for an array of which every item stands for a block.
pub open spec fn content_of_json(doc: JsonView) -> Option<ContentView> {
    match doc {
        JsonView::Str(text) => Some(ContentView::Text(text)),
        JsonView::Array(items) => if forall|i: int|
            0 <= i < items.len() ==> (#[trigger] block_of_json(items[i])) is Some {
            Some(
                ContentView::Blocks(
                    Seq::new(items.len(), |i: int| block_of_json(items[i])->Some_0),
                ),
            )
        } else {
            None
        },
        _ => None,
    }
}

/// The message that a document stands for.
pub open spec fn message_of_json(doc: JsonView) -> Option<MessageView> {
    match (doc.text_field("role"@), doc.field("content"@)) {
        (Some(name), Some(content)) => match (role_named(name), content_of_json(content)) {
            (Some(role), Some(content)) => Some(MessageView { role, content }),
            _ => None,
        },
        _ => None,
    }
}

/// The names that stand next to each other in a document are all
/// different, and so are the names of the kinds and of the roles.
pub proof fn lemma_names_differ()
    ensures
        "type"@ != "thinking"@,
        "type"@ != "signature"@,
        "type"@ != "text"@,
        "type"@ != "id"@,
        "type"@ != "name"@,
        "type"@ != "input"@,
        "type"@ != "tool_use_id"@,
        "type"@ != "content"@,
        "type"@ != "is_error"@,
        "thinking"@ != "signature"@,
        "id"@ != "name"@,
        "id"@ != "input"@,
        "name"@ != "input"@,
        "tool_use_id"@ != "content"@,
        "tool_use_id"@ != "is_error"@,
        "content"@ != "is_error"@,
        "role"@ != "content"@,
        "thinking"@ != "text"@,
        "thinking"@ != "tool_use"@,
        "thinking"@ != "tool_result"@,
        "text"@ != "tool_use"@,
        "text"@ != "tool_result"@,
        "tool_use"@ != "tool_result"@,
        "user"@ != "assistant"@,
{
    reveal_strlit("type");
    reveal_strlit("thinking");
    reveal_strlit("signature");
    reveal_strlit("text");
    reveal_strlit("id");
    reveal_strlit("name");
    reveal_strlit("input");
    reveal_strlit("tool_use_id");
    reveal_strlit("content");
    reveal_strlit("is_error");
    reveal_strlit("role");
    reveal_strlit("tool_use");
    reveal_strlit("tool_result");
    reveal_strlit("user");
    reveal_strlit("assistant");
    assert("type"@.len() == 4 && "thinking"@.len() == 8 && "signature"@.len() == 9);
    assert("text"@.len() == 4 && "id"@.len() == 2 && "name"@.len() == 4 && "input"@.len() == 5);
    assert("tool_use_id"@.len() == 11 && "content"@.len() == 7 && "is_error"@.len() == 8);
    assert("role"@.len() == 4 && "tool_use"@.len() == 8 && "tool_result"@.len() == 11);
    assert("user"@.len() == 4 && "assistant"@.len() == 9);
    assert("type"@[1] != "text"@[1]);
    assert("type"@[0] != "name"@[0]);
    assert("thinking"@[1] != "tool_use"@[1]);
}

/// Reading back the document of a content block gives the block.
pub proof fn lemma_block_round_trip(block: ContentBlockView)
    ensures
        block_of_json(block_json(block)) == Some(block),
{
    lemma_names_differ();
    let doc = block_json(block);
    let fields = doc->Object_0;
    match block {
        ContentBlockView::Thinking { thinking, signature } => {
            lemma_lookup_at(fields, "type"@, 0);
            lemma_lookup_at(fields, "thinking"@, 1);
            if signature.len() == 0 {
                lemma_lookup_none(fields, "signature"@);
                assert(signature =~= Seq::empty());
            } else {
                lemma_lookup_at(fields, "signature"@, 2);
            }
        },
        ContentBlockView::Text { text } => {
            lemma_lookup_at(fields, "type"@, 0);
            lemma_lookup_at(fields, "text"@, 1);
        },
        ContentBlockView::ToolUse { id, name, input } => {
            lemma_lookup_at(fields, "type"@, 0);
            lemma_lookup_at(fields, "id"@, 1);
            lemma_lookup_at(fields, "name"@, 2);
            lemma_lookup_at(fields, "input"@, 3);
        },
        ContentBlockView::ToolResult { tool_use_id, content, is_error } => {
            lemma_lookup_at(fields, "type"@, 0);
            lemma_lookup_at(fields, "tool_use_id"@, 1);
            lemma_lookup_at(fields, "content"@, 2);
            match is_error {
                None => {
                    lemma_lookup_none(fields, "is_error"@);
                },
                Some(_) => {
                    lemma_lookup_at(fields, "is_error"@, 3);
                },
            }
        },
    }
}

/// Reading back the document of a message gives the message, whatever
/// its role and its content, and whatever the kinds of its blocks.
pub proof fn lemma_message_round_trip(m: MessageView)
    ensures
        message_of_json(message_json(m)) == Some(m),
{
    lemma_names_differ();
    let doc = message_json(m);
    let fields = doc->Object_0;
    lemma_lookup_at(fields, "role"@, 0);
    lemma_lookup_at(fields, "content"@, 1);
    match m.content {
        ContentView::Text(_) => {},
        ContentView::Blocks(blocks) => {
            let items = Seq::new(blocks.len(), |i: int| block_json(blocks[i]));
            assert forall|i: int| 0 <= i < items.len() implies (#[trigger] block_of_json(
                items[i],
            )) is Some by {
                lemma_block_round_trip(blocks[i]);
            }
            let back = Seq::new(items.len(), |i: int| block_of_json(items[i])->Some_0);
            assert forall|i: int| 0 <= i < blocks.len() implies back[i] == blocks[i] by {
                lemma_block_round_trip(blocks[i]);
            }
            assert(back =~= blocks);
        },
    }
}

/// The name of a role on the wire.
pub fn role_text(role: Role) -> (name: &'static str)
    ensures
        name@ == role_name(role),
{
    match role {
        Role::User => "user",
        Role::Assistant => "assistant",
    }
}

/// The role that the wire calls `name`.
pub fn role_from_text(name: &str) -> (role: Option<Role>)
    ensures
        role == role_named(name@),
{
    if same_text(name, "user") {
        Some(Role::User)
    } else if same_text(name, "assistant") {
        Some(Role::Assistant)
    } else {
        None
    }
}

/// A content block as a document.
pub fn block_to_json(block: &ContentBlock) -> (doc: Json)
    ensures
        doc@ == block_json(block@),
{
    let mut fields: Vec<(String, Json)> = Vec::new();
    match block {
        ContentBlock::Thinking { thinking, signature } => {
            fields.push(member("type", json_str("thinking")));
            fields.push(member("thinking", json_str(thinking.as_str())));
            if !signature.as_str().is_empty() {
                fields.push(member("signature", json_str(signature.as_str())));
            }
        },
        ContentBlock::Text { text } => {
            fields.push(member("type", json_str("text")));
            fields.push(member("text", json_str(text.as_str())));
        },
        ContentBlock::ToolUse { id, name, input } => {
            fields.push(member("type", json_str("tool_use")));
            fields.push(member("id", json_str(id.as_str())));
            fields.push(member("name", json_str(name.as_str())));
            fields.push(member("input", input.copy_of()));
        },
        ContentBlock::ToolResult { tool_use_id, content, is_error } => {
            fields.push(member("type", json_str("tool_result")));
            fields.push(member("tool_use_id", json_str(tool_use_id.as_str())));
            fields.push(member("content", json_str(content.as_str())));
            match is_error {
                Some(flag) => {
                    fields.push(member("is_error", Json::Bool(*flag)));
                },
                None => {},
            }
        },
    }
    let doc = json_object(fields);
    assert(doc@->Object_0 =~= block_json(block@)->Object_0);
    doc
}

/// The content of a message as a document.
pub fn content_to_json(content: &Content) -> (doc: Json)
    ensures
        doc@ == content_json(content@),
{
    match content {
        Content::Text(text) => json_str(text.as_str()),
        Content::Blocks(blocks) => {
            let mut items: Vec<Json> = Vec::new();
            let mut i: usize = 0;
            while i < blocks.len()
                invariant
                    i <= blocks.len(),
                    items.len() == i,
                    forall|k: int| 0 <= k < i ==> (#[trigger] items@[k])@ == block_json(blocks@[k]@),
                decreases blocks.len() - i,
            {
                items.push(block_to_json(&blocks[i]));
                i += 1;
            }
            let doc = json_array(items);
            assert(doc@->Array_0 =~= content_json(content@)->Array_0);
            doc
        },
    }
}

/// A message as a document.
pub fn message_to_json(m: &Message) -> (doc: Json)
    ensures
        doc@ == message_json(m@),
{
    let mut fields: Vec<(String, Json)> = Vec::new();
    fields.push(member("role", json_str(role_text(m.role))));
    fields.push(member("content", content_to_json(&m.content)));
    let doc = json_object(fields);
    assert(doc@->Object_0 =~= message_json(m@)->Object_0);
    doc
}

/// The content block that a document stands for.
pub fn block_from_json(doc: &Json) -> (block: Option<ContentBlock>)
    ensures
        match block {
            Some(b) => block_of_json(doc@) == Some(b@),
            None => block_of_json(doc@) is None,
        },
{
    let kind = match doc.get_str("type") {
        Some(k) => k,
        None => {
            return None;
        },
    };
    if same_text(kind, "thinking") {
        let thinking = match doc.get_str("thinking") {
            Some(t) => t,
            None => {
                return None;
            },
        };
        let signature = match doc.get("signature") {
            None => String::new(),
            Some(Json::Str(s)) => s.clone(),
            Some(_) => {
                return None;
            },
        };
        Some(ContentBlock::Thinking { thinking: String::from_str(thinking), signature })
    } else if same_text(kind, "text") {
        match doc.get_str("text") {
            Some(text) => Some(ContentBlock::Text { text: String::from_str(text) }),
            None => None,
        }
    } else if same_text(kind, "tool_use") {
        match (doc.get_str("id"), doc.get_str("name"), doc.get("input")) {
            (Some(id), Some(name), Some(input)) => Some(
                ContentBlock::ToolUse {
                    id: String::from_str(id),
                    name: String::from_str(name),
                    input: input.copy_of(),
                },
            ),
            _ => None,
        }
    } else if same_text(kind, "tool_result") {
        let is_error = match doc.get("is_error") {
            None => None,
            Some(Json::Null) => None,
            Some(Json::Bool(flag)) => Some(*flag),
            Some(_) => {
                return None;
            },
        };
        match (doc.get_str("tool_use_id"), doc.get_str("content")) {
            (Some(tool_use_id), Some(content)) => Some(
                ContentBlock::ToolResult {
                    tool_use_id: String::from_str(tool_use_id),
                    content: String::from_str(content),
                    is_error,
                },
            ),
            _ => None,
        }
    } else {
        None
    }
}

/// The content that a document stands for.
pub fn content_from_json(doc: &Json) -> (content: Option<Content>)
    ensures
        match content {
            Some(c) => content_of_json(doc@) == Some(c@),
            None => content_of_json(doc@) is None,
        },
{
    match doc {
        Json::Str(text) => Some(Content::Text(text.clone())),
        Json::Array(items) => {
            proof {
                lemma_array_view(*doc);
            }
            let ghost docs = doc@->Array_0;
            let mut blocks: Vec<ContentBlock> = Vec::new();
            let mut i: usize = 0;
            while i < items.len()
                invariant
                    i <= items.len(),
                    blocks.len() == i,
                    docs.len() == items.len(),
                    doc@ == JsonView::Array(docs),
                    forall|k: int| 0 <= k < items.len() ==> docs[k] == (#[trigger] items@[k])@,
                    forall|k: int|
                        0 <= k < i ==> block_of_json(docs[k]) == Some((#[trigger] blocks@[k])@),
                decreases items.len() - i,
            {
                match block_from_json(&items[i]) {
                    Some(b) => {
                        blocks.push(b);
                    },
                    None => {
                        assert(block_of_json(docs[i as int]) is None);
                        return None;
                    },
                }
                i += 1;
            }
            let content = Content::Blocks(blocks);
            proof {
                assert forall|k: int| 0 <= k < docs.len() implies (#[trigger] block_of_json(
                    docs[k],
                )) is Some by {
                    assert(block_of_json(docs[k]) == Some(blocks@[k]@));
                }
                let back = Seq::new(docs.len(), |k: int| block_of_json(docs[k])->Some_0);
                assert forall|k: int| 0 <= k < docs.len() implies back[k] == block_views(
                    blocks@,
                )[k] by {
                    assert(block_of_json(docs[k]) == Some(blocks@[k]@));
                }
                assert(back =~= block_views(blocks@));
            }
            Some(content)
        },
        _ => None,
    }
}

/// The message of the failure to find a message in a document.
pub open spec fn malformed_message() -> Seq<char> {
    "malformed message"@
}

/// The message that a document stands for; a JSON failure where it stands
/// for none.
pub fn message_from_json(doc: &Json) -> (m: Result<Message, Error>)
    ensures
        match m {
            Ok(message) => message_of_json(doc@) == Some(message@),
            Err(Error::Json(text)) => message_of_json(doc@) is None && text@ == malformed_message(),
            Err(_) => false,
        },
{
    let found = match (doc.get_str("role"), doc.get("content")) {
        (Some(name), Some(content)) => match (role_from_text(name), content_from_json(content)) {
            (Some(role), Some(content)) => Some(Message { role, content }),
            _ => None,
        },
        _ => None,
    };
    match found {
        Some(message) => Ok(message),
        None => Err(Error::Json(String::from_str("malformed message"))),
    }
}

/// The line of the transcript that keeps a message.
pub fn transcript_line(m: &Message) -> (line: String)
    ensures
        line@ == json_text(message_json(m@)),
{
    render_json(&message_to_json(m))
}

/// What a line of the transcript is read as, given what reading it as
/// JSON gave: its message, or the message of the failure.
pub open spec fn line_message(parsed: Result<JsonView, Seq<char>>) -> Result<MessageView, Seq<char>> {
    match parsed {
        Err(text) => Err(text),
        Ok(doc) => match message_of_json(doc) {
            Some(m) => Ok(m),
            None => Err(malformed_message()),
        },
    }
}

/// Whether the result `got` of reading is the one that `want` describes:
/// the same message, or a JSON failure with the same text.
pub open spec fn reads_as(got: Result<Message, Error>, want: Result<MessageView, Seq<char>>) -> bool {
    match got {
        Ok(m) => want == Ok::<MessageView, Seq<char>>(m@),
        Err(Error::Json(text)) => want == Err::<MessageView, Seq<char>>(text@),
        Err(_) => false,
    }
}

/// Reads the message of a line of the transcript from what reading the
/// line as JSON gave.
pub fn message_from_parsed(parsed: Result<Json, String>) -> (m: Result<Message, Error>)
    ensures
        reads_as(
            m,
            line_message(
                match parsed {
                    Ok(doc) => Ok(doc@),
                    Err(text) => Err(text@),
                },
            ),
        ),
{
    match parsed {
        Err(text) => Err(Error::Json(text)),
        Ok(doc) => message_from_json(&doc),
    }
}

/// Reads the message of a line of the transcript.
pub fn parse_message(line: &str) -> (m: Result<Message, Error>)
    ensures
        reads_as(m, line_message(json_from_text(line@))),
{
    message_from_parsed(parse_json(line))
}

/// The messages that the lines `ls` of a transcript hold: one for each
/// line that is not empty, in their order; or the text of the failure of
/// the first line that holds none.
pub open spec fn transcript_messages(ls: Seq<Seq<char>>) -> Result<Seq<MessageView>, Seq<char>>
    decreases ls.len(),
{
    if ls.len() == 0 {
        Ok(Seq::empty())
    } else if ls[0].len() == 0 {
        transcript_messages(ls.drop_first())
    } else {
        match line_message(json_from_text(ls[0])) {
            Err(text) => Err(text),
            Ok(m) => match transcript_messages(ls.drop_first()) {
                Ok(rest) => Ok(seq![m] + rest),
                Err(text) => Err(text),
            },
        }
    }
}

/// The messages behind those of `done`, where the rest can be read.
pub open spec fn with_rest(done: Seq<MessageView>, rest: Result<Seq<MessageView>, Seq<char>>) -> Result<
    Seq<MessageView>,
    Seq<char>,
> {
    match rest {
        Ok(more) => Ok(done + more),
        Err(text) => Err(text),
    }
}

/// Reads the messages of a transcript, one from each line that is not
/// empty.
pub fn load_session(content: &str) -> (loaded: Result<Vec<Message>, Error>)
    ensures
        match loaded {
            Ok(messages) => transcript_messages(lines(content@)) == Ok::<
                Seq<MessageView>,
                Seq<char>,
            >(message_views(messages@)),
            Err(Error::Json(text)) => transcript_messages(lines(content@)) == Err::<
                Seq<MessageView>,
                Seq<char>,
            >(text@),
            Err(_) => false,
        },
{
    let chars = chars_of(content);
    let ls = split_lines(&chars);
    let ghost all = texts(ls@);
    let mut messages: Vec<Message> = Vec::new();
    let mut i: usize = 0;
    assert(all.skip(0) =~= all);
    assert(message_views(messages@) + transcript_messages(all)->Ok_0 =~= transcript_messages(
        all,
    )->Ok_0);
    while i < ls.len()
        invariant
            i <= ls.len(),
            all == texts(ls@),
            all == lines(content@),
            transcript_messages(all) == with_rest(
                message_views(messages@),
                transcript_messages(all.skip(i as int)),
            ),
        decreases ls.len() - i,
    {
        let ghost rest = all.skip(i as int);
        assert(rest.drop_first() =~= all.skip(i + 1));
        assert(rest[0] == ls@[i as int]@);
        if !ls[i].as_str().is_empty() {
            match parse_message(ls[i].as_str()) {
                Ok(m) => {
                    let ghost before = message_views(messages@);
                    messages.push(m);
                    proof {
                        assert(message_views(messages@) =~= before + seq![m@]);
                        match transcript_messages(all.skip(i + 1)) {
                            Ok(more) => {
                                assert(before + (seq![m@] + more) =~= message_views(messages@)
                                    + more);
                            },
                            Err(_) => {},
                        }
                    }
                },
                Err(e) => {
                    proof {
                        assert(rest.len() > 0 && rest[0].len() > 0);
                        assert(line_message(json_from_text(rest[0])) is Err);
                        assert(transcript_messages(rest) == Err::<Seq<MessageView>, Seq<char>>(
                            line_message(json_from_text(rest[0]))->Err_0,
                        ));
                    }
                    return Err(e);
                },
            }
        }
        i += 1;
    }
    proof {
        assert(all.skip(ls.len() as int) =~= Seq::<Seq<char>>::empty());
        assert(message_views(messages@) + Seq::<MessageView>::empty() =~= message_views(messages@));
    }
    Ok(messages)
}

/// A marker of reuse as a document.
pub open spec fn cache_json(kind: Seq<char>) -> JsonView {
    JsonView::Object(seq![("type"@, JsonView::Str(kind))])
}

/// A non-negative integer as a document.
pub open spec fn number_json(n: u64) -> JsonView {
    JsonView::Number(JsonNumberView::Unsigned(n))
}

/// A segment of the system prompt as a document; the marker of reuse is
/// left out where there is none.
pub open spec fn system_json(block: SystemBlock) -> JsonView {
    match block.cache_control {
        None => JsonView::Object(
            seq![("type"@, JsonView::Str(block.kind@)), ("text"@, JsonView::Str(block.text@))],
        ),
        Some(mark) => JsonView::Object(
            seq![
                ("type"@, JsonView::Str(block.kind@)),
                ("text"@, JsonView::Str(block.text@)),
                ("cache_control"@, cache_json(mark.kind@)),
            ],
        ),
    }
}

/// A tool as a document; the marker of reuse is left out where there is
/// none.
pub open spec fn tool_json(tool: ToolDef) -> JsonView {
    match tool.cache_control {
        None => JsonView::Object(
            seq![
                ("name"@, JsonView::Str(tool.name@)),
                ("description"@, JsonView::Str(tool.description@)),
                ("input_schema"@, tool.input_schema@),
            ],
        ),
        Some(mark) => JsonView::Object(
            seq![
                ("name"@, JsonView::Str(tool.name@)),
                ("description"@, JsonView::Str(tool.description@)),
                ("input_schema"@, tool.input_schema@),
                ("cache_control"@, cache_json(mark.kind@)),
            ],
        ),
    }
}

/// The reasoning budget as a document.
pub open spec fn thinking_json(config: ThinkingConfig) -> JsonView {
    JsonView::Object(
        seq![
            ("type"@, JsonView::Str(config.kind@)),
            ("budget_tokens"@, number_json(config.budget_tokens as u64)),
        ],
    )
}

/// The members of a request behind its reasoning budget.
pub open spec fn request_tail(request: Request) -> Seq<(Seq<char>, JsonView)> {
    seq![
        (
            "system"@,
            JsonView::Array(
                Seq::new(request.system@.len(), |i: int| system_json(request.system@[i])),
            ),
        ),
        (
            "messages"@,
            JsonView::Array(
                Seq::new(request.messages@.len(), |i: int| message_json(request.messages@[i]@)),
            ),
        ),
        (
            "tools"@,
            JsonView::Array(Seq::new(request.tools@.len(), |i: int| tool_json(request.tools@[i]))),
        ),
        ("stream"@, JsonView::Bool(request.stream)),
    ]
}

/// The members of a request up to its reasoning budget, which is left out
/// where there is none.
pub open spec fn request_head(request: Request) -> Seq<(Seq<char>, JsonView)> {
    match request.thinking {
        None => seq![
            ("model"@, JsonView::Str(request.model@)),
            ("max_tokens"@, number_json(request.max_tokens as u64)),
        ],
        Some(config) => seq![
            ("model"@, JsonView::Str(request.model@)),
            ("max_tokens"@, number_json(request.max_tokens as u64)),
            ("thinking"@, thinking_json(config)),
        ],
    }
}

/// A request as a document.
pub open spec fn request_json(request: Request) -> JsonView {
    JsonView::Object(request_head(request) + request_tail(request))
}

fn cache_to_json(mark: &CacheControl) -> (doc: Json)
    ensures
        doc@ == cache_json(mark.kind@),
{
    let mut fields: Vec<(String, Json)> = Vec::new();
    fields.push(member("type", json_str(mark.kind.as_str())));
    let doc = json_object(fields);
    assert(doc@->Object_0 =~= cache_json(mark.kind@)->Object_0);
    doc
}

/// A segment of the system prompt as a document.
pub fn system_to_json(block: &SystemBlock) -> (doc: Json)
    ensures
        doc@ == system_json(*block),
{
    let mut fields: Vec<(String, Json)> = Vec::new();
    fields.push(member("type", json_str(block.kind)));
    fields.push(member("text", json_str(block.text)));
    match &block.cache_control {
        Some(mark) => {
            fields.push(member("cache_control", cache_to_json(mark)));
        },
        None => {},
    }
    let doc = json_object(fields);
    assert(doc@->Object_0 =~= system_json(*block)->Object_0);
    doc
}

/// A tool as a document.
pub fn tool_to_json(tool: &ToolDef) -> (doc: Json)
    ensures
        doc@ == tool_json(*tool),
{
    let mut fields: Vec<(String, Json)> = Vec::new();
    fields.push(member("name", json_str(tool.name.as_str())));
    fields.push(member("description", json_str(tool.description.as_str())));
    fields.push(member("input_schema", tool.input_schema.copy_of()));
    match &tool.cache_control {
        Some(mark) => {
            fields.push(member("cache_control", cache_to_json(mark)));
        },
        None => {},
    }
    let doc = json_object(fields);
    assert(doc@->Object_0 =~= tool_json(*tool)->Object_0);
    doc
}

fn thinking_to_json(config: &ThinkingConfig) -> (doc: Json)
    ensures
        doc@ == thinking_json(*config),
{
    let mut fields: Vec<(String, Json)> = Vec::new();
    fields.push(member("type", json_str(config.kind)));
    fields.push(member("budget_tokens", json_unsigned(config.budget_tokens as u64)));
    let doc = json_object(fields);
    assert(doc@->Object_0 =~= thinking_json(*config)->Object_0);
    doc
}

fn systems_to_json(blocks: &Vec<SystemBlock>) -> (doc: Json)
    ensures
        doc@ == JsonView::Array(Seq::new(blocks@.len(), |i: int| system_json(blocks@[i]))),
{
    let mut items: Vec<Json> = Vec::new();
    let mut i: usize = 0;
    while i < blocks.len()
        invariant
            i <= blocks.len(),
            items.len() == i,
            forall|k: int| 0 <= k < i ==> (#[trigger] items@[k])@ == system_json(blocks@[k]),
        decreases blocks.len() - i,
    {
        items.push(system_to_json(&blocks[i]));
        i += 1;
    }
    let doc = json_array(items);
    assert(doc@->Array_0 =~= Seq::new(blocks@.len(), |i: int| system_json(blocks@[i])));
    doc
}

fn messages_to_json(messages: &[Message]) -> (doc: Json)
    ensures
        doc@ == JsonView::Array(Seq::new(messages@.len(), |i: int| message_json(messages@[i]@))),
{
    let mut items: Vec<Json> = Vec::new();
    let mut i: usize = 0;
    while i < messages.len()
        invariant
            i <= messages.len(),
            items.len() == i,
            forall|k: int| 0 <= k < i ==> (#[trigger] items@[k])@ == message_json(messages@[k]@),
        decreases messages.len() - i,
    {
        items.push(message_to_json(&messages[i]));
        i += 1;
    }
    let doc = json_array(items);
    assert(doc@->Array_0 =~= Seq::new(messages@.len(), |i: int| message_json(messages@[i]@)));
    doc
}

fn tools_to_json(tools: &[ToolDef]) -> (doc: Json)
    ensures
        doc@ == JsonView::Array(Seq::new(tools@.len(), |i: int| tool_json(tools@[i]))),
{
    let mut items: Vec<Json> = Vec::new();
    let mut i: usize = 0;
    while i < tools.len()
        invariant
            i <= tools.len(),
            items.len() == i,
            forall|k: int| 0 <= k < i ==> (#[trigger] items@[k])@ == tool_json(tools@[k]),
        decreases tools.len() - i,
    {
        items.push(tool_to_json(&tools[i]));
        i += 1;
    }
    let doc = json_array(items);
    assert(doc@->Array_0 =~= Seq::new(tools@.len(), |i: int| tool_json(tools@[i])));
    doc
}

/// A request as a document.
pub fn request_to_json(request: &Request) -> (doc: Json)
    ensures
        doc@ == request_json(*request),
{
    let mut fields: Vec<(String, Json)> = Vec::new();
    fields.push(member("model", json_str(request.model)));
    fields.push(member("max_tokens", json_unsigned(request.max_tokens as u64)));
    match &request.thinking {
        Some(config) => {
            fields.push(member("thinking", thinking_to_json(config)));
        },
        None => {},
    }
    fields.push(member("system", systems_to_json(&request.system)));
    fields.push(member("messages", messages_to_json(request.messages)));
    fields.push(member("tools", tools_to_json(request.tools)));
    fields.push(member("stream", Json::Bool(request.stream)));
    let doc = json_object(fields);
    assert(doc@->Object_0 =~= request_head(*request) + request_tail(*request));
    doc
}

/// The body of a request as it is sent.
pub fn request_body(request: &Request) -> (body: String)
    ensures
        body@ == json_text(request_json(*request)),
{
    render_json(&request_to_json(request))
}

/// An entry of the index as a document.
pub open spec fn entry_json(entry: SessionEntry) -> JsonView {
    JsonView::Object(
        seq![
            ("sessionId"@, JsonView::Str(entry.session_id@)),
            ("fullPath"@, JsonView::Str(entry.full_path@)),
            ("firstPrompt"@, JsonView::Str(entry.first_prompt@)),
            ("summary"@, JsonView::Str(entry.summary@)),
            ("messageCount"@, number_json(entry.message_count as u64)),
            ("created"@, JsonView::Str(entry.created@)),
            ("modified"@, JsonView::Str(entry.modified@)),
            ("gitBranch"@, JsonView::Str(entry.git_branch@)),
            ("projectPath"@, JsonView::Str(entry.project_path@)),
        ],
    )
}

/// The index as a document.
pub open spec fn index_json(index: SessionIndex) -> JsonView {
    JsonView::Object(
        seq![
            ("version"@, number_json(index.version as u64)),
            (
                "entries"@,
                JsonView::Array(
                    Seq::new(index.entries@.len(), |i: int| entry_json(index.entries@[i])),
                ),
            ),
            ("originalPath"@, JsonView::Str(index.original_path@)),
        ],
    )
}

/// An entry of the index as a document.
pub fn entry_to_json(entry: &SessionEntry) -> (doc: Json)
    ensures
        doc@ == entry_json(*entry),
{
    let mut fields: Vec<(String, Json)> = Vec::new();
    fields.push(member("sessionId", json_str(entry.session_id.as_str())));
    fields.push(member("fullPath", json_str(entry.full_path.as_str())));
    fields.push(member("firstPrompt", json_str(entry.first_prompt.as_str())));
    fields.push(member("summary", json_str(entry.summary.as_str())));
    fields.push(member("messageCount", json_unsigned(entry.message_count as u64)));
    fields.push(member("created", json_str(entry.created.as_str())));
    fields.push(member("modified", json_str(entry.modified.as_str())));
    fields.push(member("gitBranch", json_str(entry.git_branch.as_str())));
    fields.push(member("projectPath", json_str(entry.project_path.as_str())));
    let doc = json_object(fields);
    assert(doc@->Object_0 =~= entry_json(*entry)->Object_0);
    doc
}

/// The index as a document.
pub fn index_to_json(index: &SessionIndex) -> (doc: Json)
    ensures
        doc@ == index_json(*index),
{
    let mut items: Vec<Json> = Vec::new();
    let mut i: usize = 0;
    while i < index.entries.len()
        invariant
            i <= index.entries.len(),
            items.len() == i,
            forall|k: int| 0 <= k < i ==> (#[trigger] items@[k])@ == entry_json(index.entries@[k]),
        decreases index.entries.len() - i,
    {
        items.push(entry_to_json(&index.entries[i]));
        i += 1;
    }
    let entries = json_array(items);
    assert(entries@->Array_0 =~= Seq::new(
        index.entries@.len(),
        |i: int| entry_json(index.entries@[i]),
    ));
    let mut fields: Vec<(String, Json)> = Vec::new();
    fields.push(member("version", json_unsigned(index.version as u64)));
    fields.push(member("entries", entries));
    fields.push(member("originalPath", json_str(index.original_path.as_str())));
    let doc = json_object(fields);
    assert(doc@->Object_0 =~= index_json(*index)->Object_0);
    doc
}

/// The text of the index as it is kept: the indented text of the index
/// as a document, and nothing exactly where the JSON crate reports a
/// failure to write that document.
pub fn save_index(index: &SessionIndex) -> (text: Option<String>)
    ensures
        match text {
            Some(t) => json_pretty_text(index_json(*index)) == Some(t@),
            None => json_pretty_text(index_json(*index)) is None,
        },
{
    render_json_pretty(&index_to_json(index))
}

/// The member `key` of `doc`, where it is a non-negative integer of 32
/// bits.
pub open spec fn small_field(doc: JsonView, key: Seq<char>) -> Option<u32> {
    match doc.unsigned_field(key) {
        Some(n) => if n <= u32::MAX {
            Some(n as u32)
        } else {
            None
        },
        None => None,
    }
}

/// Whether `entry` is what the document `doc` says of a session.
pub open spec fn is_entry_of(entry: SessionEntry, doc: JsonView) -> bool {
    &&& doc.text_field("sessionId"@) == Some(entry.session_id@)
    &&& doc.text_field("fullPath"@) == Some(entry.full_path@)
    &&& doc.text_field("firstPrompt"@) == Some(entry.first_prompt@)
    &&& doc.text_field("summary"@) == Some(entry.summary@)
    &&& small_field(doc, "messageCount"@) == Some(entry.message_count)
    &&& doc.text_field("created"@) == Some(entry.created@)
    &&& doc.text_field("modified"@) == Some(entry.modified@)
    &&& doc.text_field("gitBranch"@) == Some(entry.git_branch@)
    &&& doc.text_field("projectPath"@) == Some(entry.project_path@)
}

/// Whether the document `doc` says of a session all that an entry holds.
pub open spec fn holds_entry(doc: JsonView) -> bool {
    &&& doc.text_field("sessionId"@) is Some
    &&& doc.text_field("fullPath"@) is Some
    &&& doc.text_field("firstPrompt"@) is Some
    &&& doc.text_field("summary"@) is Some
    &&& small_field(doc, "messageCount"@) is Some
    &&& doc.text_field("created"@) is Some
    &&& doc.text_field("modified"@) is Some
    &&& doc.text_field("gitBranch"@) is Some
    &&& doc.text_field("projectPath"@) is Some
}

fn get_small(doc: &Json, key: &str) -> (found: Option<u32>)
    ensures
        found == small_field(doc@, key@),
{
    match doc.get_u64(key) {
        Some(n) => if n <= u32::MAX as u64 {
            Some(n as u32)
        } else {
            None
        },
        None => None,
    }
}

fn get_text(doc: &Json, key: &str) -> (found: Option<String>)
    ensures
        match found {
            Some(s) => doc@.text_field(key@) == Some(s@),
            None => doc@.text_field(key@) is None,
        },
{
    match doc.get_str(key) {
        Some(s) => Some(String::from_str(s)),
        None => None,
    }
}

/// The entry that a document holds.
pub fn entry_from_json(doc: &Json) -> (entry: Option<SessionEntry>)
    ensures
        match entry {
            Some(e) => is_entry_of(e, doc@),
            None => !holds_entry(doc@),
        },
{
    let session_id = match get_text(doc, "sessionId") {
        Some(s) => s,
        None => {
            return None;
        },
    };
    let full_path = match get_text(doc, "fullPath") {
        Some(s) => s,
        None => {
            return None;
        },
    };
    let first_prompt = match get_text(doc, "firstPrompt") {
        Some(s) => s,
        None => {
            return None;
        },
    };
    let summary = match get_text(doc, "summary") {
        Some(s) => s,
        None => {
            return None;
        },
    };
    let message_count = match get_small(doc, "messageCount") {
        Some(n) => n,
        None => {
            return None;
        },
    };
    let created = match get_text(doc, "created") {
        Some(s) => s,
        None => {
            return None;
        },
    };
    let modified = match get_text(doc, "modified") {
        Some(s) => s,
        None => {
            return None;
        },
    };
    let git_branch = match get_text(doc, "gitBranch") {
        Some(s) => s,
        None => {
            return None;
        },
    };
    let project_path = match get_text(doc, "projectPath") {
        Some(s) => s,
        None => {
            return None;
        },
    };
    Some(
        SessionEntry {
            session_id,
            full_path,
            first_prompt,
            summary,
            message_count,
            created,
            modified,
            git_branch,
            project_path,
        },
    )
}

/// Whether the document `doc` holds an index: its version, its entries,
/// each of them whole, and its project.
pub open spec fn holds_index(doc: JsonView) -> bool {
    &&& small_field(doc, "version"@) is Some
    &&& doc.field("entries"@) matches Some(JsonView::Array(items)) && forall|i: int|
        0 <= i < items.len() ==> holds_entry(#[trigger] items[i])
    &&& doc.text_field("originalPath"@) is Some
}

/// Whether `index` is what the document `doc` holds.
pub open spec fn is_index_of(index: SessionIndex, doc: JsonView) -> bool {
    &&& small_field(doc, "version"@) == Some(index.version)
    &&& doc.field("entries"@) matches Some(JsonView::Array(items)) && items.len()
        == index.entries@.len() && forall|i: int|
        0 <= i < items.len() ==> is_entry_of(#[trigger] index.entries@[i], items[i])
    &&& doc.text_field("originalPath"@) == Some(index.original_path@)
}

/// The index that a document holds.
pub fn index_from_json(doc: &Json) -> (index: Option<SessionIndex>)
    ensures
        match index {
            Some(found) => is_index_of(found, doc@),
            None => !holds_index(doc@),
        },
{
    let version = match get_small(doc, "version") {
        Some(n) => n,
        None => {
            return None;
        },
    };
    let original_path = match get_text(doc, "originalPath") {
        Some(s) => s,
        None => {
            return None;
        },
    };
    let list = match doc.get("entries") {
        Some(l) => l,
        None => {
            return None;
        },
    };
    match list {
        Json::Array(items) => {
            proof {
                lemma_array_view(*list);
            }
            let ghost docs = list@->Array_0;
            let mut entries: Vec<SessionEntry> = Vec::new();
            let mut i: usize = 0;
            while i < items.len()
                invariant
                    i <= items.len(),
                    entries.len() == i,
                    docs.len() == items.len(),
                    list@ == JsonView::Array(docs),
                    doc@.field("entries"@) == Some(list@),
                    forall|k: int| 0 <= k < items.len() ==> docs[k] == (#[trigger] items@[k])@,
                    forall|k: int| 0 <= k < i ==> is_entry_of(#[trigger] entries@[k], docs[k]),
                decreases items.len() - i,
            {
                match entry_from_json(&items[i]) {
                    Some(e) => {
                        entries.push(e);
                    },
                    None => {
                        proof {
                            let held = doc@.field("entries"@)->Some_0->Array_0;
                            assert(held == docs);
                            assert(!holds_entry(held[i as int]));
                        }
                        return None;
                    },
                }
                i += 1;
            }
            Some(SessionIndex { version, entries, original_path })
        },
        _ => None,
    }
}

/// Whether `index` is what is loaded from a text that reads as `parsed`:
/// the index that the text holds, or an empty index that names no project
/// where it holds none.
pub open spec fn is_loaded_from(index: SessionIndex, parsed: Option<Result<JsonView, Seq<char>>>) -> bool {
    match parsed {
        Some(Ok(doc)) => if holds_index(doc) {
            is_index_of(index, doc)
        } else {
            index.version == 1 && index.entries@.len() == 0 && index.original_path@.len() == 0
        },
        _ => index.version == 1 && index.entries@.len() == 0 && index.original_path@.len() == 0,
    }
}

/// Makes the index from what reading its text as JSON gave; `None` stands
/// for a text that could not be had.
pub fn index_from_parsed(parsed: Option<Result<Json, String>>) -> (index: SessionIndex)
    ensures
        is_loaded_from(
            index,
            match parsed {
                Some(Ok(doc)) => Some(Ok(doc@)),
                Some(Err(text)) => Some(Err(text@)),
                None => None,
            },
        ),
{
    proof {
        reveal_strlit("");
    }
    match parsed {
        Some(Ok(doc)) => match index_from_json(&doc) {
            Some(index) => {
                proof {
                    lemma_is_index_holds(index, doc@);
                }
                index
            },
            None => empty_index(""),
        },
        _ => empty_index(""),
    }
}

proof fn lemma_is_index_holds(index: SessionIndex, doc: JsonView)
    requires
        is_index_of(index, doc),
    ensures
        holds_index(doc),
{
    let items = doc.field("entries"@)->Some_0->Array_0;
    assert forall|i: int| 0 <= i < items.len() implies holds_entry(#[trigger] items[i]) by {
        assert(is_entry_of(index.entries@[i], items[i]));
    }
}

/// Loads the index from its text; `None` stands for a text that could not
/// be had.
pub fn load_index(text: Option<&str>) -> (index: SessionIndex)
    ensures
        is_loaded_from(
            index,
            match text {
                Some(t) => Some(json_from_text(t@)),
                None => None,
            },
        ),
{
    match text {
        Some(t) => index_from_parsed(Some(parse_json(t))),
        None => index_from_parsed(None),
    }
}

} // verus!
