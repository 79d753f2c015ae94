use tapir::error::Error;
use tapir::json::{parse_json, render_json, Json, JsonNumber};
use tapir::session::{create_entry, empty_index, update_entry, SessionIndex};
use tapir::tool::definitions;
use tapir::types::{CacheControl, Content, ContentBlock, Message, Role, SystemBlock, ToolDef};
use tapir::wire::{
    block_from_json, block_to_json, index_from_json, index_to_json, load_index, load_session,
    message_from_json, message_to_json, parse_message, request_body, save_index,
    transcript_line,
};

fn every_kind_of_message() -> Vec<Message> {
    vec![
        Message {
            role: Role::User,
            content: Content::Text("plain \"text\"\nwith lines \u{e9}".to_string()),
        },
        Message {
            role: Role::Assistant,
            content: Content::Text(String::new()),
        },
        Message {
            role: Role::Assistant,
            content: Content::Blocks(vec![]),
        },
        Message {
            role: Role::Assistant,
            content: Content::Blocks(vec![
                ContentBlock::Thinking {
                    thinking: "hm".to_string(),
                    signature: "c2ln".to_string(),
                },
                ContentBlock::Thinking {
                    thinking: "no signature".to_string(),
                    signature: String::new(),
                },
                ContentBlock::Text {
                    text: "Let me look.".to_string(),
                },
                ContentBlock::ToolUse {
                    id: "toolu_1".to_string(),
                    name: "read_file".to_string(),
                    input: parse_json(
                        "{\"path\":\"a.rs\",\"limit\":10,\"deep\":[1,-2,3.5,null,true,{\"k\":\"v\"}]}",
                    )
                    .unwrap(),
                },
                ContentBlock::ToolUse {
                    id: "toolu_2".to_string(),
                    name: "ls".to_string(),
                    input: Json::Object(vec![]),
                },
            ]),
        },
        Message {
            role: Role::User,
            content: Content::Blocks(vec![
                ContentBlock::ToolResult {
                    tool_use_id: "toolu_1".to_string(),
                    content: "1\tfn main() {}\n".to_string(),
                    is_error: None,
                },
                ContentBlock::ToolResult {
                    tool_use_id: "toolu_2".to_string(),
                    content: "(cancelled)".to_string(),
                    is_error: Some(true),
                },
                ContentBlock::ToolResult {
                    tool_use_id: "toolu_3".to_string(),
                    content: String::new(),
                    is_error: Some(false),
                },
            ]),
        },
    ]
}

#[test]
fn messages_survive_the_document() {
    for m in every_kind_of_message() {
        assert_eq!(message_from_json(&message_to_json(&m)), Ok(m));
    }
}

#[test]
fn messages_survive_the_transcript() {
    let messages = every_kind_of_message();
    let mut content = String::new();
    for m in &messages {
        let line = transcript_line(m);
        assert!(!line.contains('\n'));
        assert_eq!(parse_message(&line).as_ref(), Ok(m));
        content.push_str(&line);
        content.push('\n');
        content.push('\n');
    }
    assert_eq!(load_session(&content), Ok(messages));
}

#[test]
fn blocks_survive_the_document() {
    for m in every_kind_of_message() {
        if let Content::Blocks(blocks) = m.content {
            for b in blocks {
                assert_eq!(block_from_json(&block_to_json(&b)), Some(b));
            }
        }
    }
}

#[test]
fn transcript_lines_look_as_the_service_wants_them() {
    let m = Message {
        role: Role::User,
        content: Content::Text("hi".to_string()),
    };
    assert_eq!(transcript_line(&m), "{\"content\":\"hi\",\"role\":\"user\"}");
    let m = Message {
        role: Role::Assistant,
        content: Content::Blocks(vec![
            ContentBlock::Thinking {
                thinking: "t".to_string(),
                signature: String::new(),
            },
            ContentBlock::ToolResult {
                tool_use_id: "x".to_string(),
                content: "c".to_string(),
                is_error: None,
            },
        ]),
    };
    assert_eq!(
        transcript_line(&m),
        "{\"content\":[{\"thinking\":\"t\",\"type\":\"thinking\"},{\"content\":\"c\",\"tool_use_id\":\"x\",\"type\":\"tool_result\"}],\"role\":\"assistant\"}"
    );
}

#[test]
fn messages_are_read_as_the_service_writes_them() {
    assert_eq!(
        parse_message("{\"role\":\"user\",\"content\":\"hi\",\"extra\":1}"),
        Ok(Message {
            role: Role::User,
            content: Content::Text("hi".to_string())
        })
    );
    assert_eq!(
        parse_message(
            "{\"role\":\"assistant\",\"content\":[{\"type\":\"tool_result\",\"tool_use_id\":\"t\",\"content\":\"c\",\"is_error\":null},{\"type\":\"thinking\",\"thinking\":\"x\"}]}"
        ),
        Ok(Message {
            role: Role::Assistant,
            content: Content::Blocks(vec![
                ContentBlock::ToolResult {
                    tool_use_id: "t".to_string(),
                    content: "c".to_string(),
                    is_error: None
                },
                ContentBlock::Thinking {
                    thinking: "x".to_string(),
                    signature: String::new()
                },
            ])
        })
    );
}

fn malformed() -> Result<Message, Error> {
    Err(Error::Json("malformed message".to_string()))
}

#[test]
fn malformed_messages_are_json_errors() {
    for text in [
        "{}",
        "[]",
        "{\"role\":\"user\"}",
        "{\"content\":\"hi\"}",
        "{\"role\":\"system\",\"content\":\"hi\"}",
        "{\"role\":\"user\",\"content\":3}",
        "{\"role\":\"user\",\"content\":null}",
        "{\"role\":\"user\",\"content\":[{\"type\":\"image\"}]}",
        "{\"role\":\"user\",\"content\":[{\"type\":\"text\"}]}",
        "{\"role\":\"user\",\"content\":[{\"text\":\"no type\"}]}",
        "{\"role\":\"user\",\"content\":[{\"type\":\"thinking\",\"thinking\":\"x\",\"signature\":null}]}",
        "{\"role\":\"user\",\"content\":[{\"type\":\"tool_use\",\"id\":\"i\",\"name\":\"n\"}]}",
        "{\"role\":\"user\",\"content\":[{\"type\":\"tool_result\",\"tool_use_id\":\"t\",\"content\":\"c\",\"is_error\":\"yes\"}]}",
        "{\"role\":\"user\",\"content\":[\"text\"]}",
    ] {
        assert_eq!(parse_message(text), malformed(), "{text}");
    }
    match parse_message("{\"role\":") {
        Err(Error::Json(text)) => assert!(text.contains("EOF"), "{text}"),
        other => panic!("unexpected: {other:?}"),
    }
}

#[test]
fn a_transcript_fails_at_its_first_bad_line() {
    let content = "{\"role\":\"user\",\"content\":\"one\"}\n\n{\"role\":\"user\"}\nnot json\n";
    assert_eq!(load_session(content), malformed().map(|m| vec![m]));
    assert_eq!(load_session(""), Ok(vec![]));
    assert_eq!(load_session("\n\n"), Ok(vec![]));
    assert_eq!(
        load_session("{\"role\":\"user\",\"content\":\"one\"}\r\n{\"role\":\"assistant\",\"content\":\"two\"}"),
        Ok(vec![
            Message {
                role: Role::User,
                content: Content::Text("one".to_string())
            },
            Message {
                role: Role::Assistant,
                content: Content::Text("two".to_string())
            },
        ])
    );
}

#[test]
fn requests_are_written_as_the_service_wants_them() {
    let messages = vec![Message {
        role: Role::User,
        content: Content::Text("hi".to_string()),
    }];
    let tools = vec![ToolDef {
        name: "ls".to_string(),
        description: "List".to_string(),
        input_schema: Json::Object(vec![("type".to_string(), Json::Str("object".to_string()))]),
        cache_control: Some(CacheControl::ephemeral()),
    }];
    let request = tapir::agent::turn_request("m-1", 1024, 0, "Be brief.", &messages, &tools);
    let body = request_body(&request);
    assert_eq!(
        parse_json(&body),
        parse_json(
            "{\"model\":\"m-1\",\"max_tokens\":1024,\"system\":[{\"type\":\"text\",\"text\":\"Be brief.\",\"cache_control\":{\"type\":\"ephemeral\"}}],\"messages\":[{\"role\":\"user\",\"content\":\"hi\"}],\"tools\":[{\"name\":\"ls\",\"description\":\"List\",\"input_schema\":{\"type\":\"object\"},\"cache_control\":{\"type\":\"ephemeral\"}}],\"stream\":true}"
        )
    );
    assert!(!body.contains("thinking"));
    let request = tapir::agent::turn_request("m-1", 1024, 2000, "Be brief.", &messages, &[]);
    let body = parse_json(&request_body(&request)).unwrap();
    assert_eq!(
        body.get("thinking"),
        parse_json("{\"type\":\"enabled\",\"budget_tokens\":2000}").ok().as_ref()
    );
    assert_eq!(body.get("tools"), Some(&Json::Array(vec![])));
    let request = tapir::agent::summary_request("m-1", &messages, &[]);
    let body = parse_json(&request_body(&request)).unwrap();
    assert_eq!(body.get_u64("max_tokens"), Some(2048));
    let system = SystemBlock::text("x");
    assert!(system.cache_control.is_none());
    assert_eq!(
        body.get("system").map(render_json),
        Some(format!(
            "[{{\"text\":{},\"type\":\"text\"}}]",
            render_json(&Json::Str(request.system[0].text.to_string()))
        ))
    );
}

#[test]
fn the_tools_are_told_to_the_service() {
    let tools = definitions();
    let names: Vec<&str> = tools.iter().map(|t| t.name.as_str()).collect();
    assert_eq!(
        names,
        vec!["read_file", "write_file", "edit_file", "bash", "ls", "find", "grep"]
    );
    for (i, tool) in tools.iter().enumerate() {
        assert_eq!(tool.cache_control.is_some(), i == 6, "{}", tool.name);
        assert_eq!(tool.input_schema.get_str("type"), Some("object"));
        assert!(tool.input_schema.get("properties").is_some());
    }
    assert_eq!(tools[6].cache_control.as_ref().unwrap().kind, "ephemeral");
    assert_eq!(
        render_json(&tools[0].input_schema),
        "{\"properties\":{\"limit\":{\"description\":\"Maximum number of lines to read\",\"type\":\"integer\"},\"offset\":{\"description\":\"Line number to start from (1-indexed, default: 1)\",\"type\":\"integer\"},\"path\":{\"description\":\"Path to the file to read\",\"type\":\"string\"}},\"required\":[\"path\"],\"type\":\"object\"}"
    );
    assert_eq!(
        render_json(&tools[4].input_schema),
        "{\"properties\":{\"path\":{\"description\":\"Directory to list (default: working directory)\",\"type\":\"string\"}},\"type\":\"object\"}"
    );
    assert_eq!(
        tools[5]
            .input_schema
            .get("properties")
            .and_then(|p| p.get("pattern"))
            .and_then(|p| p.get_str("description")),
        Some("Glob pattern to search for (e.g. \"*.rs\", \"test_*\")")
    );
    assert_eq!(
        tools[2].description,
        "Edit a file by replacing a string match with new content. The old_string must appear exactly once in the file. Supports fuzzy matching for whitespace and unicode variations."
    );
    assert_eq!(
        tools[3].input_schema.get("required"),
        Some(&Json::Array(vec![Json::Str("command".to_string())]))
    );
}

fn sample_index() -> SessionIndex {
    let mut index = empty_index("");
    let mut first = create_entry(
        "/s",
        "/w",
        "id-1".to_string(),
        "2026-01-01T00:00:00.000Z".to_string(),
        "main".to_string(),
    );
    first.message_count = 4;
    first.first_prompt = "fix \"it\"".to_string();
    update_entry(&mut index, &first);
    let second = create_entry(
        "/s",
        "/w",
        "id-2".to_string(),
        "2026-01-02T00:00:00.000Z".to_string(),
        String::new(),
    );
    update_entry(&mut index, &second);
    index
}

#[test]
fn the_index_survives_its_file() {
    let index = sample_index();
    assert_eq!(index_from_json(&index_to_json(&index)), Some(sample_index()));
    let text = save_index(&index).unwrap();
    assert!(text.starts_with("{\n  \"entries\": [\n    {\n      \"created\": \"2026-01-01T00:00:00.000Z\",\n"));
    assert!(text.contains("\n      \"firstPrompt\": \"fix \\\"it\\\"\",\n"));
    assert!(text.contains("\n      \"messageCount\": 4,\n"));
    assert!(text.ends_with("\n  ],\n  \"originalPath\": \"/w\",\n  \"version\": 1\n}"));
    assert_eq!(load_index(Some(&text)), index);
}

#[test]
fn an_index_that_cannot_be_read_is_empty() {
    let empty = empty_index("");
    assert_eq!(load_index(None), empty);
    assert_eq!(load_index(Some("")), empty);
    assert_eq!(load_index(Some("not json")), empty);
    assert_eq!(load_index(Some("{}")), empty);
    assert_eq!(
        load_index(Some("{\"version\":1,\"entries\":{},\"originalPath\":\"/w\"}")),
        empty
    );
    assert_eq!(
        load_index(Some("{\"version\":1,\"entries\":[{}],\"originalPath\":\"/w\"}")),
        empty
    );
    assert_eq!(
        load_index(Some("{\"version\":4294967296,\"entries\":[],\"originalPath\":\"/w\"}")),
        empty
    );
    assert_eq!(
        load_index(Some("{\"version\":2,\"entries\":[],\"originalPath\":\"/w\"}")),
        SessionIndex {
            version: 2,
            entries: vec![],
            original_path: "/w".to_string()
        }
    );
}

#[test]
fn numbers_keep_their_kind() {
    let doc = parse_json("[0, 18446744073709551615, -1, -9223372036854775808, 1.5, 1e3, 18446744073709551616]").unwrap();
    assert_eq!(
        doc,
        Json::Array(vec![
            Json::Number(JsonNumber::Unsigned(0)),
            Json::Number(JsonNumber::Unsigned(u64::MAX)),
            Json::Number(JsonNumber::Negative(-1)),
            Json::Number(JsonNumber::Negative(i64::MIN)),
            Json::Number(JsonNumber::Real("1.5".to_string())),
            Json::Number(JsonNumber::Real("1000.0".to_string())),
            Json::Number(JsonNumber::Real("1.8446744073709552e+19".to_string())),
        ])
    );
    assert_eq!(
        render_json(&doc),
        "[0,18446744073709551615,-1,-9223372036854775808,1.5,1000.0,1.8446744073709552e+19]"
    );
    assert_eq!(parse_json(&render_json(&doc)), Ok(doc.clone()));
    assert_eq!(doc.copy_of(), doc);
    assert_eq!(
        render_json(&Json::Number(JsonNumber::Real("not a number".to_string()))),
        "null"
    );
}
