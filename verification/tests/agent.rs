use tapir::agent::{
    answers_calls, collect_in_order, compact, find_cut_point, input_event, needs_compaction,
    next_phase, results_message, serialize_for_summary, summary_messages, summary_request,
    summary_step, thinking_config, tool_calls, tool_result, turn_message, turn_request,
    user_message, worker_start, Exit, LoopEvent, Phase, Session, ToolCall, COMPACT_THRESHOLD,
    KEEP_RECENT_TOKENS,
};
use tapir::command::InputResult;
use tapir::error::Error;
use tapir::json::{parse_json, Json};
use tapir::session::create_entry;
use tapir::signal::{clear, is_interrupted, Interrupt};
use tapir::sse::{Delta, SseEvent};
use tapir::stream::StreamResult;
use tapir::types::{Content, ContentBlock, Message, Role, StopReason, Usage};

fn user(text: &str) -> Message {
    Message {
        role: Role::User,
        content: Content::Text(text.to_string()),
    }
}

fn assistant(text: &str) -> Message {
    Message {
        role: Role::Assistant,
        content: Content::Text(text.to_string()),
    }
}

fn tool_use(id: &str) -> Message {
    Message {
        role: Role::Assistant,
        content: Content::Blocks(vec![ContentBlock::ToolUse {
            id: id.to_string(),
            name: "bash".to_string(),
            input: parse_json("{\"command\":\"ls\"}").unwrap(),
        }]),
    }
}

fn tool_answer(id: &str) -> Message {
    Message {
        role: Role::User,
        content: Content::Blocks(vec![ContentBlock::ToolResult {
            tool_use_id: id.to_string(),
            content: "ok".to_string(),
            is_error: None,
        }]),
    }
}

fn chat(n: usize) -> Vec<Message> {
    (0..n)
        .map(|i| {
            if i % 2 == 0 {
                user(&format!("q{i}"))
            } else {
                assistant(&format!("a{i}"))
            }
        })
        .collect()
}

#[test]
fn short_histories_are_never_cut() {
    for n in 0..6 {
        for tokens in [0u32, 1, 40_000, 160_001, 200_000, u32::MAX] {
            assert_eq!(find_cut_point(&chat(n), tokens), 0, "{n} messages, {tokens} tokens");
        }
    }
}

#[test]
fn cut_keeps_the_share_of_the_budget() {
    // 20 messages at 200000 tokens: a fifth is kept, 4 messages, so the
    // cut is meant at 16, which is a message of the user.
    assert_eq!(find_cut_point(&chat(20), 200_000), 16);
    // 21 messages: ceil(21 / 5) = 5 are kept; 16 starts a turn.
    assert_eq!(find_cut_point(&chat(21), 200_000), 16);
    // 40 messages at 160001 tokens: ceil(40 * 40000 / 160001) = 10.
    assert_eq!(find_cut_point(&chat(40), 160_001), 30);
    // Exactly a quarter: 10 of 40, no rounding up.
    assert_eq!(find_cut_point(&chat(40), 160_000), 30);
    // One token fewer, and the share is just over a quarter: 11.
    assert_eq!(find_cut_point(&chat(40), 159_999), 30);
    assert_eq!(find_cut_point(&chat(41), 159_999), 30);
}

#[test]
fn cut_never_keeps_fewer_than_four() {
    // The share would be 1 message of 6; 4 are kept, so the cut is meant
    // at 2.
    assert_eq!(find_cut_point(&chat(6), u32::MAX), 2);
    assert_eq!(find_cut_point(&chat(7), u32::MAX), 4);
    assert_eq!(KEEP_RECENT_TOKENS, 40_000);
}

#[test]
fn cut_is_skipped_when_everything_would_be_kept() {
    assert_eq!(find_cut_point(&chat(10), 40_000), 0);
    assert_eq!(find_cut_point(&chat(10), 1), 0);
    assert_eq!(find_cut_point(&chat(10), 0), 0);
    assert_eq!(find_cut_point(&chat(10), 44_444), 0);
    assert_eq!(find_cut_point(&chat(10), 44_445), 2);
}

#[test]
fn cut_moves_forward_to_a_turn_start() {
    let mut messages = chat(6);
    messages.push(tool_use("t1"));
    messages.push(tool_answer("t1"));
    messages.push(tool_use("t2"));
    messages.push(tool_answer("t2"));
    messages.push(assistant("done"));
    messages.push(user("next"));
    messages.push(assistant("sure"));
    // 13 messages, 4 kept: meant at 9, a tool result; the next plain
    // message of the user is at 11.
    assert_eq!(find_cut_point(&messages, u32::MAX), 11);
    let cut = find_cut_point(&messages, 100_000);
    // ceil(13 * 0.4) = 6 kept: meant at 7, a tool result; 11 again.
    assert_eq!(cut, 11);
    assert!(matches!(
        &messages[cut],
        Message {
            role: Role::User,
            content: Content::Text(_)
        }
    ));
}

#[test]
fn cut_is_skipped_without_a_turn_start() {
    let mut messages = chat(6);
    messages.push(tool_use("t1"));
    messages.push(tool_answer("t1"));
    messages.push(tool_use("t2"));
    messages.push(tool_answer("t2"));
    assert_eq!(find_cut_point(&messages, u32::MAX), 0);
}

#[test]
fn compaction_is_due_above_the_threshold() {
    assert_eq!(COMPACT_THRESHOLD, 160_000);
    assert!(!needs_compaction(160_000));
    assert!(needs_compaction(160_001));
    assert!(!needs_compaction(0));
}

#[test]
fn compact_replaces_the_prefix_by_two_messages() {
    let mut messages = chat(8);
    compact(&mut messages, 6, "what happened");
    assert_eq!(
        messages,
        vec![
            user("<context>\nwhat happened\n</context>"),
            assistant("Understood, continuing from where we left off."),
            user("q6"),
            assistant("a7"),
        ]
    );
}

#[test]
fn compact_changes_nothing_without_a_cut() {
    let mut messages = chat(8);
    compact(&mut messages, 0, "unused");
    assert_eq!(messages, chat(8));
}

#[test]
fn compact_at_the_end_keeps_only_the_summary() {
    let mut messages = chat(3);
    compact(&mut messages, 3, "");
    assert_eq!(
        messages,
        vec![
            user("<context>\n\n</context>"),
            assistant("Understood, continuing from where we left off."),
        ]
    );
}

#[test]
fn summary_transcript_has_one_line_for_each_block() {
    let messages = vec![
        user("fix the bug"),
        Message {
            role: Role::Assistant,
            content: Content::Blocks(vec![
                ContentBlock::Thinking {
                    thinking: "hm".to_string(),
                    signature: "sig".to_string(),
                },
                ContentBlock::Text {
                    text: "Looking.".to_string(),
                },
                ContentBlock::ToolUse {
                    id: "t1".to_string(),
                    name: "read_file".to_string(),
                    input: parse_json("{\"path\": \"a.rs\", \"limit\": 2}").unwrap(),
                },
            ]),
        },
        Message {
            role: Role::User,
            content: Content::Blocks(vec![
                ContentBlock::ToolResult {
                    tool_use_id: "t1".to_string(),
                    content: "1\tfn main() {}".to_string(),
                    is_error: None,
                },
                ContentBlock::ToolResult {
                    tool_use_id: "t2".to_string(),
                    content: "boom".to_string(),
                    is_error: Some(true),
                },
                ContentBlock::ToolResult {
                    tool_use_id: "t3".to_string(),
                    content: "fine".to_string(),
                    is_error: Some(false),
                },
            ]),
        },
        assistant("Done."),
    ];
    assert_eq!(
        serialize_for_summary(&messages),
        "[User]: fix the bug\n[Assistant]: Looking.\n[Tool call]: read_file({\"limit\":2,\"path\":\"a.rs\"})\n[Tool result]: 1\tfn main() {}\n[Tool error]: boom\n[Tool result]: fine\n[Assistant]: Done.\n"
    );
    assert_eq!(serialize_for_summary(&[]), "");
}

#[test]
fn summary_transcript_cuts_long_results() {
    let long = "x".repeat(2001);
    let messages = vec![Message {
        role: Role::User,
        content: Content::Blocks(vec![ContentBlock::ToolResult {
            tool_use_id: "t".to_string(),
            content: long,
            is_error: None,
        }]),
    }];
    assert_eq!(
        serialize_for_summary(&messages),
        format!(
            "[Tool result]: {}...\n(truncated, 2001 bytes total)\n",
            "x".repeat(2000)
        )
    );
}

#[test]
fn summary_request_asks_without_tools() {
    let messages = summary_messages("[User]: hi\n");
    assert_eq!(messages, vec![user("[User]: hi\n")]);
    let request = summary_request("model-x", &messages, &[]);
    assert_eq!(request.model, "model-x");
    assert_eq!(request.max_tokens, 2048);
    assert!(request.thinking.is_none());
    assert_eq!(request.system.len(), 1);
    assert_eq!(request.system[0].kind, "text");
    assert!(request.system[0].text.starts_with("Summarize this coding session. Capture:\n1. The user's goal\n2. "));
    assert!(request.system[0].text.ends_with("4. Current state and next steps\n\nBe concise. Preserve critical context needed to continue the work."));
    assert!(request.system[0].cache_control.is_none());
    assert_eq!(request.messages, &messages[..]);
    assert!(request.tools.is_empty());
    assert!(request.stream);
}

#[test]
fn summary_collects_text_fragments() {
    let mut summary = String::new();
    let text = |s: &str| SseEvent::ContentBlockDelta {
        index: 0,
        delta: Delta::Text(s.to_string()),
    };
    assert!(!summary_step(&mut summary, &SseEvent::Ping));
    assert!(!summary_step(&mut summary, &text("The user ")));
    assert!(!summary_step(
        &mut summary,
        &SseEvent::ContentBlockDelta {
            index: 0,
            delta: Delta::Thinking("ignored".to_string())
        }
    ));
    assert!(!summary_step(&mut summary, &text("asked.")));
    assert!(summary_step(&mut summary, &SseEvent::MessageStop));
    assert_eq!(summary, "The user asked.");
}

fn call(id: &str) -> ToolCall {
    ToolCall {
        id: id.to_string(),
        name: "bash".to_string(),
        input: Json::Object(vec![]),
    }
}

fn result_of(id: &str) -> ContentBlock {
    tool_result(id, Ok(format!("output of {id}"))).0
}

#[test]
fn results_keep_the_order_of_the_calls() {
    // The calls were made as a, b, c; c finished first, then a, then b.
    let finished = vec![(2, result_of("c")), (0, result_of("a")), (1, result_of("b"))];
    let results = collect_in_order(3, &finished).unwrap();
    assert_eq!(results, vec![result_of("a"), result_of("b"), result_of("c")]);
    assert!(answers_calls(&vec![call("a"), call("b"), call("c")], &results));
    assert!(!answers_calls(&vec![call("c"), call("b"), call("a")], &results));
    assert!(!answers_calls(&vec![call("a"), call("b")], &results));
}

#[test]
fn results_must_name_each_call_once() {
    assert_eq!(collect_in_order(0, &vec![]), Some(vec![]));
    assert_eq!(collect_in_order(1, &vec![]), None);
    assert_eq!(collect_in_order(2, &vec![(0, result_of("a")), (0, result_of("b"))]), None);
    assert_eq!(collect_in_order(2, &vec![(0, result_of("a")), (2, result_of("b"))]), None);
    assert_eq!(collect_in_order(1, &vec![(0, result_of("a")), (1, result_of("b"))]), None);
}

#[test]
fn cancelled_before_dispatch_gives_cancelled_results() {
    let mut flag = Interrupt::new();
    tapir::signal::set(&mut flag);
    assert!(is_interrupted(&flag));
    let calls = vec![call("t1"), call("t2")];
    let mut invoked = 0;
    let mut finished = Vec::new();
    for (i, c) in calls.iter().enumerate() {
        let block = match worker_start(&c.id, &flag) {
            Some(block) => block,
            None => {
                invoked += 1;
                tool_result(&c.id, Ok("ran".to_string())).0
            }
        };
        finished.push((i, block));
    }
    assert_eq!(invoked, 0);
    let cancelled = |id: &str| ContentBlock::ToolResult {
        tool_use_id: id.to_string(),
        content: "(cancelled)".to_string(),
        is_error: Some(true),
    };
    assert_eq!(
        collect_in_order(2, &finished),
        Some(vec![cancelled("t1"), cancelled("t2")])
    );
    clear(&mut flag);
    assert!(!is_interrupted(&flag));
    assert_eq!(worker_start("t1", &flag), None);
}

#[test]
fn tool_results_carry_output_or_failure() {
    assert_eq!(
        tool_result("t1", Ok("hello".to_string())),
        (
            ContentBlock::ToolResult {
                tool_use_id: "t1".to_string(),
                content: "hello".to_string(),
                is_error: None
            },
            None
        )
    );
    assert_eq!(
        tool_result(
            "t2",
            Err(Error::Tool {
                name: "bash".to_string(),
                message: "unknown tool".to_string()
            })
        ),
        (
            ContentBlock::ToolResult {
                tool_use_id: "t2".to_string(),
                content: "tool bash: unknown tool".to_string(),
                is_error: Some(true)
            },
            Some("* error: tool bash: unknown tool".to_string())
        )
    );
    let (block, _) = tool_result("t3", Ok("y".repeat(50_001)));
    assert_eq!(
        block,
        ContentBlock::ToolResult {
            tool_use_id: "t3".to_string(),
            content: format!("{}...\n(truncated, 50001 bytes total)", "y".repeat(50_000)),
            is_error: None
        }
    );
    let (block, _) = tool_result("t4", Ok(String::new()));
    assert_eq!(
        block,
        ContentBlock::ToolResult {
            tool_use_id: "t4".to_string(),
            content: String::new(),
            is_error: None
        }
    );
}

#[test]
fn tool_calls_are_taken_in_order() {
    let content = vec![
        ContentBlock::Text {
            text: "I will look.".to_string(),
        },
        ContentBlock::ToolUse {
            id: "a".to_string(),
            name: "ls".to_string(),
            input: Json::Object(vec![]),
        },
        ContentBlock::Thinking {
            thinking: String::new(),
            signature: String::new(),
        },
        ContentBlock::ToolUse {
            id: "b".to_string(),
            name: "bash".to_string(),
            input: parse_json("{\"command\":\"pwd\"}").unwrap(),
        },
    ];
    assert_eq!(
        tool_calls(&content),
        vec![
            ToolCall {
                id: "a".to_string(),
                name: "ls".to_string(),
                input: Json::Object(vec![])
            },
            ToolCall {
                id: "b".to_string(),
                name: "bash".to_string(),
                input: parse_json("{\"command\":\"pwd\"}").unwrap()
            },
        ]
    );
    assert!(tool_calls(&vec![]).is_empty());
}

fn finished(stop_reason: StopReason, interrupted: bool, empty: bool) -> LoopEvent {
    LoopEvent::TurnFinished {
        stop_reason,
        interrupted,
        empty,
    }
}

#[test]
fn the_turn_loop_follows_its_transitions() {
    assert_eq!(next_phase(Phase::AwaitingInput, LoopEvent::InputReady), (Phase::Requesting, None));
    assert_eq!(
        next_phase(Phase::Requesting, finished(StopReason::ToolUse, false, false)),
        (Phase::DispatchingTools, None)
    );
    assert_eq!(next_phase(Phase::DispatchingTools, LoopEvent::ToolsFinished), (Phase::Requesting, None));
    assert_eq!(
        next_phase(Phase::Requesting, finished(StopReason::EndTurn, false, false)),
        (Phase::AwaitingInput, None)
    );
    assert_eq!(
        next_phase(Phase::Requesting, finished(StopReason::StopSequence, false, false)),
        (Phase::AwaitingInput, None)
    );
    assert_eq!(
        next_phase(Phase::Requesting, finished(StopReason::MaxTokens, false, false)),
        (Phase::Terminal, Some(Exit::Truncated))
    );
    assert_eq!(
        next_phase(Phase::Requesting, finished(StopReason::MaxTokens, true, false)),
        (Phase::Terminal, Some(Exit::Truncated))
    );
    assert_eq!(
        next_phase(Phase::Requesting, finished(StopReason::MaxTokens, true, true)),
        (Phase::AwaitingInput, None)
    );
    assert_eq!(
        next_phase(Phase::Requesting, finished(StopReason::ToolUse, true, false)),
        (Phase::AwaitingInput, None)
    );
    assert_eq!(next_phase(Phase::Requesting, LoopEvent::RequestFailed), (Phase::AwaitingInput, None));
    assert_eq!(
        next_phase(Phase::AwaitingInput, LoopEvent::NewRequested),
        (Phase::Terminal, Some(Exit::Restart))
    );
    for phase in [Phase::AwaitingInput, Phase::Requesting, Phase::DispatchingTools] {
        assert_eq!(
            next_phase(phase, LoopEvent::QuitRequested),
            (Phase::Terminal, Some(Exit::Quit))
        );
    }
    for event in [
        LoopEvent::InputReady,
        LoopEvent::QuitRequested,
        LoopEvent::NewRequested,
        LoopEvent::RequestFailed,
        LoopEvent::ToolsFinished,
        finished(StopReason::EndTurn, false, false),
    ] {
        assert_eq!(next_phase(Phase::Terminal, event), (Phase::Terminal, None));
    }
    assert_eq!(next_phase(Phase::Requesting, LoopEvent::InputReady), (Phase::Requesting, None));
    assert_eq!(next_phase(Phase::Requesting, LoopEvent::NewRequested), (Phase::Requesting, None));
    assert_eq!(next_phase(Phase::AwaitingInput, LoopEvent::ToolsFinished), (Phase::AwaitingInput, None));
}

#[test]
fn input_results_move_the_loop() {
    assert_eq!(input_event(InputResult::Ready), Some(LoopEvent::InputReady));
    assert_eq!(input_event(InputResult::Continue), None);
    assert_eq!(input_event(InputResult::Quit), Some(LoopEvent::QuitRequested));
    assert_eq!(input_event(InputResult::New), Some(LoopEvent::NewRequested));
}

fn session() -> Session {
    let entry = create_entry(
        "/s",
        "/w",
        "id".to_string(),
        "2026-01-01T00:00:00.000Z".to_string(),
        "main".to_string(),
    );
    Session::new(entry, "/s/id.jsonl".to_string())
}

fn usage(input: u32, output: u32) -> Usage {
    Usage {
        input_tokens: input,
        output_tokens: output,
        cache_creation_input_tokens: 0,
        cache_read_input_tokens: 0,
    }
}

#[test]
fn a_turn_joins_the_history_and_the_totals() {
    let mut s = session();
    s.add_user_message("hi");
    let event = s.record_turn(StreamResult {
        content: vec![ContentBlock::ToolUse {
            id: "t1".to_string(),
            name: "ls".to_string(),
            input: Json::Object(vec![]),
        }],
        stop_reason: StopReason::ToolUse,
        usage: usage(100, 7),
        interrupted: false,
    });
    assert_eq!(event, finished(StopReason::ToolUse, false, false));
    assert_eq!(s.messages.len(), 2);
    assert_eq!(s.total_input_tokens, 100);
    assert_eq!(s.total_output_tokens, 7);
    assert_eq!(s.last_input_tokens, 100);
    let calls = s.pending_calls();
    assert_eq!(calls.len(), 1);
    assert_eq!(calls[0].id, "t1");
    let results = vec![tool_result("t1", Ok("a.txt\n".to_string())).0];
    assert!(answers_calls(&calls, &results));
    s.record_tool_results(results);
    assert_eq!(s.messages.len(), 3);
    assert_eq!(s.messages[2].role, Role::User);
    assert!(s.pending_calls().is_empty());
    let event = s.record_turn(StreamResult {
        content: vec![ContentBlock::Text {
            text: "One file.".to_string(),
        }],
        stop_reason: StopReason::EndTurn,
        usage: usage(150, 3),
        interrupted: false,
    });
    assert_eq!(event, finished(StopReason::EndTurn, false, false));
    assert_eq!(s.total_input_tokens, 250);
    assert_eq!(s.total_output_tokens, 10);
    assert_eq!(s.last_input_tokens, 150);
    assert_eq!(s.messages.len(), 4);
    assert_eq!(s.due_cut(), 0);
}

#[test]
fn an_empty_interrupted_turn_leaves_no_message() {
    let mut s = session();
    s.add_user_message("hi");
    let event = s.record_turn(StreamResult {
        content: vec![],
        stop_reason: StopReason::EndTurn,
        usage: usage(5, 0),
        interrupted: true,
    });
    assert_eq!(event, finished(StopReason::EndTurn, true, true));
    assert_eq!(s.messages, vec![user("hi")]);
    assert_eq!(s.total_input_tokens, 5);
    let event = s.record_turn(StreamResult {
        content: vec![],
        stop_reason: StopReason::EndTurn,
        usage: usage(5, 0),
        interrupted: false,
    });
    assert_eq!(event, finished(StopReason::EndTurn, false, true));
    assert_eq!(s.messages.len(), 2);
}

#[test]
fn a_cut_is_due_only_above_the_threshold() {
    let mut s = session();
    for m in chat(20) {
        s.push_message(m);
    }
    s.last_input_tokens = 160_000;
    assert_eq!(s.due_cut(), 0);
    s.last_input_tokens = 200_000;
    assert_eq!(s.due_cut(), 16);
}

#[test]
fn requests_carry_the_whole_history() {
    let messages = chat(3);
    let request = turn_request("m", 16384, 0, "You are a coding assistant.", &messages, &[]);
    assert_eq!(request.model, "m");
    assert_eq!(request.max_tokens, 16384);
    assert!(request.thinking.is_none());
    assert_eq!(request.system.len(), 1);
    assert_eq!(request.system[0].kind, "text");
    assert_eq!(request.system[0].text, "You are a coding assistant.");
    assert_eq!(request.system[0].cache_control.as_ref().unwrap().kind, "ephemeral");
    assert_eq!(request.messages, &messages[..]);
    assert!(request.stream);
    let request = turn_request("m", 1, 5000, "p", &messages, &[]);
    let thinking = request.thinking.unwrap();
    assert_eq!(thinking.kind, "enabled");
    assert_eq!(thinking.budget_tokens, 5000);
    assert!(thinking_config(0).is_none());
}

#[test]
fn messages_are_made_before_they_join_the_history() {
    assert_eq!(user_message("hi"), user("hi"));
    let results = vec![tool_result("t", Ok("out".to_string())).0];
    assert_eq!(
        results_message(vec![tool_result("t", Ok("out".to_string())).0]),
        Message {
            role: Role::User,
            content: Content::Blocks(results)
        }
    );
    let kept = StreamResult {
        content: vec![ContentBlock::Text {
            text: "x".to_string(),
        }],
        stop_reason: StopReason::EndTurn,
        usage: usage(1, 1),
        interrupted: true,
    };
    assert_eq!(
        turn_message(&kept),
        Some(Message {
            role: Role::Assistant,
            content: Content::Blocks(vec![ContentBlock::Text {
                text: "x".to_string()
            }])
        })
    );
    let dropped = StreamResult {
        content: vec![],
        stop_reason: StopReason::EndTurn,
        usage: usage(1, 1),
        interrupted: true,
    };
    assert_eq!(turn_message(&dropped), None);
    let empty = StreamResult {
        content: vec![],
        stop_reason: StopReason::EndTurn,
        usage: usage(1, 1),
        interrupted: false,
    };
    assert_eq!(
        turn_message(&empty),
        Some(Message {
            role: Role::Assistant,
            content: Content::Blocks(vec![])
        })
    );
}
