use tapir::error::Error;
use tapir::json::parse_json;
use tapir::signal::Interrupt;
use tapir::sse::{
    event_from_payload, has_payload, parse_event, stop_reason_of, BlockStart, Delta, Frame,
    SseEvent, SseReader,
};
use tapir::types::StopReason;

fn lines(text: &str) -> Vec<String> {
    text.split_inclusive('\n').map(str::to_string).collect()
}

#[test]
fn unknown_event_types_are_pings() {
    assert_eq!(parse_event("ping", "{}"), Ok(SseEvent::Ping));
    assert_eq!(parse_event("future_event", "{\"x\": 1}"), Ok(SseEvent::Ping));
    assert_eq!(parse_event("future_event", "not json"), Ok(SseEvent::Ping));
    assert_eq!(parse_event("", ""), Ok(SseEvent::Ping));
    assert_eq!(parse_event("MESSAGE_STOP", "{}"), Ok(SseEvent::Ping));
    assert_eq!(
        event_from_payload("error", Err("whatever".to_string())),
        Ok(SseEvent::Ping)
    );
}

#[test]
fn unknown_event_types_do_not_end_the_stream() {
    let mut reader = SseReader::new(lines(
        "event: future_event\ndata: {\"new\": true}\n\nevent: message_stop\ndata: {\"type\":\"message_stop\"}\n\n",
    ));
    let flag = Interrupt::new();
    assert_eq!(reader.next_event(&flag), Ok(Some(SseEvent::Ping)));
    assert_eq!(reader.next_event(&flag), Ok(Some(SseEvent::MessageStop)));
    assert_eq!(reader.next_event(&flag), Ok(None));
}

#[test]
fn message_start_reads_the_usage() {
    let data = "{\"type\":\"message_start\",\"message\":{\"id\":\"m\",\"usage\":{\"input_tokens\":100,\"cache_creation_input_tokens\":7,\"cache_read_input_tokens\":9,\"output_tokens\":1}}}";
    assert_eq!(
        parse_event("message_start", data),
        Ok(SseEvent::MessageStart {
            input_tokens: 100,
            cache_creation: 7,
            cache_read: 9
        })
    );
    assert_eq!(
        parse_event("message_start", "{\"message\":{\"usage\":{}}}"),
        Ok(SseEvent::MessageStart {
            input_tokens: 0,
            cache_creation: 0,
            cache_read: 0
        })
    );
}

fn malformed(event_type: &str) -> Result<SseEvent, Error> {
    Err(Error::Json(format!("malformed payload of event {event_type}")))
}

#[test]
fn malformed_payloads_are_json_errors() {
    assert_eq!(parse_event("message_start", "{}"), malformed("message_start"));
    assert_eq!(
        parse_event("message_start", "{\"message\":{\"usage\":3}}"),
        malformed("message_start")
    );
    assert_eq!(
        parse_event("message_start", "{\"message\":{\"usage\":{\"input_tokens\":-1}}}"),
        malformed("message_start")
    );
    assert_eq!(
        parse_event(
            "message_start",
            "{\"message\":{\"usage\":{\"input_tokens\":4294967296}}}"
        ),
        malformed("message_start")
    );
    assert_eq!(
        parse_event(
            "message_start",
            "{\"message\":{\"usage\":{\"input_tokens\":4294967295}}}"
        ),
        Ok(SseEvent::MessageStart {
            input_tokens: u32::MAX,
            cache_creation: 0,
            cache_read: 0
        })
    );
    assert_eq!(
        parse_event("message_start", "{\"message\":{\"usage\":{\"output_tokens\":null}}}"),
        malformed("message_start")
    );
    assert_eq!(parse_event("content_block_stop", "{}"), malformed("content_block_stop"));
    assert_eq!(
        parse_event("content_block_stop", "{\"index\":1.5}"),
        malformed("content_block_stop")
    );
    assert_eq!(
        parse_event(
            "content_block_start",
            "{\"index\":0,\"content_block\":{\"type\":\"image\"}}"
        ),
        malformed("content_block_start")
    );
    assert_eq!(
        parse_event(
            "content_block_start",
            "{\"index\":0,\"content_block\":{\"type\":\"tool_use\",\"id\":\"t\"}}"
        ),
        malformed("content_block_start")
    );
    assert_eq!(
        parse_event(
            "content_block_delta",
            "{\"index\":0,\"delta\":{\"type\":\"text_delta\",\"thinking\":\"x\"}}"
        ),
        malformed("content_block_delta")
    );
    assert_eq!(
        parse_event(
            "message_delta",
            "{\"delta\":{\"stop_reason\":\"refusal\"},\"usage\":{}}"
        ),
        malformed("message_delta")
    );
    assert_eq!(
        parse_event("message_delta", "{\"delta\":{\"stop_reason\":null},\"usage\":{}}"),
        malformed("message_delta")
    );
    assert_eq!(
        parse_event("message_delta", "{\"delta\":{\"stop_reason\":\"end_turn\"}}"),
        malformed("message_delta")
    );
}

#[test]
fn payloads_that_are_no_json_carry_the_parser_message() {
    match parse_event("content_block_stop", "{\"index\":") {
        Err(Error::Json(message)) => {
            assert!(message.contains("EOF"), "got: {message}");
            assert!(message.contains("line 1 column 9"), "got: {message}");
        }
        other => panic!("unexpected: {other:?}"),
    }
    assert_eq!(
        event_from_payload("content_block_stop", Err("the message".to_string())),
        Err(Error::Json("the message".to_string()))
    );
}

#[test]
fn content_block_events_are_decoded() {
    assert_eq!(
        parse_event(
            "content_block_start",
            "{\"type\":\"content_block_start\",\"index\":0,\"content_block\":{\"type\":\"thinking\",\"thinking\":\"\"}}"
        ),
        Ok(SseEvent::ContentBlockStart {
            index: 0,
            block: BlockStart::Thinking
        })
    );
    assert_eq!(
        parse_event(
            "content_block_start",
            "{\"index\":1,\"content_block\":{\"type\":\"text\",\"text\":\"\"}}"
        ),
        Ok(SseEvent::ContentBlockStart {
            index: 1,
            block: BlockStart::Text
        })
    );
    assert_eq!(
        parse_event(
            "content_block_start",
            "{\"index\":2,\"content_block\":{\"type\":\"tool_use\",\"id\":\"toolu_1\",\"name\":\"bash\",\"input\":{}}}"
        ),
        Ok(SseEvent::ContentBlockStart {
            index: 2,
            block: BlockStart::ToolUse {
                id: "toolu_1".to_string(),
                name: "bash".to_string()
            }
        })
    );
    let delta = |body: &str| {
        parse_event(
            "content_block_delta",
            &format!("{{\"index\":3,\"delta\":{body}}}"),
        )
    };
    assert_eq!(
        delta("{\"type\":\"thinking_delta\",\"thinking\":\"hm\"}"),
        Ok(SseEvent::ContentBlockDelta {
            index: 3,
            delta: Delta::Thinking("hm".to_string())
        })
    );
    assert_eq!(
        delta("{\"type\":\"signature_delta\",\"signature\":\"c2ln\"}"),
        Ok(SseEvent::ContentBlockDelta {
            index: 3,
            delta: Delta::Signature("c2ln".to_string())
        })
    );
    assert_eq!(
        delta("{\"type\":\"text_delta\",\"text\":\"hi\\nthere\"}"),
        Ok(SseEvent::ContentBlockDelta {
            index: 3,
            delta: Delta::Text("hi\nthere".to_string())
        })
    );
    assert_eq!(
        delta("{\"type\":\"input_json_delta\",\"partial_json\":\"{\\\"pa\"}"),
        Ok(SseEvent::ContentBlockDelta {
            index: 3,
            delta: Delta::InputJson("{\"pa".to_string())
        })
    );
    assert_eq!(
        parse_event("content_block_stop", "{\"type\":\"content_block_stop\",\"index\":3}"),
        Ok(SseEvent::ContentBlockStop { index: 3 })
    );
    assert_eq!(
        event_from_payload("content_block_stop", parse_json("{\"index\":4}")),
        Ok(SseEvent::ContentBlockStop { index: 4 })
    );
}

#[test]
fn message_delta_reads_reason_and_tokens() {
    for (name, reason) in [
        ("end_turn", StopReason::EndTurn),
        ("max_tokens", StopReason::MaxTokens),
        ("stop_sequence", StopReason::StopSequence),
        ("tool_use", StopReason::ToolUse),
    ] {
        assert_eq!(stop_reason_of(name), Some(reason));
        assert_eq!(
            parse_event(
                "message_delta",
                &format!("{{\"delta\":{{\"stop_reason\":\"{name}\",\"stop_sequence\":null}},\"usage\":{{\"output_tokens\":15}}}}")
            ),
            Ok(SseEvent::MessageDelta {
                stop_reason: reason,
                output_tokens: 15
            })
        );
    }
    assert_eq!(stop_reason_of("pause_turn"), None);
    assert_eq!(parse_event("message_stop", "anything"), Ok(SseEvent::MessageStop));
}

#[test]
fn event_types_with_payload() {
    for t in [
        "message_start",
        "content_block_start",
        "content_block_delta",
        "content_block_stop",
        "message_delta",
    ] {
        assert!(has_payload(t));
    }
    for t in ["message_stop", "ping", "error", ""] {
        assert!(!has_payload(t));
    }
}

#[test]
fn frames_gather_type_and_payload() {
    let mut frame = Frame::new();
    assert!(!frame.accept(": keep-alive\n"));
    assert!(!frame.accept("\n"));
    assert!(!frame.accept("event: content_block_stop\r\n"));
    assert!(!frame.accept("\n"));
    assert_eq!(frame.event_type, "content_block_stop");
    assert!(!frame.accept("id: 7\n"));
    assert!(!frame.accept("data: {\"index\":\n"));
    assert!(!frame.accept("data:  3}\r\r\n"));
    assert!(!frame.accept("data:no space\n"));
    assert!(!frame.accept("event:no space\n"));
    assert_eq!(frame.data, "{\"index\":\n 3}");
    assert!(frame.accept("\r\n"));
    assert_eq!(frame.event_type, "content_block_stop");
    assert_eq!(frame.data, "{\"index\":\n 3}");
    assert_eq!(
        parse_event(&frame.event_type, &frame.data),
        Ok(SseEvent::ContentBlockStop { index: 3 })
    );
}

#[test]
fn frames_take_lines_without_endings() {
    let mut frame = Frame::new();
    assert!(!frame.accept("data: "));
    assert!(!frame.accept(""));
    assert!(!frame.accept("data: x"));
    assert_eq!(frame.data, "x");
    assert!(!frame.accept("data: "));
    assert_eq!(frame.data, "x\n");
    assert!(frame.accept(""));
}

#[test]
fn the_reader_stops_at_the_end_and_on_cancellation() {
    let text = "event: ping\ndata: {}\n\nevent: content_block_stop\ndata: {\"index\":0}\n";
    let mut reader = SseReader::new(lines(text));
    let mut flag = Interrupt::new();
    assert_eq!(reader.next_event(&flag), Ok(Some(SseEvent::Ping)));
    assert_eq!(reader.next, 3);
    flag.raised = true;
    assert_eq!(reader.next_event(&flag), Ok(None));
    assert_eq!(reader.next, 3);
    flag.raised = false;
    // The last event has no blank line behind it: it is never handed on.
    assert_eq!(reader.next_event(&flag), Ok(None));
    assert_eq!(reader.next, 5);
    assert_eq!(reader.next_event(&flag), Ok(None));
}

#[test]
fn the_reader_hands_on_decoding_failures() {
    let mut reader = SseReader::new(lines(
        "event: content_block_stop\ndata: {}\n\nevent: ping\ndata: {}\n\n",
    ));
    let flag = Interrupt::new();
    assert_eq!(reader.next_event(&flag), malformed("content_block_stop").map(Some));
    assert_eq!(reader.next_event(&flag), Ok(Some(SseEvent::Ping)));
}

#[test]
fn events_without_type_are_pings() {
    let mut reader = SseReader::new(lines("data: {\"a\":1}\n\n"));
    assert_eq!(reader.next_event(&Interrupt::new()), Ok(Some(SseEvent::Ping)));
}
