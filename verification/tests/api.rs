use tapir::api::{
    after_failure, api_error, api_error_from, is_retryable, read_api_error, retry_delay,
    RetryStep, MAX_ATTEMPTS,
};
use tapir::types::{ApiError, ApiErrorDetail};
use tapir::error::Error;
use tapir::json::parse_json;

#[test]
fn test_is_retryable_http_error() {
    assert!(is_retryable(&Error::Http("timeout".into())));
}

#[test]
fn test_is_retryable_transient_api_errors() {
    for status in [429, 500, 502, 503, 529] {
        let err = Error::Api {
            status,
            message: "error".into(),
            retry_after: None,
        };
        assert!(is_retryable(&err), "status {status} should be retryable",);
    }
}

#[test]
fn test_not_retryable_client_errors() {
    for status in [400, 401, 403, 404] {
        let err = Error::Api {
            status,
            message: "error".into(),
            retry_after: None,
        };
        assert!(
            !is_retryable(&err),
            "status {status} should not be retryable",
        );
    }
}

#[test]
fn test_not_retryable_other_errors() {
    assert!(!is_retryable(&Error::NoApiKey));
    assert!(!is_retryable(&Error::Json("bad".into())));
}

#[test]
fn test_retry_delay_exponential() {
    let err = Error::Http("timeout".into());
    assert_eq!(retry_delay(&err, 1), 1);
    assert_eq!(retry_delay(&err, 2), 2);
    assert_eq!(retry_delay(&err, 3), 4);
}

#[test]
fn test_retry_delay_respects_retry_after() {
    let err = Error::Api {
        status: 429,
        message: "rate limited".into(),
        retry_after: Some(30),
    };
    assert_eq!(retry_delay(&err, 1), 30);
}

#[test]
fn retry_delay_keeps_the_server_value_on_every_attempt() {
    let err = Error::Api {
        status: 503,
        message: "busy".into(),
        retry_after: Some(7),
    };
    assert_eq!(retry_delay(&err, 1), 7);
    assert_eq!(retry_delay(&err, 2), 7);
    assert_eq!(retry_delay(&err, 3), 7);
    assert_eq!(retry_delay(&Error::Http("x".into()), 64), 1u64 << 63);
}

#[test]
fn io_and_tool_failures_are_not_retried() {
    assert!(!is_retryable(&Error::Io("disk".into())));
    assert!(!is_retryable(&Error::Security("path".into())));
    assert!(!is_retryable(&Error::Tool {
        name: "bash".into(),
        message: "failed".into(),
    }));
}

#[test]
fn after_failure_waits_while_attempts_are_left() {
    let err = Error::Http("timeout".into());
    match after_failure(&err, 1) {
        RetryStep::Wait { delay, notice } => {
            assert_eq!(delay, 1);
            assert_eq!(notice, "* retry 1/3 in 1s (HTTP error: timeout)");
        }
        RetryStep::GiveUp => panic!("expected a retry"),
    }
    match after_failure(&err, 2) {
        RetryStep::Wait { delay, notice } => {
            assert_eq!(delay, 2);
            assert_eq!(notice, "* retry 2/3 in 2s (HTTP error: timeout)");
        }
        RetryStep::GiveUp => panic!("expected a retry"),
    }
}

#[test]
fn after_failure_gives_up_on_the_last_attempt() {
    let err = Error::Http("timeout".into());
    assert!(matches!(after_failure(&err, MAX_ATTEMPTS), RetryStep::GiveUp));
}

#[test]
fn after_failure_gives_up_on_a_terminal_failure() {
    let err = Error::Api {
        status: 400,
        message: "bad request".into(),
        retry_after: None,
    };
    assert!(matches!(after_failure(&err, 1), RetryStep::GiveUp));
    assert!(matches!(
        after_failure(&Error::Json("bad".into()), 1),
        RetryStep::GiveUp
    ));
}

#[test]
fn after_failure_uses_the_server_delay() {
    let err = Error::Api {
        status: 429,
        message: "rate limited".into(),
        retry_after: Some(30),
    };
    match after_failure(&err, 1) {
        RetryStep::Wait { delay, notice } => {
            assert_eq!(delay, 30);
            assert_eq!(notice, "* retry 1/3 in 30s (API error (429): rate limited)");
        }
        RetryStep::GiveUp => panic!("expected a retry"),
    }
}

#[test]
fn api_error_reads_a_structured_body() {
    let body = "{\"type\":\"error\",\"error\":{\"type\":\"overloaded_error\",\"message\":\"Overloaded\"}}";
    match api_error(529, Some("12"), body) {
        Error::Api {
            status,
            message,
            retry_after,
        } => {
            assert_eq!(status, 529);
            assert_eq!(message, "Overloaded");
            assert_eq!(retry_after, Some(12));
        }
        other => panic!("unexpected error: {other:?}"),
    }
}

#[test]
fn api_error_keeps_a_raw_body() {
    match api_error(502, None, "<html>Bad Gateway</html>") {
        Error::Api {
            status,
            message,
            retry_after,
        } => {
            assert_eq!(status, 502);
            assert_eq!(message, "<html>Bad Gateway</html>");
            assert_eq!(retry_after, None);
        }
        other => panic!("unexpected error: {other:?}"),
    }
}

#[test]
fn api_error_wants_type_and_message() {
    let body = "{\"error\":{\"message\":\"no type\"}}";
    match api_error_from(500, Some("soon"), parse_json(body), body) {
        Error::Api {
            message,
            retry_after,
            ..
        } => {
            assert_eq!(message, body);
            assert_eq!(retry_after, None);
        }
        other => panic!("unexpected error: {other:?}"),
    }
}

#[test]
fn api_error_reads_retry_after_as_std_does() {
    for (header, want) in [
        ("30", Some(30u64)),
        ("+5", Some(5)),
        ("", None),
        ("+", None),
        ("-1", None),
        (" 3", None),
        ("18446744073709551615", Some(u64::MAX)),
        ("18446744073709551616", None),
        ("007", Some(7)),
        ("1.5", None),
    ] {
        assert_eq!(header.parse::<u64>().ok(), want);
        match api_error(500, Some(header), "x") {
            Error::Api { retry_after, .. } => assert_eq!(retry_after, want),
            other => panic!("unexpected error: {other:?}"),
        }
    }
}

#[test]
fn structured_error_bodies_are_read() {
    let doc = parse_json("{\"error\":{\"type\":\"rate_limit_error\",\"message\":\"slow down\",\"x\":1}}").unwrap();
    assert_eq!(
        read_api_error(&doc),
        Some(ApiError {
            error: ApiErrorDetail {
                kind: "rate_limit_error".to_string(),
                message: "slow down".to_string()
            }
        })
    );
    for text in [
        "{}",
        "[]",
        "{\"error\":\"text\"}",
        "{\"error\":{\"type\":\"t\"}}",
        "{\"error\":{\"message\":\"m\"}}",
        "{\"error\":{\"type\":1,\"message\":\"m\"}}",
        "{\"error\":{\"type\":\"t\",\"message\":null}}",
    ] {
        assert_eq!(read_api_error(&parse_json(text).unwrap()), None, "{text}");
    }
}
