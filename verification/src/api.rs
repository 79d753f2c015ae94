use crate::error::Error;
use crate::types::{ApiError, ApiErrorDetail};
use crate::json::{Json, json_from_text, JsonView, parse_json};
use crate::text::{decimal, parse_u64, parsed_u64, push_decimal};
use vstd::arithmetic::power2::{lemma2_to64, pow2};
use vstd::bits::{lemma_u64_pow2_no_overflow, lemma_u64_shl_is_mul};
use vstd::prelude::*;
use vstd::string::StringExecFns;

verus! {

/// How often one request is sent before its failure is final.
pub const MAX_ATTEMPTS: u32 = 3;

/// Seconds after which an attempt without answer is given up.
pub const HTTP_TIMEOUT: u64 = 60;

/// The statuses after which the same request is worth sending again.
pub open spec fn retryable_status(status: u16) -> bool {
    status == 429 || status == 500 || status == 502 || status == 503 || status == 529
}

/// The failures after which the same request is worth sending again: a
/// request that got no answer, and an answer with a retryable status.
pub open spec fn retryable(err: Error) -> bool {
    match err {
        Error::Http(_) => true,
        Error::Api { status, .. } => retryable_status(status),
        _ => false,
    }
}

/// Whether the request that failed with `err` is worth sending again.
pub fn is_retryable(err: &Error) -> (again: bool)
    ensures
        again == retryable(*err),
{
    match err {
        Error::Http(_) => true,
        Error::Api { status, .. } => {
            *status == 429 || *status == 500 || *status == 502 || *status == 503 || *status == 529
        },
        _ => false,
    }
}

/// Seconds to wait after the failed attempt number `attempt` (from 1): the
/// server's own figure where it gave one, else 1 for the first attempt and
/// twice as much for each further one.
pub open spec fn delay_for(err: Error, attempt: nat) -> nat {
    match err {
        Error::Api { retry_after: Some(secs), .. } => secs as nat,
        _ => pow2((attempt - 1) as nat),
    }
}

/// Seconds to wait after the failed attempt number `attempt` (from 1).
pub fn retry_delay(err: &Error, attempt: u32) -> (delay: u64)
    requires
        1 <= attempt <= 64,
    ensures
        delay == delay_for(*err, attempt as nat),
{
    if let Error::Api { retry_after: Some(secs), .. } = err {
        return *secs;
    }
    let shift: u64 = (attempt - 1) as u64;
    proof {
        lemma_u64_pow2_no_overflow(shift as nat);
        lemma_u64_shl_is_mul(1, shift);
    }
    1u64 << shift
}

/// Without a figure from the server the wait is 1, 2 and 4 seconds after
/// the first three attempts, and doubles with every attempt; with one, it
/// is that figure whatever the attempt.
pub proof fn lemma_retry_delays(err: Error, attempt: nat)
    requires
        attempt >= 1,
    ensures
        err matches Error::Api { retry_after: Some(secs), .. } ==> delay_for(err, attempt) == secs,
        !(err matches Error::Api { retry_after: Some(_), .. }) ==> {
            &&& delay_for(err, 1) == 1
            &&& delay_for(err, 2) == 2
            &&& delay_for(err, 3) == 4
            &&& delay_for(err, attempt + 1) == 2 * delay_for(err, attempt)
        },
{
    lemma2_to64();
    vstd::arithmetic::power2::lemma_pow2_unfold(attempt);
}

/// The statuses 429, 500, 502, 503 and 529 are worth another attempt, and
/// so is a request that got no answer; 400, 401, 403 and 404 are not, nor
/// is any failure that is neither a status nor a lost request.
pub proof fn lemma_retryable_statuses(err: Error)
    ensures
        err is Http ==> retryable(err),
        err matches Error::Api { status, .. } ==> (retryable(err) <==> status == 429 || status
            == 500 || status == 502 || status == 503 || status == 529),
        err matches Error::Api { status, .. } && (status == 400 || status == 401 || status == 403
            || status == 404) ==> !retryable(err),
        !(err is Http) && !(err is Api) ==> !retryable(err),
{
}

/// What the sender does after a failed attempt.
#[derive(Debug)]
pub enum RetryStep {
    /// Tell the operator, wait `delay` seconds, send again.
    Wait { delay: u64, notice: String },
    /// Hand the failure to the caller.
    GiveUp,
}

/// The line that announces a retry to the operator.
pub open spec fn retry_notice(err: Error, attempt: nat) -> Seq<char> {
    "* retry "@ + decimal(attempt) + "/"@ + decimal(MAX_ATTEMPTS as nat) + " in "@ + decimal(
        delay_for(err, attempt),
    ) + "s ("@ + err.text() + ")"@
}

/// Decides what follows the failure `err` of attempt number `attempt`
/// (from 1): another attempt while attempts are left and the failure is
/// retryable, else the end.
pub fn after_failure(err: &Error, attempt: u32) -> (step: RetryStep)
    requires
        1 <= attempt <= MAX_ATTEMPTS,
    ensures
        attempt < MAX_ATTEMPTS && retryable(*err) ==> (step matches RetryStep::Wait {
            delay,
            notice,
        } && delay == delay_for(*err, attempt as nat) && notice@ == retry_notice(
            *err,
            attempt as nat,
        )),
        !(attempt < MAX_ATTEMPTS && retryable(*err)) ==> step is GiveUp,
{
    if attempt < MAX_ATTEMPTS && is_retryable(err) {
        let delay = retry_delay(err, attempt);
        let mut notice = String::from_str("* retry ");
        push_decimal(&mut notice, attempt as u64);
        notice.append("/");
        push_decimal(&mut notice, MAX_ATTEMPTS as u64);
        notice.append(" in ");
        push_decimal(&mut notice, delay);
        notice.append("s (");
        let line = err.to_string();
        notice.append(line.as_str());
        notice.append(")");
        RetryStep::Wait { delay, notice }
    } else {
        RetryStep::GiveUp
    }
}

/// The message of a structured error body: the text of `error.message`,
/// where `error` also names its `type`.
pub open spec fn error_body_message(doc: JsonView) -> Option<Seq<char>> {
    match doc.field("error"@) {
        Some(detail) => if detail.text_field("type"@) is Some {
            detail.text_field("message"@)
        } else {
            None
        },
        None => None,
    }
}

/// The kind of a structured error body: the text of `error.type`.
pub open spec fn error_body_kind(doc: JsonView) -> Option<Seq<char>> {
    match doc.field("error"@) {
        Some(detail) => detail.text_field("type"@),
        None => None,
    }
}

/// Reads the structured body of a failed answer: its `error`, with the
/// `type` and the `message` of it, both of which have to be there.
pub fn read_api_error(doc: &Json) -> (found: Option<ApiError>)
    ensures
        match found {
            Some(e) => error_body_message(doc@) == Some(e.error.message@) && error_body_kind(doc@)
                == Some(e.error.kind@),
            None => error_body_message(doc@) is None,
        },
{
    match doc.get("error") {
        Some(detail) => match (detail.get_str("type"), detail.get_str("message")) {
            (Some(kind), Some(message)) => Some(
                ApiError {
                    error: ApiErrorDetail {
                        kind: String::from_str(kind),
                        message: String::from_str(message),
                    },
                },
            ),
            _ => None,
        },
        None => None,
    }
}

/// The message of a failed answer: that of its structured body, or the
/// whole body where it is not one.
pub open spec fn failure_message(parsed: Result<JsonView, Seq<char>>, body: Seq<char>) -> Seq<
    char,
> {
    match parsed {
        Ok(doc) => match error_body_message(doc) {
            Some(message) => message,
            None => body,
        },
        Err(_) => body,
    }
}

/// The failure that an answer with a status other than 200 stands for,
/// given what reading its body as JSON gave. The status is kept as it is,
/// and the `retry-after` header counts where it is a number of seconds.
pub fn api_error_from(
    status: u16,
    retry_after: Option<&str>,
    parsed: Result<Json, String>,
    body: &str,
) -> (err: Error)
    ensures
        err matches Error::Api { status: s, message, retry_after: wait } && s == status
            && message@ == failure_message(
            match parsed {
                Ok(doc) => Ok(doc@),
                Err(e) => Err(e@),
            },
            body@,
        ) && wait == match retry_after {
            Some(v) => parsed_u64(v@),
            None => None,
        },
{
    let wait = match retry_after {
        Some(v) => parse_u64(v),
        None => None,
    };
    let found = match &parsed {
        Ok(doc) => read_api_error(doc),
        Err(_) => None,
    };
    let message = match found {
        Some(e) => e.error.message,
        None => String::from_str(body),
    };
    Error::Api { status, message, retry_after: wait }
}

/// The failure that an answer with a status other than 200 stands for.
pub fn api_error(status: u16, retry_after: Option<&str>, body: &str) -> (err: Error)
    ensures
        err matches Error::Api { status: s, message, retry_after: wait } && s == status
            && message@ == failure_message(json_from_text(body@), body@) && wait == match retry_after {
            Some(v) => parsed_u64(v@),
            None => None,
        },
{
    api_error_from(status, retry_after, parse_json(body), body)
}

} // verus!
