use crate::text::{decimal, push_decimal};
use vstd::prelude::*;
use vstd::string::StringExecFns;

verus! {

/// Everything that can go wrong in a session.
#[derive(Debug, PartialEq)]
pub enum Error {
    /// No credential was configured.
    NoApiKey,
    /// The request never got an answer.
    Http(String),
    /// The service answered with a status other than 200.
    Api { status: u16, message: String, retry_after: Option<u64> },
    /// A structured payload could not be read or written.
    Json(String),
    /// A named tool failed.
    Tool { name: String, message: String },
    /// A local read or write failed; the text is that of the system's error.
    Io(String),
    /// A path left the working directory.
    Security(String),
}

impl Error {
    /// The line shown to the operator for this error.
    pub open spec fn text(&self) -> Seq<char> {
        match self {
            Error::NoApiKey => "ANTHROPIC_API_KEY not set"@,
            Error::Http(msg) => "HTTP error: "@ + msg@,
            Error::Api { status, message, .. } => "API error ("@ + decimal(*status as nat) + "): "@
                + message@,
            Error::Json(msg) => "JSON error: "@ + msg@,
            Error::Tool { name, message } => "tool "@ + name@ + ": "@ + message@,
            Error::Io(msg) => "I/O error: "@ + msg@,
            Error::Security(msg) => "security: "@ + msg@,
        }
    }

    /// The line shown to the operator for this error.
    pub fn to_string(&self) -> (line: String)
        ensures
            line@ == self.text(),
    {
        match self {
            Error::NoApiKey => String::from_str("ANTHROPIC_API_KEY not set"),
            Error::Http(msg) => {
                let mut out = String::from_str("HTTP error: ");
                out.append(msg.as_str());
                out
            },
            Error::Api { status, message, .. } => {
                let mut out = String::from_str("API error (");
                push_decimal(&mut out, *status as u64);
                out.append("): ");
                out.append(message.as_str());
                out
            },
            Error::Json(msg) => {
                let mut out = String::from_str("JSON error: ");
                out.append(msg.as_str());
                out
            },
            Error::Tool { name, message } => {
                let mut out = String::from_str("tool ");
                out.append(name.as_str());
                out.append(": ");
                out.append(message.as_str());
                out
            },
            Error::Io(msg) => {
                let mut out = String::from_str("I/O error: ");
                out.append(msg.as_str());
                out
            },
            Error::Security(msg) => {
                let mut out = String::from_str("security: ");
                out.append(msg.as_str());
                out
            },
        }
    }
}

} // verus!
