//! The library's error type.
use vstd::prelude::*;

use crate::text::concat2;

verus! {

/// Errors raised while talking to the model or carrying out a tool call.
/// Each variant carries the text that describes its cause.
#[derive(Debug)]
pub enum AppError {
    /// A filesystem operation failed; carries the operating system's message.
    Fs(String),
    /// An HTTP request failed; carries the client's message.
    Http(String),
    /// The model returned something unusable.
    LlmError(String),
    /// A tool call was rejected before it ran.
    ToolValidation(String),
    /// A value could not be encoded or decoded.
    Serialization(String),
}

impl AppError {
    /// The text shown to the user for this error.
    pub open spec fn display(self) -> Seq<char> {
        match self {
            AppError::Fs(m) => "Filesystem error: "@ + m@,
            AppError::Http(m) => "Request failed: "@ + m@,
            AppError::LlmError(m) => "LLM returned invalid response: "@ + m@,
            AppError::ToolValidation(m) => "Tool call validation failed: "@ + m@,
            AppError::Serialization(m) => "Serialization error: "@ + m@,
        }
    }

    /// The text shown to the user for this error.
    pub fn message(&self) -> (r: String)
        ensures
            r@ == self.display(),
    {
        match self {
            AppError::Fs(m) => concat2("Filesystem error: ", m.as_str()),
            AppError::Http(m) => concat2("Request failed: ", m.as_str()),
            AppError::LlmError(m) => concat2("LLM returned invalid response: ", m.as_str()),
            AppError::ToolValidation(m) => concat2("Tool call validation failed: ", m.as_str()),
            AppError::Serialization(m) => concat2("Serialization error: ", m.as_str()),
        }
    }

    /// Whether this is a rejected tool call carrying exactly `msg`.
    pub open spec fn is_validation(self, msg: Seq<char>) -> bool {
        self matches AppError::ToolValidation(m) && m@ == msg
    }
}

/// `r` is a rejected tool call carrying exactly `msg`.
pub open spec fn rejected<T>(r: Result<T, AppError>, msg: Seq<char>) -> bool {
    match r {
        Err(e) => e.is_validation(msg),
        Ok(_) => false,
    }
}

} // verus!
