//! Application-wide error type.
use vstd::prelude::*;

verus! {

/// Application-wide error type returned by every fallible operation.
#[derive(Debug, Clone, PartialEq, Eq)]
pub enum AppError {
    /// A catch-all variant for unexpected internal failures.
    Internal(String),
    /// An error originating from the LLM provider.
    Provider(String),
    /// An error related to settings persistence.
    Settings(String),
    /// The requested conversation was not found.
    ConversationNotFound(String),
    /// An error originating from the Canvas LMS integration.
    Canvas(String),
}

impl AppError {
    /// The user-facing text of the error.
    pub open spec fn spec_message(&self) -> Seq<char> {
        match self {
            AppError::Internal(m) => m@,
            AppError::Provider(m) => "Provider error: "@ + m@,
            AppError::Settings(m) => "Settings error: "@ + m@,
            AppError::ConversationNotFound(m) => "Conversation not found: "@ + m@,
            AppError::Canvas(m) => "Canvas error: "@ + m@,
        }
    }

    /// The user-facing text of the error (what the frontend receives).
    pub fn message(&self) -> (r: String)
        ensures
            r@ == self.spec_message(),
    {
        match self {
            AppError::Internal(m) => m.clone(),
            AppError::Provider(m) => {
                let mut r = String::from_str("Provider error: ");
                r.append(m.as_str());
                r
            },
            AppError::Settings(m) => {
                let mut r = String::from_str("Settings error: ");
                r.append(m.as_str());
                r
            },
            AppError::ConversationNotFound(m) => {
                let mut r = String::from_str("Conversation not found: ");
                r.append(m.as_str());
                r
            },
            AppError::Canvas(m) => {
                let mut r = String::from_str("Canvas error: ");
                r.append(m.as_str());
                r
            },
        }
    }
}

/// `e` is an `Internal` error whose text is `msg`.
pub open spec fn is_internal(e: AppError, msg: Seq<char>) -> bool {
    e matches AppError::Internal(m) && m@ == msg
}

/// An `Internal` error with the given text.
pub fn internal(msg: &str) -> (e: AppError)
    ensures
        is_internal(e, msg@),
{
    AppError::Internal(String::from_str(msg))
}

} // verus!
