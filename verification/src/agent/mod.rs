//! The chat agent: settings, conversations and messages.
pub mod types;
