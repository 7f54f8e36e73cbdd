//! Conversations with the chat agent.
pub mod chat;
pub mod conversations;
