//! Data types of the chat agent.
use std::collections::HashMap;

use vstd::prelude::*;

verus! {

/// Supported LLM API formats.
#[derive(Debug, Clone, Copy, PartialEq, Eq)]
pub enum ApiFormat {
    OpenAiChat,
    OpenAiResponses,
    Anthropic,
}

/// Persistent configuration for the agent LLM provider.
#[derive(Debug, Clone, PartialEq, Eq)]
pub struct AgentSettings {
    pub base_url: String,
    pub api_key: String,
    pub model: String,
    pub api_format: ApiFormat,
    pub system_prompt: String,
}

impl Default for AgentSettings {
    /// The settings used when none were saved.
    fn default() -> (s: Self)
        ensures
            s.base_url@ == "https://api.openai.com/v1"@,
            s.api_key@ == Seq::<char>::empty(),
            s.model@ == "gpt-4o"@,
            s.api_format == ApiFormat::OpenAiChat,
            s.system_prompt@ == "You are a helpful assistant."@,
    {
        AgentSettings {
            base_url: String::from_str("https://api.openai.com/v1"),
            api_key: String::new(),
            model: String::from_str("gpt-4o"),
            api_format: ApiFormat::OpenAiChat,
            system_prompt: String::from_str("You are a helpful assistant."),
        }
    }
}

/// A single conversation session.
#[derive(Debug, Clone, PartialEq, Eq)]
pub struct Conversation {
    pub id: String,
    pub title: String,
    pub created_at: String,
    pub updated_at: String,
}

/// The role of a chat message sender.
#[derive(Debug, Clone, Copy, PartialEq, Eq)]
pub enum MessageRole {
    User,
    Assistant,
}

/// A single message within a conversation.
#[derive(Debug, Clone, PartialEq, Eq)]
pub struct ChatMessage {
    pub id: String,
    pub conversation_id: String,
    pub role: MessageRole,
    pub content: String,
    pub created_at: String,
}

#[allow(inconsistent_fields)]
/// Events streamed from the backend to the frontend during chat.
///
/// `Delta` is reserved for future streaming support.
#[derive(Debug, Clone, PartialEq, Eq)]
pub enum StreamEvent {
    Delta { content: String },
    ToolCall { name: String, args: String, result: String },
    Done { message: ChatMessage },
    Error { message: String },
}

/// In-memory state for the agent subsystem.
pub struct AgentState {
    pub conversations: Vec<Conversation>,
    pub messages: HashMap<String, Vec<ChatMessage>>,
    pub settings: AgentSettings,
}

impl Default for AgentState {
    /// No conversations, no messages and the default settings.
    fn default() -> (s: Self)
        ensures
            s.conversations@.len() == 0,
            s.messages@.len() == 0,
            s.settings.base_url@ == "https://api.openai.com/v1"@,
            s.settings.api_key@ == Seq::<char>::empty(),
            s.settings.model@ == "gpt-4o"@,
            s.settings.api_format == ApiFormat::OpenAiChat,
            s.settings.system_prompt@ == "You are a helpful assistant."@,
    {
        AgentState {
            conversations: Vec::new(),
            messages: HashMap::new(),
            settings: AgentSettings::default(),
        }
    }
}

} // verus!
