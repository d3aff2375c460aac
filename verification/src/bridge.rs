//! Anthropic Messages bridge: protocol conversion between the Anthropic
//! Messages dialect and OpenAI chat completions.
pub mod blocks;
pub mod error;
pub mod feed;
pub mod laws;
pub mod payload_laws;
pub mod request;
pub mod request_laws;
pub mod response;
pub mod response_laws;
pub mod rounds;
pub mod schema_laws;
pub mod search;
pub mod search_laws;
pub mod sse;
pub mod stream_call_laws;
pub mod stream_content_laws;
pub mod stream_laws;
pub mod thinking;
pub mod tools;

pub use error::BridgeError;
pub use request::{to_chat_payload, ChatPayload, ToolMeta};
pub use response::{chat_to_message, chat_to_message_with_web_search};
pub use rounds::{
    web_search_cap_block, web_search_pending, web_search_round_messages, web_search_usage,
};
pub use thinking::{resolve_thinking, ThinkingMeta, INTERLEAVED_THINKING_BETA, MIN_THINKING_BUDGET};
pub use tools::ToolFamily;
