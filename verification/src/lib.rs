//! Conversion from the Responses request format to the OpenAI-compatible
//! Chat Completions format, the decisions of the Chat Completions stream
//! processor, and the built-in Sarvam model catalog.
pub mod catalog;
pub mod chat_completions;
pub mod index_order;
pub mod json;
pub mod protocol;
pub mod sse;
pub mod synth;
pub mod text;
pub mod tool_defs;

pub use chat_completions::responses_to_chat_completions_request;
pub use chat_completions::ChatCompletionsRequest;
pub use chat_completions::ChatMessage;
pub use chat_completions::OutboundToolCall;
pub use chat_completions::OutboundToolCallFunction;
pub use chat_completions::StreamOptions;
pub use protocol::ResponsesApiRequest;
pub use text::shell_single_quote;
