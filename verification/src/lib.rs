//! Verified core of a voice-agent runtime: conversation history handling,
//! tool-call bookkeeping, streamed-response decoding and text sanitisation.

pub mod binding;
pub mod json;
pub mod llm;
pub mod request;
pub mod sanitize;
pub mod settings;
pub mod sse;
pub mod tts;
pub mod voice;

pub use sanitize::strip_control_tokens;
