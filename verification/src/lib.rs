//! Verified core of a terminal-driving language-model agent.
//!
//! The library keeps an ordered, maskable conversation, decodes a closed
//! protocol of model actions, continues truncated model output across
//! backend calls with per-error retry policy, and drives one interactive
//! shell with deterministic completion detection.

pub mod anthropic;
pub mod api;
pub mod choice;
pub mod clock;
pub mod content;
pub mod image;
pub mod llm;
pub mod openai;
pub mod protocol;
pub mod session;
pub mod system_prompt;
pub mod terminal;
pub mod text;
