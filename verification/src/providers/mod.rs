//! LLM provider configuration, the reference Mock adapter, the
//! OpenAI-compatible wire decisions, and the adapter registry's rules.

pub mod domain;
pub mod mock;
pub mod openai;
pub mod registry;
pub mod secrets;
pub mod service;
