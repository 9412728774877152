//! A lightweight gateway library that translates one canonical
//! chat-completion schema to and from the native schemas of several
//! upstream model providers, including their streaming wire protocols.

pub mod anthropic;
pub mod config;
pub mod error;
pub mod gemini;
mod json;
pub mod metrics;
pub mod openai;
pub mod routing;
pub mod streaming;
pub mod sys;
pub mod text;
pub mod types;

pub use error::FeatherGateError;
