//! A verified client core for an OpenAI-compatible chat-completion API.
//!
//! The heart of the crate is the streaming response protocol engine: it
//! reassembles a raw byte stream into Server-Sent-Events frames, decodes
//! each frame's `data:` payload, parses the payload into a typed
//! incremental completion, and exposes the result as an ordered sequence
//! of items.  Transport, configuration and HTTP glue live outside the
//! library and hand it plain byte chunks.

pub mod error;
pub mod event;
pub mod frame;
pub mod json;
pub mod parse;
pub mod stream;
pub mod types;
pub mod utils;
