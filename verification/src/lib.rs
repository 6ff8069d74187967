//! Decision logic of a tool-using language-model agent: the conversation
//! log, its size-bounded compaction, the shape of the configuration, and the
//! state machine that turns each collaborator's reply into the next request.

pub mod agent;
pub mod compact;
pub mod config;
pub mod json;
pub mod message;
pub mod text;
