//! Feed polling with bounded, insertion-ordered novelty detection, plus the
//! small pieces of chat-command handling that sit around it.

pub mod article;
pub mod channel;
pub mod commands;
pub mod poller;
pub mod seen;
pub mod source;
pub mod text;
