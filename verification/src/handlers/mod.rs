//! Diagnostics: messages and the errors that carry them.

pub mod error_handler;
pub mod message_handler;
