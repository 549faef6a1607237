//! What the terminal shows: conversations, their lists, and messages.

pub mod cbor;
pub mod chat;
pub mod encoding;
pub mod json;
pub mod laws;
pub mod message;
pub mod token;

pub use chat::{ChatContext, ChatMode};
pub use message::{format_message_display, TimeOfDay};
