//! Serving: the chat template, tool calls, and the batching scheduler.

pub mod json;
pub mod channel;
pub mod chat;
pub mod answers;
pub mod arguments;
pub mod conversation;
pub mod declared;
pub mod tools;
pub mod scheduler;
pub mod fleet;
pub mod response;
pub mod replies;
pub mod request;
pub mod rounds;
