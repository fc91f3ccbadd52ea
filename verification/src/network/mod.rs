//! The nodes of the channel and the messages between them.
pub mod message;
pub mod operator;
pub mod operator_promises;
pub mod protocol;
pub mod user;
pub mod user_promises;
