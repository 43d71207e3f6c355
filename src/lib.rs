//! A TLS chat server's core: message framing over a byte stream, a credential
//! store with the authentication exchange, the registry of live sessions and
//! the decisions of the chat loop.
pub mod account;
pub mod auth;
pub mod chat;
pub mod frame;
pub mod registry;
pub mod session;
pub mod store;
pub mod text;
