//! Local synchronization core for a messaging client.
//!
//! The crate mirrors a remote conversational state (contacts, chats,
//! messages): it normalizes the gateway's heterogeneous wire events into a
//! closed set of canonical events and applies them idempotently to a
//! single-writer store, so the mirror converges under redelivery and
//! reconnects.

pub mod contact;
pub mod json;
pub mod message;
pub mod normalize;
pub mod reconcile;
pub mod store;
pub mod text;
pub mod wire;
