//! Kick chat: wire types, message helpers, and the adapter's connection state.
pub mod adapter;
pub mod mock;
pub mod poll;
