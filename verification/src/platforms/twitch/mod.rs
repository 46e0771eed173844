//! Twitch chat: IRC line parsing and the adapter's auth helpers.
pub mod adapter;
pub mod client;
pub mod mock;
pub mod poll;
