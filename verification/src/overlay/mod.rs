//! The OBS overlay: the HTTP and WebSocket logic of the local overlay server.
pub mod protocol;
pub mod server;
