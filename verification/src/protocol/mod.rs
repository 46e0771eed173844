//! Shared protocol contracts between the desktop shell and the backend.
pub mod messages;
pub mod rpc;
pub mod types;
