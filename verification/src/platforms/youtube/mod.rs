//! YouTube chat over a server-streamed transport.
pub mod adapter;
pub mod mock;
pub mod transport;
pub mod stream;
