//! A clock over Media over QUIC: a publisher sends the time once per second, subscribers print it.
//!
//! This library holds what the two programs decide; connecting, waiting and printing is left to
//! them.

pub mod args;
pub mod delivery;
pub mod publisher;
pub mod relay;
pub mod subscriber;
pub mod text;
pub mod timestamp;
