//! Helpers that the socket layer builds on.
pub mod wait_queue;
