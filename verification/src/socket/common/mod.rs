//! What sockets of every family share.
pub mod shutdown;
