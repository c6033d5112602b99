//! A Berkeley-socket-style networking layer on top of a userspace TCP/IP stack.
//!
//! The library keeps the sockets of callers ([`socket`]) on network interfaces
//! ([`interface`]), each of which owns one instance of the protocol stack, a socket
//! table, a port manager and the list of the sockets that are bound to it. The
//! registry of interfaces is handed to every call that needs it. Calls that may
//! block are made step by step: a step either ends the call or tells the caller
//! which readiness flags to wait for. The packet pump ([`driver::irq`]) decides
//! which interfaces to poll; waiting for devices, sleeping and threads are the
//! caller's.
//!
//! The contracts of the library speak of the protocol stack through a model of what
//! its sockets hold; [`stack`] states, without proof, what each operation of the
//! stack does to that model.
pub mod driver;
pub mod errno;
pub mod event_poll;
pub mod interface;
pub mod libs;
pub mod posix;
pub mod process;
pub mod socket;
pub mod stack;
pub mod wire;

pub use errno::SystemError;
