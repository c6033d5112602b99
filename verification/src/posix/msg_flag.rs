//! Flags of the calls that send and receive messages.
use vstd::prelude::*;

verus! {

/// Process out-of-band data.
pub const MSG_OOB: u32 = 0x1;

/// Look at the data without taking it.
pub const MSG_PEEK: u32 = 0x2;

/// Send without routing.
pub const MSG_DONTROUTE: u32 = 0x4;

/// Control data was cut off.
pub const MSG_CTRUNC: u32 = 0x8;

/// Do not send, only probe the path.
pub const MSG_PROBE: u32 = 0x10;

/// The data was cut off.
pub const MSG_TRUNC: u32 = 0x20;

/// Do not block.
pub const MSG_DONTWAIT: u32 = 0x40;

/// End of the record.
pub const MSG_EOR: u32 = 0x80;

/// Wait for the whole request.
pub const MSG_WAITALL: u32 = 0x100;

/// The sender will send more.
pub const MSG_MORE: u32 = 0x8000;

/// Do not raise `SIGPIPE`.
pub const MSG_NOSIGNAL: u32 = 0x4000;

/// Fetch from the error queue.
pub const MSG_ERRQUEUE: u32 = 0x2000;

/// Confirm that the path is valid.
pub const MSG_CONFIRM: u32 = 0x800;

/// The union of the flags above.
pub const MSG_ALL_BITS: u32 = 0xe9ff;

/// A set of message flags.
#[derive(Clone, Copy, Debug, PartialEq, Eq, Structural)]
pub struct MessageFlag {
    bits: u32,
}

impl View for MessageFlag {
    type V = u32;

    closed spec fn view(&self) -> u32 {
        self.bits
    }
}

impl MessageFlag {
    /// The empty set: the flags of a plain `read` or `write`.
    pub fn empty() -> (r: Self)
        ensures
            r@ == 0,
    {
        MessageFlag { bits: 0 }
    }

    /// The set of the known flags among the given bits.
    pub fn from_bits_truncate(bits: u32) -> (r: Self)
        ensures
            r@ == bits & MSG_ALL_BITS,
    {
        MessageFlag { bits: bits & MSG_ALL_BITS }
    }

    /// The raw bits of the set.
    pub fn bits(&self) -> (b: u32)
        ensures
            b == self@,
    {
        self.bits
    }

    /// Whether every flag among `flags` is set.
    pub fn contains(&self, flags: u32) -> (b: bool)
        ensures
            b == (self@ & flags == flags),
    {
        self.bits & flags == flags
    }
}

} // verus!
