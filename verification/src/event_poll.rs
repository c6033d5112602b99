//! The readiness bitset of a socket, in the layout of epoll events.
use vstd::prelude::*;

verus! {

/// New data can be read.
pub const EPOLLIN: u32 = 0x0000_0001;

/// Urgent data can be read.
pub const EPOLLPRI: u32 = 0x0000_0002;

/// Data can be written.
pub const EPOLLOUT: u32 = 0x0000_0004;

/// An error happened on the descriptor.
pub const EPOLLERR: u32 = 0x0000_0008;

/// The descriptor was hung up.
pub const EPOLLHUP: u32 = 0x0000_0010;

/// The descriptor is not valid.
pub const EPOLLNVAL: u32 = 0x0000_0020;

/// Normal data can be read.
pub const EPOLLRDNORM: u32 = 0x0000_0040;

/// Priority band data can be read.
pub const EPOLLRDBAND: u32 = 0x0000_0080;

/// Normal data can be written.
pub const EPOLLWRNORM: u32 = 0x0000_0100;

/// Priority band data can be written.
pub const EPOLLWRBAND: u32 = 0x0000_0200;

/// A message arrived on a message queue.
pub const EPOLLMSG: u32 = 0x0000_0400;

/// The peer closed its writing half.
pub const EPOLLRDHUP: u32 = 0x0000_2000;

/// The epoll instance was released.
pub const POLLFREE: u32 = 0x0000_4000;

/// Wake-up flag of asynchronous I/O.
pub const EPOLL_URING_WAKE: u32 = 0x0800_0000;

/// Exclusive wake-up mode.
pub const EPOLLEXCLUSIVE: u32 = 0x1000_0000;

/// Wake the system from suspend.
pub const EPOLLWAKEUP: u32 = 0x2000_0000;

/// Report the event once only.
pub const EPOLLONESHOT: u32 = 0x4000_0000;

/// Edge-triggered reporting.
pub const EPOLLET: u32 = 0x8000_0000;

/// `EPOLLIN` and `EPOLLOUT` together.
pub const EPOLLINOUT_BITS: u32 = 0x0000_0005;

/// The flags allowed together with `EPOLLEXCLUSIVE`.
pub const EPOLLEXCLUSIVE_OK_BITS: u32 = 0xb000_001d;

/// The flags that are private to an epoll registration.
pub const EP_PRIVATE_BITS: u32 = 0xf000_0000;

/// A listening socket can accept a connection.
pub const EPOLL_LISTEN_CAN_ACCEPT: u32 = 0x0000_0041;

/// The union of all the defined flags.
pub const EPOLL_ALL_BITS: u32 = 0xf800_67ff;

/// A set of epoll event flags.
#[derive(Clone, Copy, Debug, PartialEq, Eq, Structural)]
pub struct EPollEventType {
    bits: u32,
}

impl View for EPollEventType {
    type V = u32;

    closed spec fn view(&self) -> u32 {
        self.bits
    }
}

/// Whether every flag of `flags` is set in `bits`.
pub open spec fn has_flags(bits: u32, flags: u32) -> bool {
    bits & flags == flags
}

/// `bits` with the flags of `flags` set when `on` holds, cleared otherwise.
pub open spec fn with_flags(bits: u32, flags: u32, on: bool) -> u32 {
    if on {
        bits | flags
    } else {
        bits & !flags
    }
}

impl EPollEventType {
    /// The empty set.
    pub fn empty() -> (r: Self)
        ensures
            r@ == 0,
    {
        EPollEventType { bits: 0 }
    }

    /// The set that holds `EPOLLIN` alone.
    pub fn readable() -> (r: Self)
        ensures
            r@ == EPOLLIN,
    {
        EPollEventType { bits: EPOLLIN }
    }

    /// The set that holds `EPOLLOUT` alone.
    pub fn writable() -> (r: Self)
        ensures
            r@ == EPOLLOUT,
    {
        EPollEventType { bits: EPOLLOUT }
    }

    /// The set that holds `EPOLLIN` and `EPOLLOUT`.
    pub fn readable_writable() -> (r: Self)
        ensures
            r@ == EPOLLINOUT_BITS,
    {
        EPollEventType { bits: EPOLLINOUT_BITS }
    }

    /// The set of all the defined flags.
    pub fn all() -> (r: Self)
        ensures
            r@ == EPOLL_ALL_BITS,
    {
        EPollEventType { bits: EPOLL_ALL_BITS }
    }

    /// The raw bits of the set.
    pub fn bits(&self) -> (b: u32)
        ensures
            b == self@,
    {
        self.bits
    }

    /// The set with exactly the given bits, if all of them are defined flags.
    pub fn from_bits(bits: u32) -> (r: Option<Self>)
        ensures
            r is Some <==> bits & !EPOLL_ALL_BITS == 0,
            r is Some ==> r->0@ == bits,
    {
        if bits & !EPOLL_ALL_BITS == 0 {
            Some(EPollEventType { bits })
        } else {
            None
        }
    }

    /// The set of the defined flags among the given bits.
    pub fn from_bits_truncate(bits: u32) -> (r: Self)
        ensures
            r@ == bits & EPOLL_ALL_BITS,
    {
        EPollEventType { bits: bits & EPOLL_ALL_BITS }
    }

    /// Whether no flag is set.
    pub fn is_empty(&self) -> (b: bool)
        ensures
            b == (self@ == 0),
    {
        self.bits == 0
    }

    /// Whether every flag of `other` is set in `self`.
    pub fn contains(&self, other: EPollEventType) -> (b: bool)
        ensures
            b == has_flags(self@, other@),
    {
        self.bits & other.bits == other.bits
    }

    /// Whether some flag of `other` is set in `self`.
    pub fn intersects(&self, other: EPollEventType) -> (b: bool)
        ensures
            b == (self@ & other@ != 0),
    {
        self.bits & other.bits != 0
    }

    /// Sets the flags of `other`.
    pub fn insert(&mut self, other: EPollEventType)
        ensures
            final(self)@ == old(self)@ | other@,
    {
        self.bits = self.bits | other.bits;
    }

    /// Clears the flags of `other`.
    pub fn remove(&mut self, other: EPollEventType)
        ensures
            final(self)@ == old(self)@ & !other@,
    {
        self.bits = self.bits & !other.bits;
    }

    /// Sets the flags of `other` when `on` holds, clears them otherwise.
    pub fn set(&mut self, other: EPollEventType, on: bool)
        ensures
            final(self)@ == with_flags(old(self)@, other@, on),
    {
        if on {
            self.insert(other);
        } else {
            self.remove(other);
        }
    }

    /// The flags set in `self` or in `other`.
    pub fn union(self, other: EPollEventType) -> (r: Self)
        ensures
            r@ == self@ | other@,
    {
        EPollEventType { bits: self.bits | other.bits }
    }
}

/// Setting or clearing `EPOLLIN` decides whether it is set afterwards and leaves
/// `EPOLLOUT` as it was; the same holds with the two flags exchanged.
pub proof fn lemma_in_out_independent(bits: u32, on: bool)
    ensures
        has_flags(with_flags(bits, EPOLLIN, on), EPOLLIN) == on,
        has_flags(with_flags(bits, EPOLLIN, on), EPOLLOUT) == has_flags(bits, EPOLLOUT),
        has_flags(with_flags(bits, EPOLLOUT, on), EPOLLOUT) == on,
        has_flags(with_flags(bits, EPOLLOUT, on), EPOLLIN) == has_flags(bits, EPOLLIN),
{
    assert((bits | 1u32) & 1u32 == 1u32) by (bit_vector);
    assert((bits & !1u32) & 1u32 != 1u32) by (bit_vector);
    assert((bits | 1u32) & 4u32 == bits & 4u32) by (bit_vector);
    assert((bits & !1u32) & 4u32 == bits & 4u32) by (bit_vector);
    assert((bits | 4u32) & 4u32 == 4u32) by (bit_vector);
    assert((bits & !4u32) & 4u32 != 4u32) by (bit_vector);
    assert((bits | 4u32) & 1u32 == bits & 1u32) by (bit_vector);
    assert((bits & !4u32) & 1u32 == bits & 1u32) by (bit_vector);
}

} // verus!
