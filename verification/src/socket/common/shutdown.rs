//! Which halves of a connection were shut down.
use crate::errno::SystemError;
use vstd::prelude::*;

verus! {

/// The bit that says that the receiving half was shut down.
pub const RCV_SHUTDOWN: u8 = 0x01;

/// The bit that says that the sending half was shut down.
pub const SEND_SHUTDOWN: u8 = 0x02;

/// Both bits.
pub const SHUTDOWN_MASK: u8 = 0x03;

/// A set of halves of a connection.
#[derive(Clone, Copy, Debug, PartialEq, Eq, Structural)]
pub struct ShutdownBit {
    /// The receiving half is in the set.
    pub rd: bool,
    /// The sending half is in the set.
    pub wr: bool,
}

impl ShutdownBit {
    /// The bits of the set: `RCV_SHUTDOWN` for the receiving half and
    /// `SEND_SHUTDOWN` for the sending half.
    pub open spec fn spec_bits(self) -> u8 {
        (if self.rd {
            1u8
        } else {
            0u8
        } + if self.wr {
            2u8
        } else {
            0u8
        }) as u8
    }

    /// The set that holds the receiving half.
    pub fn shut_rd() -> (r: Self)
        ensures
            r == (ShutdownBit { rd: true, wr: false }),
    {
        ShutdownBit { rd: true, wr: false }
    }

    /// The set that holds the sending half.
    pub fn shut_wr() -> (r: Self)
        ensures
            r == (ShutdownBit { rd: false, wr: true }),
    {
        ShutdownBit { rd: false, wr: true }
    }

    /// The set that holds both halves.
    pub fn shut_rdwr() -> (r: Self)
        ensures
            r == (ShutdownBit { rd: true, wr: true }),
    {
        ShutdownBit { rd: true, wr: true }
    }

    /// Returns the bits of the set.
    pub fn bits(self) -> (b: u8)
        ensures
            b == self.spec_bits(),
            b <= SHUTDOWN_MASK,
    {
        let low: u8 = if self.rd {
            RCV_SHUTDOWN
        } else {
            0
        };
        let high: u8 = if self.wr {
            SEND_SHUTDOWN
        } else {
            0
        };
        low + high
    }

    /// Whether no half is in the set.
    pub fn is_empty(self) -> (b: bool)
        ensures
            b == (!self.rd && !self.wr),
    {
        !self.rd && !self.wr
    }

    /// Whether every half of `other` is in the set.
    pub fn contains(self, other: ShutdownBit) -> (b: bool)
        ensures
            b == ((other.rd ==> self.rd) && (other.wr ==> self.wr)),
    {
        (!other.rd || self.rd) && (!other.wr || self.wr)
    }

    /// The halves of the set that are not in `other`.
    pub open spec fn spec_difference(self, other: ShutdownBit) -> ShutdownBit {
        ShutdownBit { rd: self.rd && !other.rd, wr: self.wr && !other.wr }
    }

    /// Returns the halves of the set that are not in `other`.
    pub fn difference(self, other: ShutdownBit) -> (r: ShutdownBit)
        ensures
            r == self.spec_difference(other),
    {
        ShutdownBit { rd: self.rd && !other.rd, wr: self.wr && !other.wr }
    }

    /// Whether every half of `other` is in the set.
    pub open spec fn contains_all(self, other: ShutdownBit) -> bool {
        (other.rd ==> self.rd) && (other.wr ==> self.wr)
    }

    /// The halves that are in the set or in `other`.
    pub open spec fn spec_union(self, other: ShutdownBit) -> ShutdownBit {
        ShutdownBit { rd: self.rd || other.rd, wr: self.wr || other.wr }
    }
}

/// The halves of a connection that a `shutdown` call names.
#[derive(Clone, Copy, Debug, PartialEq, Eq, Structural)]
pub struct ShutdownTemp {
    bit: ShutdownBit,
}

impl ShutdownTemp {
    /// The halves named.
    pub closed spec fn spec_bits(self) -> ShutdownBit {
        self.bit
    }

    /// The halves that the `how` argument of a `shutdown` call names, if it names any.
    pub open spec fn spec_how(how: usize) -> Option<ShutdownBit> {
        if how == 0 {
            Some(ShutdownBit { rd: true, wr: false })
        } else if how == 1 {
            Some(ShutdownBit { rd: false, wr: true })
        } else if how == 2 {
            Some(ShutdownBit { rd: true, wr: true })
        } else {
            None
        }
    }

    /// Reads the `how` argument of a `shutdown` call: 0 names the receiving half,
    /// 1 the sending half, 2 both; every other number is an invalid argument.
    pub fn try_from(how: usize) -> (r: Result<ShutdownTemp, SystemError>)
        ensures
            match Self::spec_how(how) {
                Some(bits) => r is Ok && r->Ok_0.spec_bits() == bits,
                None => r == Err::<ShutdownTemp, SystemError>(SystemError::EINVAL),
            },
    {
        match how {
            0 => Ok(ShutdownTemp { bit: ShutdownBit::shut_rd() }),
            1 => Ok(ShutdownTemp { bit: ShutdownBit::shut_wr() }),
            2 => Ok(ShutdownTemp { bit: ShutdownBit::shut_rdwr() }),
            _ => Err(SystemError::EINVAL),
        }
    }

    /// The given halves.
    pub fn from_bits(bit: ShutdownBit) -> (r: ShutdownTemp)
        ensures
            r.spec_bits() == bit,
    {
        ShutdownTemp { bit }
    }

    /// Returns the halves named.
    pub fn bits(&self) -> (b: ShutdownBit)
        ensures
            b == self.spec_bits(),
    {
        self.bit
    }

    /// Whether the receiving half is named.
    pub fn is_recv_shutdown(&self) -> (b: bool)
        ensures
            b == self.spec_bits().rd,
    {
        self.bit.rd
    }

    /// Whether the sending half is named.
    pub fn is_send_shutdown(&self) -> (b: bool)
        ensures
            b == self.spec_bits().wr,
    {
        self.bit.wr
    }

    /// Whether both halves are named.
    pub fn is_both_shutdown(&self) -> (b: bool)
        ensures
            b == (self.spec_bits().rd && self.spec_bits().wr),
    {
        self.bit.rd && self.bit.wr
    }

    /// Whether no half is named.
    pub fn is_empty(&self) -> (b: bool)
        ensures
            b == (!self.spec_bits().rd && !self.spec_bits().wr),
    {
        self.bit.is_empty()
    }
}

/// The halves of a connection that were shut down. A half that was shut down stays so.
#[derive(Debug)]
pub struct Shutdown {
    bit: ShutdownBit,
}

impl View for Shutdown {
    type V = ShutdownBit;

    closed spec fn view(&self) -> ShutdownBit {
        self.bit
    }
}

impl Shutdown {
    /// Nothing is shut down.
    pub fn new() -> (s: Self)
        ensures
            s@ == (ShutdownBit { rd: false, wr: false }),
    {
        Shutdown { bit: ShutdownBit { rd: false, wr: false } }
    }

    /// Shuts the receiving half down.
    pub fn recv_shutdown(&mut self)
        ensures
            final(self)@ == (ShutdownBit { rd: true, ..old(self)@ }),
    {
        self.bit.rd = true;
    }

    /// Shuts the sending half down.
    pub fn send_shutdown(&mut self)
        ensures
            final(self)@ == (ShutdownBit { wr: true, ..old(self)@ }),
    {
        self.bit.wr = true;
    }

    /// Whether the receiving half was shut down.
    pub fn is_recv_shutdown(&self) -> (b: bool)
        ensures
            b == self@.rd,
    {
        self.bit.rd
    }

    /// Whether the sending half was shut down.
    pub fn is_send_shutdown(&self) -> (b: bool)
        ensures
            b == self@.wr,
    {
        self.bit.wr
    }

    /// Whether both halves were shut down.
    pub fn is_both_shutdown(&self) -> (b: bool)
        ensures
            b == (self@.rd && self@.wr),
    {
        self.bit.rd && self.bit.wr
    }

    /// Whether nothing was shut down.
    pub fn is_empty(&self) -> (b: bool)
        ensures
            b == (!self@.rd && !self@.wr),
    {
        self.bit.is_empty()
    }

    /// The halves that were shut down.
    pub fn get(&self) -> (t: ShutdownTemp)
        ensures
            t.spec_bits() == self@,
    {
        ShutdownTemp { bit: self.bit }
    }
}

/// Shutting down halves that were shut down already changes nothing: the halves
/// that were shut down only grow, and a second `shutdown` with the same argument
/// leaves them as the first left them.
pub proof fn lemma_shutdown_idempotent(state: ShutdownBit, how: ShutdownBit)
    ensures
        state.spec_union(how).spec_union(how) == state.spec_union(how),
        state.spec_union(how).contains_all(state),
        state.spec_union(how).contains_all(how),
{
}

} // verus!
