//! Socket types.
use super::posix::PosixArgsSocketType;
use crate::errno::SystemError;
use vstd::prelude::*;

verus! {

/// Socket types (`SOCK_*`).
#[derive(Clone, Copy, Debug, PartialEq, Eq, Structural)]
pub enum SOCK {
    Stream,
    Datagram,
    Raw,
    RDM,
    SeqPacket,
    DCCP,
    Packet,
}

impl SOCK {
    /// The number that stands for the value.
    pub open spec fn spec_value(self) -> u32 {
        match self {
            SOCK::Stream => 1,
            SOCK::Datagram => 2,
            SOCK::Raw => 3,
            SOCK::RDM => 4,
            SOCK::SeqPacket => 5,
            SOCK::DCCP => 6,
            SOCK::Packet => 10,
        }
    }

    /// Returns the number that stands for the value.
    pub fn value(self) -> (v: u32)
        ensures
            v == self.spec_value(),
    {
        match self {
            SOCK::Stream => 1,
            SOCK::Datagram => 2,
            SOCK::Raw => 3,
            SOCK::RDM => 4,
            SOCK::SeqPacket => 5,
            SOCK::DCCP => 6,
            SOCK::Packet => 10,
        }
    }

    /// The value that a number stands for, if it stands for one.
    pub open spec fn spec_from_number(x: u32) -> Option<SOCK> {
        if x == 1 {
            Some(SOCK::Stream)
        } else if x == 2 {
            Some(SOCK::Datagram)
        } else if x == 3 {
            Some(SOCK::Raw)
        } else if x == 4 {
            Some(SOCK::RDM)
        } else if x == 5 {
            Some(SOCK::SeqPacket)
        } else if x == 6 {
            Some(SOCK::DCCP)
        } else if x == 10 {
            Some(SOCK::Packet)
        } else {
            None
        }
    }

    /// Returns the value that a number stands for, if it stands for one.
    pub fn from_number(x: u32) -> (r: Option<SOCK>)
        ensures
            r == Self::spec_from_number(x),
    {
        match x {
            1 => Some(SOCK::Stream),
            2 => Some(SOCK::Datagram),
            3 => Some(SOCK::Raw),
            4 => Some(SOCK::RDM),
            5 => Some(SOCK::SeqPacket),
            6 => Some(SOCK::DCCP),
            10 => Some(SOCK::Packet),
            _ => None,
        }
    }

    /// Returns the value that a number stands for; an unknown number is an invalid argument.
    pub fn try_from_number(x: u32) -> (r: Result<SOCK, SystemError>)
        ensures
            r == match Self::spec_from_number(x) {
                Some(v) => Ok::<Self, SystemError>(v),
                None => Err::<Self, SystemError>(SystemError::EINVAL),
            },
    {
        match Self::from_number(x) {
            Some(v) => Ok(v),
            None => Err(SystemError::EINVAL),
        }
    }

    /// Every value is the value that its number stands for.
    pub proof fn lemma_number_round_trip(v: SOCK)
        ensures
            Self::spec_from_number(v.spec_value()) == Some(v),
    {
    }

    /// A number stands for no value but the one that has it as its number.
    pub proof fn lemma_number_of_value(x: u32)
        ensures
            Self::spec_from_number(x) is Some ==> Self::spec_from_number(x)->0.spec_value() == x,
    {
    }

    /// Returns the socket type named by the low bits of the type argument of a
    /// `socket` call; 0 and the unassigned numbers are an invalid argument.
    pub fn try_from(x: PosixArgsSocketType) -> (r: Result<SOCK, SystemError>)
        ensures
            r == match Self::spec_from_number(x.spec_types()@) {
                Some(v) => Ok::<Self, SystemError>(v),
                None => Err::<Self, SystemError>(SystemError::EINVAL),
            },
    {
        Self::try_from_number(x.types().bits())
    }
}

} // verus!
