//! Levels of socket options.
use crate::errno::SystemError;
use vstd::prelude::*;

verus! {

/// The levels at which socket options are set (`SOL_*`).
#[allow(non_camel_case_types)]
#[derive(Clone, Copy, Debug, PartialEq, Eq, Structural)]
pub enum OptionLevel {
    IP,
    SOCKET,
    TCP,
    UDP,
    IPV6,
    ICMPV6,
    SCTP,
    UDPLITE,
    RAW,
    IPX,
    AX25,
    ATALK,
    NETROM,
    ROSE,
    DECNET,
    X25,
    PACKET,
    ATM,
    AAL,
    IRDA,
    NETBEUI,
    LLC,
    DCCP,
    NETLINK,
    TIPC,
    RXRPC,
    PPPOL2TP,
    BLUETOOTH,
    PNPIPE,
    RDS,
    IUCV,
    CAIF,
    ALG,
    NFC,
    KCM,
    TLS,
    XDP,
    MPTCP,
    MCTP,
    SMC,
    VSOCK,
}

impl OptionLevel {
    /// The number that stands for the value.
    pub open spec fn spec_value(self) -> u32 {
        match self {
            OptionLevel::IP => 0,
            OptionLevel::SOCKET => 1,
            OptionLevel::TCP => 6,
            OptionLevel::UDP => 17,
            OptionLevel::IPV6 => 41,
            OptionLevel::ICMPV6 => 58,
            OptionLevel::SCTP => 132,
            OptionLevel::UDPLITE => 136,
            OptionLevel::RAW => 255,
            OptionLevel::IPX => 256,
            OptionLevel::AX25 => 257,
            OptionLevel::ATALK => 258,
            OptionLevel::NETROM => 259,
            OptionLevel::ROSE => 260,
            OptionLevel::DECNET => 261,
            OptionLevel::X25 => 262,
            OptionLevel::PACKET => 263,
            OptionLevel::ATM => 264,
            OptionLevel::AAL => 265,
            OptionLevel::IRDA => 266,
            OptionLevel::NETBEUI => 267,
            OptionLevel::LLC => 268,
            OptionLevel::DCCP => 269,
            OptionLevel::NETLINK => 270,
            OptionLevel::TIPC => 271,
            OptionLevel::RXRPC => 272,
            OptionLevel::PPPOL2TP => 273,
            OptionLevel::BLUETOOTH => 274,
            OptionLevel::PNPIPE => 275,
            OptionLevel::RDS => 276,
            OptionLevel::IUCV => 277,
            OptionLevel::CAIF => 278,
            OptionLevel::ALG => 279,
            OptionLevel::NFC => 280,
            OptionLevel::KCM => 281,
            OptionLevel::TLS => 282,
            OptionLevel::XDP => 283,
            OptionLevel::MPTCP => 284,
            OptionLevel::MCTP => 285,
            OptionLevel::SMC => 286,
            OptionLevel::VSOCK => 287,
        }
    }

    /// Returns the number that stands for the value.
    pub fn value(self) -> (v: u32)
        ensures
            v == self.spec_value(),
    {
        match self {
            OptionLevel::IP => 0,
            OptionLevel::SOCKET => 1,
            OptionLevel::TCP => 6,
            OptionLevel::UDP => 17,
            OptionLevel::IPV6 => 41,
            OptionLevel::ICMPV6 => 58,
            OptionLevel::SCTP => 132,
            OptionLevel::UDPLITE => 136,
            OptionLevel::RAW => 255,
            OptionLevel::IPX => 256,
            OptionLevel::AX25 => 257,
            OptionLevel::ATALK => 258,
            OptionLevel::NETROM => 259,
            OptionLevel::ROSE => 260,
            OptionLevel::DECNET => 261,
            OptionLevel::X25 => 262,
            OptionLevel::PACKET => 263,
            OptionLevel::ATM => 264,
            OptionLevel::AAL => 265,
            OptionLevel::IRDA => 266,
            OptionLevel::NETBEUI => 267,
            OptionLevel::LLC => 268,
            OptionLevel::DCCP => 269,
            OptionLevel::NETLINK => 270,
            OptionLevel::TIPC => 271,
            OptionLevel::RXRPC => 272,
            OptionLevel::PPPOL2TP => 273,
            OptionLevel::BLUETOOTH => 274,
            OptionLevel::PNPIPE => 275,
            OptionLevel::RDS => 276,
            OptionLevel::IUCV => 277,
            OptionLevel::CAIF => 278,
            OptionLevel::ALG => 279,
            OptionLevel::NFC => 280,
            OptionLevel::KCM => 281,
            OptionLevel::TLS => 282,
            OptionLevel::XDP => 283,
            OptionLevel::MPTCP => 284,
            OptionLevel::MCTP => 285,
            OptionLevel::SMC => 286,
            OptionLevel::VSOCK => 287,
        }
    }

    /// The value that a number stands for, if it stands for one.
    pub open spec fn spec_from_number(x: u32) -> Option<OptionLevel> {
        if x == 0 {
            Some(OptionLevel::IP)
        } else if x == 1 {
            Some(OptionLevel::SOCKET)
        } else if x == 6 {
            Some(OptionLevel::TCP)
        } else if x == 17 {
            Some(OptionLevel::UDP)
        } else if x == 41 {
            Some(OptionLevel::IPV6)
        } else if x == 58 {
            Some(OptionLevel::ICMPV6)
        } else if x == 132 {
            Some(OptionLevel::SCTP)
        } else if x == 136 {
            Some(OptionLevel::UDPLITE)
        } else if x == 255 {
            Some(OptionLevel::RAW)
        } else if x == 256 {
            Some(OptionLevel::IPX)
        } else if x == 257 {
            Some(OptionLevel::AX25)
        } else if x == 258 {
            Some(OptionLevel::ATALK)
        } else if x == 259 {
            Some(OptionLevel::NETROM)
        } else if x == 260 {
            Some(OptionLevel::ROSE)
        } else if x == 261 {
            Some(OptionLevel::DECNET)
        } else if x == 262 {
            Some(OptionLevel::X25)
        } else if x == 263 {
            Some(OptionLevel::PACKET)
        } else if x == 264 {
            Some(OptionLevel::ATM)
        } else if x == 265 {
            Some(OptionLevel::AAL)
        } else if x == 266 {
            Some(OptionLevel::IRDA)
        } else if x == 267 {
            Some(OptionLevel::NETBEUI)
        } else if x == 268 {
            Some(OptionLevel::LLC)
        } else if x == 269 {
            Some(OptionLevel::DCCP)
        } else if x == 270 {
            Some(OptionLevel::NETLINK)
        } else if x == 271 {
            Some(OptionLevel::TIPC)
        } else if x == 272 {
            Some(OptionLevel::RXRPC)
        } else if x == 273 {
            Some(OptionLevel::PPPOL2TP)
        } else if x == 274 {
            Some(OptionLevel::BLUETOOTH)
        } else if x == 275 {
            Some(OptionLevel::PNPIPE)
        } else if x == 276 {
            Some(OptionLevel::RDS)
        } else if x == 277 {
            Some(OptionLevel::IUCV)
        } else if x == 278 {
            Some(OptionLevel::CAIF)
        } else if x == 279 {
            Some(OptionLevel::ALG)
        } else if x == 280 {
            Some(OptionLevel::NFC)
        } else if x == 281 {
            Some(OptionLevel::KCM)
        } else if x == 282 {
            Some(OptionLevel::TLS)
        } else if x == 283 {
            Some(OptionLevel::XDP)
        } else if x == 284 {
            Some(OptionLevel::MPTCP)
        } else if x == 285 {
            Some(OptionLevel::MCTP)
        } else if x == 286 {
            Some(OptionLevel::SMC)
        } else if x == 287 {
            Some(OptionLevel::VSOCK)
        } else {
            None
        }
    }

    /// Returns the value that a number stands for, if it stands for one.
    pub fn from_number(x: u32) -> (r: Option<OptionLevel>)
        ensures
            r == Self::spec_from_number(x),
    {
        match x {
            0 => Some(OptionLevel::IP),
            1 => Some(OptionLevel::SOCKET),
            6 => Some(OptionLevel::TCP),
            17 => Some(OptionLevel::UDP),
            41 => Some(OptionLevel::IPV6),
            58 => Some(OptionLevel::ICMPV6),
            132 => Some(OptionLevel::SCTP),
            136 => Some(OptionLevel::UDPLITE),
            255 => Some(OptionLevel::RAW),
            256 => Some(OptionLevel::IPX),
            257 => Some(OptionLevel::AX25),
            258 => Some(OptionLevel::ATALK),
            259 => Some(OptionLevel::NETROM),
            260 => Some(OptionLevel::ROSE),
            261 => Some(OptionLevel::DECNET),
            262 => Some(OptionLevel::X25),
            263 => Some(OptionLevel::PACKET),
            264 => Some(OptionLevel::ATM),
            265 => Some(OptionLevel::AAL),
            266 => Some(OptionLevel::IRDA),
            267 => Some(OptionLevel::NETBEUI),
            268 => Some(OptionLevel::LLC),
            269 => Some(OptionLevel::DCCP),
            270 => Some(OptionLevel::NETLINK),
            271 => Some(OptionLevel::TIPC),
            272 => Some(OptionLevel::RXRPC),
            273 => Some(OptionLevel::PPPOL2TP),
            274 => Some(OptionLevel::BLUETOOTH),
            275 => Some(OptionLevel::PNPIPE),
            276 => Some(OptionLevel::RDS),
            277 => Some(OptionLevel::IUCV),
            278 => Some(OptionLevel::CAIF),
            279 => Some(OptionLevel::ALG),
            280 => Some(OptionLevel::NFC),
            281 => Some(OptionLevel::KCM),
            282 => Some(OptionLevel::TLS),
            283 => Some(OptionLevel::XDP),
            284 => Some(OptionLevel::MPTCP),
            285 => Some(OptionLevel::MCTP),
            286 => Some(OptionLevel::SMC),
            287 => Some(OptionLevel::VSOCK),
            _ => None,
        }
    }

    /// Returns the value that a number stands for; an unknown number is an invalid argument.
    pub fn try_from(x: u32) -> (r: Result<OptionLevel, SystemError>)
        ensures
            r == match Self::spec_from_number(x) {
                Some(v) => Ok::<Self, SystemError>(v),
                None => Err::<Self, SystemError>(SystemError::EINVAL),
            },
    {
        match Self::from_number(x) {
            Some(v) => Ok(v),
            None => Err(SystemError::EINVAL),
        }
    }

    /// Every value is the value that its number stands for.
    pub proof fn lemma_number_round_trip(v: OptionLevel)
        ensures
            Self::spec_from_number(v.spec_value()) == Some(v),
    {
    }

    /// A number stands for no value but the one that has it as its number.
    pub proof fn lemma_number_of_value(x: u32)
        ensures
            Self::spec_from_number(x) is Some ==> Self::spec_from_number(x)->0.spec_value() == x,
    {
    }
}

} // verus!
