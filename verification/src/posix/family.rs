//! Address families.
use crate::errno::SystemError;
use vstd::prelude::*;

verus! {

/// Address families (`AF_*`).
#[derive(Clone, Copy, Debug, PartialEq, Eq, Structural)]
pub enum AddressFamily {
    Unspecified,
    Unix,
    INet,
    AX25,
    IPX,
    Appletalk,
    Netrom,
    Bridge,
    Atmpvc,
    X25,
    INet6,
    Rose,
    Decnet,
    Netbeui,
    Security,
    Key,
    Netlink,
    Packet,
    Ash,
    Econet,
    Atmsvc,
    Rds,
    Sna,
    Irda,
    Pppox,
    Wanpipe,
    Llc,
    Ib,
    Mpls,
    Can,
    Tipc,
    Bluetooth,
    Iucv,
    Rxrpc,
    Isdn,
    Phonet,
    Ieee802154,
    Caif,
    Alg,
    Nfc,
    Vsock,
    Kcm,
    Qipcrtr,
    Smc,
    Xdp,
    Mctp,
}

impl AddressFamily {
    /// The number that stands for the value.
    pub open spec fn spec_value(self) -> u16 {
        match self {
            AddressFamily::Unspecified => 0,
            AddressFamily::Unix => 1,
            AddressFamily::INet => 2,
            AddressFamily::AX25 => 3,
            AddressFamily::IPX => 4,
            AddressFamily::Appletalk => 5,
            AddressFamily::Netrom => 6,
            AddressFamily::Bridge => 7,
            AddressFamily::Atmpvc => 8,
            AddressFamily::X25 => 9,
            AddressFamily::INet6 => 10,
            AddressFamily::Rose => 11,
            AddressFamily::Decnet => 12,
            AddressFamily::Netbeui => 13,
            AddressFamily::Security => 14,
            AddressFamily::Key => 15,
            AddressFamily::Netlink => 16,
            AddressFamily::Packet => 17,
            AddressFamily::Ash => 18,
            AddressFamily::Econet => 19,
            AddressFamily::Atmsvc => 20,
            AddressFamily::Rds => 21,
            AddressFamily::Sna => 22,
            AddressFamily::Irda => 23,
            AddressFamily::Pppox => 24,
            AddressFamily::Wanpipe => 25,
            AddressFamily::Llc => 26,
            AddressFamily::Ib => 27,
            AddressFamily::Mpls => 28,
            AddressFamily::Can => 29,
            AddressFamily::Tipc => 30,
            AddressFamily::Bluetooth => 31,
            AddressFamily::Iucv => 32,
            AddressFamily::Rxrpc => 33,
            AddressFamily::Isdn => 34,
            AddressFamily::Phonet => 35,
            AddressFamily::Ieee802154 => 36,
            AddressFamily::Caif => 37,
            AddressFamily::Alg => 38,
            AddressFamily::Nfc => 39,
            AddressFamily::Vsock => 40,
            AddressFamily::Kcm => 41,
            AddressFamily::Qipcrtr => 42,
            AddressFamily::Smc => 43,
            AddressFamily::Xdp => 44,
            AddressFamily::Mctp => 45,
        }
    }

    /// Returns the number that stands for the value.
    pub fn value(self) -> (v: u16)
        ensures
            v == self.spec_value(),
    {
        match self {
            AddressFamily::Unspecified => 0,
            AddressFamily::Unix => 1,
            AddressFamily::INet => 2,
            AddressFamily::AX25 => 3,
            AddressFamily::IPX => 4,
            AddressFamily::Appletalk => 5,
            AddressFamily::Netrom => 6,
            AddressFamily::Bridge => 7,
            AddressFamily::Atmpvc => 8,
            AddressFamily::X25 => 9,
            AddressFamily::INet6 => 10,
            AddressFamily::Rose => 11,
            AddressFamily::Decnet => 12,
            AddressFamily::Netbeui => 13,
            AddressFamily::Security => 14,
            AddressFamily::Key => 15,
            AddressFamily::Netlink => 16,
            AddressFamily::Packet => 17,
            AddressFamily::Ash => 18,
            AddressFamily::Econet => 19,
            AddressFamily::Atmsvc => 20,
            AddressFamily::Rds => 21,
            AddressFamily::Sna => 22,
            AddressFamily::Irda => 23,
            AddressFamily::Pppox => 24,
            AddressFamily::Wanpipe => 25,
            AddressFamily::Llc => 26,
            AddressFamily::Ib => 27,
            AddressFamily::Mpls => 28,
            AddressFamily::Can => 29,
            AddressFamily::Tipc => 30,
            AddressFamily::Bluetooth => 31,
            AddressFamily::Iucv => 32,
            AddressFamily::Rxrpc => 33,
            AddressFamily::Isdn => 34,
            AddressFamily::Phonet => 35,
            AddressFamily::Ieee802154 => 36,
            AddressFamily::Caif => 37,
            AddressFamily::Alg => 38,
            AddressFamily::Nfc => 39,
            AddressFamily::Vsock => 40,
            AddressFamily::Kcm => 41,
            AddressFamily::Qipcrtr => 42,
            AddressFamily::Smc => 43,
            AddressFamily::Xdp => 44,
            AddressFamily::Mctp => 45,
        }
    }

    /// The value that a number stands for, if it stands for one.
    pub open spec fn spec_from_number(x: u16) -> Option<AddressFamily> {
        if x == 0 {
            Some(AddressFamily::Unspecified)
        } else if x == 1 {
            Some(AddressFamily::Unix)
        } else if x == 2 {
            Some(AddressFamily::INet)
        } else if x == 3 {
            Some(AddressFamily::AX25)
        } else if x == 4 {
            Some(AddressFamily::IPX)
        } else if x == 5 {
            Some(AddressFamily::Appletalk)
        } else if x == 6 {
            Some(AddressFamily::Netrom)
        } else if x == 7 {
            Some(AddressFamily::Bridge)
        } else if x == 8 {
            Some(AddressFamily::Atmpvc)
        } else if x == 9 {
            Some(AddressFamily::X25)
        } else if x == 10 {
            Some(AddressFamily::INet6)
        } else if x == 11 {
            Some(AddressFamily::Rose)
        } else if x == 12 {
            Some(AddressFamily::Decnet)
        } else if x == 13 {
            Some(AddressFamily::Netbeui)
        } else if x == 14 {
            Some(AddressFamily::Security)
        } else if x == 15 {
            Some(AddressFamily::Key)
        } else if x == 16 {
            Some(AddressFamily::Netlink)
        } else if x == 17 {
            Some(AddressFamily::Packet)
        } else if x == 18 {
            Some(AddressFamily::Ash)
        } else if x == 19 {
            Some(AddressFamily::Econet)
        } else if x == 20 {
            Some(AddressFamily::Atmsvc)
        } else if x == 21 {
            Some(AddressFamily::Rds)
        } else if x == 22 {
            Some(AddressFamily::Sna)
        } else if x == 23 {
            Some(AddressFamily::Irda)
        } else if x == 24 {
            Some(AddressFamily::Pppox)
        } else if x == 25 {
            Some(AddressFamily::Wanpipe)
        } else if x == 26 {
            Some(AddressFamily::Llc)
        } else if x == 27 {
            Some(AddressFamily::Ib)
        } else if x == 28 {
            Some(AddressFamily::Mpls)
        } else if x == 29 {
            Some(AddressFamily::Can)
        } else if x == 30 {
            Some(AddressFamily::Tipc)
        } else if x == 31 {
            Some(AddressFamily::Bluetooth)
        } else if x == 32 {
            Some(AddressFamily::Iucv)
        } else if x == 33 {
            Some(AddressFamily::Rxrpc)
        } else if x == 34 {
            Some(AddressFamily::Isdn)
        } else if x == 35 {
            Some(AddressFamily::Phonet)
        } else if x == 36 {
            Some(AddressFamily::Ieee802154)
        } else if x == 37 {
            Some(AddressFamily::Caif)
        } else if x == 38 {
            Some(AddressFamily::Alg)
        } else if x == 39 {
            Some(AddressFamily::Nfc)
        } else if x == 40 {
            Some(AddressFamily::Vsock)
        } else if x == 41 {
            Some(AddressFamily::Kcm)
        } else if x == 42 {
            Some(AddressFamily::Qipcrtr)
        } else if x == 43 {
            Some(AddressFamily::Smc)
        } else if x == 44 {
            Some(AddressFamily::Xdp)
        } else if x == 45 {
            Some(AddressFamily::Mctp)
        } else {
            None
        }
    }

    /// Returns the value that a number stands for, if it stands for one.
    pub fn from_number(x: u16) -> (r: Option<AddressFamily>)
        ensures
            r == Self::spec_from_number(x),
    {
        match x {
            0 => Some(AddressFamily::Unspecified),
            1 => Some(AddressFamily::Unix),
            2 => Some(AddressFamily::INet),
            3 => Some(AddressFamily::AX25),
            4 => Some(AddressFamily::IPX),
            5 => Some(AddressFamily::Appletalk),
            6 => Some(AddressFamily::Netrom),
            7 => Some(AddressFamily::Bridge),
            8 => Some(AddressFamily::Atmpvc),
            9 => Some(AddressFamily::X25),
            10 => Some(AddressFamily::INet6),
            11 => Some(AddressFamily::Rose),
            12 => Some(AddressFamily::Decnet),
            13 => Some(AddressFamily::Netbeui),
            14 => Some(AddressFamily::Security),
            15 => Some(AddressFamily::Key),
            16 => Some(AddressFamily::Netlink),
            17 => Some(AddressFamily::Packet),
            18 => Some(AddressFamily::Ash),
            19 => Some(AddressFamily::Econet),
            20 => Some(AddressFamily::Atmsvc),
            21 => Some(AddressFamily::Rds),
            22 => Some(AddressFamily::Sna),
            23 => Some(AddressFamily::Irda),
            24 => Some(AddressFamily::Pppox),
            25 => Some(AddressFamily::Wanpipe),
            26 => Some(AddressFamily::Llc),
            27 => Some(AddressFamily::Ib),
            28 => Some(AddressFamily::Mpls),
            29 => Some(AddressFamily::Can),
            30 => Some(AddressFamily::Tipc),
            31 => Some(AddressFamily::Bluetooth),
            32 => Some(AddressFamily::Iucv),
            33 => Some(AddressFamily::Rxrpc),
            34 => Some(AddressFamily::Isdn),
            35 => Some(AddressFamily::Phonet),
            36 => Some(AddressFamily::Ieee802154),
            37 => Some(AddressFamily::Caif),
            38 => Some(AddressFamily::Alg),
            39 => Some(AddressFamily::Nfc),
            40 => Some(AddressFamily::Vsock),
            41 => Some(AddressFamily::Kcm),
            42 => Some(AddressFamily::Qipcrtr),
            43 => Some(AddressFamily::Smc),
            44 => Some(AddressFamily::Xdp),
            45 => Some(AddressFamily::Mctp),
            _ => None,
        }
    }

    /// Returns the value that a number stands for; an unknown number is an invalid argument.
    pub fn try_from(x: u16) -> (r: Result<AddressFamily, SystemError>)
        ensures
            r == match Self::spec_from_number(x) {
                Some(v) => Ok::<Self, SystemError>(v),
                None => Err::<Self, SystemError>(SystemError::EINVAL),
            },
    {
        match Self::from_number(x) {
            Some(v) => Ok(v),
            None => Err(SystemError::EINVAL),
        }
    }

    /// Every value is the value that its number stands for.
    pub proof fn lemma_number_round_trip(v: AddressFamily)
        ensures
            Self::spec_from_number(v.spec_value()) == Some(v),
    {
    }

    /// A number stands for no value but the one that has it as its number.
    pub proof fn lemma_number_of_value(x: u16)
        ensures
            Self::spec_from_number(x) is Some ==> Self::spec_from_number(x)->0.spec_value() == x,
    {
    }
}

} // verus!
