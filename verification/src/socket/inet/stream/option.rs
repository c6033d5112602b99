//! Options of a TCP socket.
use crate::errno::SystemError;
use vstd::prelude::*;

verus! {

/// Options of a TCP socket (`TCP_*`).
#[derive(Clone, Copy, Debug, PartialEq, Eq, Structural)]
pub enum Options {
    NoDelay,
    MaxSegment,
    Cork,
    KeepIdle,
    KeepIntvl,
    KeepCnt,
    Syncnt,
    Linger2,
    DeferAccept,
    WindowClamp,
    Info,
    QuickAck,
    Congestion,
    Md5Sig,
    ThinLinearTimeouts,
    ThinDupack,
    UserTimeout,
    Repair,
    RepairQueue,
    QueueSeq,
    RepairOptions,
    FastOpen,
    Timestamp,
    NotSentLowat,
    CCInfo,
    SaveSyn,
    SavedSyn,
    RepairWindow,
    FastOpenConnect,
    ULP,
    Md5SigExt,
    FastOpenKey,
    FastOpenNoCookie,
    ZeroCopyReceive,
    INQ,
    TxDelay,
}

impl Options {
    /// The number that stands for the value.
    pub open spec fn spec_value(self) -> i32 {
        match self {
            Options::NoDelay => 1,
            Options::MaxSegment => 2,
            Options::Cork => 3,
            Options::KeepIdle => 4,
            Options::KeepIntvl => 5,
            Options::KeepCnt => 6,
            Options::Syncnt => 7,
            Options::Linger2 => 8,
            Options::DeferAccept => 9,
            Options::WindowClamp => 10,
            Options::Info => 11,
            Options::QuickAck => 12,
            Options::Congestion => 13,
            Options::Md5Sig => 14,
            Options::ThinLinearTimeouts => 16,
            Options::ThinDupack => 17,
            Options::UserTimeout => 18,
            Options::Repair => 19,
            Options::RepairQueue => 20,
            Options::QueueSeq => 21,
            Options::RepairOptions => 22,
            Options::FastOpen => 23,
            Options::Timestamp => 24,
            Options::NotSentLowat => 25,
            Options::CCInfo => 26,
            Options::SaveSyn => 27,
            Options::SavedSyn => 28,
            Options::RepairWindow => 29,
            Options::FastOpenConnect => 30,
            Options::ULP => 31,
            Options::Md5SigExt => 32,
            Options::FastOpenKey => 33,
            Options::FastOpenNoCookie => 34,
            Options::ZeroCopyReceive => 35,
            Options::INQ => 36,
            Options::TxDelay => 37,
        }
    }

    /// Returns the number that stands for the value.
    pub fn value(self) -> (v: i32)
        ensures
            v == self.spec_value(),
    {
        match self {
            Options::NoDelay => 1,
            Options::MaxSegment => 2,
            Options::Cork => 3,
            Options::KeepIdle => 4,
            Options::KeepIntvl => 5,
            Options::KeepCnt => 6,
            Options::Syncnt => 7,
            Options::Linger2 => 8,
            Options::DeferAccept => 9,
            Options::WindowClamp => 10,
            Options::Info => 11,
            Options::QuickAck => 12,
            Options::Congestion => 13,
            Options::Md5Sig => 14,
            Options::ThinLinearTimeouts => 16,
            Options::ThinDupack => 17,
            Options::UserTimeout => 18,
            Options::Repair => 19,
            Options::RepairQueue => 20,
            Options::QueueSeq => 21,
            Options::RepairOptions => 22,
            Options::FastOpen => 23,
            Options::Timestamp => 24,
            Options::NotSentLowat => 25,
            Options::CCInfo => 26,
            Options::SaveSyn => 27,
            Options::SavedSyn => 28,
            Options::RepairWindow => 29,
            Options::FastOpenConnect => 30,
            Options::ULP => 31,
            Options::Md5SigExt => 32,
            Options::FastOpenKey => 33,
            Options::FastOpenNoCookie => 34,
            Options::ZeroCopyReceive => 35,
            Options::INQ => 36,
            Options::TxDelay => 37,
        }
    }

    /// The value that a number stands for, if it stands for one.
    pub open spec fn spec_from_number(x: i32) -> Option<Options> {
        if x == 1 {
            Some(Options::NoDelay)
        } else if x == 2 {
            Some(Options::MaxSegment)
        } else if x == 3 {
            Some(Options::Cork)
        } else if x == 4 {
            Some(Options::KeepIdle)
        } else if x == 5 {
            Some(Options::KeepIntvl)
        } else if x == 6 {
            Some(Options::KeepCnt)
        } else if x == 7 {
            Some(Options::Syncnt)
        } else if x == 8 {
            Some(Options::Linger2)
        } else if x == 9 {
            Some(Options::DeferAccept)
        } else if x == 10 {
            Some(Options::WindowClamp)
        } else if x == 11 {
            Some(Options::Info)
        } else if x == 12 {
            Some(Options::QuickAck)
        } else if x == 13 {
            Some(Options::Congestion)
        } else if x == 14 {
            Some(Options::Md5Sig)
        } else if x == 16 {
            Some(Options::ThinLinearTimeouts)
        } else if x == 17 {
            Some(Options::ThinDupack)
        } else if x == 18 {
            Some(Options::UserTimeout)
        } else if x == 19 {
            Some(Options::Repair)
        } else if x == 20 {
            Some(Options::RepairQueue)
        } else if x == 21 {
            Some(Options::QueueSeq)
        } else if x == 22 {
            Some(Options::RepairOptions)
        } else if x == 23 {
            Some(Options::FastOpen)
        } else if x == 24 {
            Some(Options::Timestamp)
        } else if x == 25 {
            Some(Options::NotSentLowat)
        } else if x == 26 {
            Some(Options::CCInfo)
        } else if x == 27 {
            Some(Options::SaveSyn)
        } else if x == 28 {
            Some(Options::SavedSyn)
        } else if x == 29 {
            Some(Options::RepairWindow)
        } else if x == 30 {
            Some(Options::FastOpenConnect)
        } else if x == 31 {
            Some(Options::ULP)
        } else if x == 32 {
            Some(Options::Md5SigExt)
        } else if x == 33 {
            Some(Options::FastOpenKey)
        } else if x == 34 {
            Some(Options::FastOpenNoCookie)
        } else if x == 35 {
            Some(Options::ZeroCopyReceive)
        } else if x == 36 {
            Some(Options::INQ)
        } else if x == 37 {
            Some(Options::TxDelay)
        } else {
            None
        }
    }

    /// Returns the value that a number stands for, if it stands for one.
    pub fn from_number(x: i32) -> (r: Option<Options>)
        ensures
            r == Self::spec_from_number(x),
    {
        match x {
            1 => Some(Options::NoDelay),
            2 => Some(Options::MaxSegment),
            3 => Some(Options::Cork),
            4 => Some(Options::KeepIdle),
            5 => Some(Options::KeepIntvl),
            6 => Some(Options::KeepCnt),
            7 => Some(Options::Syncnt),
            8 => Some(Options::Linger2),
            9 => Some(Options::DeferAccept),
            10 => Some(Options::WindowClamp),
            11 => Some(Options::Info),
            12 => Some(Options::QuickAck),
            13 => Some(Options::Congestion),
            14 => Some(Options::Md5Sig),
            16 => Some(Options::ThinLinearTimeouts),
            17 => Some(Options::ThinDupack),
            18 => Some(Options::UserTimeout),
            19 => Some(Options::Repair),
            20 => Some(Options::RepairQueue),
            21 => Some(Options::QueueSeq),
            22 => Some(Options::RepairOptions),
            23 => Some(Options::FastOpen),
            24 => Some(Options::Timestamp),
            25 => Some(Options::NotSentLowat),
            26 => Some(Options::CCInfo),
            27 => Some(Options::SaveSyn),
            28 => Some(Options::SavedSyn),
            29 => Some(Options::RepairWindow),
            30 => Some(Options::FastOpenConnect),
            31 => Some(Options::ULP),
            32 => Some(Options::Md5SigExt),
            33 => Some(Options::FastOpenKey),
            34 => Some(Options::FastOpenNoCookie),
            35 => Some(Options::ZeroCopyReceive),
            36 => Some(Options::INQ),
            37 => Some(Options::TxDelay),
            _ => None,
        }
    }

    /// Returns the value that a number stands for; an unknown number is an invalid argument.
    pub fn try_from(x: i32) -> (r: Result<Options, SystemError>)
        ensures
            r == match Self::spec_from_number(x) {
                Some(v) => Ok::<Self, SystemError>(v),
                None => Err::<Self, SystemError>(SystemError::EINVAL),
            },
    {
        match Self::from_number(x) {
            Some(v) => Ok(v),
            None => Err(SystemError::EINVAL),
        }
    }

    /// Every value is the value that its number stands for.
    pub proof fn lemma_number_round_trip(v: Options)
        ensures
            Self::spec_from_number(v.spec_value()) == Some(v),
    {
    }

    /// A number stands for no value but the one that has it as its number.
    pub proof fn lemma_number_of_value(x: i32)
        ensures
            Self::spec_from_number(x) is Some ==> Self::spec_from_number(x)->0.spec_value() == x,
    {
    }
}

} // verus!
