//! Socket-level options.
use crate::errno::SystemError;
use vstd::prelude::*;

verus! {

/// Socket-level options (`SO_*`).
#[allow(non_camel_case_types)]
#[derive(Clone, Copy, Debug, PartialEq, Eq, Structural)]
pub enum Options {
    DEBUG,
    REUSEADDR,
    TYPE,
    ERROR,
    DONTROUTE,
    BROADCAST,
    SNDBUF,
    RCVBUF,
    SNDBUFFORCE,
    RCVBUFFORCE,
    KEEPALIVE,
    OOBINLINE,
    NO_CHECK,
    PRIORITY,
    LINGER,
    BSDCOMPAT,
    REUSEPORT,
    PASSCRED,
    PEERCRED,
    RCVLOWAT,
    SNDLOWAT,
    RCVTIMEO_OLD,
    SNDTIMEO_OLD,
    SECURITY_AUTHENTICATION,
    SECURITY_ENCRYPTION_TRANSPORT,
    SECURITY_ENCRYPTION_NETWORK,
    BINDTODEVICE,
    ATTACH_FILTER,
    DETACH_FILTER,
    PEERNAME,
    ACCEPTCONN,
    PEERSEC,
    PASSSEC,
    MARK,
    PROTOCOL,
    DOMAIN,
    RXQ_OVFL,
    WIFI_STATUS,
    PEEK_OFF,
    NOFCS,
    LOCK_FILTER,
    SELECT_ERR_QUEUE,
    BUSY_POLL,
    MAX_PACING_RATE,
    BPF_EXTENSIONS,
    INCOMING_CPU,
    ATTACH_BPF,
    ATTACH_REUSEPORT_CBPF,
    ATTACH_REUSEPORT_EBPF,
    CNX_ADVICE,
    SCM_TIMESTAMPING_OPT_STATS,
    MEMINFO,
    INCOMING_NAPI_ID,
    COOKIE,
    SCM_TIMESTAMPING_PKTINFO,
    PEERGROUPS,
    ZEROCOPY,
    TXTIME,
    BINDTOIFINDEX,
    TIMESTAMP_OLD,
    TIMESTAMPNS_OLD,
    TIMESTAMPING_OLD,
    TIMESTAMP_NEW,
    TIMESTAMPNS_NEW,
    TIMESTAMPING_NEW,
    RCVTIMEO_NEW,
    SNDTIMEO_NEW,
    DETACH_REUSEPORT_BPF,
    PREFER_BUSY_POLL,
    BUSY_POLL_BUDGET,
    NETNS_COOKIE,
    BUF_LOCK,
    RESERVE_MEM,
    TXREHASH,
    RCVMARK,
}

impl Options {
    /// The number that stands for the value.
    pub open spec fn spec_value(self) -> u32 {
        match self {
            Options::DEBUG => 1,
            Options::REUSEADDR => 2,
            Options::TYPE => 3,
            Options::ERROR => 4,
            Options::DONTROUTE => 5,
            Options::BROADCAST => 6,
            Options::SNDBUF => 7,
            Options::RCVBUF => 8,
            Options::SNDBUFFORCE => 32,
            Options::RCVBUFFORCE => 33,
            Options::KEEPALIVE => 9,
            Options::OOBINLINE => 10,
            Options::NO_CHECK => 11,
            Options::PRIORITY => 12,
            Options::LINGER => 13,
            Options::BSDCOMPAT => 14,
            Options::REUSEPORT => 15,
            Options::PASSCRED => 16,
            Options::PEERCRED => 17,
            Options::RCVLOWAT => 18,
            Options::SNDLOWAT => 19,
            Options::RCVTIMEO_OLD => 20,
            Options::SNDTIMEO_OLD => 21,
            Options::SECURITY_AUTHENTICATION => 22,
            Options::SECURITY_ENCRYPTION_TRANSPORT => 23,
            Options::SECURITY_ENCRYPTION_NETWORK => 24,
            Options::BINDTODEVICE => 25,
            Options::ATTACH_FILTER => 26,
            Options::DETACH_FILTER => 27,
            Options::PEERNAME => 28,
            Options::ACCEPTCONN => 30,
            Options::PEERSEC => 31,
            Options::PASSSEC => 34,
            Options::MARK => 36,
            Options::PROTOCOL => 38,
            Options::DOMAIN => 39,
            Options::RXQ_OVFL => 40,
            Options::WIFI_STATUS => 41,
            Options::PEEK_OFF => 42,
            Options::NOFCS => 43,
            Options::LOCK_FILTER => 44,
            Options::SELECT_ERR_QUEUE => 45,
            Options::BUSY_POLL => 46,
            Options::MAX_PACING_RATE => 47,
            Options::BPF_EXTENSIONS => 48,
            Options::INCOMING_CPU => 49,
            Options::ATTACH_BPF => 50,
            Options::ATTACH_REUSEPORT_CBPF => 51,
            Options::ATTACH_REUSEPORT_EBPF => 52,
            Options::CNX_ADVICE => 53,
            Options::SCM_TIMESTAMPING_OPT_STATS => 54,
            Options::MEMINFO => 55,
            Options::INCOMING_NAPI_ID => 56,
            Options::COOKIE => 57,
            Options::SCM_TIMESTAMPING_PKTINFO => 58,
            Options::PEERGROUPS => 59,
            Options::ZEROCOPY => 60,
            Options::TXTIME => 61,
            Options::BINDTOIFINDEX => 62,
            Options::TIMESTAMP_OLD => 29,
            Options::TIMESTAMPNS_OLD => 35,
            Options::TIMESTAMPING_OLD => 37,
            Options::TIMESTAMP_NEW => 63,
            Options::TIMESTAMPNS_NEW => 64,
            Options::TIMESTAMPING_NEW => 65,
            Options::RCVTIMEO_NEW => 66,
            Options::SNDTIMEO_NEW => 67,
            Options::DETACH_REUSEPORT_BPF => 68,
            Options::PREFER_BUSY_POLL => 69,
            Options::BUSY_POLL_BUDGET => 70,
            Options::NETNS_COOKIE => 71,
            Options::BUF_LOCK => 72,
            Options::RESERVE_MEM => 73,
            Options::TXREHASH => 74,
            Options::RCVMARK => 75,
        }
    }

    /// Returns the number that stands for the value.
    pub fn value(self) -> (v: u32)
        ensures
            v == self.spec_value(),
    {
        match self {
            Options::DEBUG => 1,
            Options::REUSEADDR => 2,
            Options::TYPE => 3,
            Options::ERROR => 4,
            Options::DONTROUTE => 5,
            Options::BROADCAST => 6,
            Options::SNDBUF => 7,
            Options::RCVBUF => 8,
            Options::SNDBUFFORCE => 32,
            Options::RCVBUFFORCE => 33,
            Options::KEEPALIVE => 9,
            Options::OOBINLINE => 10,
            Options::NO_CHECK => 11,
            Options::PRIORITY => 12,
            Options::LINGER => 13,
            Options::BSDCOMPAT => 14,
            Options::REUSEPORT => 15,
            Options::PASSCRED => 16,
            Options::PEERCRED => 17,
            Options::RCVLOWAT => 18,
            Options::SNDLOWAT => 19,
            Options::RCVTIMEO_OLD => 20,
            Options::SNDTIMEO_OLD => 21,
            Options::SECURITY_AUTHENTICATION => 22,
            Options::SECURITY_ENCRYPTION_TRANSPORT => 23,
            Options::SECURITY_ENCRYPTION_NETWORK => 24,
            Options::BINDTODEVICE => 25,
            Options::ATTACH_FILTER => 26,
            Options::DETACH_FILTER => 27,
            Options::PEERNAME => 28,
            Options::ACCEPTCONN => 30,
            Options::PEERSEC => 31,
            Options::PASSSEC => 34,
            Options::MARK => 36,
            Options::PROTOCOL => 38,
            Options::DOMAIN => 39,
            Options::RXQ_OVFL => 40,
            Options::WIFI_STATUS => 41,
            Options::PEEK_OFF => 42,
            Options::NOFCS => 43,
            Options::LOCK_FILTER => 44,
            Options::SELECT_ERR_QUEUE => 45,
            Options::BUSY_POLL => 46,
            Options::MAX_PACING_RATE => 47,
            Options::BPF_EXTENSIONS => 48,
            Options::INCOMING_CPU => 49,
            Options::ATTACH_BPF => 50,
            Options::ATTACH_REUSEPORT_CBPF => 51,
            Options::ATTACH_REUSEPORT_EBPF => 52,
            Options::CNX_ADVICE => 53,
            Options::SCM_TIMESTAMPING_OPT_STATS => 54,
            Options::MEMINFO => 55,
            Options::INCOMING_NAPI_ID => 56,
            Options::COOKIE => 57,
            Options::SCM_TIMESTAMPING_PKTINFO => 58,
            Options::PEERGROUPS => 59,
            Options::ZEROCOPY => 60,
            Options::TXTIME => 61,
            Options::BINDTOIFINDEX => 62,
            Options::TIMESTAMP_OLD => 29,
            Options::TIMESTAMPNS_OLD => 35,
            Options::TIMESTAMPING_OLD => 37,
            Options::TIMESTAMP_NEW => 63,
            Options::TIMESTAMPNS_NEW => 64,
            Options::TIMESTAMPING_NEW => 65,
            Options::RCVTIMEO_NEW => 66,
            Options::SNDTIMEO_NEW => 67,
            Options::DETACH_REUSEPORT_BPF => 68,
            Options::PREFER_BUSY_POLL => 69,
            Options::BUSY_POLL_BUDGET => 70,
            Options::NETNS_COOKIE => 71,
            Options::BUF_LOCK => 72,
            Options::RESERVE_MEM => 73,
            Options::TXREHASH => 74,
            Options::RCVMARK => 75,
        }
    }

    /// The value that a number stands for, if it stands for one.
    pub open spec fn spec_from_number(x: u32) -> Option<Options> {
        if x == 1 {
            Some(Options::DEBUG)
        } else if x == 2 {
            Some(Options::REUSEADDR)
        } else if x == 3 {
            Some(Options::TYPE)
        } else if x == 4 {
            Some(Options::ERROR)
        } else if x == 5 {
            Some(Options::DONTROUTE)
        } else if x == 6 {
            Some(Options::BROADCAST)
        } else if x == 7 {
            Some(Options::SNDBUF)
        } else if x == 8 {
            Some(Options::RCVBUF)
        } else if x == 32 {
            Some(Options::SNDBUFFORCE)
        } else if x == 33 {
            Some(Options::RCVBUFFORCE)
        } else if x == 9 {
            Some(Options::KEEPALIVE)
        } else if x == 10 {
            Some(Options::OOBINLINE)
        } else if x == 11 {
            Some(Options::NO_CHECK)
        } else if x == 12 {
            Some(Options::PRIORITY)
        } else if x == 13 {
            Some(Options::LINGER)
        } else if x == 14 {
            Some(Options::BSDCOMPAT)
        } else if x == 15 {
            Some(Options::REUSEPORT)
        } else if x == 16 {
            Some(Options::PASSCRED)
        } else if x == 17 {
            Some(Options::PEERCRED)
        } else if x == 18 {
            Some(Options::RCVLOWAT)
        } else if x == 19 {
            Some(Options::SNDLOWAT)
        } else if x == 20 {
            Some(Options::RCVTIMEO_OLD)
        } else if x == 21 {
            Some(Options::SNDTIMEO_OLD)
        } else if x == 22 {
            Some(Options::SECURITY_AUTHENTICATION)
        } else if x == 23 {
            Some(Options::SECURITY_ENCRYPTION_TRANSPORT)
        } else if x == 24 {
            Some(Options::SECURITY_ENCRYPTION_NETWORK)
        } else if x == 25 {
            Some(Options::BINDTODEVICE)
        } else if x == 26 {
            Some(Options::ATTACH_FILTER)
        } else if x == 27 {
            Some(Options::DETACH_FILTER)
        } else if x == 28 {
            Some(Options::PEERNAME)
        } else if x == 30 {
            Some(Options::ACCEPTCONN)
        } else if x == 31 {
            Some(Options::PEERSEC)
        } else if x == 34 {
            Some(Options::PASSSEC)
        } else if x == 36 {
            Some(Options::MARK)
        } else if x == 38 {
            Some(Options::PROTOCOL)
        } else if x == 39 {
            Some(Options::DOMAIN)
        } else if x == 40 {
            Some(Options::RXQ_OVFL)
        } else if x == 41 {
            Some(Options::WIFI_STATUS)
        } else if x == 42 {
            Some(Options::PEEK_OFF)
        } else if x == 43 {
            Some(Options::NOFCS)
        } else if x == 44 {
            Some(Options::LOCK_FILTER)
        } else if x == 45 {
            Some(Options::SELECT_ERR_QUEUE)
        } else if x == 46 {
            Some(Options::BUSY_POLL)
        } else if x == 47 {
            Some(Options::MAX_PACING_RATE)
        } else if x == 48 {
            Some(Options::BPF_EXTENSIONS)
        } else if x == 49 {
            Some(Options::INCOMING_CPU)
        } else if x == 50 {
            Some(Options::ATTACH_BPF)
        } else if x == 51 {
            Some(Options::ATTACH_REUSEPORT_CBPF)
        } else if x == 52 {
            Some(Options::ATTACH_REUSEPORT_EBPF)
        } else if x == 53 {
            Some(Options::CNX_ADVICE)
        } else if x == 54 {
            Some(Options::SCM_TIMESTAMPING_OPT_STATS)
        } else if x == 55 {
            Some(Options::MEMINFO)
        } else if x == 56 {
            Some(Options::INCOMING_NAPI_ID)
        } else if x == 57 {
            Some(Options::COOKIE)
        } else if x == 58 {
            Some(Options::SCM_TIMESTAMPING_PKTINFO)
        } else if x == 59 {
            Some(Options::PEERGROUPS)
        } else if x == 60 {
            Some(Options::ZEROCOPY)
        } else if x == 61 {
            Some(Options::TXTIME)
        } else if x == 62 {
            Some(Options::BINDTOIFINDEX)
        } else if x == 29 {
            Some(Options::TIMESTAMP_OLD)
        } else if x == 35 {
            Some(Options::TIMESTAMPNS_OLD)
        } else if x == 37 {
            Some(Options::TIMESTAMPING_OLD)
        } else if x == 63 {
            Some(Options::TIMESTAMP_NEW)
        } else if x == 64 {
            Some(Options::TIMESTAMPNS_NEW)
        } else if x == 65 {
            Some(Options::TIMESTAMPING_NEW)
        } else if x == 66 {
            Some(Options::RCVTIMEO_NEW)
        } else if x == 67 {
            Some(Options::SNDTIMEO_NEW)
        } else if x == 68 {
            Some(Options::DETACH_REUSEPORT_BPF)
        } else if x == 69 {
            Some(Options::PREFER_BUSY_POLL)
        } else if x == 70 {
            Some(Options::BUSY_POLL_BUDGET)
        } else if x == 71 {
            Some(Options::NETNS_COOKIE)
        } else if x == 72 {
            Some(Options::BUF_LOCK)
        } else if x == 73 {
            Some(Options::RESERVE_MEM)
        } else if x == 74 {
            Some(Options::TXREHASH)
        } else if x == 75 {
            Some(Options::RCVMARK)
        } else {
            None
        }
    }

    /// Returns the value that a number stands for, if it stands for one.
    pub fn from_number(x: u32) -> (r: Option<Options>)
        ensures
            r == Self::spec_from_number(x),
    {
        match x {
            1 => Some(Options::DEBUG),
            2 => Some(Options::REUSEADDR),
            3 => Some(Options::TYPE),
            4 => Some(Options::ERROR),
            5 => Some(Options::DONTROUTE),
            6 => Some(Options::BROADCAST),
            7 => Some(Options::SNDBUF),
            8 => Some(Options::RCVBUF),
            32 => Some(Options::SNDBUFFORCE),
            33 => Some(Options::RCVBUFFORCE),
            9 => Some(Options::KEEPALIVE),
            10 => Some(Options::OOBINLINE),
            11 => Some(Options::NO_CHECK),
            12 => Some(Options::PRIORITY),
            13 => Some(Options::LINGER),
            14 => Some(Options::BSDCOMPAT),
            15 => Some(Options::REUSEPORT),
            16 => Some(Options::PASSCRED),
            17 => Some(Options::PEERCRED),
            18 => Some(Options::RCVLOWAT),
            19 => Some(Options::SNDLOWAT),
            20 => Some(Options::RCVTIMEO_OLD),
            21 => Some(Options::SNDTIMEO_OLD),
            22 => Some(Options::SECURITY_AUTHENTICATION),
            23 => Some(Options::SECURITY_ENCRYPTION_TRANSPORT),
            24 => Some(Options::SECURITY_ENCRYPTION_NETWORK),
            25 => Some(Options::BINDTODEVICE),
            26 => Some(Options::ATTACH_FILTER),
            27 => Some(Options::DETACH_FILTER),
            28 => Some(Options::PEERNAME),
            30 => Some(Options::ACCEPTCONN),
            31 => Some(Options::PEERSEC),
            34 => Some(Options::PASSSEC),
            36 => Some(Options::MARK),
            38 => Some(Options::PROTOCOL),
            39 => Some(Options::DOMAIN),
            40 => Some(Options::RXQ_OVFL),
            41 => Some(Options::WIFI_STATUS),
            42 => Some(Options::PEEK_OFF),
            43 => Some(Options::NOFCS),
            44 => Some(Options::LOCK_FILTER),
            45 => Some(Options::SELECT_ERR_QUEUE),
            46 => Some(Options::BUSY_POLL),
            47 => Some(Options::MAX_PACING_RATE),
            48 => Some(Options::BPF_EXTENSIONS),
            49 => Some(Options::INCOMING_CPU),
            50 => Some(Options::ATTACH_BPF),
            51 => Some(Options::ATTACH_REUSEPORT_CBPF),
            52 => Some(Options::ATTACH_REUSEPORT_EBPF),
            53 => Some(Options::CNX_ADVICE),
            54 => Some(Options::SCM_TIMESTAMPING_OPT_STATS),
            55 => Some(Options::MEMINFO),
            56 => Some(Options::INCOMING_NAPI_ID),
            57 => Some(Options::COOKIE),
            58 => Some(Options::SCM_TIMESTAMPING_PKTINFO),
            59 => Some(Options::PEERGROUPS),
            60 => Some(Options::ZEROCOPY),
            61 => Some(Options::TXTIME),
            62 => Some(Options::BINDTOIFINDEX),
            29 => Some(Options::TIMESTAMP_OLD),
            35 => Some(Options::TIMESTAMPNS_OLD),
            37 => Some(Options::TIMESTAMPING_OLD),
            63 => Some(Options::TIMESTAMP_NEW),
            64 => Some(Options::TIMESTAMPNS_NEW),
            65 => Some(Options::TIMESTAMPING_NEW),
            66 => Some(Options::RCVTIMEO_NEW),
            67 => Some(Options::SNDTIMEO_NEW),
            68 => Some(Options::DETACH_REUSEPORT_BPF),
            69 => Some(Options::PREFER_BUSY_POLL),
            70 => Some(Options::BUSY_POLL_BUDGET),
            71 => Some(Options::NETNS_COOKIE),
            72 => Some(Options::BUF_LOCK),
            73 => Some(Options::RESERVE_MEM),
            74 => Some(Options::TXREHASH),
            75 => Some(Options::RCVMARK),
            _ => None,
        }
    }

    /// Returns the value that a number stands for; an unknown number is an invalid argument.
    pub fn try_from(x: u32) -> (r: Result<Options, SystemError>)
        ensures
            r == match Self::spec_from_number(x) {
                Some(v) => Ok::<Self, SystemError>(v),
                None => Err::<Self, SystemError>(SystemError::EINVAL),
            },
    {
        match Self::from_number(x) {
            Some(v) => Ok(v),
            None => Err(SystemError::EINVAL),
        }
    }

    /// Every value is the value that its number stands for.
    pub proof fn lemma_number_round_trip(v: Options)
        ensures
            Self::spec_from_number(v.spec_value()) == Some(v),
    {
    }

    /// A number stands for no value but the one that has it as its number.
    pub proof fn lemma_number_of_value(x: u32)
        ensures
            Self::spec_from_number(x) is Some ==> Self::spec_from_number(x)->0.spec_value() == x,
    {
    }
}

} // verus!
