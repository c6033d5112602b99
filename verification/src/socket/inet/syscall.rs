//! The entry point that makes sockets of the internet family.
use crate::errno::SystemError;
use crate::posix::SOCK;
use crate::socket::inet::datagram::UdpSocket;
use crate::socket::inet::stream::TcpSocket;
use crate::socket::InetSocket;
use crate::wire::{low_byte, IpVersion};
use smoltcp::wire::IpProtocol as StackProtocol;
use vstd::prelude::*;

verus! {

/// The protocol that an IP datagram carries.
#[derive(Clone, Copy, Debug, PartialEq, Eq, Structural)]
pub enum IpProtocol {
    HopByHop,
    Icmp,
    Igmp,
    Tcp,
    Udp,
    Ipv6Route,
    Ipv6Frag,
    IpSecEsp,
    IpSecAh,
    Icmpv6,
    Ipv6NoNxt,
    Ipv6Opts,
    Unknown(u8),
}

impl IpProtocol {
    /// The protocol that a protocol number stands for.
    pub open spec fn spec_from(value: u8) -> IpProtocol {
        if value == 0x00 {
            IpProtocol::HopByHop
        } else if value == 0x01 {
            IpProtocol::Icmp
        } else if value == 0x02 {
            IpProtocol::Igmp
        } else if value == 0x06 {
            IpProtocol::Tcp
        } else if value == 0x11 {
            IpProtocol::Udp
        } else if value == 0x2b {
            IpProtocol::Ipv6Route
        } else if value == 0x2c {
            IpProtocol::Ipv6Frag
        } else if value == 0x32 {
            IpProtocol::IpSecEsp
        } else if value == 0x33 {
            IpProtocol::IpSecAh
        } else if value == 0x3a {
            IpProtocol::Icmpv6
        } else if value == 0x3b {
            IpProtocol::Ipv6NoNxt
        } else if value == 0x3c {
            IpProtocol::Ipv6Opts
        } else {
            IpProtocol::Unknown(value)
        }
    }

    /// The stack's `IpProtocol::from` for a protocol number: the protocol that the
    /// number stands for, and `Unknown` with the number where it stands for none.
    #[verifier::external_body]
    fn from_number(value: u8) -> (p: IpProtocol)
        ensures
            p == Self::spec_from(value),
    {
        match StackProtocol::from(value) {
            StackProtocol::HopByHop => IpProtocol::HopByHop,
            StackProtocol::Icmp => IpProtocol::Icmp,
            StackProtocol::Igmp => IpProtocol::Igmp,
            StackProtocol::Tcp => IpProtocol::Tcp,
            StackProtocol::Udp => IpProtocol::Udp,
            StackProtocol::Ipv6Route => IpProtocol::Ipv6Route,
            StackProtocol::Ipv6Frag => IpProtocol::Ipv6Frag,
            StackProtocol::IpSecEsp => IpProtocol::IpSecEsp,
            StackProtocol::IpSecAh => IpProtocol::IpSecAh,
            StackProtocol::Icmpv6 => IpProtocol::Icmpv6,
            StackProtocol::Ipv6NoNxt => IpProtocol::Ipv6NoNxt,
            StackProtocol::Ipv6Opts => IpProtocol::Ipv6Opts,
            StackProtocol::Unknown(other) => IpProtocol::Unknown(other),
        }
    }

    /// Returns the protocol that a protocol number stands for.
    pub fn from(value: u8) -> (p: IpProtocol)
        ensures
            p == Self::spec_from(value),
    {
        Self::from_number(value)
    }
}

/// The kind of socket that a socket type and a protocol ask for.
#[derive(Clone, Copy, Debug, PartialEq, Eq, Structural)]
pub enum SocketKind {
    /// A UDP socket.
    Datagram,
    /// A TCP socket.
    Stream,
}

/// The kind of socket that a socket type and a protocol ask for: a datagram socket
/// takes UDP, a stream socket TCP, and both take protocol 0 for their own. Raw
/// sockets are not implemented; every other pair is a protocol that is not supported.
pub open spec fn spec_socket_kind(socket_type: SOCK, protocol: IpProtocol) -> Result<SocketKind, SystemError> {
    match socket_type {
        SOCK::Datagram => if protocol == IpProtocol::HopByHop || protocol == IpProtocol::Udp {
            Ok(SocketKind::Datagram)
        } else {
            Err(SystemError::EPROTONOSUPPORT)
        },
        SOCK::Stream => if protocol == IpProtocol::HopByHop || protocol == IpProtocol::Tcp {
            Ok(SocketKind::Stream)
        } else {
            Err(SystemError::EPROTONOSUPPORT)
        },
        SOCK::Raw => Err(SystemError::ENOSYS),
        _ => Err(SystemError::EPROTONOSUPPORT),
    }
}

/// What `create_inet_socket` answers; see [`create_inet_socket`].
pub open spec fn created(
    version: IpVersion,
    socket_type: SOCK,
    protocol: IpProtocol,
    id: usize,
    r: Result<InetSocket, SystemError>,
) -> bool {
    match spec_socket_kind(socket_type, protocol) {
        Err(e) => r == Err::<InetSocket, SystemError>(e),
        Ok(SocketKind::Datagram) => {
            &&& r matches Ok(InetSocket::Udp(udp))
            &&& udp.is_unbound()
            &&& udp.flags() == (crate::socket::inet::datagram::UdpFlags {
                nonblock: false,
                id,
                pollee: 0,
                scheduled: false,
            })
        },
        Ok(SocketKind::Stream) => {
            &&& r matches Ok(InetSocket::Tcp(tcp))
            &&& tcp.is_unbound()
            &&& tcp.spec_inner()->0->Init_0.version() == version
            &&& tcp.flags() == (crate::socket::inet::stream::TcpFlags {
                shutdown: crate::socket::common::shutdown::ShutdownBit { rd: false, wr: false },
                nonblock: false,
                id,
                pollee: 0,
                scheduled: false,
            })
        },
    }
}

/// Makes the socket that a socket type and a protocol ask for, a blocking socket
/// with the id `id`; see [`spec_socket_kind`].
pub fn create_inet_socket(version: IpVersion, socket_type: SOCK, protocol: IpProtocol, id: usize) -> (r: Result<InetSocket,
    SystemError,
>)
    ensures
        created(version, socket_type, protocol, id, r),
        r is Ok ==> forall|net: Seq<crate::socket::inet::common::NetEntry>| r->Ok_0.wf(net),
{
    match socket_type {
        SOCK::Datagram => match protocol {
            IpProtocol::HopByHop | IpProtocol::Udp => Ok(InetSocket::Udp(UdpSocket::new(id, false))),
            _ => Err(SystemError::EPROTONOSUPPORT),
        },
        SOCK::Stream => match protocol {
            IpProtocol::HopByHop | IpProtocol::Tcp => Ok(InetSocket::Tcp(TcpSocket::new(id, false, version))),
            _ => Err(SystemError::EPROTONOSUPPORT),
        },
        SOCK::Raw => Err(SystemError::ENOSYS),
        _ => Err(SystemError::EPROTONOSUPPORT),
    }
}

/// The internet family over IPv4.
pub struct Inet;

impl Inet {
    /// Makes an IPv4 socket of the type `stype` for the protocol whose number is the
    /// low byte of `protocol`, with the id `id`; see [`create_inet_socket`].
    pub fn socket(stype: SOCK, protocol: u32, id: usize) -> (r: Result<InetSocket, SystemError>)
        ensures
            created(IpVersion::Ipv4, stype, IpProtocol::spec_from(crate::wire::spec_low_byte(protocol)), id, r),
            r is Ok ==> forall|net: Seq<crate::socket::inet::common::NetEntry>| r->Ok_0.wf(net),
    {
        create_inet_socket(IpVersion::Ipv4, stype, IpProtocol::from(low_byte(protocol)), id)
    }
}

} // verus!
