use berkeley_socket::errno::SystemError;
use berkeley_socket::event_poll::{
    EPollEventType, EPOLLERR, EPOLLET, EPOLLEXCLUSIVE, EPOLLEXCLUSIVE_OK_BITS, EPOLLHUP, EPOLLIN, EPOLLINOUT_BITS,
    EPOLLONESHOT, EPOLLOUT, EPOLLPRI, EPOLLRDHUP, EPOLLWAKEUP, EPOLL_ALL_BITS, EPOLL_LISTEN_CAN_ACCEPT, EPOLLRDNORM,
    EP_PRIVATE_BITS,
};
use berkeley_socket::posix::family::AddressFamily;
use berkeley_socket::posix::msg_flag::{MSG_DONTWAIT, MSG_NOSIGNAL, MSG_OOB, MSG_PEEK, MSG_WAITALL};
use berkeley_socket::posix::posix::{PosixArgsSocketType, SOCK_CLOEXEC, SOCK_NONBLOCK};
use berkeley_socket::posix::{PMSG, PSO, PSOL, SOCK};
use berkeley_socket::socket::inet::stream::TcpOption;

#[test]
fn socket_types_have_their_numbers() {
    assert_eq!(SOCK::Stream.value(), 1);
    assert_eq!(SOCK::Datagram.value(), 2);
    assert_eq!(SOCK::Raw.value(), 3);
    assert_eq!(SOCK::RDM.value(), 4);
    assert_eq!(SOCK::SeqPacket.value(), 5);
    assert_eq!(SOCK::DCCP.value(), 6);
    assert_eq!(SOCK::Packet.value(), 10);
    assert_eq!(SOCK::Stream.value() as i32, libc::SOCK_STREAM);
    assert_eq!(SOCK::Datagram.value() as i32, libc::SOCK_DGRAM);
    assert_eq!(SOCK::Raw.value() as i32, libc::SOCK_RAW);
    assert_eq!(SOCK::SeqPacket.value() as i32, libc::SOCK_SEQPACKET);
    assert_eq!(SOCK::Packet.value() as i32, libc::SOCK_PACKET);
    for number in 0..=16u32 {
        match SOCK::from_number(number) {
            Some(t) => assert_eq!(t.value(), number),
            None => assert!(matches!(number, 0 | 7 | 8 | 9 | 11..=16)),
        }
    }
}

#[test]
fn socket_type_arguments_carry_flags() {
    assert_eq!(SOCK_NONBLOCK as i32, libc::SOCK_NONBLOCK);
    assert_eq!(SOCK_CLOEXEC as i32, libc::SOCK_CLOEXEC);
    assert_eq!(PosixArgsSocketType::NONBLOCK, 0x800);
    assert_eq!(PosixArgsSocketType::CLOEXEC, 0x80000);

    let plain = PosixArgsSocketType::from_bits(PosixArgsSocketType::STREAM).unwrap();
    assert!(!plain.is_nonblock());
    assert!(!plain.is_cloexec());
    assert_eq!(SOCK::try_from(plain), Ok(SOCK::Stream));

    let flagged = PosixArgsSocketType::from_bits(PosixArgsSocketType::DGRAM | 0x800 | 0x80000).unwrap();
    assert!(flagged.is_nonblock());
    assert!(flagged.is_cloexec());
    assert_eq!(flagged.types().bits(), 2);
    assert_eq!(SOCK::try_from(flagged), Ok(SOCK::Datagram));

    let nonblock = PosixArgsSocketType::from_bits_truncate(PosixArgsSocketType::PACKET | 0x800);
    assert!(nonblock.is_nonblock());
    assert!(!nonblock.is_cloexec());
    assert_eq!(SOCK::try_from(nonblock), Ok(SOCK::Packet));

    assert!(PosixArgsSocketType::from_bits(0x10).is_none());
    assert_eq!(PosixArgsSocketType::from_bits_truncate(0xffff_ffff).bits(), 0x8080f);
    assert_eq!(SOCK::try_from(PosixArgsSocketType::from_bits_truncate(0x800)), Err(SystemError::EINVAL));
    assert_eq!(SOCK::try_from(PosixArgsSocketType::from_bits_truncate(7)), Err(SystemError::EINVAL));
    assert_eq!(SOCK::try_from_number(11), Err(SystemError::EINVAL));
}

#[test]
fn socket_options_have_their_numbers() {
    assert_eq!(PSO::REUSEADDR.value() as i32, libc::SO_REUSEADDR);
    assert_eq!(PSO::KEEPALIVE.value() as i32, libc::SO_KEEPALIVE);
    assert_eq!(PSO::SNDBUF.value() as i32, libc::SO_SNDBUF);
    assert_eq!(PSO::RCVBUF.value() as i32, libc::SO_RCVBUF);
    assert_eq!(PSO::SNDBUFFORCE.value() as i32, libc::SO_SNDBUFFORCE);
    assert_eq!(PSO::LINGER.value() as i32, libc::SO_LINGER);
    assert_eq!(PSO::REUSEPORT.value() as i32, libc::SO_REUSEPORT);
    assert_eq!(PSO::BINDTODEVICE.value() as i32, libc::SO_BINDTODEVICE);
    assert_eq!(PSO::ACCEPTCONN.value() as i32, libc::SO_ACCEPTCONN);
    assert_eq!(PSO::TIMESTAMP_OLD.value(), 29);
    assert_eq!(PSO::RCVMARK.value(), 75);
    assert_eq!(PSO::try_from(1), Ok(PSO::DEBUG));
    assert_eq!(PSO::try_from(33), Ok(PSO::RCVBUFFORCE));
    assert_eq!(PSO::try_from(0), Err(SystemError::EINVAL));
    assert_eq!(PSO::try_from(76), Err(SystemError::EINVAL));
    let mut known = 0;
    for number in 0..=80u32 {
        if let Some(option) = PSO::from_number(number) {
            assert_eq!(option.value(), number);
            known += 1;
        }
    }
    assert_eq!(known, 75);
}

#[test]
fn option_levels_and_tcp_options_have_their_numbers() {
    assert_eq!(PSOL::SOCKET.value() as i32, libc::SOL_SOCKET);
    assert_eq!(PSOL::TCP.value() as i32, libc::SOL_TCP);
    assert_eq!(PSOL::UDP.value() as i32, libc::SOL_UDP);
    assert_eq!(PSOL::IP.value() as i32, libc::SOL_IP);
    assert_eq!(PSOL::IPV6.value() as i32, libc::SOL_IPV6);
    assert_eq!(PSOL::NETLINK.value() as i32, libc::SOL_NETLINK);
    assert_eq!(PSOL::try_from(6), Ok(PSOL::TCP));
    assert_eq!(PSOL::try_from(2), Err(SystemError::EINVAL));

    assert_eq!(TcpOption::NoDelay.value(), libc::TCP_NODELAY);
    assert_eq!(TcpOption::KeepIdle.value(), libc::TCP_KEEPIDLE);
    assert_eq!(TcpOption::KeepIntvl.value(), libc::TCP_KEEPINTVL);
    assert_eq!(TcpOption::KeepCnt.value(), libc::TCP_KEEPCNT);
    assert_eq!(TcpOption::MaxSegment.value(), libc::TCP_MAXSEG);
    assert_eq!(TcpOption::Congestion.value(), libc::TCP_CONGESTION);
    assert_eq!(TcpOption::try_from(5), Ok(TcpOption::KeepIntvl));
    assert_eq!(TcpOption::try_from(15), Err(SystemError::EINVAL));
    assert_eq!(TcpOption::try_from(-1), Err(SystemError::EINVAL));
    assert_eq!(TcpOption::try_from(0), Err(SystemError::EINVAL));
}

#[test]
fn address_families_have_their_numbers() {
    assert_eq!(AddressFamily::Unspecified.value() as i32, libc::AF_UNSPEC);
    assert_eq!(AddressFamily::Unix.value() as i32, libc::AF_UNIX);
    assert_eq!(AddressFamily::INet.value() as i32, libc::AF_INET);
    assert_eq!(AddressFamily::INet6.value() as i32, libc::AF_INET6);
    assert_eq!(AddressFamily::Netlink.value() as i32, libc::AF_NETLINK);
    assert_eq!(AddressFamily::Packet.value() as i32, libc::AF_PACKET);
    assert_eq!(AddressFamily::try_from(2), Ok(AddressFamily::INet));
    assert_eq!(AddressFamily::try_from(46), Err(SystemError::EINVAL));
}

#[test]
fn message_flags_have_their_bits() {
    assert_eq!(MSG_OOB as i32, libc::MSG_OOB);
    assert_eq!(MSG_PEEK as i32, libc::MSG_PEEK);
    assert_eq!(MSG_DONTWAIT as i32, libc::MSG_DONTWAIT);
    assert_eq!(MSG_WAITALL as i32, libc::MSG_WAITALL);
    assert_eq!(MSG_NOSIGNAL as i32, libc::MSG_NOSIGNAL);
    assert_eq!(PMSG::empty().bits(), 0);
    let flags = PMSG::from_bits_truncate(MSG_PEEK | MSG_DONTWAIT | 0x1000_0000);
    assert_eq!(flags.bits(), MSG_PEEK | MSG_DONTWAIT);
    assert!(flags.contains(MSG_PEEK));
    assert!(flags.contains(MSG_PEEK | MSG_DONTWAIT));
    assert!(!flags.contains(MSG_OOB));
    assert!(!flags.contains(MSG_PEEK | MSG_OOB));
}

#[test]
fn epoll_events_have_their_bits() {
    assert_eq!(EPOLLIN as i32, libc::EPOLLIN);
    assert_eq!(EPOLLPRI as i32, libc::EPOLLPRI);
    assert_eq!(EPOLLOUT as i32, libc::EPOLLOUT);
    assert_eq!(EPOLLERR as i32, libc::EPOLLERR);
    assert_eq!(EPOLLHUP as i32, libc::EPOLLHUP);
    assert_eq!(EPOLLRDHUP as i32, libc::EPOLLRDHUP);
    assert_eq!(EPOLLRDNORM as i32, libc::EPOLLRDNORM);
    assert_eq!(EPOLLET, libc::EPOLLET as u32);
    assert_eq!(EPOLLONESHOT as i32, libc::EPOLLONESHOT);
    assert_eq!(EPOLLWAKEUP as i32, libc::EPOLLWAKEUP);
    assert_eq!(EPOLLEXCLUSIVE as i32, libc::EPOLLEXCLUSIVE);
    assert_eq!(EPOLLINOUT_BITS, EPOLLIN | EPOLLOUT);
    assert_eq!(EPOLL_LISTEN_CAN_ACCEPT, EPOLLIN | EPOLLRDNORM);
    assert_eq!(EP_PRIVATE_BITS, EPOLLWAKEUP | EPOLLONESHOT | EPOLLET | EPOLLEXCLUSIVE);
    assert_eq!(
        EPOLLEXCLUSIVE_OK_BITS,
        EPOLLINOUT_BITS | EPOLLERR | EPOLLHUP | EPOLLWAKEUP | EPOLLET | EPOLLEXCLUSIVE
    );

    let mut events = EPollEventType::empty();
    assert!(events.is_empty());
    events.insert(EPollEventType::readable());
    assert_eq!(events.bits(), EPOLLIN);
    events.set(EPollEventType::writable(), true);
    assert_eq!(events, EPollEventType::readable_writable());
    assert!(events.contains(EPollEventType::readable()));
    assert!(events.intersects(EPollEventType::from_bits_truncate(EPOLLOUT | EPOLLERR)));
    assert!(!events.contains(EPollEventType::from_bits_truncate(EPOLLOUT | EPOLLERR)));
    events.set(EPollEventType::readable(), false);
    assert_eq!(events.bits(), EPOLLOUT);
    events.remove(EPollEventType::writable());
    assert!(events.is_empty());
    assert_eq!(EPollEventType::readable().union(EPollEventType::writable()).bits(), 5);
    assert_eq!(EPollEventType::all().bits(), EPOLL_ALL_BITS);
    assert_eq!(EPollEventType::from_bits(EPOLLIN | EPOLLHUP).unwrap().bits(), 0x11);
    assert!(EPollEventType::from_bits(0x800).is_none());
    assert_eq!(EPollEventType::from_bits_truncate(0x801).bits(), 1);
}
