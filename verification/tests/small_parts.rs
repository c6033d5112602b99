use berkeley_socket::driver::irq::{wait_outcome, WaitOutcome, EPOLL_TIMEOUT_MS, MAX_EVENTS, PUMP_SLEEP_MS};
use berkeley_socket::driver::tap::{interface_mtu, io_outcome, mac_address, IoOutcome, Medium};
use berkeley_socket::errno::SystemError;
use berkeley_socket::interface::NetDeviceCommonData;
use berkeley_socket::libs::wait_queue::{WaitQueue, WaitStep, WAIT_TICK_MS};
use berkeley_socket::process::{Pid, ProcessManager};
use berkeley_socket::socket::common::shutdown::{Shutdown, ShutdownBit, ShutdownTemp, RCV_SHUTDOWN, SEND_SHUTDOWN};
use berkeley_socket::socket::endpoint::Endpoint;
use berkeley_socket::socket::inet::common::Types;
use berkeley_socket::socket::inet::datagram::inner as udp_inner;
use berkeley_socket::socket::inet::stream::inner::{
    recv_outcome, send_outcome, ConnectResult, DEFAULT_RX_BUF_SIZE, DEFAULT_TX_BUF_SIZE,
};
use berkeley_socket::socket::inet::syscall::IpProtocol;
use berkeley_socket::socket::inet::{blocking_step, Blocking};
use berkeley_socket::stack::{TcpRecvError, TcpState, UdpRecvError, UdpSendError};
use berkeley_socket::wire::{low_byte, AddrBlock, IpAddress, IpCidr, IpEndpoint, IpListenEndpoint, IpVersion};

const STATES: [TcpState; 11] = [
    TcpState::Closed,
    TcpState::Listen,
    TcpState::SynSent,
    TcpState::SynReceived,
    TcpState::Established,
    TcpState::FinWait1,
    TcpState::FinWait2,
    TcpState::CloseWait,
    TcpState::Closing,
    TcpState::LastAck,
    TcpState::TimeWait,
];

#[test]
fn addresses_are_numbers_in_network_order() {
    assert_eq!(IpAddress::v4(192, 168, 213, 2), IpAddress::Ipv4(0xc0a8_d502));
    assert_eq!(IpAddress::v4(0, 0, 0, 0), IpAddress::Ipv4(0));
    assert_eq!(IpAddress::v4(255, 255, 255, 255), IpAddress::Ipv4(0xffff_ffff));
    assert_eq!(IpAddress::v4(10, 0, 0, 1).version(), IpVersion::Ipv4);
    assert_eq!(IpAddress::Ipv6(1).version(), IpVersion::Ipv6);
    assert!(IpAddress::v4(0, 0, 0, 0).is_unspecified());
    assert!(IpAddress::Ipv6(0).is_unspecified());
    assert!(!IpAddress::v4(0, 0, 0, 1).is_unspecified());
    assert_eq!(IpAddress::unspecified(IpVersion::Ipv4), IpAddress::Ipv4(0));
    assert_eq!(IpAddress::unspecified(IpVersion::Ipv6), IpAddress::Ipv6(0));
    assert_eq!(low_byte(0x1234_5611), 0x11);
    assert_eq!(low_byte(6), 6);
}

#[test]
fn unicast_addresses_are_told_apart() {
    assert!(IpAddress::v4(192, 168, 213, 2).is_unicast());
    assert!(IpAddress::v4(223, 255, 255, 255).is_unicast());
    assert!(IpAddress::v4(240, 0, 0, 1).is_unicast());
    assert!(!IpAddress::v4(224, 0, 0, 1).is_unicast());
    assert!(!IpAddress::v4(239, 255, 255, 255).is_unicast());
    assert!(!IpAddress::v4(255, 255, 255, 255).is_unicast());
    assert!(!IpAddress::v4(0, 0, 0, 0).is_unicast());
    assert!(IpAddress::Ipv6(1).is_unicast());
    assert!(!IpAddress::Ipv6(0).is_unicast());
    assert!(!IpAddress::Ipv6(0xff02u128 << 112 | 1).is_unicast());
    assert!(IpAddress::Ipv6(0xfe80u128 << 112 | 1).is_unicast());
    for last in [1u8, 2, 254] {
        let ours = IpAddress::v4(192, 168, 213, last);
        let theirs = smoltcp::wire::IpAddress::v4(192, 168, 213, last);
        assert_eq!(ours.is_unicast(), theirs.is_unicast());
    }
    for first in [0u8, 1, 127, 223, 224, 239, 240, 255] {
        for rest in [0u8, 255] {
            let ours = IpAddress::v4(first, rest, rest, rest);
            let theirs = smoltcp::wire::IpAddress::v4(first, rest, rest, rest);
            assert_eq!(ours.is_unicast(), theirs.is_unicast(), "{first}.{rest}.{rest}.{rest}");
            assert_eq!(ours.is_unspecified(), theirs.is_unspecified(), "{first}.{rest}.{rest}.{rest}");
        }
    }
}

#[test]
fn address_blocks_have_a_prefix_that_fits() {
    let block = IpCidr::new(IpAddress::v4(192, 168, 213, 2), 24).unwrap();
    assert_eq!(block.address(), IpAddress::v4(192, 168, 213, 2));
    assert_eq!(block.prefix_len(), 24);
    assert!(IpCidr::new(IpAddress::v4(10, 0, 0, 1), 32).is_some());
    assert!(IpCidr::new(IpAddress::v4(10, 0, 0, 1), 0).is_some());
    assert!(IpCidr::new(IpAddress::v4(10, 0, 0, 1), 33).is_none());
    assert!(IpCidr::new(IpAddress::Ipv6(1), 128).is_some());
    assert!(IpCidr::new(IpAddress::Ipv6(1), 129).is_none());
}

#[test]
fn endpoints_are_built_from_their_parts() {
    let addr = IpAddress::v4(192, 168, 213, 2);
    let e = IpEndpoint::new(addr, 80);
    assert_eq!(e.addr, addr);
    assert_eq!(e.port, 80);
    assert_eq!(IpListenEndpoint::from_port(80), IpListenEndpoint { addr: None, port: 80 });
    assert_eq!(IpListenEndpoint::from_endpoint(e), IpListenEndpoint { addr: Some(addr), port: 80 });
    assert_eq!(IpListenEndpoint::from_port(80).addr_or_unspecified(), IpAddress::Ipv4(0));
    assert_eq!(IpListenEndpoint::from_endpoint(e).addr_or_unspecified(), addr);
    assert_eq!(Endpoint::from(e), Endpoint::Ip(e));
}

#[test]
fn protocol_numbers_name_protocols() {
    assert_eq!(IpProtocol::from(0), IpProtocol::HopByHop);
    assert_eq!(IpProtocol::from(1), IpProtocol::Icmp);
    assert_eq!(IpProtocol::from(2), IpProtocol::Igmp);
    assert_eq!(IpProtocol::from(6), IpProtocol::Tcp);
    assert_eq!(IpProtocol::from(17), IpProtocol::Udp);
    assert_eq!(IpProtocol::from(43), IpProtocol::Ipv6Route);
    assert_eq!(IpProtocol::from(44), IpProtocol::Ipv6Frag);
    assert_eq!(IpProtocol::from(50), IpProtocol::IpSecEsp);
    assert_eq!(IpProtocol::from(51), IpProtocol::IpSecAh);
    assert_eq!(IpProtocol::from(58), IpProtocol::Icmpv6);
    assert_eq!(IpProtocol::from(59), IpProtocol::Ipv6NoNxt);
    assert_eq!(IpProtocol::from(60), IpProtocol::Ipv6Opts);
    assert_eq!(IpProtocol::from(3), IpProtocol::Unknown(3));
    assert_eq!(IpProtocol::from(255), IpProtocol::Unknown(255));
}

#[test]
fn tcp_states_tell_what_the_socket_may_do() {
    for state in STATES {
        let open = !matches!(state, TcpState::Closed | TcpState::TimeWait);
        assert_eq!(state.is_open(), open, "{state:?}");
        assert_eq!(state.is_active(), open && state != TcpState::Listen, "{state:?}");
        assert_eq!(state.may_send(), matches!(state, TcpState::Established | TcpState::CloseWait), "{state:?}");
    }
}

#[test]
fn a_connection_attempt_ends_once() {
    for state in STATES {
        let expected = if state.may_send() {
            ConnectResult::Connected
        } else if state.is_open() {
            ConnectResult::Connecting
        } else {
            ConnectResult::Refused
        };
        assert_eq!(ConnectResult::Connecting.next(state), expected, "{state:?}");
        assert_eq!(ConnectResult::Connected.next(state), ConnectResult::Connected);
        assert_eq!(ConnectResult::Refused.next(state), ConnectResult::Refused);
    }
    assert_eq!(ConnectResult::Connecting.next(TcpState::SynSent), ConnectResult::Connecting);
    assert_eq!(ConnectResult::Connecting.next(TcpState::Established), ConnectResult::Connected);
    assert_eq!(ConnectResult::Connecting.next(TcpState::Closed), ConnectResult::Refused);
}

#[test]
fn a_receive_answers_by_state() {
    assert_eq!(recv_outcome(Ok(7), TcpState::Established, 16), Ok(7));
    assert_eq!(recv_outcome(Ok(7), TcpState::CloseWait, 7), Ok(7));
    assert_eq!(recv_outcome(Ok(0), TcpState::Established, 16), Err(SystemError::EAGAIN_OR_EWOULDBLOCK));
    assert_eq!(recv_outcome(Ok(0), TcpState::Established, 0), Ok(0));
    for state in STATES {
        assert_eq!(recv_outcome(Err(TcpRecvError::Finished), state_that_does_not_receive(state), 16), Ok(0));
    }
    assert_eq!(recv_outcome(Err(TcpRecvError::InvalidState), TcpState::Closed, 16), Err(SystemError::ECONNRESET));
    for state in [TcpState::Closing, TcpState::LastAck, TcpState::TimeWait, TcpState::CloseWait] {
        assert_eq!(recv_outcome(Err(TcpRecvError::InvalidState), state, 16), Ok(0), "{state:?}");
    }
    for state in [TcpState::Listen, TcpState::SynReceived, TcpState::SynSent] {
        assert_eq!(
            recv_outcome(Err(TcpRecvError::InvalidState), state, 16),
            Err(SystemError::ECONNRESET),
            "{state:?}"
        );
    }
}

fn state_that_does_not_receive(state: TcpState) -> TcpState {
    match state {
        TcpState::Established | TcpState::FinWait1 | TcpState::FinWait2 => TcpState::CloseWait,
        other => other,
    }
}

#[test]
fn a_send_answers_by_state() {
    assert_eq!(send_outcome(Ok(5), TcpState::Established), Ok(5));
    assert_eq!(send_outcome(Ok(5), TcpState::CloseWait), Ok(5));
    assert_eq!(send_outcome(Ok(0), TcpState::Established), Err(SystemError::EAGAIN_OR_EWOULDBLOCK));
    assert_eq!(send_outcome(Err(()), TcpState::Closed), Err(SystemError::ECONNRESET));
    for state in [TcpState::LastAck, TcpState::TimeWait, TcpState::Closing, TcpState::FinWait1, TcpState::FinWait2] {
        assert_eq!(send_outcome(Err(()), state), Err(SystemError::EPIPE), "{state:?}");
    }
    for state in [TcpState::Listen, TcpState::SynReceived, TcpState::SynSent] {
        assert_eq!(send_outcome(Err(()), state), Err(SystemError::ECONNRESET), "{state:?}");
    }
}

#[test]
fn datagram_calls_answer_what_the_stack_answered() {
    assert_eq!(udp_inner::send_outcome(5, Ok(())), Ok(5));
    assert_eq!(udp_inner::send_outcome(0, Ok(())), Ok(0));
    assert_eq!(udp_inner::send_outcome(5, Err(UdpSendError::Unaddressable)), Err(SystemError::EINVAL));
    assert_eq!(
        udp_inner::send_outcome(5, Err(UdpSendError::BufferFull)),
        Err(SystemError::EAGAIN_OR_EWOULDBLOCK)
    );
    let from = IpEndpoint::new(IpAddress::v4(192, 168, 213, 1), 9);
    assert_eq!(udp_inner::recv_outcome(Ok((3, from))), Ok((3, from)));
    assert_eq!(udp_inner::recv_outcome(Err(UdpRecvError::Exhausted)), Err(SystemError::EAGAIN_OR_EWOULDBLOCK));
    assert_eq!(udp_inner::recv_outcome(Err(UdpRecvError::Truncated)), Err(SystemError::EINVAL));
    assert_eq!(udp_inner::DEFAULT_METADATA_BUF_SIZE, 1024);
    assert_eq!(udp_inner::DEFAULT_RX_BUF_SIZE, 65536);
    assert_eq!(udp_inner::DEFAULT_TX_BUF_SIZE, 65536);
    assert_eq!(DEFAULT_RX_BUF_SIZE, 524288);
    assert_eq!(DEFAULT_TX_BUF_SIZE, 524288);
}

#[test]
fn a_call_that_would_block_waits_unless_it_must_not() {
    let would_block: Result<usize, SystemError> = Err(SystemError::EAGAIN_OR_EWOULDBLOCK);
    assert!(matches!(blocking_step(would_block, false, 1), Blocking::WaitFor(1)));
    assert!(matches!(blocking_step(would_block, false, 4), Blocking::WaitFor(4)));
    assert!(matches!(
        blocking_step(would_block, true, 1),
        Blocking::Done(Err(SystemError::EAGAIN_OR_EWOULDBLOCK))
    ));
    assert!(matches!(blocking_step(Ok(3usize), false, 1), Blocking::Done(Ok(3))));
    assert!(matches!(blocking_step(Ok(3usize), true, 1), Blocking::Done(Ok(3))));
    let reset: Result<usize, SystemError> = Err(SystemError::ECONNRESET);
    assert!(matches!(blocking_step(reset, false, 1), Blocking::Done(Err(SystemError::ECONNRESET))));
}

#[test]
fn errors_are_transient_or_not() {
    assert!(SystemError::EAGAIN_OR_EWOULDBLOCK.is_transient());
    assert!(SystemError::EINPROGRESS.is_transient());
    assert!(SystemError::EALREADY.is_transient());
    for e in [
        SystemError::EINVAL,
        SystemError::EISCONN,
        SystemError::ENOTCONN,
        SystemError::EADDRINUSE,
        SystemError::ENODEV,
        SystemError::ECONNREFUSED,
        SystemError::ECONNRESET,
        SystemError::EPIPE,
        SystemError::EPROTONOSUPPORT,
        SystemError::ENOSYS,
        SystemError::ETIMEDOUT,
    ] {
        assert!(!e.is_transient(), "{e:?}");
    }
    assert_eq!(SystemError::EINVAL.code(), 22);
    assert_eq!(SystemError::EAGAIN_OR_EWOULDBLOCK.code(), 11);
    assert_eq!(SystemError::EPIPE.code(), 32);
}

#[test]
fn shut_down_halves_stay_shut_down() {
    assert_eq!(RCV_SHUTDOWN, 1);
    assert_eq!(SEND_SHUTDOWN, 2);
    let mut state = Shutdown::new();
    assert!(state.is_empty());
    assert_eq!(state.get().bits().bits(), 0);
    state.recv_shutdown();
    assert!(state.is_recv_shutdown());
    assert!(!state.is_send_shutdown());
    assert_eq!(state.get().bits().bits(), RCV_SHUTDOWN);
    state.recv_shutdown();
    assert_eq!(state.get().bits(), ShutdownBit::shut_rd());
    state.send_shutdown();
    assert!(state.is_both_shutdown());
    assert_eq!(state.get().bits().bits(), 3);
    state.recv_shutdown();
    assert_eq!(state.get().bits(), ShutdownBit::shut_rdwr());

    assert_eq!(ShutdownTemp::try_from(0).unwrap().bits(), ShutdownBit::shut_rd());
    assert_eq!(ShutdownTemp::try_from(1).unwrap().bits(), ShutdownBit::shut_wr());
    assert_eq!(ShutdownTemp::try_from(2).unwrap().bits(), ShutdownBit::shut_rdwr());
    assert_eq!(ShutdownTemp::try_from(3), Err(SystemError::EINVAL));
    let both = ShutdownTemp::from_bits(ShutdownBit::shut_rdwr());
    assert!(both.is_recv_shutdown() && both.is_send_shutdown() && both.is_both_shutdown() && !both.is_empty());
    assert_eq!(ShutdownBit::shut_rdwr().difference(ShutdownBit::shut_rd()), ShutdownBit::shut_wr());
    assert!(ShutdownBit::shut_rd().difference(ShutdownBit::shut_rdwr()).is_empty());
    assert!(ShutdownBit::shut_rdwr().contains(ShutdownBit::shut_wr()));
    assert!(!ShutdownBit::shut_rd().contains(ShutdownBit::shut_wr()));
}

#[test]
fn a_wait_ends_on_a_wake_up_with_the_condition() {
    assert_eq!(WAIT_TICK_MS, 10);
    let mut queue = WaitQueue::default();
    assert_eq!(queue.begin_wait(true), WaitStep::Ready);
    assert_eq!(queue.begin_wait(false), WaitStep::Sleep);
    // Without a wake-up the condition alone does not end the wait.
    assert_eq!(queue.wait_step(true, 10, None), Ok(WaitStep::Sleep));
    queue.wakeup();
    assert_eq!(queue.wait_step(false, 20, None), Ok(WaitStep::Sleep));
    assert_eq!(queue.wait_step(true, 20, None), Ok(WaitStep::Ready));
    // A new wait forgets the wake-up.
    assert_eq!(queue.begin_wait(false), WaitStep::Sleep);
    assert_eq!(queue.wait_step(true, 0, Some(50)), Ok(WaitStep::Sleep));
    assert_eq!(queue.wait_step(true, 49, Some(50)), Ok(WaitStep::Sleep));
    assert_eq!(queue.wait_step(true, 50, Some(50)), Err(SystemError::ETIMEDOUT));
    queue.wakeup();
    assert_eq!(queue.wait_step(true, 50, Some(50)), Ok(WaitStep::Ready));
    assert_eq!(queue.wait_step(false, 50, Some(50)), Err(SystemError::ETIMEDOUT));
}

#[test]
fn the_pump_decides_after_a_wait() {
    assert_eq!(EPOLL_TIMEOUT_MS, 100);
    assert_eq!(PUMP_SLEEP_MS, 1);
    assert_eq!(MAX_EVENTS, 32);
    assert_eq!(wait_outcome(0, false), WaitOutcome::Events(0));
    assert_eq!(wait_outcome(3, false), WaitOutcome::Events(3));
    assert_eq!(wait_outcome(32, true), WaitOutcome::Events(32));
    assert_eq!(wait_outcome(40, false), WaitOutcome::Events(32));
    assert_eq!(wait_outcome(-1, true), WaitOutcome::Interrupted);
    assert_eq!(wait_outcome(-1, false), WaitOutcome::Failed);
}

#[test]
fn the_device_counts_the_ethernet_header() {
    assert_eq!(interface_mtu(Medium::Ethernet, 1500), Some(1514));
    assert_eq!(interface_mtu(Medium::Ip, 1500), Some(1500));
    assert_eq!(interface_mtu(Medium::Ethernet, usize::MAX - 14), Some(usize::MAX));
    assert_eq!(interface_mtu(Medium::Ethernet, usize::MAX - 13), None);
    assert_eq!(interface_mtu(Medium::Ip, usize::MAX), Some(usize::MAX));
    assert_eq!(io_outcome(60, 0), IoOutcome::Frame(60));
    assert_eq!(io_outcome(0, 11), IoOutcome::Frame(0));
    assert_eq!(io_outcome(-1, 11), IoOutcome::WouldBlock);
    assert_eq!(io_outcome(-1, libc::EAGAIN), IoOutcome::WouldBlock);
    assert_eq!(io_outcome(-1, libc::EIO), IoOutcome::Fatal(5));
    assert_eq!(mac_address(0, 0, 1), [0x02, 0x00, 0x00, 0x00, 0x00, 0x01]);
    assert_eq!(mac_address(0xaa, 0xbb, 0xcc), [0x02, 0x00, 0x00, 0xaa, 0xbb, 0xcc]);
}

#[test]
fn plain_data_keeps_what_it_is_given() {
    let data = NetDeviceCommonData::default();
    assert_eq!(data.addr_assign_type, 0);
    assert_eq!(data.net_device_type, 1);
    assert_eq!(Pid::new(7).data(), 7);
    assert_eq!(ProcessManager::pid_of_thread(42), Pid::new(42));
    assert_eq!(Types::Tcp, Types::Tcp);
    assert_ne!(Types::Tcp, Types::Udp);
}

#[test]
fn an_address_block_is_made_of_its_two_parts() {
    let block = IpCidr::new(IpAddress::v4(192, 168, 213, 2), 24).unwrap();
    let parts = block.parts();
    assert_eq!(parts, AddrBlock { addr: IpAddress::v4(192, 168, 213, 2), prefix_len: 24 });
    assert_eq!(IpCidr::from_parts(parts), block);
    let whole = AddrBlock { addr: IpAddress::Ipv6(1), prefix_len: 128 };
    assert_eq!(IpCidr::from_parts(whole).parts(), whole);
    assert_eq!(IpCidr::from_parts(whole), IpCidr::new(IpAddress::Ipv6(1), 128).unwrap());
}
