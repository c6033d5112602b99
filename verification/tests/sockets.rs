//! The socket calls on interfaces over loopback devices: every frame that an
//! interface sends comes back to it.
use berkeley_socket::driver::irq::{pump_round, WatchRequest, Watcher};
use berkeley_socket::errno::SystemError;
use berkeley_socket::event_poll::{EPOLLIN, EPOLLOUT};
use berkeley_socket::interface::tap::TapIface;
use berkeley_socket::interface::{next_poll, Iface};
use berkeley_socket::libs::wait_queue::WaitStep;
use berkeley_socket::posix::{PMSG, PSOL, SOCK};
use berkeley_socket::socket::common::shutdown::ShutdownTemp;
use berkeley_socket::socket::endpoint::Endpoint;
use berkeley_socket::socket::inet::common::{NetDevices, Types};
use berkeley_socket::socket::inet::stream::TcpSocket;
use berkeley_socket::socket::inet::syscall::{create_inet_socket, Inet, IpProtocol};
use berkeley_socket::socket::inet::{Blocking, UdpSocket};
use berkeley_socket::socket::{poll_iface, InetSocket};
use berkeley_socket::wire::{IpAddress, IpCidr, IpEndpoint, IpVersion};
use smoltcp::iface::{Config, Interface};
use smoltcp::phy::{Loopback, Medium};
use smoltcp::time::Instant;
use smoltcp::wire::{EthernetAddress, HardwareAddress};

const HOME: (u8, u8, u8, u8) = (192, 168, 213, 2);

fn addr(a: (u8, u8, u8, u8)) -> IpAddress {
    IpAddress::v4(a.0, a.1, a.2, a.3)
}

fn endpoint(a: (u8, u8, u8, u8), port: u16) -> Endpoint {
    Endpoint::Ip(IpEndpoint::new(addr(a), port))
}

fn block(a: (u8, u8, u8, u8), prefix: u8) -> IpCidr {
    IpCidr::new(addr(a), prefix).unwrap()
}

fn tap(last_mac_byte: u8, raw_fd: Option<i32>) -> TapIface<Loopback> {
    let mut device = Loopback::new(Medium::Ethernet);
    let mac = EthernetAddress([0x02, 0x00, 0x00, 0x00, 0x00, last_mac_byte]);
    let iface = Interface::new(Config::new(HardwareAddress::Ethernet(mac)), &mut device, Instant::from_micros(0));
    TapIface::new(device, iface, raw_fd)
}

/// A registry with one interface, under key 0, that has the address 192.168.213.2/24.
fn net() -> NetDevices<Loopback> {
    let mut net = NetDevices::new();
    assert!(net.insert(0, tap(1, Some(7))).is_none());
    assert_eq!(net.common_at_mut(0).update_ip_addrs(&[block(HOME, 24)]), Ok(()));
    net
}

fn pump(net: &mut NetDevices<Loopback>, now: &mut i64) {
    for _ in 0..8 {
        *now += 1_000;
        for index in 0..net.len() {
            net.poll_at(index, *now);
        }
    }
}

fn done<T>(step: Blocking<T>) -> Result<T, SystemError> {
    match step {
        Blocking::Done(result) => result,
        Blocking::WaitFor(events) => panic!("the call asks to wait for {events:#x}"),
    }
}

fn waits_for<T>(step: Blocking<T>) -> u32 {
    match step {
        Blocking::Done(_) => panic!("the call is over"),
        Blocking::WaitFor(events) => events,
    }
}

fn stream(id: usize) -> InetSocket {
    Inet::socket(SOCK::Stream, 0, id).unwrap()
}

fn datagram(id: usize) -> InetSocket {
    Inet::socket(SOCK::Datagram, 0, id).unwrap()
}

/// A listening socket on port 4321 and a client that is connected to it, with the
/// socket that the listener accepted.
fn connection(net: &mut NetDevices<Loopback>, now: &mut i64) -> (InetSocket, InetSocket, InetSocket) {
    let mut listener = stream(1);
    assert_eq!(listener.bind(net, endpoint(HOME, 4321)), Ok(()));
    assert_eq!(listener.listen(net, 2), Ok(()));
    let mut client = stream(2);
    let mut step = client.connect(net, endpoint(HOME, 4321), *now);
    let mut rounds = 0;
    while let Blocking::WaitFor(events) = step {
        assert_eq!(events, EPOLLOUT);
        rounds += 1;
        assert!(rounds < 100, "the connect does not end");
        pump(net, now);
        step = client.connect_retry(net);
    }
    assert_eq!(done(step), Ok(()));
    listener.on_iface_events(net);
    let (server, _) = done(listener.accept(net, 3)).unwrap();
    (listener, client, server)
}

#[test]
fn the_registry_keeps_its_interfaces_in_the_order_of_their_keys() {
    let mut net: NetDevices<Loopback> = NetDevices::new();
    assert_eq!(net.len(), 0);
    assert!(net.insert(5, tap(5, Some(50))).is_none());
    assert!(net.insert(1, tap(1, None)).is_none());
    assert!(net.insert(3, tap(3, Some(30))).is_none());
    assert_eq!(net.len(), 3);
    assert_eq!((net.key_at(0), net.key_at(1), net.key_at(2)), (1, 3, 5));
    assert_eq!((net.raw_fd_at(0), net.raw_fd_at(1), net.raw_fd_at(2)), (None, Some(30), Some(50)));
    assert_eq!(net.position(3), Some(1));
    assert_eq!(net.position(4), None);
    assert!(net.contains_key(5));
    assert!(!net.contains_key(0));

    // An interface that is registered under a key that is taken replaces the other.
    let previous = net.insert(3, tap(4, Some(31))).unwrap();
    assert_eq!(previous.raw_fd(), Some(30));
    assert_eq!(net.len(), 3);
    assert_eq!(net.raw_fd_at(1), Some(31));

    assert_eq!(net.remove(1).unwrap().raw_fd(), None);
    assert!(net.remove(1).is_none());
    assert_eq!(net.len(), 2);
    assert_eq!((net.key_at(0), net.key_at(1)), (3, 5));
    net.clear();
    assert_eq!(net.len(), 0);
    assert_eq!(net.position(3), None);
}

#[test]
fn an_interface_takes_one_address_block() {
    let mut net: NetDevices<Loopback> = NetDevices::new();
    net.insert(0, tap(1, None));
    assert!(net.common_at(0).is_default_iface());
    assert_eq!(net.common_at(0).iface_id(), 1);
    assert_eq!(net.common_at(0).poll_at_ms(), 0);
    assert!(net.common_at(0).ip_addrs().is_empty());
    assert!(!net.common_at(0).has_ip_addr(addr(HOME)));

    let common = net.common_at_mut(0);
    assert_eq!(common.update_ip_addrs(&[]), Err(SystemError::EINVAL));
    assert_eq!(common.update_ip_addrs(&[block(HOME, 24), block((10, 0, 0, 1), 8)]), Err(SystemError::EINVAL));
    assert_eq!(common.update_ip_addrs(&[block((224, 0, 0, 1), 24)]), Err(SystemError::EINVAL));
    assert_eq!(common.update_ip_addrs(&[block((255, 255, 255, 255), 32)]), Err(SystemError::EINVAL));
    assert!(common.ip_addrs().is_empty());

    assert_eq!(common.update_ip_addrs(&[block(HOME, 24)]), Ok(()));
    assert_eq!(common.ip_addrs(), vec![block(HOME, 24)]);
    assert!(common.has_ip_addr(addr(HOME)));
    assert!(!common.has_ip_addr(addr((192, 168, 213, 1))));

    // A second block takes the place of the first.
    assert_eq!(common.update_ip_addrs(&[block((10, 0, 0, 1), 8)]), Ok(()));
    assert_eq!(common.ip_addrs(), vec![block((10, 0, 0, 1), 8)]);
    assert!(!common.has_ip_addr(addr(HOME)));
    assert!(common.has_ip_addr(addr((10, 0, 0, 1))));
    assert_eq!(common.update_ip_addrs(&[block((0, 0, 0, 0), 0)]), Ok(()));
    assert_eq!(common.ip_addrs(), vec![block((0, 0, 0, 0), 0)]);
}

#[test]
fn an_interface_lists_its_bound_sockets() {
    let mut net = net();
    let common = net.common_at_mut(0);
    assert!(common.bounds().is_empty());
    common.bind_socket(4);
    common.bind_socket(9);
    common.bind_socket(4);
    assert_eq!(common.bounds(), &vec![4, 9, 4]);
    common.unbind_socket(4);
    assert_eq!(common.bounds(), &vec![9, 4]);
    common.unbind_socket(7);
    assert_eq!(common.bounds(), &vec![9, 4]);
    common.unbind_socket(4);
    common.unbind_socket(9);
    assert!(common.bounds().is_empty());
}

#[test]
fn sockets_go_to_the_interface_that_serves_their_address() {
    let mut net: NetDevices<Loopback> = NetDevices::new();
    net.insert(2, tap(2, None));
    net.insert(1, tap(1, None));
    assert_eq!(net.common_at_mut(0).update_ip_addrs(&[block((10, 0, 0, 1), 8)]), Ok(()));
    assert_eq!(net.common_at_mut(1).update_ip_addrs(&[block(HOME, 24)]), Ok(()));

    assert_eq!(net.default_iface(), Some(0));
    assert_eq!(net.get_iface_to_bind(&addr((10, 0, 0, 1))), Some(0));
    assert_eq!(net.get_iface_to_bind(&addr(HOME)), Some(1));
    assert_eq!(net.get_iface_to_bind(&addr((10, 0, 0, 2))), None);

    // A peer that is an address of an interface is reached from that address.
    assert_eq!(net.get_ephemeral_iface(&addr(HOME)), Some((1, addr(HOME))));
    // A peer on the subnet of an interface is reached from the address of its block.
    assert_eq!(net.get_ephemeral_iface(&addr((192, 168, 213, 1))), Some((1, addr(HOME))));
    assert_eq!(net.get_ephemeral_iface(&addr((10, 200, 3, 4))), Some((0, addr((10, 0, 0, 1)))));
    // Every other peer is reached from the first address of the first interface.
    assert_eq!(net.get_ephemeral_iface(&addr((8, 8, 8, 8))), Some((0, addr((10, 0, 0, 1)))));

    let empty: NetDevices<Loopback> = NetDevices::new();
    assert_eq!(empty.default_iface(), None);
    assert_eq!(empty.get_ephemeral_iface(&addr((8, 8, 8, 8))), None);
    let mut bare: NetDevices<Loopback> = NetDevices::new();
    bare.insert(0, tap(1, None));
    assert_eq!(bare.get_ephemeral_iface(&addr((8, 8, 8, 8))), None);

    // A datagram socket that connects to a peer on no known subnet is bound to the
    // first address of the first interface.
    let mut socket = datagram(1);
    assert_eq!(done(socket.connect(&mut net, endpoint((8, 8, 8, 8), 53), 0)), Ok(()));
    assert_eq!(socket.get_name(&net), Ok(endpoint((10, 0, 0, 1), 49152)));
    assert_eq!(net.common_at(0).bounds(), &vec![1]);
    assert!(net.common_at(0).port_manager().is_allocated(Types::Udp, 49152));
    assert!(!net.common_at(1).port_manager().is_allocated(Types::Udp, 49152));
}

#[test]
fn the_family_makes_the_socket_that_is_asked_for() {
    assert!(matches!(Inet::socket(SOCK::Datagram, 0, 1), Ok(InetSocket::Udp(_))));
    assert!(matches!(Inet::socket(SOCK::Datagram, 17, 1), Ok(InetSocket::Udp(_))));
    assert!(matches!(Inet::socket(SOCK::Datagram, 6, 1), Err(SystemError::EPROTONOSUPPORT)));
    assert!(matches!(Inet::socket(SOCK::Stream, 0, 1), Ok(InetSocket::Tcp(_))));
    assert!(matches!(Inet::socket(SOCK::Stream, 6, 1), Ok(InetSocket::Tcp(_))));
    assert!(matches!(Inet::socket(SOCK::Stream, 0x106, 1), Ok(InetSocket::Tcp(_))));
    assert!(matches!(Inet::socket(SOCK::Stream, 17, 1), Err(SystemError::EPROTONOSUPPORT)));
    assert!(matches!(Inet::socket(SOCK::Raw, 0, 1), Err(SystemError::ENOSYS)));
    assert!(matches!(Inet::socket(SOCK::Raw, 1, 1), Err(SystemError::ENOSYS)));
    assert!(matches!(Inet::socket(SOCK::SeqPacket, 0, 1), Err(SystemError::EPROTONOSUPPORT)));
    assert!(matches!(Inet::socket(SOCK::Packet, 0, 1), Err(SystemError::EPROTONOSUPPORT)));
    assert!(matches!(Inet::socket(SOCK::RDM, 0, 1), Err(SystemError::EPROTONOSUPPORT)));
    assert!(matches!(Inet::socket(SOCK::DCCP, 0, 1), Err(SystemError::EPROTONOSUPPORT)));
    assert!(matches!(
        create_inet_socket(IpVersion::Ipv6, SOCK::Stream, IpProtocol::Tcp, 1),
        Ok(InetSocket::Tcp(_))
    ));
    assert!(matches!(
        create_inet_socket(IpVersion::Ipv4, SOCK::Datagram, IpProtocol::Icmp, 1),
        Err(SystemError::EPROTONOSUPPORT)
    ));

    let socket = Inet::socket(SOCK::Stream, 0, 77).unwrap();
    assert_eq!(socket.id(), 77);
    assert_eq!(socket.poll(), 0);
    let net = net();
    assert_eq!(socket.get_name(&net), Ok(endpoint((0, 0, 0, 0), 0)));
    assert_eq!(socket.get_peer_name(&net), Err(SystemError::ENOTCONN));
    assert_eq!(socket.send_buffer_size(&net), 512 * 1024);
    assert_eq!(socket.recv_buffer_size(&net), 512 * 1024);
    let udp = Inet::socket(SOCK::Datagram, 0, 78).unwrap();
    assert_eq!(udp.get_name(&net), Ok(endpoint((0, 0, 0, 0), 0)));
    assert_eq!(udp.get_peer_name(&net), Err(SystemError::ENOTCONN));
    assert_eq!(udp.send_buffer_size(&net), 64 * 1024);
    assert_eq!(udp.recv_buffer_size(&net), 64 * 1024);
}

#[test]
fn a_stream_socket_is_bound_once() {
    let mut net = net();
    let mut socket = stream(1);
    assert_eq!(socket.bind(&mut net, Endpoint::Other), Err(SystemError::EINVAL));
    assert_eq!(socket.bind(&mut net, endpoint((10, 0, 0, 1), 80)), Err(SystemError::ENODEV));
    assert_eq!(socket.bind(&mut net, endpoint(HOME, 0)), Err(SystemError::EINVAL));
    assert!(net.common_at(0).bounds().is_empty());
    assert_eq!(socket.get_name(&net), Ok(endpoint((0, 0, 0, 0), 0)));

    assert_eq!(socket.bind(&mut net, endpoint(HOME, 80)), Ok(()));
    assert_eq!(socket.get_name(&net), Ok(endpoint(HOME, 80)));
    assert_eq!(socket.get_peer_name(&net), Err(SystemError::ENOTCONN));
    assert_eq!(net.common_at(0).bounds(), &vec![1]);
    assert!(net.common_at(0).port_manager().is_allocated(Types::Tcp, 80));
    assert!(!net.common_at(0).port_manager().is_allocated(Types::Udp, 80));
    assert_eq!(socket.bind(&mut net, endpoint(HOME, 81)), Err(SystemError::EINVAL));
    assert_eq!(socket.get_name(&net), Ok(endpoint(HOME, 80)));
    assert!(!net.common_at(0).port_manager().is_allocated(Types::Tcp, 81));

    // The port is taken for every other stream socket, and free for datagram sockets.
    let mut second = stream(2);
    assert_eq!(second.bind(&mut net, endpoint(HOME, 80)), Err(SystemError::EADDRINUSE));
    assert_eq!(second.get_name(&net), Ok(endpoint((0, 0, 0, 0), 0)));
    assert_eq!(net.common_at(0).bounds(), &vec![1]);
    let mut third = datagram(3);
    assert_eq!(third.bind(&mut net, endpoint(HOME, 80)), Ok(()));

    // The unspecified address goes to the default interface.
    assert_eq!(second.bind(&mut net, endpoint((0, 0, 0, 0), 8080)), Ok(()));
    assert_eq!(second.get_name(&net), Ok(endpoint((0, 0, 0, 0), 8080)));
    assert_eq!(net.common_at(0).bounds(), &vec![1, 3, 2]);
}

#[test]
fn a_stream_socket_listens_after_it_is_bound() {
    let mut net = net();
    let mut socket = stream(1);
    assert_eq!(socket.listen(&mut net, 1), Err(SystemError::EINVAL));
    assert_eq!(done(socket.accept(&mut net, 2)).err(), Some(SystemError::EINVAL));
    assert_eq!(socket.bind(&mut net, endpoint(HOME, 4321)), Ok(()));
    assert_eq!(done(socket.accept(&mut net, 2)).err(), Some(SystemError::EINVAL));
    assert_eq!(socket.listen(&mut net, 3), Ok(()));
    assert_eq!(socket.get_name(&net), Ok(endpoint(HOME, 4321)));
    assert_eq!(socket.get_peer_name(&net), Err(SystemError::ENOTCONN));
    assert_eq!(socket.listen(&mut net, 3), Err(SystemError::EINVAL));
    assert_eq!(socket.bind(&mut net, endpoint(HOME, 4322)), Err(SystemError::EINVAL));
    assert_eq!(done(socket.connect(&mut net, endpoint(HOME, 9), 0)), Err(SystemError::EISCONN));

    // No connection has come in: a blocking socket waits, a non-blocking one does not.
    assert_eq!(waits_for(socket.accept(&mut net, 2)), EPOLLIN);
    socket.on_iface_events(&net);
    assert_eq!(socket.poll() as u32 & EPOLLIN, 0);
    if let InetSocket::Tcp(tcp) = &mut socket {
        tcp.set_nonblock(true);
        assert!(tcp.is_nonblock());
    }
    assert_eq!(done(socket.accept(&mut net, 2)).err(), Some(SystemError::EAGAIN_OR_EWOULDBLOCK));

    // A socket bound to the unspecified address listens on every address.
    let mut any = stream(5);
    assert_eq!(any.bind(&mut net, endpoint((0, 0, 0, 0), 5000)), Ok(()));
    assert_eq!(any.listen(&mut net, 2), Ok(()));
    assert_eq!(any.get_name(&net), Ok(endpoint((0, 0, 0, 0), 5000)));
}

#[test]
fn a_stream_socket_connects_over_the_loopback() {
    let mut net = net();
    let mut now = 0i64;
    let (mut listener, mut client, mut server) = connection(&mut net, &mut now);

    // The client was bound to an ephemeral port of the interface that owns the address.
    assert_eq!(client.get_name(&net), Ok(endpoint(HOME, 49152)));
    assert_eq!(client.get_peer_name(&net), Ok(endpoint(HOME, 4321)));
    assert_eq!(server.get_name(&net), Ok(endpoint(HOME, 4321)));
    assert_eq!(server.get_peer_name(&net), Ok(endpoint(HOME, 49152)));
    assert!(net.common_at(0).port_manager().is_allocated(Types::Tcp, 49152));
    assert_eq!(server.id(), 3);
    assert_eq!(server.poll() as u32, EPOLLIN | EPOLLOUT);
    assert_eq!(client.send_buffer_size(&net), 512 * 1024);
    assert_eq!(client.recv_buffer_size(&net), 512 * 1024);
    assert_eq!(listener.send_buffer_size(&net), 512 * 1024);

    // A connected socket does not connect again, and is neither bound nor listened on.
    assert_eq!(done(client.connect(&mut net, endpoint(HOME, 4321), now)), Err(SystemError::EISCONN));
    assert_eq!(done(client.connect_retry(&net)), Ok(()));
    assert_eq!(client.bind(&mut net, endpoint(HOME, 1)), Err(SystemError::EINVAL));
    assert_eq!(client.listen(&mut net, 1), Err(SystemError::EINVAL));
    assert_eq!(done(client.accept(&mut net, 9)).err(), Some(SystemError::EINVAL));

    // Nothing to read yet.
    let mut buffer = [0u8; 64];
    assert_eq!(waits_for(server.recv(&mut net, &mut buffer, PMSG::empty(), now)), EPOLLIN);
    server.on_iface_events(&net);
    assert_eq!(server.poll() as u32, EPOLLOUT);

    assert_eq!(done(client.write(&mut net, b"over the loopback", now)), Ok(17));
    pump(&mut net, &mut now);
    server.on_iface_events(&net);
    assert_eq!(server.poll() as u32, EPOLLIN | EPOLLOUT);
    assert_eq!(done(server.read(&mut net, &mut buffer[..4], now)), Ok(4));
    assert_eq!(&buffer[..4], b"over");
    assert_eq!(done(server.read(&mut net, &mut buffer, now)), Ok(13));
    assert_eq!(&buffer[..13], b" the loopback");
    server.on_iface_events(&net);
    assert_eq!(server.poll() as u32, EPOLLOUT);
    assert_eq!(done(server.read(&mut net, &mut buffer[..0], now)), Ok(0));

    assert_eq!(done(server.send(&mut net, b"and back", PMSG::empty(), now)), Ok(8));
    pump(&mut net, &mut now);
    assert_eq!(done(client.recv(&mut net, &mut buffer, PMSG::empty(), now)), Ok(8));
    assert_eq!(&buffer[..8], b"and back");

    // Calls that a stream socket does not implement.
    assert_eq!(done(client.recv_from(&mut net, &mut buffer, PMSG::empty(), now)).err(), Some(SystemError::ENOSYS));
    assert_eq!(
        done(client.send_to(&mut net, b"x", PMSG::empty(), endpoint(HOME, 1), now)),
        Err(SystemError::ENOSYS)
    );
    let mut value = [0u8; 4];
    assert_eq!(client.get_option(PSOL::SOCKET, 1, &mut value), Ok(0));

    // The client closes: the server reads the end of the stream, again and again.
    assert_eq!(client.close(&mut net, now), Ok(()));
    pump(&mut net, &mut now);
    assert_eq!(done(server.read(&mut net, &mut buffer, now)), Ok(0));
    assert_eq!(done(server.read(&mut net, &mut buffer, now)), Ok(0));
    assert_eq!(server.close(&mut net, now), Ok(()));
    assert_eq!(listener.close(&mut net, now), Ok(()));
    assert!(!net.common_at(0).port_manager().is_allocated(Types::Tcp, 4321));
    assert!(net.common_at(0).bounds().is_empty());

    // The port of the listener is free again.
    let mut again = stream(8);
    assert_eq!(again.bind(&mut net, endpoint(HOME, 4321)), Ok(()));
}

#[test]
fn a_non_blocking_connect_is_in_progress() {
    let mut net = net();
    let mut now = 0i64;
    let mut listener = stream(1);
    assert_eq!(listener.bind(&mut net, endpoint(HOME, 4321)), Ok(()));
    assert_eq!(listener.listen(&mut net, 1), Ok(()));

    let mut client = TcpSocket::new(2, true, IpVersion::Ipv4);
    assert!(client.is_nonblock());
    assert_eq!(client.start_connect(&mut net, IpEndpoint::new(addr(HOME), 4321), now), Err(SystemError::EINPROGRESS));
    assert_eq!(client.start_connect(&mut net, IpEndpoint::new(addr(HOME), 4321), now), Err(SystemError::EALREADY));
    assert!(matches!(
        client.connect(&mut net, endpoint(HOME, 4321), now),
        Blocking::Done(Err(SystemError::EALREADY))
    ));
    pump(&mut net, &mut now);
    assert_eq!(client.check_connect(&net), Ok(()));
    assert_eq!(client.check_connect(&net), Ok(()));
    assert_eq!(client.finish_connect(), Err(SystemError::EINVAL));
    assert_eq!(client.get_peer_name(&net), Ok(endpoint(HOME, 4321)));
    // The readiness flags wait for the next event of the interface.
    assert_eq!(client.poll(), 0);
    client.on_iface_events(&net);
    assert!(client.is_epoll_out());
    assert!(!client.is_epoll_in());

    // A blocking socket whose peer does not answer is asked to look again.
    let silent = IpEndpoint::new(addr((192, 168, 213, 99)), 80);
    let mut second = TcpSocket::new(3, false, IpVersion::Ipv4);
    assert_eq!(second.start_connect(&mut net, silent, now), Ok(()));
    assert_eq!(second.start_connect(&mut net, silent, now), Ok(()));
    assert_eq!(second.check_connect(&net), Err(SystemError::EAGAIN_OR_EWOULDBLOCK));
    assert_eq!(second.finish_connect(), Err(SystemError::EAGAIN_OR_EWOULDBLOCK));
    assert_eq!(second.get_name(&net), Ok(endpoint(HOME, 49153)));
    assert_eq!(second.get_peer_name(&net), Ok(Endpoint::Ip(silent)));
    assert!(matches!(second.connect_retry(&net), Blocking::WaitFor(EPOLLOUT)));

    // A connection that finds no socket that listens is refused.
    let mut third = TcpSocket::new(4, false, IpVersion::Ipv4);
    assert_eq!(third.start_connect(&mut net, IpEndpoint::new(addr(HOME), 4321), now), Ok(()));
    pump(&mut net, &mut now);
    assert_eq!(third.check_connect(&net), Err(SystemError::ECONNREFUSED));
    assert_eq!(third.get_name(&net), Ok(endpoint((0, 0, 0, 0), 0)));
    assert_eq!(third.get_peer_name(&net), Err(SystemError::ENOTCONN));
}

#[test]
fn a_connect_needs_ends_that_the_stack_takes() {
    let mut net = net();
    let mut socket = stream(1);
    assert!(matches!(socket.connect(&mut net, Endpoint::Other, 0), Blocking::Done(Err(SystemError::EINVAL))));
    // Port 0 and the unspecified address are no peers; the socket stays bound to
    // the ephemeral port that it was given.
    assert_eq!(done(socket.connect(&mut net, endpoint(HOME, 0), 0)), Err(SystemError::ECONNREFUSED));
    assert_eq!(socket.get_name(&net), Ok(endpoint(HOME, 49152)));
    assert_eq!(done(socket.connect(&mut net, endpoint((0, 0, 0, 0), 80), 0)), Err(SystemError::ECONNREFUSED));
    assert_eq!(socket.get_name(&net), Ok(endpoint(HOME, 49152)));
    assert_eq!(socket.get_peer_name(&net), Err(SystemError::ENOTCONN));

    // A socket that is bound to the unspecified address has no address to connect from.
    let mut any = stream(2);
    assert_eq!(any.bind(&mut net, endpoint((0, 0, 0, 0), 6000)), Ok(()));
    assert_eq!(done(any.connect(&mut net, endpoint(HOME, 80), 0)), Err(SystemError::EINVAL));
    assert_eq!(any.get_name(&net), Ok(endpoint((0, 0, 0, 0), 6000)));

    // Without an interface there is no device to connect through.
    let mut nowhere: NetDevices<Loopback> = NetDevices::new();
    let mut lost = stream(3);
    assert_eq!(done(lost.connect(&mut nowhere, endpoint(HOME, 80), 0)), Err(SystemError::ENODEV));
    assert_eq!(lost.bind(&mut nowhere, endpoint((0, 0, 0, 0), 80)), Err(SystemError::ENODEV));
    assert_eq!(lost.get_name(&nowhere), Ok(endpoint((0, 0, 0, 0), 0)));
}

#[test]
fn a_socket_of_the_other_version_has_no_name_yet() {
    let net = net();
    let socket = TcpSocket::new(1, false, IpVersion::Ipv6);
    assert_eq!(socket.get_name(&net), Err(SystemError::ENOSYS));
    assert_eq!(socket.get_peer_name(&net), Err(SystemError::ENOTCONN));
    assert_eq!(socket.poll(), 0);
    assert_eq!(socket.id(), 1);
}

#[test]
fn data_moves_on_established_sockets_only() {
    let mut net = net();
    let mut buffer = [0u8; 8];
    let mut unbound = TcpSocket::new(1, false, IpVersion::Ipv4);
    assert_eq!(unbound.try_recv(&mut net, &mut buffer, 0), Err(SystemError::EINVAL));
    assert_eq!(unbound.try_send(&mut net, b"x", 0), Err(SystemError::EINVAL));
    assert_eq!(unbound.check_connect(&net), Err(SystemError::EINVAL));
    assert_eq!(unbound.finish_connect(), Err(SystemError::EINVAL));
    assert_eq!(unbound.try_accept(&mut net, 2).err(), Some(SystemError::EINVAL));
    assert!(!unbound.update_events(&net));

    let mut listening = TcpSocket::new(3, false, IpVersion::Ipv4);
    assert_eq!(listening.do_bind(&mut net, IpEndpoint::new(addr(HOME), 4321)), Ok(()));
    assert_eq!(listening.try_recv(&mut net, &mut buffer, 0), Err(SystemError::EINVAL));
    assert_eq!(listening.do_listen(&mut net, 1), Ok(()));
    assert_eq!(listening.try_recv(&mut net, &mut buffer, 0), Err(SystemError::EINVAL));
    assert_eq!(listening.try_send(&mut net, b"x", 0), Err(SystemError::EINVAL));
    assert_eq!(listening.check_connect(&net), Err(SystemError::EINVAL));
    assert_eq!(listening.try_accept(&mut net, 4).err(), Some(SystemError::EAGAIN_OR_EWOULDBLOCK));
    assert!(!listening.update_events(&net));
    assert_eq!(listening.start_connect(&mut net, IpEndpoint::new(addr(HOME), 1), 0), Err(SystemError::EISCONN));
}

#[test]
fn options_are_set_on_established_sockets() {
    let mut net = net();
    let mut now = 0i64;
    let (mut listener, mut client, _server) = connection(&mut net, &mut now);
    let nodelay = 1usize;
    let keepidle = 4usize;
    let keepintvl = 5usize;
    let keepcnt = 6usize;

    assert_eq!(client.set_option(&mut net, PSOL::TCP, nodelay, &[1]), Ok(()));
    assert_eq!(client.set_option(&mut net, PSOL::TCP, nodelay, &[0, 0, 0, 0]), Ok(()));
    assert_eq!(client.set_option(&mut net, PSOL::TCP, nodelay, &[]), Err(SystemError::EINVAL));
    assert_eq!(client.set_option(&mut net, PSOL::TCP, keepintvl, &30u32.to_ne_bytes()), Ok(()));
    assert_eq!(client.set_option(&mut net, PSOL::TCP, keepintvl, &[30]), Err(SystemError::EINVAL));
    assert_eq!(client.set_option(&mut net, PSOL::TCP, keepintvl, &[0; 8]), Err(SystemError::EINVAL));
    assert_eq!(client.set_option(&mut net, PSOL::TCP, keepcnt, &[]), Ok(()));
    assert_eq!(client.set_option(&mut net, PSOL::TCP, keepidle, &[1, 2, 3]), Ok(()));
    assert_eq!(client.set_option(&mut net, PSOL::TCP, 13, &[]), Ok(()));
    assert_eq!(client.set_option(&mut net, PSOL::TCP, 0, &[1]), Err(SystemError::EINVAL));
    assert_eq!(client.set_option(&mut net, PSOL::TCP, 15, &[1]), Err(SystemError::EINVAL));
    assert_eq!(client.set_option(&mut net, PSOL::TCP, 1000, &[1]), Err(SystemError::EINVAL));
    // Options of other levels are accepted and ignored.
    assert_eq!(client.set_option(&mut net, PSOL::SOCKET, 9, &[1, 0, 0, 0]), Ok(()));
    assert_eq!(client.set_option(&mut net, PSOL::IP, 1000, &[]), Ok(()));

    // A socket without a connection has no in-stack options to set.
    assert_eq!(listener.set_option(&mut net, PSOL::TCP, nodelay, &[1]), Err(SystemError::EINVAL));
    assert_eq!(listener.set_option(&mut net, PSOL::TCP, keepintvl, &[0, 0, 0, 1]), Err(SystemError::EINVAL));
    assert_eq!(listener.set_option(&mut net, PSOL::TCP, keepcnt, &[1]), Ok(()));
    assert_eq!(listener.set_option(&mut net, PSOL::SOCKET, nodelay, &[]), Ok(()));
    let mut unbound = stream(9);
    assert_eq!(unbound.set_option(&mut net, PSOL::TCP, nodelay, &[1]), Err(SystemError::EINVAL));
    let mut udp = datagram(10);
    assert_eq!(udp.set_option(&mut net, PSOL::TCP, nodelay, &[]), Ok(()));
    assert_eq!(client.poll() as u32 & EPOLLOUT, 0);
}

#[test]
fn shut_down_halves_are_recorded_once() {
    let mut socket = TcpSocket::new(1, false, IpVersion::Ipv4);
    assert!(socket.shutdown_state().is_empty());
    assert_eq!(socket.shutdown(ShutdownTemp::try_from(0).unwrap()), Ok(()));
    let once = socket.shutdown_state();
    assert!(once.is_recv_shutdown() && !once.is_send_shutdown());
    assert_eq!(socket.shutdown(ShutdownTemp::try_from(0).unwrap()), Ok(()));
    assert_eq!(socket.shutdown_state(), once);
    assert_eq!(socket.shutdown(ShutdownTemp::try_from(1).unwrap()), Ok(()));
    assert!(socket.shutdown_state().is_both_shutdown());
    assert_eq!(socket.shutdown(ShutdownTemp::try_from(0).unwrap()), Ok(()));
    assert!(socket.shutdown_state().is_both_shutdown());
    assert_eq!(socket.poll(), 0);
}

#[test]
fn readiness_changes_with_the_events_of_the_interface_only() {
    let mut net = net();
    let mut now = 0i64;
    let (mut listener, mut client, mut server) = connection(&mut net, &mut now);
    server.on_iface_events(&net);
    let quiet = server.poll();
    assert_eq!(quiet as u32, EPOLLOUT);

    // Data arrives, is read, and more is sent: the flags stay what the last event
    // of the interface made them.
    assert_eq!(done(client.write(&mut net, b"data", now)), Ok(4));
    pump(&mut net, &mut now);
    assert_eq!(server.poll(), quiet);
    let mut buffer = [0u8; 2];
    assert_eq!(done(server.read(&mut net, &mut buffer, now)), Ok(2));
    assert_eq!(server.poll(), quiet);
    assert_eq!(done(server.write(&mut net, b"more", now)), Ok(4));
    assert_eq!(server.set_option(&mut net, PSOL::TCP, 1, &[1]), Ok(()));
    assert_eq!(server.shutdown(ShutdownTemp::try_from(1).unwrap()), Ok(()));
    assert_eq!(server.poll(), quiet);
    // The listener was last told of the connection that has been accepted since.
    assert_eq!(listener.poll() as u32, EPOLLIN);
    assert_eq!(waits_for(listener.accept(&mut net, 9)), EPOLLIN);
    assert_eq!(listener.poll() as u32, EPOLLIN);
    listener.on_iface_events(&net);
    assert_eq!(listener.poll(), 0);

    // The next event of the interface brings them up to date.
    server.on_iface_events(&net);
    assert_eq!(server.poll() as u32, EPOLLIN | EPOLLOUT);
    assert_eq!(done(server.read(&mut net, &mut buffer, now)), Ok(2));
    assert_eq!(server.poll() as u32, EPOLLIN | EPOLLOUT);
    server.on_iface_events(&net);
    assert_eq!(server.poll() as u32, EPOLLOUT);
}

#[test]
fn sockets_keep_their_place_while_others_come_and_go() {
    let mut net = net();
    let mut now = 0i64;
    let (mut listener, mut client, mut server) = connection(&mut net, &mut now);
    let mut others = Vec::new();
    for id in 10..20 {
        let mut other = stream(id);
        assert_eq!(other.bind(&mut net, endpoint(HOME, 1000 + id as u16)), Ok(()));
        assert_eq!(other.listen(&mut net, 3), Ok(()));
        others.push(other);
    }
    let mut bystander = datagram(30);
    assert_eq!(bystander.bind(&mut net, endpoint(HOME, 1000)), Ok(()));
    for other in others.iter_mut().rev() {
        assert_eq!(other.close(&mut net, now), Ok(()));
    }
    pump(&mut net, &mut now);

    // The sockets that stayed are where they were.
    assert_eq!(client.get_peer_name(&net), Ok(endpoint(HOME, 4321)));
    assert_eq!(server.get_name(&net), Ok(endpoint(HOME, 4321)));
    assert_eq!(bystander.get_name(&net), Ok(endpoint(HOME, 1000)));
    assert_eq!(done(client.write(&mut net, b"still here", now)), Ok(10));
    pump(&mut net, &mut now);
    let mut buffer = [0u8; 16];
    assert_eq!(done(server.read(&mut net, &mut buffer, now)), Ok(10));
    assert_eq!(&buffer[..10], b"still here");
    assert_eq!(waits_for(listener.accept(&mut net, 40)), EPOLLIN);
    // The listener, the client that was bound for its connection, the socket that
    // was accepted, and the datagram socket are listed; those that closed are not.
    assert_eq!(net.common_at(0).bounds(), &vec![1, 2, 3, 30]);
    assert_eq!(client.close(&mut net, now), Ok(()));
    assert_eq!(net.common_at(0).bounds(), &vec![1, 3, 30]);
    assert_eq!(server.close(&mut net, now), Ok(()));
    assert_eq!(listener.close(&mut net, now), Ok(()));
    assert_eq!(net.common_at(0).bounds(), &vec![30]);
}

#[test]
fn shutting_down_twice_changes_nothing() {
    let mut socket = stream(1);
    assert_eq!(socket.shutdown(ShutdownTemp::try_from(0).unwrap()), Ok(()));
    assert_eq!(socket.shutdown(ShutdownTemp::try_from(0).unwrap()), Ok(()));
    assert_eq!(socket.shutdown(ShutdownTemp::try_from(1).unwrap()), Ok(()));
    assert_eq!(socket.shutdown(ShutdownTemp::try_from(2).unwrap()), Ok(()));
    assert_eq!(socket.poll(), 0);
    let mut udp = datagram(2);
    assert_eq!(udp.shutdown(ShutdownTemp::try_from(2).unwrap()), Err(SystemError::ENOSYS));
    let mut net = net();
    assert_eq!(udp.listen(&mut net, 1), Err(SystemError::ENOSYS));
    assert_eq!(done(udp.accept(&mut net, 3)).err(), Some(SystemError::ENOSYS));
    assert_eq!(done(udp.connect_retry(&net)), Ok(()));
}

#[test]
fn closing_twice_changes_nothing() {
    let mut net = net();
    let mut socket = stream(1);
    assert_eq!(socket.bind(&mut net, endpoint(HOME, 4321)), Ok(()));
    assert_eq!(socket.close(&mut net, 0), Ok(()));
    assert!(!net.common_at(0).port_manager().is_allocated(Types::Tcp, 4321));
    assert!(net.common_at(0).bounds().is_empty());
    assert_eq!(socket.poll() as u32, EPOLLIN | EPOLLOUT);
    assert_eq!(socket.wait_queue().wait_step(true, 0, None), Ok(WaitStep::Ready));
    assert_eq!(socket.close(&mut net, 0), Ok(()));
    assert_eq!(socket.poll() as u32, EPOLLIN | EPOLLOUT);
    assert!(net.common_at(0).bounds().is_empty());

    // A closed socket takes no call.
    let mut buffer = [0u8; 4];
    assert_eq!(socket.bind(&mut net, endpoint(HOME, 4321)), Err(SystemError::EINVAL));
    assert_eq!(socket.listen(&mut net, 1), Err(SystemError::EINVAL));
    assert_eq!(done(socket.connect(&mut net, endpoint(HOME, 1), 0)), Err(SystemError::EINVAL));
    assert_eq!(done(socket.accept(&mut net, 2)).err(), Some(SystemError::EINVAL));
    assert_eq!(done(socket.read(&mut net, &mut buffer, 0)), Err(SystemError::ECONNRESET));
    assert_eq!(done(socket.write(&mut net, &buffer, 0)), Err(SystemError::EINVAL));
    assert_eq!(socket.get_name(&net), Err(SystemError::EINVAL));
    assert_eq!(socket.get_peer_name(&net), Err(SystemError::ENOTCONN));
    assert_eq!(socket.send_buffer_size(&net), 512 * 1024);

    let mut unbound = stream(2);
    assert_eq!(unbound.close(&mut net, 0), Ok(()));
    assert_eq!(unbound.close(&mut net, 0), Ok(()));

    let mut udp = datagram(3);
    assert_eq!(udp.bind(&mut net, endpoint(HOME, 53)), Ok(()));
    assert_eq!(net.common_at(0).bounds(), &vec![3]);
    assert_eq!(udp.close(&mut net, 0), Ok(()));
    assert!(!net.common_at(0).port_manager().is_allocated(Types::Udp, 53));
    assert!(net.common_at(0).bounds().is_empty());
    assert_eq!(udp.close(&mut net, 0), Ok(()));
    assert_eq!(udp.get_name(&net), Err(SystemError::EINVAL));
    assert_eq!(udp.bind(&mut net, endpoint(HOME, 53)), Err(SystemError::EINVAL));
    assert_eq!(done(udp.connect(&mut net, endpoint(HOME, 53), 0)), Err(SystemError::EINVAL));
    assert_eq!(done(udp.recv(&mut net, &mut buffer, PMSG::empty(), 0)), Err(SystemError::EINVAL));
    let mut fresh = datagram(4);
    assert_eq!(fresh.bind(&mut net, endpoint(HOME, 53)), Ok(()));
}

#[test]
fn a_datagram_socket_is_bound_once() {
    let mut net = net();
    let mut socket = UdpSocket::new(1, false);
    assert!(!socket.is_nonblock());
    assert_eq!(socket.bind(&mut net, Endpoint::Other), Err(SystemError::EINVAL));
    assert_eq!(socket.do_bind(&mut net, IpEndpoint::new(addr((10, 0, 0, 1)), 53)), Err(SystemError::ENODEV));
    assert_eq!(socket.do_bind(&mut net, IpEndpoint::new(addr(HOME), 0)), Err(SystemError::EINVAL));
    assert_eq!(socket.get_name(), Ok(endpoint((0, 0, 0, 0), 0)));
    assert_eq!(socket.do_bind(&mut net, IpEndpoint::new(addr(HOME), 53)), Ok(()));
    assert_eq!(socket.get_name(), Ok(endpoint(HOME, 53)));
    assert_eq!(socket.get_peer_name(), Err(SystemError::ENOTCONN));
    assert_eq!(socket.do_bind(&mut net, IpEndpoint::new(addr(HOME), 54)), Err(SystemError::EINVAL));
    let mut second = UdpSocket::new(2, false);
    assert_eq!(second.do_bind(&mut net, IpEndpoint::new(addr(HOME), 53)), Err(SystemError::EADDRINUSE));
    assert_eq!(second.do_bind(&mut net, IpEndpoint::new(addr((0, 0, 0, 0)), 54)), Ok(()));
    assert_eq!(second.get_name(), Ok(endpoint((0, 0, 0, 0), 54)));
    assert_eq!(net.common_at(0).bounds(), &vec![1, 2]);

    // Connecting records the peer, and may be done again.
    assert_eq!(socket.connect(&mut net, Endpoint::Other), Err(SystemError::EINVAL));
    assert_eq!(socket.connect(&mut net, endpoint(HOME, 54)), Ok(()));
    assert_eq!(socket.get_peer_name(), Ok(endpoint(HOME, 54)));
    assert_eq!(socket.connect(&mut net, endpoint(HOME, 55)), Ok(()));
    assert_eq!(socket.get_peer_name(), Ok(endpoint(HOME, 55)));
    assert_eq!(socket.get_name(), Ok(endpoint(HOME, 53)));
}

#[test]
fn datagrams_travel_over_the_loopback() {
    let mut net = net();
    let mut now = 0i64;
    let mut receiver = datagram(1);
    assert_eq!(receiver.bind(&mut net, endpoint(HOME, 1234)), Ok(()));
    let mut buffer = [0u8; 64];
    assert_eq!(waits_for(receiver.recv(&mut net, &mut buffer, PMSG::empty(), now)), EPOLLIN);
    assert_eq!(waits_for(receiver.recv_from(&mut net, &mut buffer, PMSG::empty(), now)), EPOLLIN);
    receiver.on_iface_events(&net);
    assert_eq!(receiver.poll() as u32, EPOLLOUT);

    // A socket that is not connected has no peer to send to, and nothing to receive.
    let mut sender = datagram(2);
    assert_eq!(done(sender.send(&mut net, b"hello", PMSG::empty(), now)), Err(SystemError::EINVAL));
    assert_eq!(done(sender.recv(&mut net, &mut buffer, PMSG::empty(), now)), Err(SystemError::EINVAL));
    assert_eq!(done(sender.recv_from(&mut net, &mut buffer, PMSG::empty(), now)).err(), Some(SystemError::EINVAL));
    assert_eq!(
        done(sender.send_to(&mut net, b"hello", PMSG::empty(), Endpoint::Other, now)),
        Err(SystemError::EINVAL)
    );
    assert_eq!(sender.get_name(&net), Ok(endpoint((0, 0, 0, 0), 0)));

    // `send_to` binds the socket to an ephemeral port and sends.
    assert_eq!(done(sender.send_to(&mut net, b"hello", PMSG::empty(), endpoint(HOME, 1234), now)), Ok(5));
    assert_eq!(sender.get_name(&net), Ok(endpoint(HOME, 49152)));
    assert_eq!(sender.get_peer_name(&net), Err(SystemError::ENOTCONN));
    assert_eq!(done(sender.send(&mut net, b"hello", PMSG::empty(), now)), Err(SystemError::EINVAL));
    pump(&mut net, &mut now);
    receiver.on_iface_events(&net);
    assert_eq!(receiver.poll() as u32, EPOLLIN | EPOLLOUT);
    assert_eq!(
        done(receiver.recv_from(&mut net, &mut buffer, PMSG::empty(), now)),
        Ok((5, endpoint(HOME, 49152)))
    );
    assert_eq!(&buffer[..5], b"hello");
    receiver.on_iface_events(&net);
    assert_eq!(receiver.poll() as u32, EPOLLOUT);

    // The stack does not queue a datagram for port 0 or for the unspecified address.
    assert_eq!(
        done(sender.send_to(&mut net, b"x", PMSG::empty(), endpoint(HOME, 0), now)),
        Err(SystemError::EINVAL)
    );
    assert_eq!(
        done(sender.send_to(&mut net, b"x", PMSG::empty(), endpoint((0, 0, 0, 0), 9), now)),
        Err(SystemError::EINVAL)
    );

    // A datagram that is longer than the buffer is lost.
    assert_eq!(done(sender.connect(&mut net, endpoint(HOME, 1234), now)), Ok(()));
    assert_eq!(done(sender.write(&mut net, b"a long datagram", now)), Ok(15));
    assert_eq!(done(sender.write(&mut net, b"short", now)), Ok(5));
    pump(&mut net, &mut now);
    assert_eq!(done(receiver.read(&mut net, &mut buffer[..4], now)), Err(SystemError::EINVAL));
    assert_eq!(done(receiver.read(&mut net, &mut buffer[..5], now)), Ok(5));
    assert_eq!(&buffer[..5], b"short");

    // A non-blocking socket does not wait.
    if let InetSocket::Udp(udp) = &mut receiver {
        udp.set_nonblock(true);
    }
    assert_eq!(
        done(receiver.recv(&mut net, &mut buffer, PMSG::empty(), now)),
        Err(SystemError::EAGAIN_OR_EWOULDBLOCK)
    );
}

#[test]
fn the_pump_watches_the_devices_of_the_registry() {
    let mut net: NetDevices<Loopback> = NetDevices::new();
    net.insert(1, tap(1, Some(10)));
    net.insert(2, tap(2, None));
    net.insert(3, tap(3, Some(30)));
    net.insert(4, tap(4, Some(10)));
    let mut watcher = Watcher::new();
    assert_eq!(watcher.owner(10), None);
    assert!(watcher.devices_to_forget(&net).is_empty());

    // Each descriptor is asked for once, in the order of the registry.
    let requests = watcher.devices_to_watch(&net);
    assert_eq!(requests, vec![WatchRequest { fd: 10, key: 1 }, WatchRequest { fd: 30, key: 3 }]);
    watcher.watch(requests[0]);
    assert_eq!(watcher.owner(10), Some(1));
    assert_eq!(watcher.devices_to_watch(&net), vec![WatchRequest { fd: 30, key: 3 }]);
    watcher.watch(requests[1]);
    assert!(watcher.devices_to_watch(&net).is_empty());
    assert_eq!(watcher.interface_of(&net, 10), Some(0));
    assert_eq!(watcher.interface_of(&net, 30), Some(2));
    assert_eq!(watcher.interface_of(&net, 31), None);

    // An interface leaves: its descriptor is forgotten.
    net.remove(3);
    assert_eq!(watcher.interface_of(&net, 30), None);
    assert_eq!(watcher.devices_to_forget(&net), vec![30]);
    watcher.forget(30);
    assert_eq!(watcher.owner(30), None);
    assert!(watcher.devices_to_forget(&net).is_empty());
    net.remove(1);
    net.remove(2);
    assert_eq!(watcher.devices_to_forget(&net), vec![10]);
    watcher.forget(10);
    // The descriptor is now asked for on behalf of the other interface that has it.
    assert_eq!(watcher.devices_to_watch(&net), vec![WatchRequest { fd: 10, key: 4 }]);
}

#[test]
fn a_round_of_the_pump_notifies_the_bound_sockets() {
    let mut net = net();
    let mut watcher = Watcher::new();
    for request in watcher.devices_to_watch(&net) {
        watcher.watch(request);
    }
    let mut receiver = datagram(0);
    assert_eq!(receiver.bind(&mut net, endpoint(HOME, 1234)), Ok(()));
    let mut sender = datagram(1);
    let unbound = stream(2);
    assert_eq!(done(sender.send_to(&mut net, b"wake up", PMSG::empty(), endpoint(HOME, 1234), 0)), Ok(7));
    let mut sockets = vec![receiver, sender, unbound];
    for socket in sockets.iter() {
        assert_eq!(socket.wait_queue().wait_step(true, 0, None), Ok(WaitStep::Sleep));
    }

    let mut now = 1_000i64;
    let mut changed = false;
    for _ in 0..8 {
        changed |= pump_round(&watcher, &mut net, &mut sockets, &[7, 99], now);
        now += 1_000;
    }
    assert!(changed);
    assert_eq!(sockets.len(), 3);
    // The bound sockets were refreshed and woken; the unbound one was left alone.
    assert_eq!(sockets[0].poll() as u32, EPOLLIN | EPOLLOUT);
    assert_eq!(sockets[0].wait_queue().wait_step(true, 0, None), Ok(WaitStep::Ready));
    assert_eq!(sockets[1].poll() as u32, EPOLLOUT);
    assert_eq!(sockets[1].wait_queue().wait_step(true, 0, None), Ok(WaitStep::Ready));
    assert_eq!(sockets[2].poll(), 0);
    assert_eq!(sockets[2].wait_queue().wait_step(true, 0, None), Ok(WaitStep::Sleep));
    assert_eq!((sockets[0].id(), sockets[1].id(), sockets[2].id()), (0, 1, 2));

    // On a quiet wire too a poll refreshes and wakes the sockets that are listed,
    // and no others.
    let mut quiet = vec![datagram(5), datagram(6)];
    assert_eq!(quiet[0].bind(&mut net, endpoint(HOME, 999)), Ok(()));
    assert_eq!(quiet[0].poll(), 0);
    assert_eq!(quiet[0].wait_queue().wait_step(true, 0, None), Ok(WaitStep::Sleep));
    assert!(!poll_iface(&mut net, 0, now, &mut quiet));
    assert_eq!(quiet[0].poll() as u32, EPOLLOUT);
    assert_eq!(quiet[0].wait_queue().wait_step(true, 0, None), Ok(WaitStep::Ready));
    assert_eq!(quiet[1].poll(), 0);
    assert_eq!(quiet[1].wait_queue().wait_step(true, 0, None), Ok(WaitStep::Sleep));
}

#[test]
fn a_poll_records_when_the_stack_wants_the_next_one() {
    assert_eq!(next_poll(None), 0);
    assert_eq!(next_poll(Some(-5)), 0);
    assert_eq!(next_poll(Some(0)), 0);
    assert_eq!(next_poll(Some(1_234)), 1_234);
    assert_eq!(next_poll(Some(i64::MAX)), 0x7fff_ffff_ffff_ffff);

    let mut net = net();
    let mut now = 0i64;
    let (_listener, mut client, _server) = connection(&mut net, &mut now);
    // An idle connection asks for no poll.
    for _ in 0..10 {
        pump(&mut net, &mut now);
    }
    assert_eq!(net.common_at(0).poll_at_ms(), 0);

    // With a keep-alive interval of 30 s the stack asks for a poll when the interval
    // is over.
    let keepintvl = 5usize;
    assert_eq!(client.set_option(&mut net, PSOL::TCP, keepintvl, &30u32.to_ne_bytes()), Ok(()));
    for _ in 0..10 {
        pump(&mut net, &mut now);
    }
    let at = net.common_at(0).poll_at_ms();
    let now_ms = (now / 1_000) as u64;
    assert!(now_ms < at && at <= now_ms + 30_000, "the next poll is at {at} ms, and it is {now_ms} ms");
}

#[test]
fn a_backlog_of_zero_is_an_invalid_argument() {
    let mut net = net();
    let mut unbound = stream(1);
    assert_eq!(unbound.listen(&mut net, 0), Err(SystemError::EINVAL));
    assert_eq!(unbound.listen(&mut net, 1), Err(SystemError::EINVAL));

    let mut bound = stream(2);
    assert_eq!(bound.bind(&mut net, endpoint(HOME, 4321)), Ok(()));
    assert_eq!(bound.listen(&mut net, 0), Err(SystemError::EINVAL));
    // The socket is bound as before, and listens with a backlog that it can have.
    assert_eq!(bound.get_name(&net), Ok(endpoint(HOME, 4321)));
    assert_eq!(net.common_at(0).bounds(), &vec![2]);
    assert_eq!(bound.listen(&mut net, 2), Ok(()));
    assert_eq!(bound.listen(&mut net, 2), Err(SystemError::EINVAL));
}

#[test]
fn looking_at_a_connection_attempt_leaves_the_readiness_flags() {
    let mut net = net();
    let mut now = 0i64;
    let (_listener, mut client, mut server) = connection(&mut net, &mut now);
    // The client became established when it looked at its attempt; its flags are
    // those of the last event of its interface, of which there was none.
    assert_eq!(client.poll(), 0);
    assert_eq!(done(server.write(&mut net, b"data", now)), Ok(4));
    pump(&mut net, &mut now);
    assert_eq!(done(client.connect_retry(&net)), Ok(()));
    assert_eq!(client.poll(), 0);
    assert_eq!(done(client.connect_retry(&net)), Ok(()));
    assert_eq!(client.poll(), 0);

    // A poll of the interface, with its notifications, brings them up to date.
    let mut sockets = vec![client];
    poll_iface(&mut net, 0, now, &mut sockets);
    assert_eq!(sockets[0].poll() as u32, EPOLLIN | EPOLLOUT);
    assert_eq!(done(sockets[0].connect_retry(&net)), Ok(()));
    assert_eq!(sockets[0].poll() as u32, EPOLLIN | EPOLLOUT);
}

#[test]
fn a_subnet_holds_the_addresses_that_agree_in_its_prefix() {
    // The blocks of three interfaces: one address, half of all addresses, and all.
    let mut net: NetDevices<Loopback> = NetDevices::new();
    net.insert(0, tap(1, None));
    net.insert(1, tap(2, None));
    net.insert(2, tap(3, None));
    assert_eq!(net.common_at_mut(0).update_ip_addrs(&[block((10, 1, 2, 3), 32)]), Ok(()));
    assert_eq!(net.common_at_mut(1).update_ip_addrs(&[block((200, 0, 0, 1), 1)]), Ok(()));
    assert_eq!(net.common_at_mut(2).update_ip_addrs(&[block((172, 16, 5, 1), 23)]), Ok(()));

    // With a prefix of 32 bits only the address itself is on the subnet; a peer
    // with another last bit is on the subnet of one bit, whose first bit is set.
    assert_eq!(net.get_ephemeral_iface(&addr((10, 1, 2, 3))), Some((0, addr((10, 1, 2, 3)))));
    assert_eq!(net.get_ephemeral_iface(&addr((128, 0, 0, 0))), Some((1, addr((200, 0, 0, 1)))));
    assert_eq!(net.get_ephemeral_iface(&addr((255, 255, 255, 254))), Some((1, addr((200, 0, 0, 1)))));
    // A prefix of 23 bits leaves the last bit of the third byte open.
    assert_eq!(net.get_ephemeral_iface(&addr((172, 16, 4, 200))), Some((1, addr((200, 0, 0, 1)))));
    // No first bit set, and no other block: the first address of the first interface.
    assert_eq!(net.get_ephemeral_iface(&addr((10, 1, 2, 2))), Some((0, addr((10, 1, 2, 3)))));
    assert_eq!(net.get_ephemeral_iface(&addr((127, 255, 255, 255))), Some((0, addr((10, 1, 2, 3)))));

    let mut narrow: NetDevices<Loopback> = NetDevices::new();
    narrow.insert(0, tap(1, None));
    narrow.insert(1, tap(2, None));
    assert_eq!(narrow.common_at_mut(0).update_ip_addrs(&[block((10, 1, 2, 3), 32)]), Ok(()));
    assert_eq!(narrow.common_at_mut(1).update_ip_addrs(&[block((172, 16, 5, 1), 23)]), Ok(()));
    assert_eq!(narrow.get_ephemeral_iface(&addr((172, 16, 4, 200))), Some((1, addr((172, 16, 5, 1)))));
    assert_eq!(narrow.get_ephemeral_iface(&addr((172, 16, 5, 255))), Some((1, addr((172, 16, 5, 1)))));
    assert_eq!(narrow.get_ephemeral_iface(&addr((172, 16, 6, 0))), Some((0, addr((10, 1, 2, 3)))));
    assert_eq!(narrow.get_ephemeral_iface(&addr((172, 16, 3, 255))), Some((0, addr((10, 1, 2, 3)))));

    // A block of no prefix bit holds every address.
    let mut wide: NetDevices<Loopback> = NetDevices::new();
    wide.insert(0, tap(1, None));
    wide.insert(1, tap(2, None));
    assert_eq!(wide.common_at_mut(0).update_ip_addrs(&[block((10, 1, 2, 3), 32)]), Ok(()));
    assert_eq!(wide.common_at_mut(1).update_ip_addrs(&[block((10, 9, 9, 9), 0)]), Ok(()));
    assert_eq!(wide.get_ephemeral_iface(&addr((8, 8, 8, 8))), Some((1, addr((10, 9, 9, 9)))));
}

#[test]
fn a_refused_connection_is_reported_after_the_pump_has_seen_it() {
    let mut net = net();
    let watcher = Watcher::new();
    let mut sockets = vec![stream(0)];
    // Nothing listens on the port.
    let mut now = 0i64;
    assert_eq!(waits_for(sockets[0].connect(&mut net, endpoint(HOME, 4321), now)), EPOLLOUT);
    for _ in 0..8 {
        now += 1_000;
        pump_round(&watcher, &mut net, &mut sockets, &[], now);
    }
    // The socket was notified of the refusal and keeps it for the caller.
    assert_eq!(sockets[0].get_peer_name(&net), Err(SystemError::ENOTCONN));
    assert_eq!(done(sockets[0].connect_retry(&net)), Err(SystemError::ECONNREFUSED));
    assert_eq!(sockets[0].get_peer_name(&net), Err(SystemError::ENOTCONN));
    assert_eq!(sockets[0].get_name(&net), Ok(endpoint((0, 0, 0, 0), 0)));

    // A connection that comes about makes the socket established on notification.
    let mut listener = stream(1);
    assert_eq!(listener.bind(&mut net, endpoint(HOME, 4321)), Ok(()));
    assert_eq!(listener.listen(&mut net, 1), Ok(()));
    let mut second = vec![Inet::socket(SOCK::Stream, 0, 2).unwrap()];
    assert_eq!(waits_for(second[0].connect(&mut net, endpoint(HOME, 4321), now)), EPOLLOUT);
    for _ in 0..8 {
        now += 1_000;
        pump_round(&watcher, &mut net, &mut second, &[], now);
    }
    assert_eq!(second[0].get_peer_name(&net), Ok(endpoint(HOME, 4321)));
    assert_eq!(second[0].poll() as u32, EPOLLOUT);
    assert_eq!(done(second[0].connect_retry(&net)), Ok(()));
}

#[test]
fn the_unspecified_address_of_the_longer_kind_is_not_assigned() {
    let mut net: NetDevices<Loopback> = NetDevices::new();
    net.insert(0, tap(1, None));
    let none = IpCidr::new(IpAddress::Ipv6(0), 64).unwrap();
    assert_eq!(net.common_at_mut(0).update_ip_addrs(&[none]), Err(SystemError::EINVAL));
    assert_eq!(net.common_at(0).ip_addrs(), vec![]);
    let any = IpCidr::new(IpAddress::Ipv4(0), 0).unwrap();
    assert_eq!(net.common_at_mut(0).update_ip_addrs(&[any]), Ok(()));
    assert_eq!(net.common_at(0).ip_addrs(), vec![any]);
    let local = IpCidr::new(IpAddress::Ipv6(0xfe80_0000_0000_0000_0000_0000_0000_0001), 64).unwrap();
    assert_eq!(net.common_at_mut(0).update_ip_addrs(&[local]), Ok(()));
    assert_eq!(net.common_at(0).ip_addrs(), vec![local]);
    assert_eq!(net.common_at_mut(0).update_ip_addrs(&[none]), Err(SystemError::EINVAL));
    assert_eq!(net.common_at(0).ip_addrs(), vec![local]);
}

#[test]
fn data_leaves_the_buffers_in_the_order_in_which_it_came() {
    let mut net = net();
    let mut now = 0i64;
    let (_listener, mut client, mut server) = connection(&mut net, &mut now);
    assert_eq!(done(client.write(&mut net, b"0123456789", now)), Ok(10));
    pump(&mut net, &mut now);

    // A buffer that is shorter than what has come takes the oldest bytes, and the
    // rest of what has come stays for the next call.
    let mut four = [b'.'; 4];
    assert_eq!(done(server.read(&mut net, &mut four, now)), Ok(4));
    assert_eq!(&four, b"0123");
    let mut long = [b'.'; 16];
    assert_eq!(done(server.read(&mut net, &mut long, now)), Ok(6));
    assert_eq!(&long, b"456789..........");
    // Nothing is left, and more may come: the call would block.
    assert_eq!(waits_for(server.read(&mut net, &mut long, now)), EPOLLIN);
    assert_eq!(&long, b"456789..........");
    assert_eq!(done(client.write(&mut net, b"abc", now)), Ok(3));
    pump(&mut net, &mut now);
    assert_eq!(done(server.read(&mut net, &mut long, now)), Ok(3));
    assert_eq!(&long, b"abc789..........");
    // A buffer without room takes nothing.
    assert_eq!(done(server.read(&mut net, &mut [], now)), Ok(0));

    // Datagrams come out one by one, oldest first, each with its sender; one that
    // is longer than the buffer is lost.
    let mut receiver = datagram(10);
    assert_eq!(receiver.bind(&mut net, endpoint(HOME, 1234)), Ok(()));
    let mut first = datagram(11);
    assert_eq!(first.bind(&mut net, endpoint(HOME, 2001)), Ok(()));
    let mut second = datagram(12);
    assert_eq!(second.bind(&mut net, endpoint(HOME, 2002)), Ok(()));
    assert_eq!(done(first.send_to(&mut net, b"one", PMSG::empty(), endpoint(HOME, 1234), now)), Ok(3));
    assert_eq!(done(second.send_to(&mut net, b"much too long", PMSG::empty(), endpoint(HOME, 1234), now)), Ok(13));
    assert_eq!(done(first.send_to(&mut net, b"three", PMSG::empty(), endpoint(HOME, 1234), now)), Ok(5));
    pump(&mut net, &mut now);
    let mut eight = [b'.'; 8];
    assert_eq!(done(receiver.recv_from(&mut net, &mut eight, PMSG::empty(), now)), Ok((3, endpoint(HOME, 2001))));
    assert_eq!(&eight, b"one.....");
    assert_eq!(done(receiver.recv_from(&mut net, &mut eight, PMSG::empty(), now)), Err(SystemError::EINVAL));
    assert_eq!(&eight, b"one.....");
    assert_eq!(done(receiver.recv_from(&mut net, &mut eight, PMSG::empty(), now)), Ok((5, endpoint(HOME, 2001))));
    assert_eq!(&eight, b"three...");
    assert_eq!(waits_for(receiver.recv_from(&mut net, &mut eight, PMSG::empty(), now)), EPOLLIN);
}
