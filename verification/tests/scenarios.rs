//! End-to-end scenarios: the library on one end of a wire, a peer that drives the
//! protocol stack directly on the other end.
use berkeley_socket::driver::irq::{pump_round, Watcher};
use berkeley_socket::errno::SystemError;
use berkeley_socket::event_poll::{EPOLLIN, EPOLLOUT};
use berkeley_socket::interface::tap::TapIface;
use berkeley_socket::posix::{PMSG, SOCK};
use berkeley_socket::socket::endpoint::Endpoint;
use berkeley_socket::socket::inet::common::NetDevices;
use berkeley_socket::socket::inet::syscall::Inet;
use berkeley_socket::socket::inet::Blocking;
use berkeley_socket::wire::{IpAddress, IpCidr, IpEndpoint};
use smoltcp::iface::{Config, Interface, SocketHandle, SocketSet};
use smoltcp::phy::{Device, DeviceCapabilities, Medium};
use smoltcp::socket::{tcp, udp};
use smoltcp::time::Instant;
use smoltcp::wire::{EthernetAddress, HardwareAddress};
use std::cell::RefCell;
use std::collections::VecDeque;
use std::rc::Rc;

type Queue = Rc<RefCell<VecDeque<Vec<u8>>>>;

struct Wire {
    rx: Queue,
    tx: Queue,
}

struct WireRx(Vec<u8>);

struct WireTx(Queue);

impl smoltcp::phy::RxToken for WireRx {
    fn consume<R, F>(self, f: F) -> R
    where
        F: FnOnce(&[u8]) -> R,
    {
        f(&self.0)
    }
}

impl smoltcp::phy::TxToken for WireTx {
    fn consume<R, F>(self, len: usize, f: F) -> R
    where
        F: FnOnce(&mut [u8]) -> R,
    {
        let mut frame = vec![0; len];
        let result = f(&mut frame);
        self.0.borrow_mut().push_back(frame);
        result
    }
}

impl Device for Wire {
    type RxToken<'a> = WireRx;
    type TxToken<'a> = WireTx;

    fn capabilities(&self) -> DeviceCapabilities {
        let mut caps = DeviceCapabilities::default();
        caps.max_transmission_unit = 1514;
        caps.medium = Medium::Ethernet;
        caps
    }

    fn receive(&mut self, _timestamp: Instant) -> Option<(WireRx, WireTx)> {
        let frame = self.rx.borrow_mut().pop_front()?;
        Some((WireRx(frame), WireTx(self.tx.clone())))
    }

    fn transmit(&mut self, _timestamp: Instant) -> Option<WireTx> {
        Some(WireTx(self.tx.clone()))
    }
}

fn wire_pair() -> (Wire, Wire) {
    let a: Queue = Rc::new(RefCell::new(VecDeque::new()));
    let b: Queue = Rc::new(RefCell::new(VecDeque::new()));
    (Wire { rx: a.clone(), tx: b.clone() }, Wire { rx: b, tx: a })
}

fn stack_interface(device: &mut Wire, last_mac_byte: u8, last_ip_byte: u8) -> Interface {
    let mac = EthernetAddress([0x02, 0x00, 0x00, 0x00, 0x00, last_mac_byte]);
    let mut iface = Interface::new(Config::new(HardwareAddress::Ethernet(mac)), device, Instant::from_micros(0));
    iface.update_ip_addrs(|addrs| {
        addrs
            .push(smoltcp::wire::IpCidr::new(smoltcp::wire::IpAddress::v4(192, 168, 213, last_ip_byte), 24))
            .unwrap();
    });
    iface
}

struct Peer {
    device: Wire,
    iface: Interface,
    sockets: SocketSet<'static>,
}

impl Peer {
    fn tcp_socket(&mut self) -> SocketHandle {
        let socket = tcp::Socket::new(tcp::SocketBuffer::new(vec![0; 4096]), tcp::SocketBuffer::new(vec![0; 4096]));
        self.sockets.add(socket)
    }

    fn udp_socket(&mut self, port: u16) -> SocketHandle {
        let mut socket = udp::Socket::new(
            udp::PacketBuffer::new(vec![udp::PacketMetadata::EMPTY; 8], vec![0; 4096]),
            udp::PacketBuffer::new(vec![udp::PacketMetadata::EMPTY; 8], vec![0; 4096]),
        );
        socket.bind(port).unwrap();
        self.sockets.add(socket)
    }

    fn connect(&mut self, handle: SocketHandle, remote_port: u16, local_port: u16) {
        let cx = self.iface.context();
        self.sockets
            .get_mut::<tcp::Socket>(handle)
            .connect(cx, (smoltcp::wire::IpAddress::v4(192, 168, 213, 2), remote_port), local_port)
            .unwrap();
    }
}

struct World {
    net: NetDevices<Wire>,
    peer: Peer,
    now: i64,
}

const UUT: (u8, u8, u8, u8) = (192, 168, 213, 2);
const PEER: (u8, u8, u8, u8) = (192, 168, 213, 1);

fn endpoint(addr: (u8, u8, u8, u8), port: u16) -> Endpoint {
    Endpoint::Ip(IpEndpoint::new(IpAddress::v4(addr.0, addr.1, addr.2, addr.3), port))
}

fn world() -> World {
    let (mut ours, mut theirs) = wire_pair();
    let iface = stack_interface(&mut ours, 1, 2);
    let mut net = NetDevices::new();
    assert!(net.insert(0, TapIface::new(ours, iface, None)).is_none());
    let peer_iface = stack_interface(&mut theirs, 2, 1);
    let peer = Peer { device: theirs, iface: peer_iface, sockets: SocketSet::new(Vec::new()) };
    World { net, peer, now: 0 }
}

impl World {
    /// Lets frames travel both ways until the wire is quiet.
    fn pump(&mut self) {
        for _ in 0..8 {
            self.now += 1_000;
            self.net.poll_at(0, self.now);
            self.peer.iface.poll(Instant::from_micros(self.now), &mut self.peer.device, &mut self.peer.sockets);
        }
    }
}

fn done<T>(step: Blocking<T>) -> Result<T, SystemError> {
    match step {
        Blocking::Done(result) => result,
        Blocking::WaitFor(events) => panic!("the call asks to wait for {events:#x}"),
    }
}

fn waits_for<T>(step: Blocking<T>) -> u32 {
    match step {
        Blocking::Done(_) => panic!("the call is over"),
        Blocking::WaitFor(events) => events,
    }
}

fn port_of(name: Result<Endpoint, SystemError>) -> u16 {
    match name {
        Ok(Endpoint::Ip(e)) => e.port,
        other => panic!("no endpoint of the network layer: {other:?}"),
    }
}

#[test]
fn udp_echo() {
    let mut w = world();
    let mut socket = Inet::socket(SOCK::Datagram, 0, 1).unwrap();
    assert_eq!(socket.bind(&mut w.net, endpoint(UUT, 1234)), Ok(()));
    assert_eq!(done(socket.connect(&mut w.net, endpoint(PEER, 12345), w.now)), Ok(()));
    assert_eq!(socket.get_name(&w.net), Ok(endpoint(UUT, 1234)));
    assert_eq!(socket.get_peer_name(&w.net), Ok(endpoint(PEER, 12345)));

    let peer_socket = w.peer.udp_socket(12345);
    w.peer
        .sockets
        .get_mut::<udp::Socket>(peer_socket)
        .send_slice(b"hello", (smoltcp::wire::IpAddress::v4(192, 168, 213, 2), 1234))
        .unwrap();
    w.pump();

    let mut buffer = [0u8; 1024];
    assert_eq!(done(socket.read(&mut w.net, &mut buffer, w.now)), Ok(5));
    assert_eq!(&buffer[..5], b"hello");

    assert_eq!(done(socket.write(&mut w.net, &buffer[..5], w.now)), Ok(5));
    w.pump();
    let mut received = [0u8; 64];
    let (size, meta) = w.peer.sockets.get_mut::<udp::Socket>(peer_socket).recv_slice(&mut received).unwrap();
    assert_eq!(&received[..size], b"hello");
    assert_eq!(meta.endpoint, smoltcp::wire::IpEndpoint::new(smoltcp::wire::IpAddress::v4(192, 168, 213, 2), 1234));
}

#[test]
fn tcp_echo() {
    let mut w = world();
    let mut socket = Inet::socket(SOCK::Stream, 0, 1).unwrap();
    assert_eq!(socket.bind(&mut w.net, endpoint(UUT, 4321)), Ok(()));
    assert_eq!(socket.listen(&mut w.net, 1), Ok(()));
    assert_eq!(waits_for(socket.accept(&mut w.net, 2)), EPOLLIN);

    let peer_socket = w.peer.tcp_socket();
    w.peer.connect(peer_socket, 4321, 50000);
    w.pump();
    socket.on_iface_events(&w.net);
    assert_eq!(socket.poll() as u32 & EPOLLIN, EPOLLIN);

    let (mut child, remote) = done(socket.accept(&mut w.net, 2)).unwrap();
    assert_eq!(remote, endpoint(PEER, 50000));
    assert_eq!(child.get_name(&w.net), Ok(endpoint(UUT, 4321)));
    assert_eq!(child.get_peer_name(&w.net), Ok(endpoint(PEER, 50000)));

    assert_eq!(w.peer.sockets.get_mut::<tcp::Socket>(peer_socket).send_slice(b"ping"), Ok(4));
    w.pump();
    let mut buffer = [0u8; 1024];
    assert_eq!(done(child.read(&mut w.net, &mut buffer, w.now)), Ok(4));
    assert_eq!(&buffer[..4], b"ping");
    assert_eq!(done(child.write(&mut w.net, &buffer[..4], w.now)), Ok(4));
    w.pump();
    let mut received = [0u8; 64];
    assert_eq!(w.peer.sockets.get_mut::<tcp::Socket>(peer_socket).recv_slice(&mut received), Ok(4));
    assert_eq!(&received[..4], b"ping");
}

#[test]
fn tcp_connect_refused() {
    // The pump runs between the steps of the connect, and notifies the socket
    // after each poll, as it does for a socket that blocks.
    let mut w = world();
    let watcher = Watcher::new();
    let mut sockets = vec![Inet::socket(SOCK::Stream, 0, 0).unwrap()];
    let mut step = sockets[0].connect(&mut w.net, endpoint(PEER, 1), w.now);
    let mut rounds = 0;
    let result = loop {
        match step {
            Blocking::Done(result) => break result,
            Blocking::WaitFor(events) => {
                assert_eq!(events, EPOLLOUT);
                rounds += 1;
                assert!(rounds < 100, "the connect does not end");
                for _ in 0..8 {
                    w.now += 1_000;
                    pump_round(&watcher, &mut w.net, &mut sockets, &[], w.now);
                    w.peer.iface.poll(Instant::from_micros(w.now), &mut w.peer.device, &mut w.peer.sockets);
                }
                step = sockets[0].connect_retry(&w.net);
            }
        }
    };
    assert_eq!(result, Err(SystemError::ECONNREFUSED));
    assert_eq!(sockets[0].get_peer_name(&w.net), Err(SystemError::ENOTCONN));
    // The refusal was reported once; the socket is as it was before the connect.
    assert!(matches!(sockets[0].connect_retry(&w.net), Blocking::Done(Err(SystemError::EINVAL))));
}

#[test]
fn ephemeral_ports_do_not_collide() {
    let mut w = world();
    let mut ports = Vec::new();
    let mut sockets = Vec::new();
    for id in 0..10 {
        let mut socket = Inet::socket(SOCK::Datagram, 0, id).unwrap();
        assert_eq!(done(socket.connect(&mut w.net, endpoint(PEER, 9), w.now)), Ok(()));
        let port = port_of(socket.get_name(&w.net));
        assert!(port >= 49152, "port {port} is no ephemeral port");
        assert!(!ports.contains(&port), "port {port} was handed out twice");
        ports.push(port);
        sockets.push(socket);
    }
    assert_eq!(ports, (49152..49162).collect::<Vec<u16>>());
}

#[test]
fn listen_backlog_is_preserved() {
    let mut w = world();
    let mut socket = Inet::socket(SOCK::Stream, 0, 1).unwrap();
    assert_eq!(socket.bind(&mut w.net, endpoint(UUT, 4321)), Ok(()));
    assert_eq!(socket.listen(&mut w.net, 3), Ok(()));

    let mut peers = Vec::new();
    for i in 0..3u16 {
        let handle = w.peer.tcp_socket();
        w.peer.connect(handle, 4321, 50000 + i);
        peers.push(handle);
    }
    w.pump();

    let mut children = Vec::new();
    for i in 0..3usize {
        socket.on_iface_events(&w.net);
        let (child, _) = done(socket.accept(&mut w.net, 10 + i)).unwrap();
        children.push(child);
    }
    for (i, peer_socket) in peers.iter().enumerate() {
        let message = [b'a' + i as u8; 3];
        assert_eq!(w.peer.sockets.get_mut::<tcp::Socket>(*peer_socket).send_slice(&message), Ok(3));
    }
    w.pump();
    let mut seen = Vec::new();
    for child in children.iter_mut() {
        let mut buffer = [0u8; 16];
        assert_eq!(done(child.read(&mut w.net, &mut buffer, w.now)), Ok(3));
        seen.push(buffer[0]);
    }
    seen.sort();
    assert_eq!(seen, vec![b'a', b'b', b'c']);

    // A fourth connection, started after the third accept, is taken too.
    let fourth = w.peer.tcp_socket();
    w.peer.connect(fourth, 4321, 50010);
    w.pump();
    socket.on_iface_events(&w.net);
    let (mut child, remote) = done(socket.accept(&mut w.net, 20)).unwrap();
    assert_eq!(remote, endpoint(PEER, 50010));
    assert_eq!(w.peer.sockets.get_mut::<tcp::Socket>(fourth).send_slice(b"late"), Ok(4));
    w.pump();
    let mut buffer = [0u8; 16];
    assert_eq!(done(child.read(&mut w.net, &mut buffer, w.now)), Ok(4));
    assert_eq!(&buffer[..4], b"late");
}

#[test]
fn close_while_blocked() {
    let mut w = world();
    let mut socket = Inet::socket(SOCK::Stream, 0, 1).unwrap();
    assert_eq!(socket.bind(&mut w.net, endpoint(UUT, 4321)), Ok(()));
    assert_eq!(socket.listen(&mut w.net, 1), Ok(()));
    let peer_socket = w.peer.tcp_socket();
    w.peer.connect(peer_socket, 4321, 50000);
    w.pump();
    socket.on_iface_events(&w.net);
    let (mut child, _) = done(socket.accept(&mut w.net, 2)).unwrap();

    // The reader finds nothing and is told to wait.
    child.on_iface_events(&w.net);
    let mut buffer = [0u8; 16];
    assert_eq!(waits_for(child.recv(&mut w.net, &mut buffer, PMSG::empty(), w.now)), EPOLLIN);
    assert_eq!(child.poll() as u32 & EPOLLIN, 0);

    // Another caller closes the socket: the reader is woken and its next attempt ends.
    assert_eq!(child.close(&mut w.net, w.now), Ok(()));
    assert_eq!(child.poll() as u32 & EPOLLIN, EPOLLIN);
    let answer = done(child.recv(&mut w.net, &mut buffer, PMSG::empty(), w.now));
    assert!(answer == Err(SystemError::ECONNRESET) || answer == Ok(0), "{answer:?}");
}
