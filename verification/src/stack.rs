//! The boundary to the protocol stack: the stack's types, a model of what they
//! hold, and one trusted function for each stack operation that the library calls.
//!
//! The functions marked `external_body` are not proved: each of their contracts
//! restates what the stack's source shows of the operation, over the model below.
use crate::wire::{AddrBlock, IpAddress, IpCidr, IpEndpoint, IpListenEndpoint};
use smoltcp::iface::{Interface, SocketHandle, SocketSet};
use smoltcp::socket::{tcp, udp};
use vstd::prelude::*;

verus! {

/// The stack's socket table. Its contents are named by [`stack_sockets`].
#[verifier::external_type_specification]
#[verifier::external_body]
pub struct ExSocketSet<'a>(SocketSet<'a>);

/// The handle of a socket in a socket table: an opaque value that is only compared.
#[verifier::external_type_specification]
#[verifier::external_body]
pub struct ExSocketHandle(SocketHandle);

/// The stack's interface. Its address blocks are named by [`iface_addrs`].
#[verifier::external_type_specification]
#[verifier::external_body]
pub struct ExInterface(Interface);

/// The stack's TCP socket. What its getters return is named by [`tcp_model`].
#[verifier::external_type_specification]
#[verifier::external_body]
pub struct ExTcpSocket<'a>(tcp::Socket<'a>);

/// The stack's UDP socket. What its getters return is named by [`udp_model`].
#[verifier::external_type_specification]
#[verifier::external_body]
pub struct ExUdpSocket<'a>(udp::Socket<'a>);

/// Why the stack refused a request to listen; the library does not look inside.
#[verifier::external_type_specification]
#[verifier::external_body]
pub struct ExTcpListenError(tcp::ListenError);

/// Why the stack refused a request to connect; the library does not look inside.
#[verifier::external_type_specification]
#[verifier::external_body]
pub struct ExTcpConnectError(tcp::ConnectError);

/// Why the stack refused a request to bind; the library does not look inside.
#[verifier::external_type_specification]
#[verifier::external_body]
pub struct ExUdpBindError(udp::BindError);

/// The state of a TCP socket in the stack, in terms of the TCP state machine.
#[derive(Clone, Copy, Debug, PartialEq, Eq, Structural)]
pub enum TcpState {
    Closed,
    Listen,
    SynSent,
    SynReceived,
    Established,
    FinWait1,
    FinWait2,
    CloseWait,
    Closing,
    LastAck,
    TimeWait,
}

impl TcpState {
    /// The socket processes packets: it is neither closed nor in TIME-WAIT.
    pub open spec fn spec_is_open(self) -> bool {
        self != TcpState::Closed && self != TcpState::TimeWait
    }

    /// The socket exchanges packets with a peer: it is open and not listening.
    pub open spec fn spec_is_active(self) -> bool {
        self.spec_is_open() && self != TcpState::Listen
    }

    /// The transmit half of the connection is open.
    pub open spec fn spec_may_send(self) -> bool {
        self == TcpState::Established || self == TcpState::CloseWait
    }

    /// The receive half of the connection is open whatever the receive buffer holds.
    pub open spec fn spec_keeps_receiving(self) -> bool {
        self == TcpState::Established || self == TcpState::FinWait1 || self == TcpState::FinWait2
    }

    /// The state that closing the transmit half leads to.
    pub open spec fn spec_after_close(self) -> TcpState {
        match self {
            TcpState::Listen | TcpState::SynSent => TcpState::Closed,
            TcpState::SynReceived | TcpState::Established => TcpState::FinWait1,
            TcpState::CloseWait => TcpState::LastAck,
            _ => self,
        }
    }

    /// Returns whether the socket is open.
    pub fn is_open(self) -> (b: bool)
        ensures
            b == self.spec_is_open(),
    {
        !matches!(self, TcpState::Closed | TcpState::TimeWait)
    }

    /// Returns whether a connection is active.
    pub fn is_active(self) -> (b: bool)
        ensures
            b == self.spec_is_active(),
    {
        !matches!(self, TcpState::Closed | TcpState::TimeWait | TcpState::Listen)
    }

    /// Returns whether the transmit half of the connection is open.
    pub fn may_send(self) -> (b: bool)
        ensures
            b == self.spec_may_send(),
    {
        matches!(self, TcpState::Established | TcpState::CloseWait)
    }
}

/// What the library's contracts say of one TCP socket of the stack: each field is
/// what the socket's getter of that name returns (`state`, `local_endpoint`,
/// `remote_endpoint`, `listen_endpoint`, `can_send`, `can_recv`, `recv_capacity`,
/// `send_capacity`, `nagle_enabled`, `keep_alive`), and `rx` and `tx` are the bytes
/// that its two buffers hold, oldest first.
pub struct TcpModel {
    /// The state of the connection.
    pub state: TcpState,
    /// The local endpoint of the connection, once there is one.
    pub local: Option<IpEndpoint>,
    /// The remote endpoint of the connection, once there is one.
    pub remote: Option<IpEndpoint>,
    /// The endpoint that the socket listens on.
    pub listen: IpListenEndpoint,
    /// The transmit half is open and the transmit buffer is not full.
    pub can_send: bool,
    /// The receive buffer holds data.
    pub can_recv: bool,
    /// The size of the receive buffer.
    pub rx_capacity: usize,
    /// The size of the transmit buffer.
    pub tx_capacity: usize,
    /// Nagle's algorithm is on.
    pub nagle: bool,
    /// The keep-alive interval in whole seconds, where one is set.
    pub keep_alive: Option<u64>,
    /// The bytes that were received and not read yet, in their order.
    pub rx: Seq<u8>,
    /// The bytes that were written and are not acknowledged yet, in their order.
    pub tx: Seq<u8>,
}

/// A datagram in a buffer of a UDP socket, with the endpoint of the other side: the
/// sender of a datagram that was received, the destination of one to send.
pub struct Datagram {
    /// The payload.
    pub data: Seq<u8>,
    /// The endpoint of the other side.
    pub peer: IpEndpoint,
}

/// What the library's contracts say of one UDP socket of the stack: each of the
/// first three fields is what the socket's getter of that name returns (`endpoint`,
/// `can_send`, `can_recv`), `rx` and `tx` are the datagrams that its two buffers
/// hold, oldest first, and `tx_room` says which datagram the transmit buffer would
/// take next.
pub struct UdpModel {
    /// The endpoint that the socket is bound to; port 0 while it is not bound.
    pub endpoint: IpListenEndpoint,
    /// The transmit buffer has a free slot.
    pub can_send: bool,
    /// The receive buffer has a slot in use.
    pub can_recv: bool,
    /// The datagrams that were received and not read yet, with their senders.
    pub rx: Seq<Datagram>,
    /// The datagrams that are to be sent, with their destinations.
    pub tx: Seq<Datagram>,
    /// The lengths of datagram for which the transmit buffer has room as it is.
    pub tx_room: Set<nat>,
}

/// What the library's contracts say of one socket of the stack.
pub enum SocketModel {
    /// A TCP socket.
    Tcp(TcpModel),
    /// A UDP socket.
    Udp(UdpModel),
    /// A socket of a protocol that the library does not use.
    Other,
}

/// Whether two sockets are of one protocol.
pub open spec fn same_protocol(a: SocketModel, b: SocketModel) -> bool {
    (a is Tcp <==> b is Tcp) && (a is Udp <==> b is Udp)
}

/// The sockets that a socket set holds, by handle.
pub uninterp spec fn stack_sockets(set: SocketSet<'static>) -> Map<SocketHandle, SocketModel>;

/// Whether the socket set stores its sockets in a `Vec`, so that it never fills up.
pub uninterp spec fn stack_growable(set: SocketSet<'static>) -> bool;

/// What the getters of a TCP socket return.
pub uninterp spec fn tcp_model(socket: tcp::Socket<'static>) -> TcpModel;

/// What the getters of a UDP socket return.
pub uninterp spec fn udp_model(socket: udp::Socket<'static>) -> UdpModel;

/// The address blocks assigned to an interface, in order.
pub uninterp spec fn iface_addrs(iface: Interface) -> Seq<IpCidr>;

/// The time, in milliseconds, at which an interface that was asked at the time
/// `now_micros` wants to be polled next for its sockets, if it wants to.
pub uninterp spec fn stack_poll_at(iface: Interface, sockets: SocketSet<'static>, now_micros: i64) -> Option<i64>;

/// Whether the subnet of an address block contains an address: the two addresses
/// are of one version and agree in the bits of the prefix.
pub open spec fn block_contains(block: AddrBlock, addr: IpAddress) -> bool {
    let n = block.prefix_len;
    match (block.addr, addr) {
        (IpAddress::Ipv4(a), IpAddress::Ipv4(b)) => n == 0 || a >> ((32 - n) as u32) == b >> ((32 - n) as u32),
        (IpAddress::Ipv6(a), IpAddress::Ipv6(b)) => n == 0 || a >> ((128 - n) as u128) == b >> ((128 - n) as u128),
        _ => false,
    }
}

/// Whether the subnet of an address block contains an address.
pub open spec fn cidr_contains(cidr: IpCidr, addr: IpAddress) -> bool {
    block_contains(cidr.spec_parts(), addr)
}

/// The parts of each of the address blocks.
pub open spec fn spec_blocks(addrs: Seq<IpCidr>) -> Seq<AddrBlock> {
    addrs.map_values(|c: IpCidr| c.spec_parts())
}

/// Whether in each of the blocks the prefix is no longer than the address.
pub open spec fn blocks_wf(blocks: Seq<AddrBlock>) -> bool {
    forall|i: int| 0 <= i < blocks.len() ==> (#[trigger] blocks[i]).wf()
}

/// The contents of a socket set that holds no socket.
pub open spec fn no_sockets() -> Map<SocketHandle, SocketModel> {
    Map::empty()
}

/// The listen endpoint of a socket that listens nowhere.
pub open spec fn no_listen_endpoint() -> IpListenEndpoint {
    IpListenEndpoint { addr: None, port: 0 }
}

/// A TCP socket as it is made: closed, with empty buffers of the given sizes, with
/// Nagle's algorithm on and no keep-alive interval.
pub open spec fn tcp_fresh(rx: usize, tx: usize) -> TcpModel {
    TcpModel {
        state: TcpState::Closed,
        local: None,
        remote: None,
        listen: no_listen_endpoint(),
        can_send: false,
        can_recv: false,
        rx_capacity: rx,
        tx_capacity: tx,
        nagle: true,
        keep_alive: None,
        rx: Seq::empty(),
        tx: Seq::empty(),
    }
}

/// Whether a TCP socket accepts a request to listen on `ep`.
pub open spec fn tcp_listen_ok(m: TcpModel, ep: IpListenEndpoint) -> bool {
    ep.port != 0 && (!m.state.spec_is_open() || (m.state == TcpState::Listen && m.listen == ep))
}

/// A TCP socket after a request to listen on `ep`.
pub open spec fn tcp_after_listen(m: TcpModel, ep: IpListenEndpoint) -> TcpModel {
    if ep.port != 0 && !m.state.spec_is_open() {
        TcpModel {
            state: TcpState::Listen,
            listen: ep,
            nagle: m.nagle,
            keep_alive: m.keep_alive,
            ..tcp_fresh(m.rx_capacity, m.tx_capacity)
        }
    } else {
        m
    }
}

/// Whether a TCP socket accepts a request to connect from `local` to `remote`.
pub open spec fn tcp_connect_ok(m: TcpModel, remote: IpEndpoint, local: IpEndpoint) -> bool {
    &&& !m.state.spec_is_open()
    &&& remote.port != 0
    &&& !remote.addr.spec_is_unspecified()
    &&& local.port != 0
    &&& !local.addr.spec_is_unspecified()
    &&& local.addr.spec_version() == remote.addr.spec_version()
}

/// A TCP socket after a request to connect from `local` to `remote`.
pub open spec fn tcp_after_connect(m: TcpModel, remote: IpEndpoint, local: IpEndpoint) -> TcpModel {
    if tcp_connect_ok(m, remote, local) {
        TcpModel {
            state: TcpState::SynSent,
            local: Some(local),
            remote: Some(remote),
            nagle: m.nagle,
            keep_alive: m.keep_alive,
            ..tcp_fresh(m.rx_capacity, m.tx_capacity)
        }
    } else {
        m
    }
}

/// A TCP socket after its transmit half was closed.
pub open spec fn tcp_after_close(m: TcpModel) -> TcpModel {
    TcpModel { state: m.state.spec_after_close(), can_send: false, ..m }
}

/// A TCP socket after Nagle's algorithm was turned on or off.
pub open spec fn tcp_with_nagle(m: TcpModel, enabled: bool) -> TcpModel {
    TcpModel { nagle: enabled, ..m }
}

/// A TCP socket after its keep-alive interval was set to `secs` seconds.
pub open spec fn tcp_with_keep_alive(m: TcpModel, secs: u32) -> TcpModel {
    TcpModel { keep_alive: Some(secs as u64), ..m }
}

/// What a receive of `count` bytes into a slice makes of a receive buffer that
/// held `rx`: the count is the lesser of what was buffered and what the slice
/// takes; those bytes, the oldest, are the front of the slice `data` after the
/// call; and the buffer holds the rest.
pub open spec fn tcp_received(rx: Seq<u8>, data: Seq<u8>, count: int, rx_after: Seq<u8>) -> bool {
    &&& count == if rx.len() <= data.len() {
        rx.len()
    } else {
        data.len()
    }
    &&& data.take(count) == rx.take(count)
    &&& rx_after == rx.skip(count)
}

/// What a send of `count` bytes of `data` makes of a transmit buffer of `capacity`
/// bytes that held `tx`: the count is the lesser of the room in the buffer and the
/// length of the data, and those bytes, the first of the data, are added at the
/// end of the buffer.
pub open spec fn tcp_sent(tx: Seq<u8>, capacity: int, data: Seq<u8>, count: int, tx_after: Seq<u8>) -> bool {
    &&& tx.len() <= capacity
    &&& count == if capacity - tx.len() <= data.len() {
        capacity - tx.len()
    } else {
        data.len() as int
    }
    &&& tx_after == tx + data.take(count)
}

/// What a receive into a slice makes of the receive buffer of a UDP socket that
/// held `rx`, where `data` is the slice after the call and `r` what the stack
/// answered: an empty buffer is exhausted; else the oldest datagram leaves the
/// buffer, into the front of the slice and with its sender where the slice takes
/// it, and lost as truncated where it does not.
pub open spec fn udp_received(
    rx: Seq<Datagram>,
    before: Seq<u8>,
    data: Seq<u8>,
    r: Result<(usize, IpEndpoint), UdpRecvError>,
    rx_after: Seq<Datagram>,
) -> bool {
    if rx.len() == 0 {
        &&& r == Err::<(usize, IpEndpoint), UdpRecvError>(UdpRecvError::Exhausted)
        &&& rx_after == rx
        &&& data == before
    } else if rx[0].data.len() > before.len() {
        &&& r == Err::<(usize, IpEndpoint), UdpRecvError>(UdpRecvError::Truncated)
        &&& rx_after == rx.skip(1)
        &&& data == before
    } else {
        &&& match r {
            Ok((count, sender)) => count == rx[0].data.len() && sender == rx[0].peer,
            Err(_) => false,
        }
        &&& rx_after == rx.skip(1)
        &&& data.len() == before.len()
        &&& data.take(rx[0].data.len() as int) == rx[0].data
        &&& data.skip(rx[0].data.len() as int) == before.skip(rx[0].data.len() as int)
    }
}

/// What a send of `data` to `to` makes of the transmit buffer of a UDP socket that
/// held `tx`, where `r` is what the stack answered: a datagram that was taken is
/// the last in the buffer; else the buffer is as it was.
pub open spec fn udp_sent(
    tx: Seq<Datagram>,
    data: Seq<u8>,
    to: IpEndpoint,
    r: Result<(), UdpSendError>,
    tx_after: Seq<Datagram>,
) -> bool {
    tx_after == if r is Ok {
        tx.push(Datagram { data, peer: to })
    } else {
        tx
    }
}

/// Two models of one TCP socket between which only the buffers' fill changed.
pub open spec fn tcp_same_connection(a: TcpModel, b: TcpModel) -> bool {
    &&& a.state == b.state
    &&& a.local == b.local
    &&& a.remote == b.remote
    &&& a.listen == b.listen
    &&& a.rx_capacity == b.rx_capacity
    &&& a.tx_capacity == b.tx_capacity
    &&& a.nagle == b.nagle
    &&& a.keep_alive == b.keep_alive
}

/// What polling an interface keeps of its sockets: which handles there are, and
/// of which protocol each socket is.
pub open spec fn same_sockets(a: Map<SocketHandle, SocketModel>, b: Map<SocketHandle, SocketModel>) -> bool {
    &&& a.dom() == b.dom()
    &&& forall|h: SocketHandle| #[trigger] a.dom().contains(h) ==> same_protocol(a[h], b[h])
}

/// Whether one of the address blocks has exactly the address `addr`.
pub open spec fn addrs_have(addrs: Seq<IpCidr>, addr: IpAddress) -> bool {
    exists|i: int| 0 <= i < addrs.len() && (#[trigger] addrs[i]).spec_address() == addr
}

/// Whether `after` is the buffer `before` with at most its first `count` bytes
/// written anew.
pub open spec fn filled_front(before: Seq<u8>, after: Seq<u8>, count: int) -> bool {
    after.len() == before.len() && after.skip(count) == before.skip(count)
}

/// The number of bytes that a receive wrote into its buffer.
pub open spec fn received_len(r: Result<usize, crate::errno::SystemError>) -> int {
    match r {
        Ok(size) => size as int,
        Err(_) => 0,
    }
}

/// Why the stack did not hand out received TCP data.
#[derive(Clone, Copy, Debug, PartialEq, Eq, Structural)]
pub enum TcpRecvError {
    /// The receive half of the connection is not open.
    InvalidState,
    /// The peer closed the connection and all of its data was read.
    Finished,
}

/// Why the stack did not queue a datagram.
#[derive(Clone, Copy, Debug, PartialEq, Eq, Structural)]
pub enum UdpSendError {
    /// The socket is not bound, or the destination is no address to send to.
    Unaddressable,
    /// The transmit buffer has no room for the datagram.
    BufferFull,
}

/// Why the stack did not hand out a datagram.
#[derive(Clone, Copy, Debug, PartialEq, Eq, Structural)]
pub enum UdpRecvError {
    /// The receive buffer is empty.
    Exhausted,
    /// The datagram is longer than the buffer given for it; it is lost.
    Truncated,
}

/// `SocketSet::new` over an empty `Vec`: a set that holds no socket and can grow.
#[verifier::external_body]
pub(crate) fn sockets_new() -> (sockets: SocketSet<'static>)
    ensures
        stack_sockets(sockets) == no_sockets(),
        stack_growable(sockets),
{
    SocketSet::new(Vec::new())
}

/// `SocketSet::add` of a TCP socket: the socket is stored under a handle that was
/// free, and the other sockets stay.
#[verifier::external_body]
pub(crate) fn sockets_add_tcp(
    set: &mut SocketSet<'static>,
    socket: tcp::Socket<'static>,
) -> (h: SocketHandle)
    requires
        stack_growable(*old(set)),
    ensures
        !stack_sockets(*old(set)).dom().contains(h),
        stack_sockets(*final(set)) == stack_sockets(*old(set)).insert(h, SocketModel::Tcp(tcp_model(socket))),
        stack_growable(*final(set)),
{
    set.add(socket)
}

/// `SocketSet::add` of a UDP socket: the socket is stored under a handle that was
/// free, and the other sockets stay.
#[verifier::external_body]
pub(crate) fn sockets_add_udp(
    set: &mut SocketSet<'static>,
    socket: udp::Socket<'static>,
) -> (h: SocketHandle)
    requires
        stack_growable(*old(set)),
    ensures
        !stack_sockets(*old(set)).dom().contains(h),
        stack_sockets(*final(set)) == stack_sockets(*old(set)).insert(h, SocketModel::Udp(udp_model(socket))),
        stack_growable(*final(set)),
{
    set.add(socket)
}

/// `SocketSet::remove`: the socket under the handle leaves the set, the others stay.
#[verifier::external_body]
pub(crate) fn sockets_remove(set: &mut SocketSet<'static>, h: SocketHandle)
    requires
        stack_sockets(*old(set)).dom().contains(h),
    ensures
        stack_sockets(*final(set)) == stack_sockets(*old(set)).remove(h),
        stack_growable(*final(set)) == stack_growable(*old(set)),
{
    let _ = set.remove(h);
}

/// `SocketSet::get` for a TCP socket: the socket stored under the handle.
#[verifier::external_body]
pub(crate) fn sockets_get_tcp<'a>(
    set: &'a SocketSet<'static>,
    h: SocketHandle,
) -> (s: &'a tcp::Socket<'static>)
    requires
        stack_sockets(*set).dom().contains(h),
        stack_sockets(*set)[h] is Tcp,
    ensures
        SocketModel::Tcp(tcp_model(*s)) == stack_sockets(*set)[h],
{
    set.get::<tcp::Socket<'static>>(h)
}

/// `SocketSet::get_mut` for a TCP socket: the socket stored under the handle; what
/// is done to it is done to the set's socket, and to no other.
#[verifier::external_body]
pub(crate) fn sockets_get_mut_tcp<'a>(
    set: &'a mut SocketSet<'static>,
    h: SocketHandle,
) -> (s: &'a mut tcp::Socket<'static>)
    requires
        stack_sockets(*old(set)).dom().contains(h),
        stack_sockets(*old(set))[h] is Tcp,
    ensures
        SocketModel::Tcp(tcp_model(*s)) == stack_sockets(*old(set))[h],
        stack_sockets(*final(set)) == stack_sockets(*old(set)).insert(h, SocketModel::Tcp(tcp_model(*final(s)))),
        stack_growable(*final(set)) == stack_growable(*old(set)),
{
    set.get_mut::<tcp::Socket<'static>>(h)
}

/// `SocketSet::get` for a UDP socket: the socket stored under the handle.
#[verifier::external_body]
pub(crate) fn sockets_get_udp<'a>(
    set: &'a SocketSet<'static>,
    h: SocketHandle,
) -> (s: &'a udp::Socket<'static>)
    requires
        stack_sockets(*set).dom().contains(h),
        stack_sockets(*set)[h] is Udp,
    ensures
        SocketModel::Udp(udp_model(*s)) == stack_sockets(*set)[h],
{
    set.get::<udp::Socket<'static>>(h)
}

/// `SocketSet::get_mut` for a UDP socket: the socket stored under the handle; what
/// is done to it is done to the set's socket, and to no other.
#[verifier::external_body]
pub(crate) fn sockets_get_mut_udp<'a>(
    set: &'a mut SocketSet<'static>,
    h: SocketHandle,
) -> (s: &'a mut udp::Socket<'static>)
    requires
        stack_sockets(*old(set)).dom().contains(h),
        stack_sockets(*old(set))[h] is Udp,
    ensures
        SocketModel::Udp(udp_model(*s)) == stack_sockets(*old(set))[h],
        stack_sockets(*final(set)) == stack_sockets(*old(set)).insert(h, SocketModel::Udp(udp_model(*final(s)))),
        stack_growable(*final(set)) == stack_growable(*old(set)),
{
    set.get_mut::<udp::Socket<'static>>(h)
}

/// `tcp::Socket::new` over two zeroed buffers: a closed socket. The stack panics on
/// a receive buffer above 1 GiB.
#[verifier::external_body]
pub(crate) fn tcp_socket_new(rx_size: usize, tx_size: usize) -> (s: tcp::Socket<'static>)
    requires
        rx_size <= 0x4000_0000,
    ensures
        tcp_model(s) == tcp_fresh(rx_size, tx_size),
{
    tcp::Socket::new(tcp::SocketBuffer::new(vec![0; rx_size]), tcp::SocketBuffer::new(vec![0; tx_size]))
}

/// `tcp::Socket::state`.
#[verifier::external_body]
pub(crate) fn tcp_state(s: &tcp::Socket<'static>) -> (st: TcpState)
    ensures
        st == tcp_model(*s).state,
{
    match s.state() {
        tcp::State::Closed => TcpState::Closed,
        tcp::State::Listen => TcpState::Listen,
        tcp::State::SynSent => TcpState::SynSent,
        tcp::State::SynReceived => TcpState::SynReceived,
        tcp::State::Established => TcpState::Established,
        tcp::State::FinWait1 => TcpState::FinWait1,
        tcp::State::FinWait2 => TcpState::FinWait2,
        tcp::State::CloseWait => TcpState::CloseWait,
        tcp::State::Closing => TcpState::Closing,
        tcp::State::LastAck => TcpState::LastAck,
        tcp::State::TimeWait => TcpState::TimeWait,
    }
}

/// `tcp::Socket::can_send`: the transmit half is open and the buffer is not full.
#[verifier::external_body]
pub(crate) fn tcp_can_send(s: &tcp::Socket<'static>) -> (b: bool)
    ensures
        b == tcp_model(*s).can_send,
        b == (tcp_model(*s).state.spec_may_send() && tcp_model(*s).tx.len() < tcp_model(*s).tx_capacity),
{
    s.can_send()
}

/// `tcp::Socket::can_recv`: the receive buffer holds data.
#[verifier::external_body]
pub(crate) fn tcp_can_recv(s: &tcp::Socket<'static>) -> (b: bool)
    ensures
        b == tcp_model(*s).can_recv,
        b == (tcp_model(*s).rx.len() > 0),
{
    s.can_recv()
}

/// `tcp::Socket::send_capacity`.
#[verifier::external_body]
pub(crate) fn tcp_send_capacity(s: &tcp::Socket<'static>) -> (n: usize)
    ensures
        n == tcp_model(*s).tx_capacity,
{
    s.send_capacity()
}

/// `tcp::Socket::recv_capacity`.
#[verifier::external_body]
pub(crate) fn tcp_recv_capacity(s: &tcp::Socket<'static>) -> (n: usize)
    ensures
        n == tcp_model(*s).rx_capacity,
{
    s.recv_capacity()
}

/// `tcp::Socket::local_endpoint`.
#[verifier::external_body]
pub(crate) fn tcp_local_endpoint(s: &tcp::Socket<'static>) -> (e: Option<IpEndpoint>)
    ensures
        e == tcp_model(*s).local,
{
    let e = s.local_endpoint()?;
    Some(match e.addr {
        smoltcp::wire::IpAddress::Ipv4(a) => IpEndpoint { addr: IpAddress::Ipv4(a.to_bits()), port: e.port },
        smoltcp::wire::IpAddress::Ipv6(a) => IpEndpoint { addr: IpAddress::Ipv6(a.to_bits()), port: e.port },
    })
}

/// `tcp::Socket::remote_endpoint`.
#[verifier::external_body]
pub(crate) fn tcp_remote_endpoint(s: &tcp::Socket<'static>) -> (e: Option<IpEndpoint>)
    ensures
        e == tcp_model(*s).remote,
{
    let e = s.remote_endpoint()?;
    Some(match e.addr {
        smoltcp::wire::IpAddress::Ipv4(a) => IpEndpoint { addr: IpAddress::Ipv4(a.to_bits()), port: e.port },
        smoltcp::wire::IpAddress::Ipv6(a) => IpEndpoint { addr: IpAddress::Ipv6(a.to_bits()), port: e.port },
    })
}

/// `tcp::Socket::listen`: refused on port 0 and on an open socket, unless that
/// socket already listens on the same endpoint; else the socket is reset and listens.
#[verifier::external_body]
pub(crate) fn tcp_listen(
    s: &mut tcp::Socket<'static>,
    ep: IpListenEndpoint,
) -> (r: Result<(), tcp::ListenError>)
    ensures
        r is Ok <==> tcp_listen_ok(tcp_model(*old(s)), ep),
        tcp_model(*final(s)) == tcp_after_listen(tcp_model(*old(s)), ep),
{
    let addr = match ep.addr {
        None => None,
        Some(IpAddress::Ipv4(b)) => Some(smoltcp::wire::IpAddress::Ipv4(b.into())),
        Some(IpAddress::Ipv6(b)) => Some(smoltcp::wire::IpAddress::Ipv6(b.into())),
    };
    s.listen(smoltcp::wire::IpListenEndpoint { addr, port: ep.port })
}

/// `tcp::Socket::connect` with a given local address: refused on an open socket, on
/// port 0 or an unspecified address at either end, and on ends of two IP versions;
/// else the socket is reset and sends its SYN. The interface keeps its addresses.
#[verifier::external_body]
pub(crate) fn tcp_connect(
    s: &mut tcp::Socket<'static>,
    iface: &mut Interface,
    remote: IpEndpoint,
    local: IpEndpoint,
) -> (r: Result<(), tcp::ConnectError>)
    ensures
        r is Ok <==> tcp_connect_ok(tcp_model(*old(s)), remote, local),
        tcp_model(*final(s)) == tcp_after_connect(tcp_model(*old(s)), remote, local),
        iface_addrs(*final(iface)) == iface_addrs(*old(iface)),
{
    let remote_addr = match remote.addr {
        IpAddress::Ipv4(b) => smoltcp::wire::IpAddress::Ipv4(b.into()),
        IpAddress::Ipv6(b) => smoltcp::wire::IpAddress::Ipv6(b.into()),
    };
    let local_addr = match local.addr {
        IpAddress::Ipv4(b) => smoltcp::wire::IpAddress::Ipv4(b.into()),
        IpAddress::Ipv6(b) => smoltcp::wire::IpAddress::Ipv6(b.into()),
    };
    s.connect(iface.context(), (remote_addr, remote.port), (local_addr, local.port))
}

/// `tcp::Socket::close`: the state moves as the TCP state machine says, and nothing
/// more can be sent.
#[verifier::external_body]
pub(crate) fn tcp_close(s: &mut tcp::Socket<'static>)
    ensures
        tcp_model(*final(s)) == tcp_after_close(tcp_model(*old(s))),
{
    s.close()
}

/// `tcp::Socket::recv_slice`: the oldest bytes of the receive buffer leave it for
/// the front of the slice, as many as there are and the slice takes; the rest of
/// the slice stays. The call fails exactly where nothing is buffered and the state
/// is none in which more may come; nothing changes then. The socket can receive
/// exactly where its receive buffer holds data.
#[verifier::external_body]
pub(crate) fn tcp_recv_slice(
    s: &mut tcp::Socket<'static>,
    data: &mut [u8],
) -> (r: Result<usize, TcpRecvError>)
    ensures
        tcp_same_connection(tcp_model(*final(s)), tcp_model(*old(s))),
        final(data)@.len() == old(data)@.len(),
        r is Ok ==> r->Ok_0 <= old(data)@.len() && final(data)@.skip(r->Ok_0 as int) == old(data)@.skip(r->Ok_0 as int),
        r is Err ==> final(data)@ == old(data)@,
        r is Err <==> !tcp_model(*old(s)).state.spec_keeps_receiving() && !tcp_model(*old(s)).can_recv,
        r is Err ==> tcp_model(*final(s)).rx == tcp_model(*old(s)).rx,
        r is Ok ==> tcp_received(tcp_model(*old(s)).rx, final(data)@, r->Ok_0 as int, tcp_model(*final(s)).rx),
        r is Err ==> tcp_model(*old(s)).rx.len() == 0,
        r is Ok ==> tcp_model(*old(s)).can_recv == (tcp_model(*old(s)).rx.len() > 0),
        tcp_model(*final(s)).tx == tcp_model(*old(s)).tx,
{
    match s.recv_slice(data) {
        Ok(n) => Ok(n),
        Err(tcp::RecvError::InvalidState) => Err(TcpRecvError::InvalidState),
        Err(tcp::RecvError::Finished) => Err(TcpRecvError::Finished),
    }
}

/// `tcp::Socket::send_slice`: the first bytes of the data go to the end of the
/// transmit buffer, as many as there are and the buffer has room for. The call
/// fails exactly where the transmit half is not open; nothing changes then. The
/// socket can send exactly where that half is open and the buffer is not full.
#[verifier::external_body]
pub(crate) fn tcp_send_slice(s: &mut tcp::Socket<'static>, data: &[u8]) -> (r: Result<usize, ()>)
    ensures
        tcp_same_connection(tcp_model(*final(s)), tcp_model(*old(s))),
        r is Err <==> !tcp_model(*old(s)).state.spec_may_send(),
        r is Err ==> tcp_model(*final(s)).tx == tcp_model(*old(s)).tx && !tcp_model(*old(s)).can_send,
        r is Ok ==> tcp_model(*old(s)).can_send == (tcp_model(*old(s)).tx.len() < tcp_model(*old(s)).tx_capacity),
        r is Ok ==> tcp_sent(
            tcp_model(*old(s)).tx,
            tcp_model(*old(s)).tx_capacity as int,
            data@,
            r->Ok_0 as int,
            tcp_model(*final(s)).tx,
        ),
        tcp_model(*final(s)).rx == tcp_model(*old(s)).rx,
{
    match s.send_slice(data) {
        Ok(n) => Ok(n),
        Err(tcp::SendError::InvalidState) => Err(()),
    }
}

/// `tcp::Socket::set_nagle_enabled`: Nagle's algorithm is on or off as asked, and
/// nothing else that the model holds changes.
#[verifier::external_body]
pub(crate) fn tcp_set_nagle_enabled(s: &mut tcp::Socket<'static>, enabled: bool)
    ensures
        tcp_model(*final(s)) == tcp_with_nagle(tcp_model(*old(s)), enabled),
{
    s.set_nagle_enabled(enabled)
}

/// `tcp::Socket::set_keep_alive` with an interval in seconds: the socket has that
/// keep-alive interval, and nothing else that the model holds changes.
#[verifier::external_body]
pub(crate) fn tcp_set_keep_alive(s: &mut tcp::Socket<'static>, interval_secs: u32)
    ensures
        tcp_model(*final(s)) == tcp_with_keep_alive(tcp_model(*old(s)), interval_secs),
{
    s.set_keep_alive(Some(smoltcp::time::Duration::from_secs(interval_secs as u64)))
}

/// A UDP socket as it is made: not bound, with empty buffers, of which the one to
/// transmit from has room for every datagram of up to `bytes` bytes.
pub open spec fn udp_fresh(bytes: usize) -> UdpModel {
    UdpModel {
        endpoint: no_listen_endpoint(),
        can_send: true,
        can_recv: false,
        rx: Seq::empty(),
        tx: Seq::empty(),
        tx_room: Set::new(|n: nat| n <= bytes),
    }
}

/// What the stack answers to a datagram of `len` bytes for `to` on a socket as `m`
/// says: it takes the datagram where the socket is bound, the destination is one
/// to send to, and the transmit buffer has room for it.
pub open spec fn udp_send_answer(m: UdpModel, len: nat, to: IpEndpoint) -> Result<(), UdpSendError> {
    if !udp_addressable(m, to) {
        Err(UdpSendError::Unaddressable)
    } else if m.tx_room.contains(len) {
        Ok(())
    } else {
        Err(UdpSendError::BufferFull)
    }
}

/// A UDP socket that was closed: it is not bound and holds no datagram.
pub open spec fn udp_unbound(m: UdpModel) -> bool {
    m.endpoint == no_listen_endpoint() && !m.can_recv && m.rx.len() == 0 && m.tx.len() == 0
}

/// Whether a UDP socket accepts a request to bind to `ep`.
pub open spec fn udp_bind_ok(m: UdpModel, ep: IpListenEndpoint) -> bool {
    ep.port != 0 && m.endpoint.port == 0
}

/// Whether a UDP socket bound as `m` says has an address to send from and `to` is
/// an address to send to.
pub open spec fn udp_addressable(m: UdpModel, to: IpEndpoint) -> bool {
    m.endpoint.port != 0 && !to.addr.spec_is_unspecified() && to.port != 0
}

/// `udp::Socket::new` over buffers for `packets` datagrams and `bytes` octets each
/// way: a socket that is not bound. `packets` and `bytes` are above zero.
#[verifier::external_body]
pub(crate) fn udp_socket_new(packets: usize, bytes: usize) -> (s: udp::Socket<'static>)
    requires
        packets > 0,
        bytes > 0,
    ensures
        udp_model(s) == udp_fresh(bytes),
{
    udp::Socket::new(
        udp::PacketBuffer::new(vec![udp::PacketMetadata::EMPTY; packets], vec![0; bytes]),
        udp::PacketBuffer::new(vec![udp::PacketMetadata::EMPTY; packets], vec![0; bytes]),
    )
}

/// `udp::Socket::bind`: refused on port 0 and on a bound socket; else the socket is
/// bound to the endpoint.
#[verifier::external_body]
pub(crate) fn udp_bind(
    s: &mut udp::Socket<'static>,
    ep: IpListenEndpoint,
) -> (r: Result<(), udp::BindError>)
    ensures
        r is Ok <==> udp_bind_ok(udp_model(*old(s)), ep),
        r is Ok ==> udp_model(*final(s)) == (UdpModel { endpoint: ep, ..udp_model(*old(s)) }),
        r is Err ==> udp_model(*final(s)) == udp_model(*old(s)),
{
    let addr = match ep.addr {
        None => None,
        Some(IpAddress::Ipv4(b)) => Some(smoltcp::wire::IpAddress::Ipv4(b.into())),
        Some(IpAddress::Ipv6(b)) => Some(smoltcp::wire::IpAddress::Ipv6(b.into())),
    };
    s.bind(smoltcp::wire::IpListenEndpoint { addr, port: ep.port })
}

/// `udp::Socket::close`: the socket is no longer bound and its receive buffer is
/// empty.
#[verifier::external_body]
pub(crate) fn udp_close(s: &mut udp::Socket<'static>)
    ensures
        udp_unbound(udp_model(*final(s))),
{
    s.close()
}

/// `udp::Socket::can_send`: the transmit buffer has a free slot. Without one it
/// has room for no datagram.
#[verifier::external_body]
pub(crate) fn udp_can_send(s: &udp::Socket<'static>) -> (b: bool)
    ensures
        b == udp_model(*s).can_send,
        !b ==> udp_model(*s).tx_room == Set::<nat>::empty(),
{
    s.can_send()
}

/// `udp::Socket::can_recv`: the receive buffer has a slot in use. Without one it
/// holds no datagram.
#[verifier::external_body]
pub(crate) fn udp_can_recv(s: &udp::Socket<'static>) -> (b: bool)
    ensures
        b == udp_model(*s).can_recv,
        !b ==> udp_model(*s).rx.len() == 0,
{
    s.can_recv()
}

/// `udp::Socket::send_slice`: the datagram is queued for `to`, as the last of the
/// transmit buffer. The call fails as unaddressable exactly where the socket is
/// not bound or `to` has port 0 or an unspecified address; else it fails exactly
/// where the buffer has no room for the datagram. Where it fails no datagram is
/// queued.
#[verifier::external_body]
pub(crate) fn udp_send_slice(
    s: &mut udp::Socket<'static>,
    data: &[u8],
    to: IpEndpoint,
) -> (r: Result<(), UdpSendError>)
    ensures
        udp_model(*final(s)).endpoint == udp_model(*old(s)).endpoint,
        r == udp_send_answer(udp_model(*old(s)), data@.len(), to),
        udp_sent(udp_model(*old(s)).tx, data@, to, r, udp_model(*final(s)).tx),
        udp_model(*final(s)).rx == udp_model(*old(s)).rx,
{
    let addr = match to.addr {
        IpAddress::Ipv4(b) => smoltcp::wire::IpAddress::Ipv4(b.into()),
        IpAddress::Ipv6(b) => smoltcp::wire::IpAddress::Ipv6(b.into()),
    };
    match s.send_slice(data, (addr, to.port)) {
        Ok(()) => Ok(()),
        Err(udp::SendError::Unaddressable) => Err(UdpSendError::Unaddressable),
        Err(udp::SendError::BufferFull) => Err(UdpSendError::BufferFull),
    }
}

/// `udp::Socket::recv_slice`: the oldest datagram leaves the receive buffer for the
/// front of the slice, with the endpoint that sent it; the rest of the slice stays.
/// The call fails as exhausted where the buffer holds no datagram, and as
/// truncated where the datagram is longer than the slice, which is then lost; the
/// slice stays as it is where the call fails.
#[verifier::external_body]
pub(crate) fn udp_recv_slice(
    s: &mut udp::Socket<'static>,
    data: &mut [u8],
) -> (r: Result<(usize, IpEndpoint), UdpRecvError>)
    ensures
        udp_model(*final(s)).endpoint == udp_model(*old(s)).endpoint,
        final(data)@.len() == old(data)@.len(),
        udp_received(udp_model(*old(s)).rx, old(data)@, final(data)@, r, udp_model(*final(s)).rx),
        udp_model(*final(s)).tx == udp_model(*old(s)).tx,
        udp_model(*final(s)).tx_room == udp_model(*old(s)).tx_room,
{
    match s.recv_slice(data) {
        Ok((n, meta)) => Ok((n, match meta.endpoint.addr {
            smoltcp::wire::IpAddress::Ipv4(a) => IpEndpoint { addr: IpAddress::Ipv4(a.to_bits()), port: meta.endpoint.port },
            smoltcp::wire::IpAddress::Ipv6(a) => IpEndpoint { addr: IpAddress::Ipv6(a.to_bits()), port: meta.endpoint.port },
        })),
        Err(udp::RecvError::Exhausted) => Err(UdpRecvError::Exhausted),
        Err(udp::RecvError::Truncated) => Err(UdpRecvError::Truncated),
    }
}

/// `Interface::poll`: frames move between the device and the sockets. Whatever
/// arrives, no socket enters or leaves the set or changes its protocol, and the
/// interface keeps its addresses. The result says whether a socket may have changed.
#[verifier::external_body]
pub(crate) fn iface_poll<D>(
    iface: &mut Interface,
    sockets: &mut SocketSet<'static>,
    device: &mut D,
    now_micros: i64,
) -> (changed: bool) where D: smoltcp::phy::Device + ?Sized
    ensures
        same_sockets(stack_sockets(*old(sockets)), stack_sockets(*final(sockets))),
        stack_growable(*final(sockets)) == stack_growable(*old(sockets)),
        iface_addrs(*final(iface)) == iface_addrs(*old(iface)),
{
    let r = iface.poll(smoltcp::time::Instant::from_micros(now_micros), device, sockets);
    matches!(r, smoltcp::iface::PollResult::SocketStateChanged)
}

/// `Interface::poll_at`: the time, in milliseconds, at which the stack wants to be
/// polled next, if it wants to: what the interface, which has taken note of the
/// time, and its sockets ask for. The interface keeps its addresses.
#[verifier::external_body]
pub(crate) fn iface_poll_at(iface: &mut Interface, sockets: &SocketSet<'static>, now_micros: i64) -> (at: Option<i64>)
    ensures
        at == stack_poll_at(*final(iface), *sockets, now_micros),
        iface_addrs(*final(iface)) == iface_addrs(*old(iface)),
{
    match iface.poll_at(smoltcp::time::Instant::from_micros(now_micros), sockets) {
        Some(instant) => Some(instant.total_millis()),
        None => None,
    }
}

/// `Interface::ip_addrs`: the parts of the address blocks assigned to the
/// interface, in each of which the prefix is no longer than the address.
#[verifier::external_body]
pub(crate) fn iface_ip_addrs(iface: &Interface) -> (blocks: Vec<AddrBlock>)
    ensures
        blocks@ == spec_blocks(iface_addrs(*iface)),
        blocks_wf(blocks@),
{
    let mut out = Vec::new();
    for c in iface.ip_addrs() {
        let addr = match c.address() {
            smoltcp::wire::IpAddress::Ipv4(a) => IpAddress::Ipv4(a.to_bits()),
            smoltcp::wire::IpAddress::Ipv6(a) => IpAddress::Ipv6(a.to_bits()),
        };
        out.push(AddrBlock { addr, prefix_len: c.prefix_len() });
    }
    out
}

/// `Interface::has_ip_addr`: whether one of the assigned blocks has this address.
#[verifier::external_body]
pub(crate) fn iface_has_ip_addr(iface: &Interface, addr: IpAddress) -> (b: bool)
    ensures
        b == addrs_have(iface_addrs(*iface), addr),
{
    match addr {
        IpAddress::Ipv4(b) => iface.has_ip_addr(smoltcp::wire::Ipv4Address::from_bits(b)),
        IpAddress::Ipv6(b) => iface.has_ip_addr(smoltcp::wire::Ipv6Address::from_bits(b)),
    }
}

/// Whether the stack takes the address for an interface: it is a unicast address
/// or the unspecified IPv4 address. The stack joins a multicast group for each
/// IPv6 address of an interface, which it can do for a unicast address only.
pub open spec fn spec_assignable_addr(addr: IpAddress) -> bool {
    addr.spec_is_unicast() || addr == IpAddress::Ipv4(0)
}

/// Whether the stack takes the block for an interface; see [`spec_assignable_addr`].
pub open spec fn spec_assignable(cidr: IpCidr) -> bool {
    spec_assignable_addr(cidr.spec_address())
}

/// `Interface::update_ip_addrs` writing the first assigned block. The stack panics
/// on an address that is neither unicast nor the unspecified IPv4 address, and on
/// a prefix that is longer than the address.
#[verifier::external_body]
pub(crate) fn iface_set_first_addr(iface: &mut Interface, block: AddrBlock)
    requires
        iface_addrs(*old(iface)).len() > 0,
        block.wf(),
        spec_assignable_addr(block.addr),
    ensures
        spec_blocks(iface_addrs(*final(iface))) == spec_blocks(iface_addrs(*old(iface))).update(0, block),
{
    let first = match block.addr {
        IpAddress::Ipv4(b) => smoltcp::wire::IpCidr::new(smoltcp::wire::IpAddress::Ipv4(b.into()), block.prefix_len),
        IpAddress::Ipv6(b) => smoltcp::wire::IpCidr::new(smoltcp::wire::IpAddress::Ipv6(b.into()), block.prefix_len),
    };
    iface.update_ip_addrs(|addrs| addrs[0] = first)
}

/// `Interface::update_ip_addrs` assigning a block to an interface that has none.
/// The stack panics on an address that is neither unicast nor the unspecified IPv4
/// address, and on a prefix that is longer than the address.
#[verifier::external_body]
pub(crate) fn iface_push_first_addr(iface: &mut Interface, block: AddrBlock)
    requires
        iface_addrs(*old(iface)).len() == 0,
        block.wf(),
        spec_assignable_addr(block.addr),
    ensures
        spec_blocks(iface_addrs(*final(iface))) == seq![block],
{
    let first = match block.addr {
        IpAddress::Ipv4(b) => smoltcp::wire::IpCidr::new(smoltcp::wire::IpAddress::Ipv4(b.into()), block.prefix_len),
        IpAddress::Ipv6(b) => smoltcp::wire::IpCidr::new(smoltcp::wire::IpAddress::Ipv6(b.into()), block.prefix_len),
    };
    iface.update_ip_addrs(|addrs| { let _ = addrs.push(first); })
}

/// `IpCidr::contains_addr`: whether the subnet of the block contains the address,
/// which is whether the two agree in the bits of the prefix. The stack panics on a
/// prefix that is longer than the address.
#[verifier::external_body]
pub(crate) fn cidr_contains_addr(block: AddrBlock, addr: IpAddress) -> (b: bool)
    requires
        block.wf(),
    ensures
        b == block_contains(block, addr),
{
    let other = match addr {
        IpAddress::Ipv4(b) => smoltcp::wire::IpAddress::Ipv4(b.into()),
        IpAddress::Ipv6(b) => smoltcp::wire::IpAddress::Ipv6(b.into()),
    };
    let subnet = match block.addr {
        IpAddress::Ipv4(b) => smoltcp::wire::IpCidr::new(smoltcp::wire::IpAddress::Ipv4(b.into()), block.prefix_len),
        IpAddress::Ipv6(b) => smoltcp::wire::IpCidr::new(smoltcp::wire::IpAddress::Ipv6(b.into()), block.prefix_len),
    };
    subnet.contains_addr(&other)
}

/// Whether `n` is the number that the four bytes spell in the byte order of some
/// machine: with the first byte as the lowest, or with the first byte as the highest.
pub open spec fn spelled_natively(b0: u8, b1: u8, b2: u8, b3: u8, n: u32) -> bool {
    ||| n == b0 + 0x100 * b1 + 0x1_0000 * b2 + 0x100_0000 * b3
    ||| n == b3 + 0x100 * b2 + 0x1_0000 * b1 + 0x100_0000 * b0
}

/// `u32::from_ne_bytes`: the number that four bytes spell in the byte order of the
/// machine, which is one of the two orders.
#[verifier::external_body]
pub(crate) fn u32_from_ne_bytes(b0: u8, b1: u8, b2: u8, b3: u8) -> (n: u32)
    ensures
        spelled_natively(b0, b1, b2, b3, n),
{
    u32::from_ne_bytes([b0, b1, b2, b3])
}

} // verus!
