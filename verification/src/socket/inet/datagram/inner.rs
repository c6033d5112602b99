//! The states of a UDP socket: not bound, and bound to an interface.
use crate::errno::SystemError;
use crate::event_poll::{with_flags, EPollEventType, EPOLLIN, EPOLLOUT};
use crate::interface::StackSocket;
use crate::socket::inet::common::port::{
    bind_port_result, ephemeral_exhausted, is_next_ephemeral, with_ephemeral_port, with_port, without_port,
};
use crate::socket::inet::common::{
    ephemeral_iface, iface_to_bind, lemma_position_found, lemma_same_keys_position, with_ports, with_socket,
    without_socket, BoundInner, IfaceChoice, NetDevices, NetEntry, Types,
};
use crate::socket::inet::common::{
    lemma_choice_in_range, lemma_extends_chain, lemma_extends_keeps_all, lemma_keeps_chain, lemma_unbind_keeps,
    lemma_with_socket_extends, net_extends, net_keeps, FreedPort,
};
use crate::socket::inet::stream::inner::{lemma_bind_extends, lemma_polled_extends, lemma_polled_keeps, net_polled};
use crate::stack::{
    udp_bind, udp_can_recv, udp_can_send, udp_close, udp_fresh, udp_model, udp_recv_slice, udp_send_answer, udp_sent, udp_unbound, Datagram,
    udp_send_slice, udp_socket_new, filled_front, SocketModel, UdpModel, UdpRecvError, UdpSendError,
};
use crate::wire::{IpAddress, IpEndpoint, IpListenEndpoint};
use smoltcp::iface::SocketHandle;
use smoltcp::socket::udp;
use vstd::prelude::*;

verus! {

/// The number of datagrams that each buffer of a UDP socket holds.
pub const DEFAULT_METADATA_BUF_SIZE: usize = 1024;

/// The size, in bytes, of the receive buffer of a UDP socket.
pub const DEFAULT_RX_BUF_SIZE: usize = 64 * 1024;

/// The size, in bytes, of the transmit buffer of a UDP socket.
pub const DEFAULT_TX_BUF_SIZE: usize = 64 * 1024;

/// The position of the UDP port namespace.
pub open spec fn udp_ports() -> int {
    Types::Udp.spec_index()
}

/// The endpoint that the in-stack socket of a socket bound to `local` is bound to:
/// the port on every address where the address is unspecified, else the endpoint.
pub open spec fn stack_endpoint(local: IpEndpoint) -> IpListenEndpoint {
    if local.addr.spec_is_unspecified() {
        IpListenEndpoint { addr: None, port: local.port }
    } else {
        IpListenEndpoint { addr: Some(local.addr), port: local.port }
    }
}

/// The in-stack socket of a UDP socket as it is bound to `local`.
pub open spec fn bound_socket(local: IpEndpoint) -> UdpModel {
    UdpModel { endpoint: stack_endpoint(local), ..udp_fresh(DEFAULT_TX_BUF_SIZE) }
}

/// The registry after the in-stack socket of a UDP socket bound to `local` was
/// placed under `h` on the interface at position `i`, and the port was allocated
/// there; `ephemeral` says whether it was found by the search for an ephemeral port.
pub open spec fn net_after_bind(net: Seq<NetEntry>, i: int, h: SocketHandle, local: IpEndpoint, ephemeral: bool) -> Seq<
    NetEntry,
> {
    with_ports(
        with_socket(net, i, h, SocketModel::Udp(bound_socket(local))),
        i,
        if ephemeral {
            with_ephemeral_port(net[i].iface.ports, Types::Udp, local.port)
        } else {
            with_port(net[i].iface.ports, Types::Udp, local.port)
        },
    )
}

/// A UDP socket that is in no interface.
pub struct UnboundUdp {
    socket: udp::Socket<'static>,
}

/// A UDP socket that is bound to an interface.
pub struct BoundUdp {
    inner: BoundInner,
    local: IpEndpoint,
    remote: Option<IpEndpoint>,
}

impl UnboundUdp {
    /// The in-stack socket is as it was made.
    pub closed spec fn wf(&self) -> bool {
        udp_model(self.socket) == udp_fresh(DEFAULT_TX_BUF_SIZE)
    }

    /// A socket that is not bound.
    pub fn new() -> (s: Self)
        ensures
            s.wf(),
    {
        UnboundUdp { socket: udp_socket_new(DEFAULT_METADATA_BUF_SIZE, DEFAULT_TX_BUF_SIZE) }
    }

    /// What `bind` to `local` answers: the position of the interface that takes the
    /// socket, or why there is none: no such device where no interface serves the
    /// address, an invalid argument for port 0, an address in use for a port that
    /// is allocated.
    pub open spec fn bind_outcome(net: Seq<NetEntry>, local: IpEndpoint) -> Result<int, SystemError> {
        match iface_to_bind(net, local.addr) {
            None => Err(SystemError::ENODEV),
            Some(i) => match bind_port_result(net[i].iface.ports[udp_ports()].ports.to_set(), local.port) {
                Ok(_) => Ok(i),
                Err(e) => Err(e),
            },
        }
    }

    /// Binds the socket to `local_endpoint`: places its in-stack socket on the
    /// interface that serves the address, reserves the port there, and binds the
    /// in-stack socket. On failure the socket is handed back, and the registry is
    /// as before.
    pub fn bind<D>(self, net: &mut NetDevices<D>, local_endpoint: IpEndpoint) -> (r: Result<
        BoundUdp,
        (UnboundUdp, SystemError),
    >)
        requires
            old(net).wf(),
            self.wf(),
        ensures
            final(net).wf(),
            net_extends(old(net)@, final(net)@),
            match r {
                Ok(bound) => {
                    &&& Self::bind_outcome(old(net)@, local_endpoint) == Ok::<int, SystemError>(bound.index(final(net)@))
                    &&& bound.wf(final(net)@)
                    &&& bound.spec_local() == local_endpoint
                    &&& bound.spec_remote() is None
                    &&& !old(net)@[bound.index(final(net)@)].iface.table.dom().contains(
                        bound.spec_inner().spec_handle(),
                    )
                    &&& final(net)@ == net_after_bind(
                        old(net)@,
                        bound.index(final(net)@),
                        bound.spec_inner().spec_handle(),
                        local_endpoint,
                        false,
                    )
                },
                Err((unbound, e)) => {
                    &&& Self::bind_outcome(old(net)@, local_endpoint) == Err::<int, SystemError>(e)
                    &&& unbound.wf()
                    &&& final(net)@ == old(net)@
                },
            },
    {
        let inner = match BoundInner::bind(net, StackSocket::Udp(self.socket), &local_endpoint.addr) {
            Ok(inner) => inner,
            Err(e) => {
                return Err((UnboundUdp::new(), e));
            },
        };
        let ghost placed = net@;
        let ghost i = inner.index(placed);
        proof {
            lemma_position_found(placed, inner.spec_iface());
            net.lemma_wf();
        }
        let ports = inner.port_manager_mut(net);
        proof {
            ports.lemma_ports_unique();
        }
        match ports.bind_port(Types::Udp, local_endpoint.port) {
            Ok(()) => {
                proof {
                    lemma_same_keys_position(placed, net@, inner.spec_iface());
                    lemma_choice_in_range(old(net)@, local_endpoint.addr);
                    old(net).lemma_wf();
                    lemma_bind_extends(
                        old(net)@,
                        i,
                        inner.spec_handle(),
                        SocketModel::Udp(bound_socket(local_endpoint)),
                        Types::Udp,
                        local_endpoint.port,
                        false,
                    );
                }
                Ok(Self::finish_bind(net, inner, local_endpoint, Ghost(old(net)@), Ghost(false)))
            },
            Err(e) => {
                proof {
                    lemma_same_keys_position(placed, net@, inner.spec_iface());
                    assert(net@ =~= placed);
                }
                inner.release(net);
                proof {
                    let t = old(net)@[i].iface.table;
                    assert(t.insert(inner.spec_handle(), SocketModel::Udp(udp_fresh(DEFAULT_TX_BUF_SIZE))).remove(inner.spec_handle())
                        =~= t);
                    assert(net@ =~= old(net)@);
                }
                Err((UnboundUdp::new(), e))
            },
        }
    }

    /// Binds the in-stack socket of a socket that was placed and has its port.
    fn finish_bind<D>(
        net: &mut NetDevices<D>,
        inner: BoundInner,
        local: IpEndpoint,
        Ghost(start): Ghost<Seq<NetEntry>>,
        Ghost(ephemeral): Ghost<bool>,
    ) -> (bound: BoundUdp)
        requires
            old(net).wf(),
            inner.is_udp(old(net)@),
            local.port != 0,
            0 <= inner.index(old(net)@) < start.len(),
            start[inner.index(old(net)@)].iface.ports.len() == 6,
            !start[inner.index(old(net)@)].iface.table.dom().contains(inner.spec_handle()),
            old(net)@ == with_ports(
                with_socket(
                    start,
                    inner.index(old(net)@),
                    inner.spec_handle(),
                    SocketModel::Udp(udp_fresh(DEFAULT_TX_BUF_SIZE)),
                ),
                inner.index(old(net)@),
                if ephemeral {
                    with_ephemeral_port(start[inner.index(old(net)@)].iface.ports, Types::Udp, local.port)
                } else {
                    with_port(start[inner.index(old(net)@)].iface.ports, Types::Udp, local.port)
                },
            ),
        ensures
            final(net).wf(),
            bound.wf(final(net)@),
            bound.spec_inner() == inner,
            bound.spec_local() == local,
            bound.spec_remote() is None,
            bound.index(final(net)@) == inner.index(old(net)@),
            final(net)@ == net_after_bind(start, inner.index(old(net)@), inner.spec_handle(), local, ephemeral),
    {
        let ghost before = net@;
        let ghost i = inner.index(before);
        let endpoint = if local.addr.is_unspecified() {
            IpListenEndpoint::from_port(local.port)
        } else {
            IpListenEndpoint::from_endpoint(local)
        };
        proof {
            lemma_position_found(before, inner.spec_iface());
        }
        let socket = inner.with_udp_mut(net);
        let _ = udp_bind(socket, endpoint);
        proof {
            lemma_same_keys_position(before, net@, inner.spec_iface());
            let ps = start[i].iface.ports[udp_ports()].ports;
            assert(ps.push(local.port)[ps.len() as int] == local.port);
            let t = start[i].iface.table;
            let h = inner.spec_handle();
            assert(before[i].iface.table == t.insert(h, SocketModel::Udp(udp_fresh(DEFAULT_TX_BUF_SIZE))));
            assert(inner.socket(before) == SocketModel::Udp(udp_fresh(DEFAULT_TX_BUF_SIZE)));
            assert(t.insert(h, SocketModel::Udp(udp_fresh(DEFAULT_TX_BUF_SIZE))).insert(h, SocketModel::Udp(bound_socket(local)))
                =~= t.insert(h, SocketModel::Udp(bound_socket(local))));
            assert(net@ =~= net_after_bind(start, i, h, local, ephemeral));
        }
        BoundUdp { inner, local, remote: None }
    }

    /// What the automatic binding of a socket that is to reach `remote` answers: the
    /// interface chosen and the local address, or why there is none: no such device
    /// where no interface can be chosen, an address in use where every ephemeral
    /// port is taken.
    pub open spec fn ephemeral_outcome(net: Seq<NetEntry>, remote: IpAddress) -> Result<IfaceChoice, SystemError> {
        match ephemeral_iface(net, remote) {
            None => Err(SystemError::ENODEV),
            Some(choice) => if ephemeral_exhausted(net[choice.index].iface.ports[udp_ports()].ports.to_set()) {
                Err(SystemError::EADDRINUSE)
            } else {
                Ok(choice)
            },
        }
    }

    /// Binds the socket for datagrams to `remote`: places its in-stack socket on the
    /// interface from which the address is reached, reserves an ephemeral port
    /// there, and binds the in-stack socket to the local address and that port. On
    /// failure the socket is handed back, and the registry is as before.
    pub fn bind_ephemeral<D>(self, net: &mut NetDevices<D>, remote: IpAddress) -> (r: Result<
        BoundUdp,
        (UnboundUdp, SystemError),
    >)
        requires
            old(net).wf(),
            self.wf(),
        ensures
            final(net).wf(),
            net_extends(old(net)@, final(net)@),
            match r {
                Ok(bound) => {
                    &&& Self::ephemeral_outcome(old(net)@, remote) matches Ok(choice)
                    &&& bound.index(final(net)@) == choice.index
                    &&& bound.wf(final(net)@)
                    &&& bound.spec_local().addr == choice.local
                    &&& crate::socket::inet::common::port::EPHEMERAL_PORT_MIN <= bound.spec_local().port
                    &&& is_next_ephemeral(
                        old(net)@[choice.index].iface.ports[udp_ports()].ports.to_set(),
                        old(net)@[choice.index].iface.ports[udp_ports()].cursor,
                        bound.spec_local().port,
                    )
                    &&& bound.spec_remote() is None
                    &&& !old(net)@[choice.index].iface.table.dom().contains(bound.spec_inner().spec_handle())
                    &&& final(net)@ == net_after_bind(
                        old(net)@,
                        choice.index,
                        bound.spec_inner().spec_handle(),
                        bound.spec_local(),
                        true,
                    )
                },
                Err((unbound, e)) => {
                    &&& Self::ephemeral_outcome(old(net)@, remote) matches Err(expected)
                    &&& e == expected
                    &&& unbound.wf()
                    &&& final(net)@ == old(net)@
                },
            },
    {
        let (inner, address) = match BoundInner::bind_ephemeral(net, StackSocket::Udp(self.socket), remote) {
            Ok(found) => found,
            Err(e) => {
                return Err((UnboundUdp::new(), e));
            },
        };
        let ghost placed = net@;
        let ghost i = inner.index(placed);
        proof {
            lemma_position_found(placed, inner.spec_iface());
            net.lemma_wf();
        }
        let ports = inner.port_manager_mut(net);
        proof {
            ports.lemma_ports_unique();
        }
        match ports.bind_ephemeral_port(Types::Udp) {
            Ok(port) => {
                proof {
                    let allocated = old(net)@[i].iface.ports[udp_ports()].ports.to_set();
                    assert(!allocated.contains(port as int as u16));
                    assert(!ephemeral_exhausted(allocated));
                    lemma_same_keys_position(placed, net@, inner.spec_iface());
                    lemma_choice_in_range(old(net)@, remote);
                    old(net).lemma_wf();
                    lemma_bind_extends(
                        old(net)@,
                        i,
                        inner.spec_handle(),
                        SocketModel::Udp(bound_socket(IpEndpoint { addr: address, port })),
                        Types::Udp,
                        port,
                        true,
                    );
                }
                Ok(Self::finish_bind(net, inner, IpEndpoint::new(address, port), Ghost(old(net)@), Ghost(true)))
            },
            Err(e) => {
                proof {
                    lemma_same_keys_position(placed, net@, inner.spec_iface());
                    assert(net@ =~= placed);
                }
                inner.release(net);
                proof {
                    let t = old(net)@[i].iface.table;
                    assert(t.insert(inner.spec_handle(), SocketModel::Udp(udp_fresh(DEFAULT_TX_BUF_SIZE))).remove(inner.spec_handle())
                        =~= t);
                    assert(net@ =~= old(net)@);
                }
                Err((UnboundUdp::new(), e))
            },
        }
    }
}

/// Whether `r` is what a send of a datagram of `len` bytes answers, where `can_send`
/// says whether the in-stack socket could send, and `raw` is what the stack
/// answered to the datagram: a socket that cannot send would block; a datagram that
/// was queued counts with its whole length; one that cannot be addressed is an
/// invalid argument; and one for which the buffer has no room would block.
pub open spec fn spec_send_outcome(len: nat, can_send: bool, raw: Result<(), UdpSendError>, r: Result<
    usize,
    SystemError,
>) -> bool {
    if !can_send {
        r == Err::<usize, SystemError>(SystemError::EAGAIN_OR_EWOULDBLOCK)
    } else {
        match raw {
            Ok(_) => r is Ok && r->Ok_0 == len,
            Err(UdpSendError::Unaddressable) => r == Err::<usize, SystemError>(SystemError::EINVAL),
            Err(UdpSendError::BufferFull) => r == Err::<usize, SystemError>(SystemError::EAGAIN_OR_EWOULDBLOCK),
        }
    }
}

/// Maps what the stack answered to a datagram of `len` bytes to what the send
/// answers; see [`spec_send_outcome`].
pub fn send_outcome(len: usize, raw: Result<(), UdpSendError>) -> (r: Result<usize, SystemError>)
    ensures
        spec_send_outcome(len as nat, true, raw, r),
{
    match raw {
        Ok(()) => Ok(len),
        Err(UdpSendError::Unaddressable) => Err(SystemError::EINVAL),
        Err(UdpSendError::BufferFull) => Err(SystemError::EAGAIN_OR_EWOULDBLOCK),
    }
}

/// The number of bytes that a receive wrote into its buffer.
pub open spec fn datagram_len(r: Result<(usize, IpEndpoint), SystemError>) -> int {
    match r {
        Ok((size, _)) => size as int,
        Err(_) => 0,
    }
}

/// What a receive answers, given what the stack answered: the datagram and its
/// sender; that the call would block where there is no datagram; and an invalid
/// argument where the datagram is longer than the buffer.
pub open spec fn spec_recv_outcome(raw: Result<(usize, IpEndpoint), UdpRecvError>) -> Result<
    (usize, IpEndpoint),
    SystemError,
> {
    match raw {
        Ok(received) => Ok(received),
        Err(UdpRecvError::Exhausted) => Err(SystemError::EAGAIN_OR_EWOULDBLOCK),
        Err(UdpRecvError::Truncated) => Err(SystemError::EINVAL),
    }
}

/// Maps what the stack answered to a receive to what the receive answers; see
/// [`spec_recv_outcome`].
pub fn recv_outcome(raw: Result<(usize, IpEndpoint), UdpRecvError>) -> (r: Result<(usize, IpEndpoint), SystemError>)
    ensures
        r == spec_recv_outcome(raw),
{
    match raw {
        Ok(received) => Ok(received),
        Err(UdpRecvError::Exhausted) => Err(SystemError::EAGAIN_OR_EWOULDBLOCK),
        Err(UdpRecvError::Truncated) => Err(SystemError::EINVAL),
    }
}

impl BoundUdp {
    /// The binding of the socket.
    pub closed spec fn spec_inner(&self) -> BoundInner {
        self.inner
    }

    /// The local endpoint.
    pub closed spec fn spec_local(&self) -> IpEndpoint {
        self.local
    }

    /// The endpoint that the socket is connected to, if it is connected.
    pub closed spec fn spec_remote(&self) -> Option<IpEndpoint> {
        self.remote
    }

    /// The socket as it is once it is connected to `remote`.
    pub closed spec fn connected_to(self, remote: IpEndpoint) -> BoundUdp {
        BoundUdp { remote: Some(remote), ..self }
    }

    /// Connecting changes the remote endpoint and nothing else.
    pub proof fn lemma_connected_to(self, remote: IpEndpoint)
        ensures
            self.connected_to(remote).spec_inner() == self.spec_inner(),
            self.connected_to(remote).spec_local() == self.spec_local(),
            self.connected_to(remote).spec_remote() == Some(remote),
    {
    }

    /// The position of the socket's interface in the registry.
    pub open spec fn index(&self, net: Seq<NetEntry>) -> int {
        self.spec_inner().index(net)
    }

    /// The in-stack socket.
    pub open spec fn model(&self, net: Seq<NetEntry>) -> UdpModel {
        self.spec_inner().socket(net)->Udp_0
    }

    /// The socket has a UDP socket in its interface and a port, which is reserved.
    pub open spec fn wf(&self, net: Seq<NetEntry>) -> bool {
        &&& self.spec_inner().is_udp(net)
        &&& self.spec_local().port != 0
        &&& net[self.index(net)].iface.ports[udp_ports()].ports.contains(self.spec_local().port)
    }

    /// `net` with the in-stack socket of this socket replaced by `m`.
    pub open spec fn net_with(&self, net: Seq<NetEntry>, m: UdpModel) -> Seq<NetEntry> {
        with_socket(net, self.index(net), self.spec_inner().spec_handle(), SocketModel::Udp(m))
    }

    /// The local endpoint.
    pub fn local(&self) -> (e: IpEndpoint)
        ensures
            e == self.spec_local(),
    {
        self.local
    }

    /// The endpoint that the socket is connected to, if it is connected.
    pub fn remote(&self) -> (e: Option<IpEndpoint>)
        ensures
            e == self.spec_remote(),
    {
        self.remote
    }

    /// The binding of the socket.
    pub fn inner(&self) -> (b: &BoundInner)
        ensures
            *b == self.spec_inner(),
    {
        &self.inner
    }

    /// Records `remote` as the endpoint that datagrams go to.
    pub fn connect(&mut self, remote: IpEndpoint)
        ensures
            *final(self) == old(self).connected_to(remote),
    {
        self.remote = Some(remote);
    }

    /// Where a datagram goes: to `to`, or else to the remote endpoint of the socket.
    pub open spec fn destination(&self, to: Option<IpEndpoint>) -> Option<IpEndpoint> {
        if to is Some {
            to
        } else {
            self.spec_remote()
        }
    }

    /// What `try_send` of the bytes `data` to `to`, or else to the remote endpoint,
    /// answers and does; see [`BoundUdp::try_send`].
    pub open spec fn sent(
        &self,
        net: Seq<NetEntry>,
        data: Seq<u8>,
        to: Option<IpEndpoint>,
        r: Result<usize, SystemError>,
        after: Seq<NetEntry>,
    ) -> bool {
        if self.destination(to) is None {
            r == Err::<usize, SystemError>(SystemError::EINVAL) && after == net
        } else {
            exists|raw: Result<(), UdpSendError>, queued: Seq<NetEntry>|
                {
                    &&& #[trigger] self.queued(net, data, self.destination(to)->0, raw, r, queued)
                    &&& net_polled(queued, after, self.index(net))
                }
        }
    }

    /// What handing the datagram `data` for `dest` to the in-stack socket answers
    /// and does, where `raw` is what the stack answers to it, for which see
    /// [`udp_send_answer`]: a datagram that the stack took is the last of its
    /// transmit buffer, and nothing else is queued. A socket whose transmit buffer
    /// has no free slot is not asked.
    pub open spec fn queued(
        &self,
        net: Seq<NetEntry>,
        data: Seq<u8>,
        dest: IpEndpoint,
        raw: Result<(), UdpSendError>,
        r: Result<usize, SystemError>,
        queued: Seq<NetEntry>,
    ) -> bool {
        &&& self.spec_inner().is_udp(queued)
        &&& queued == self.net_with(net, self.model(queued))
        &&& self.model(queued).endpoint == self.model(net).endpoint
        &&& self.model(queued).rx == self.model(net).rx
        &&& raw == udp_send_answer(self.model(net), data.len(), dest)
        &&& !self.model(net).can_send ==> self.model(net).tx_room == Set::<nat>::empty()
        &&& spec_send_outcome(data.len(), self.model(net).can_send, raw, r)
        &&& if self.model(net).can_send {
            udp_sent(self.model(net).tx, data, dest, raw, self.model(queued).tx)
        } else {
            queued == net
        }
    }

    /// Tries to send the datagram `buf` to `to`, or to the remote endpoint where
    /// `to` is `None`, and polls the interface at the time `now_micros` so that the
    /// datagram leaves.
    ///
    /// Without a destination the call is an invalid argument and nothing happens.
    /// Where the in-stack socket cannot send the call would block. Otherwise the
    /// answer is that of [`spec_send_outcome`] for what the stack answered.
    pub fn try_send<D>(&self, net: &mut NetDevices<D>, buf: &[u8], to: Option<IpEndpoint>, now_micros: i64) -> (r:
        Result<usize, SystemError>) where D: smoltcp::phy::Device
        requires
            old(net).wf(),
            self.wf(old(net)@),
        ensures
            final(net).wf(),
            self.wf(final(net)@),
            net_extends(old(net)@, final(net)@),
            self.sent(old(net)@, buf@, to, r, final(net)@),
    {
        let destination = match to {
            Some(dest) => dest,
            None => match self.remote {
                Some(dest) => dest,
                None => {
                    return Err(SystemError::EINVAL);
                },
            },
        };
        proof {
            lemma_position_found(net@, self.inner.spec_iface());
        }
        let ghost raw: Result<(), UdpSendError>;
        let result = if udp_can_send(self.inner.with_udp(net)) {
            let socket = self.inner.with_udp_mut(net);
            let answer = udp_send_slice(socket, buf, destination);
            proof {
                raw = answer;
                lemma_same_keys_position(old(net)@, net@, self.inner.spec_iface());
            }
            send_outcome(buf.len(), answer)
        } else {
            proof {
                raw = udp_send_answer(self.model(old(net)@), buf@.len(), destination);
                let t = old(net)@[self.index(old(net)@)].iface.table;
                assert(t.insert(self.inner.spec_handle(), t[self.inner.spec_handle()]) =~= t);
                assert(self.net_with(old(net)@, self.model(old(net)@)) =~= old(net)@);
            }
            Err(SystemError::EAGAIN_OR_EWOULDBLOCK)
        };
        let ghost queued = net@;
        let index = self.inner.position(net);
        let _ = net.poll_at(index, now_micros);
        proof {
            lemma_polled_keeps(queued, net@, index as int, self.inner);
            lemma_with_socket_extends(
                old(net)@,
                self.index(old(net)@),
                self.inner.spec_handle(),
                SocketModel::Udp(self.model(queued)),
            );
            lemma_polled_extends(queued, net@, index as int);
            lemma_extends_chain(old(net)@, queued, net@);
            assert(self.queued(old(net)@, buf@, destination, raw, result, queued));
        }
        result
    }

    /// What `try_recv` into a buffer answers and does, where `data` is what the
    /// buffer holds after it; see [`BoundUdp::try_recv`].
    pub open spec fn received(
        &self,
        net: Seq<NetEntry>,
        data: Seq<u8>,
        r: Result<(usize, IpEndpoint), SystemError>,
        after: Seq<NetEntry>,
    ) -> bool {
        exists|raw: Result<(usize, IpEndpoint), UdpRecvError>, polled: Seq<NetEntry>|
            {
                &&& net_polled(net, polled, self.index(net))
                &&& #[trigger] self.taken(polled, data, raw, r, after)
            }
    }

    /// What the stack answers to a receive into a buffer, and what it makes of a
    /// receive buffer that held `rx`, where `data` is what the buffer holds after
    /// it: without a datagram the receive buffer is exhausted; else the oldest
    /// datagram leaves it, for the front of the buffer and with its sender where
    /// the buffer takes it, and lost as truncated where it does not.
    pub open spec fn oldest_taken(
        rx: Seq<Datagram>,
        data: Seq<u8>,
        raw: Result<(usize, IpEndpoint), UdpRecvError>,
        rx_after: Seq<Datagram>,
    ) -> bool {
        if rx.len() == 0 {
            raw == Err::<(usize, IpEndpoint), UdpRecvError>(UdpRecvError::Exhausted) && rx_after == rx
        } else if rx[0].data.len() > data.len() {
            raw == Err::<(usize, IpEndpoint), UdpRecvError>(UdpRecvError::Truncated) && rx_after == rx.skip(1)
        } else {
            &&& match raw {
                Ok((count, sender)) => count == rx[0].data.len() && sender == rx[0].peer,
                Err(_) => false,
            }
            &&& data.take(rx[0].data.len() as int) == rx[0].data
            &&& rx_after == rx.skip(1)
        }
    }

    /// What taking a datagram out of the in-stack socket into a buffer answers and
    /// does, where `data` is what the buffer holds after it and `raw` is what the
    /// stack answered; see [`BoundUdp::oldest_taken`].
    pub open spec fn taken(
        &self,
        net: Seq<NetEntry>,
        data: Seq<u8>,
        raw: Result<(usize, IpEndpoint), UdpRecvError>,
        r: Result<(usize, IpEndpoint), SystemError>,
        after: Seq<NetEntry>,
    ) -> bool {
        &&& self.spec_inner().is_udp(net)
        &&& after == self.net_with(net, self.model(after))
        &&& self.model(after).endpoint == self.model(net).endpoint
        &&& self.model(after).tx == self.model(net).tx
        &&& spec_recv_outcome(raw) == r
        &&& Self::oldest_taken(self.model(net).rx, data, raw, self.model(after).rx)
        &&& !self.model(net).can_recv ==> after == net
    }

    /// Polls the interface at the time `now_micros` and then tries to receive a
    /// datagram into `buf`.
    ///
    /// Where the in-stack socket then holds no datagram the call would block. A
    /// datagram that is longer than the buffer is lost, and the call is an invalid
    /// argument. Otherwise the answer is the length of the datagram and the endpoint
    /// that sent it.
    pub fn try_recv<D>(&self, net: &mut NetDevices<D>, buf: &mut [u8], now_micros: i64) -> (r: Result<
        (usize, IpEndpoint),
        SystemError,
    >) where D: smoltcp::phy::Device
        requires
            old(net).wf(),
            self.wf(old(net)@),
        ensures
            final(net).wf(),
            self.wf(final(net)@),
            filled_front(old(buf)@, final(buf)@, datagram_len(r)),
            net_extends(old(net)@, final(net)@),
            self.received(old(net)@, final(buf)@, r, final(net)@),
    {
        proof {
            lemma_position_found(net@, self.inner.spec_iface());
        }
        let index = self.inner.position(net);
        let _ = net.poll_at(index, now_micros);
        let ghost polled = net@;
        proof {
            lemma_polled_keeps(old(net)@, polled, index as int, self.inner);
            lemma_position_found(polled, self.inner.spec_iface());
        }
        let ghost raw: Result<(usize, IpEndpoint), UdpRecvError>;
        let result = if udp_can_recv(self.inner.with_udp(net)) {
            let socket = self.inner.with_udp_mut(net);
            let answer = udp_recv_slice(socket, buf);
            proof {
                raw = answer;
                lemma_same_keys_position(polled, net@, self.inner.spec_iface());
                let rx = self.model(polled).rx;
                if rx.len() > 0 && rx[0].data.len() <= old(buf)@.len() {
                    assert(answer is Ok);
                    assert(datagram_len(spec_recv_outcome(answer)) == rx[0].data.len());
                } else {
                    assert(answer is Err);
                    assert(buf@ == old(buf)@);
                }
            }
            recv_outcome(answer)
        } else {
            proof {
                raw = Err(UdpRecvError::Exhausted);
                let t = polled[self.index(polled)].iface.table;
                assert(t.insert(self.inner.spec_handle(), t[self.inner.spec_handle()]) =~= t);
                assert(self.net_with(polled, self.model(polled)) =~= polled);
            }
            Err(SystemError::EAGAIN_OR_EWOULDBLOCK)
        };
        proof {
            assert(self.taken(polled, buf@, raw, result, net@));
            lemma_polled_extends(old(net)@, polled, index as int);
            lemma_with_socket_extends(
                polled,
                self.index(polled),
                self.inner.spec_handle(),
                SocketModel::Udp(self.model(net@)),
            );
            lemma_extends_chain(old(net)@, polled, net@);
        }
        result
    }

    /// The registry after the socket was closed: its port is free, and its in-stack
    /// socket is as `closed` says.
    pub open spec fn net_after_close(&self, net: Seq<NetEntry>, closed: UdpModel) -> Seq<NetEntry> {
        let i = self.index(net);
        with_socket(
            with_ports(net, i, without_port(net[i].iface.ports, Types::Udp, self.spec_local().port)),
            i,
            self.spec_inner().spec_handle(),
            SocketModel::Udp(closed),
        )
    }

    /// The registry after the socket was closed and released: its port is free, and
    /// its in-stack socket has left the socket table.
    pub open spec fn net_after_release(&self, net: Seq<NetEntry>) -> Seq<NetEntry> {
        let i = self.index(net);
        without_socket(
            with_ports(net, i, without_port(net[i].iface.ports, Types::Udp, self.spec_local().port)),
            i,
            self.spec_inner().spec_handle(),
        )
    }

    /// Frees the port and unbinds the in-stack socket, which stays in the socket table.
    pub fn close<D>(&self, net: &mut NetDevices<D>)
        requires
            old(net).wf(),
            self.wf(old(net)@),
        ensures
            final(net).wf(),
            self.spec_inner().is_udp(final(net)@),
            self.index(final(net)@) == self.index(old(net)@),
            final(net)@ == self.net_after_close(old(net)@, self.model(final(net)@)),
            udp_unbound(self.model(final(net)@)),
            net_keeps(old(net)@, final(net)@, Seq::empty(), self.frees()),
    {
        proof {
            lemma_position_found(net@, self.inner.spec_iface());
            net.lemma_wf();
            lemma_unbind_keeps(net@, self.index(net@), Types::Udp, self.local.port);
        }
        let ports = self.inner.port_manager_mut(net);
        ports.unbind_port(Types::Udp, self.local.port);
        proof {
            lemma_same_keys_position(old(net)@, net@, self.inner.spec_iface());
        }
        let ghost mid = net@;
        let socket = self.inner.with_udp_mut(net);
        udp_close(socket);
        proof {
            lemma_same_keys_position(mid, net@, self.inner.spec_iface());
            lemma_with_socket_extends(
                mid,
                self.index(mid),
                self.inner.spec_handle(),
                SocketModel::Udp(self.model(net@)),
            );
            lemma_extends_keeps_all(mid, net@);
            lemma_keeps_chain(old(net)@, mid, net@, Seq::empty(), Seq::empty(), self.frees(), Seq::empty());
            assert(self.frees() + Seq::<FreedPort>::empty() =~= self.frees());
            assert(Seq::<BoundInner>::empty() + Seq::<BoundInner>::empty() =~= Seq::<BoundInner>::empty());
        }
    }

    /// The port that closing the socket frees.
    pub open spec fn frees(&self) -> Seq<FreedPort> {
        seq![FreedPort { key: self.spec_inner().spec_iface(), protocol: udp_ports(), port: self.spec_local().port }]
    }

    /// Takes the in-stack socket out of its socket table.
    pub fn release<D>(&self, net: &mut NetDevices<D>)
        requires
            old(net).wf(),
            self.spec_inner().wf(old(net)@),
        ensures
            final(net).wf(),
            final(net)@ == without_socket(old(net)@, self.index(old(net)@), self.spec_inner().spec_handle()),
            net_keeps(old(net)@, final(net)@, seq![self.spec_inner()], Seq::empty()),
    {
        self.inner.release(net);
    }

    /// Sets the readiness flags from the in-stack socket: `EPOLLIN` where it holds a
    /// datagram, `EPOLLOUT` where it can send.
    pub fn update_io_events<D>(&self, net: &NetDevices<D>, pollee: &mut EPollEventType)
        requires
            net.wf(),
            self.wf(net@),
        ensures
            final(pollee)@ == with_flags(
                with_flags(old(pollee)@, EPOLLIN, self.model(net@).can_recv),
                EPOLLOUT,
                self.model(net@).can_send,
            ),
    {
        let socket = self.inner.with_udp(net);
        let can_recv = udp_can_recv(socket);
        let can_send = udp_can_send(socket);
        pollee.set(EPollEventType::readable(), can_recv);
        pollee.set(EPollEventType::writable(), can_send);
    }
}

/// The state of a UDP socket.
pub enum UdpInner {
    Unbound(UnboundUdp),
    Bound(BoundUdp),
}

impl UdpInner {
    /// The state is well-formed with respect to the registry.
    pub open spec fn wf(&self, net: Seq<NetEntry>) -> bool {
        match self {
            UdpInner::Unbound(unbound) => unbound.wf(),
            UdpInner::Bound(bound) => bound.wf(net),
        }
    }
}

} // verus!
