//! The states of a TCP socket: not yet connected, connecting, listening, established.
use crate::errno::SystemError;
use crate::event_poll::{with_flags, EPollEventType, EPOLLIN, EPOLLOUT};
use crate::interface::{IfaceCommon, StackSocket};
use crate::socket::inet::common::port::{
    bind_port_result, ephemeral_exhausted, is_next_ephemeral, with_ephemeral_port, with_port, without_port,
};
use crate::socket::inet::common::{
    ephemeral_iface, iface_to_bind, lemma_choice_in_range, lemma_choice_stable, lemma_position_found,
    lemma_same_keys_position, lemma_same_tables_keeps, lemma_with_ports_keeps, lemma_with_socket_keeps,
    lemma_extends_chain, lemma_extends_keeps, lemma_with_port_grows, lemma_with_ports_extends,
    lemma_with_socket_extends, lemma_without_socket_keeps, net_extends, net_inv, same_addressing,
    same_tables, with_ports, with_socket, without_socket, BoundInner, NetDevices, NetEntry, Types,
    lemma_extends_keeps_all, lemma_keeps_chain, lemma_unbind_keeps, net_keeps, FreedPort,
    held, is_freed, lemma_keeps_binding,
};
use crate::stack::{
    tcp_after_close, tcp_after_connect, tcp_after_listen, tcp_can_recv, tcp_can_send, tcp_close,
    tcp_connect_ok, tcp_fresh, tcp_listen, tcp_listen_ok, tcp_local_endpoint, tcp_model,
    tcp_recv_capacity, tcp_recv_slice, tcp_remote_endpoint, tcp_same_connection, tcp_send_capacity,
    tcp_received, tcp_send_slice, tcp_sent, tcp_socket_new, tcp_state, tcp_with_keep_alive, tcp_with_nagle,
    filled_front,
    received_len, SocketModel, TcpModel, TcpRecvError, TcpState,
};
use crate::wire::{IpAddress, IpEndpoint, IpListenEndpoint, IpVersion};
use smoltcp::iface::SocketHandle;
use smoltcp::socket::tcp;
use vstd::prelude::*;

verus! {

/// The size of the receive buffer of a TCP socket.
pub const DEFAULT_RX_BUF_SIZE: usize = 512 * 1024;

/// The size of the transmit buffer of a TCP socket.
pub const DEFAULT_TX_BUF_SIZE: usize = 512 * 1024;

/// A TCP socket of the stack as this library makes it.
pub open spec fn fresh_socket() -> TcpModel {
    tcp_fresh(DEFAULT_RX_BUF_SIZE, DEFAULT_TX_BUF_SIZE)
}

/// A closed TCP socket of the stack with buffers of the default sizes.
pub fn new_smoltcp_socket() -> (s: tcp::Socket<'static>)
    ensures
        tcp_model(s) == fresh_socket(),
{
    tcp_socket_new(DEFAULT_RX_BUF_SIZE, DEFAULT_TX_BUF_SIZE)
}

/// A TCP socket of the stack that listens on `local_endpoint`, whose port is not 0.
pub fn new_listen_smoltcp_socket(local_endpoint: IpListenEndpoint) -> (s: tcp::Socket<'static>)
    requires
        local_endpoint.port != 0,
    ensures
        tcp_model(s) == tcp_after_listen(fresh_socket(), local_endpoint),
        tcp_model(s).state == TcpState::Listen,
{
    let mut socket = new_smoltcp_socket();
    let _ = tcp_listen(&mut socket, local_endpoint);
    socket
}

/// The position of the TCP port namespace.
pub open spec fn tcp_ports() -> int {
    Types::Tcp.spec_index()
}

/// The registry after a TCP socket `m` was placed under `h` on the interface at
/// position `i` and `port` was allocated for it there.
pub open spec fn net_after_bind(net: Seq<NetEntry>, i: int, h: SocketHandle, m: TcpModel, port: u16) -> Seq<NetEntry> {
    with_ports(with_socket(net, i, h, SocketModel::Tcp(m)), i, with_port(net[i].iface.ports, Types::Tcp, port))
}

/// The registry after a TCP socket `m` was placed under `h` on the interface at
/// position `i` and the ephemeral port `port` was allocated for it there.
pub open spec fn net_after_ephemeral_bind(net: Seq<NetEntry>, i: int, h: SocketHandle, m: TcpModel, port: u16) -> Seq<
    NetEntry,
> {
    with_ports(
        with_socket(net, i, h, SocketModel::Tcp(m)),
        i,
        with_ephemeral_port(net[i].iface.ports, Types::Tcp, port),
    )
}

/// Whether `port` is allocated for TCP on the interface at position `i`.
pub open spec fn tcp_port_reserved(net: Seq<NetEntry>, i: int, port: u16) -> bool {
    net[i].iface.ports[tcp_ports()].ports.contains(port)
}

/// A TCP socket that neither connects nor listens.
pub enum Init {
    /// The socket is in no interface: it holds its in-stack socket and its IP version.
    Unbound((Box<tcp::Socket<'static>>, IpVersion)),
    /// The socket is in an interface, with a local endpoint whose port is reserved.
    Bound((BoundInner, IpEndpoint)),
}

impl Init {
    /// An unbound socket holds a closed in-stack socket; a bound one has a TCP socket
    /// in its interface and a reserved port.
    pub open spec fn wf(&self, net: Seq<NetEntry>) -> bool {
        match self {
            Init::Unbound((socket, _)) => tcp_model(**socket) == fresh_socket(),
            Init::Bound((inner, local)) => inner.is_tcp(net) && local.port != 0 && tcp_port_reserved(
                net,
                inner.index(net),
                local.port,
            ),
        }
    }

    /// The IP version of an unbound socket.
    pub open spec fn version(&self) -> IpVersion {
        match self {
            Init::Unbound((_, ver)) => *ver,
            Init::Bound((_, local)) => local.addr.spec_version(),
        }
    }

    /// An unbound socket of the given IP version.
    pub fn new(ver: IpVersion) -> (init: Self)
        ensures
            init is Unbound,
            init.version() == ver,
            forall|net: Seq<NetEntry>| init.wf(net),
    {
        Init::Unbound((Box::new(new_smoltcp_socket()), ver))
    }

    /// What `bind` to `local` answers: the position of the interface that takes the
    /// socket, or why there is none.
    pub open spec fn bind_outcome(&self, net: Seq<NetEntry>, local: IpEndpoint) -> Result<int, SystemError> {
        match self {
            Init::Bound(_) => Err(SystemError::EINVAL),
            Init::Unbound(_) => match iface_to_bind(net, local.addr) {
                None => Err(SystemError::ENODEV),
                Some(i) => match bind_port_result(net[i].iface.ports[tcp_ports()].ports.to_set(), local.port) {
                    Ok(_) => Ok(i),
                    Err(e) => Err(e),
                },
            },
        }
    }

    /// Binds the socket to `local_endpoint`: places its in-stack socket on the
    /// interface that serves the address and reserves the port there.
    ///
    /// A bound socket is refused as an invalid argument. An address that no
    /// interface serves gives no such device; port 0 an invalid argument; a port in
    /// use an address in use. On failure the socket is handed back as it was, and
    /// the registry is as before.
    pub fn bind<D>(self, net: &mut NetDevices<D>, local_endpoint: IpEndpoint) -> (r: Result<Self, (Self, SystemError)>)
        requires
            old(net).wf(),
            self.wf(old(net)@),
        ensures
            final(net).wf(),
            net_extends(old(net)@, final(net)@),
            match r {
                Ok(init) => {
                    &&& self.bind_outcome(old(net)@, local_endpoint) is Ok
                    &&& init matches Init::Bound((inner, local))
                    &&& local == local_endpoint
                    &&& init.wf(final(net)@)
                    &&& inner.index(final(net)@) == self.bind_outcome(old(net)@, local_endpoint)->Ok_0
                    &&& !old(net)@[inner.index(final(net)@)].iface.table.dom().contains(inner.spec_handle())
                    &&& final(net)@ == net_after_bind(
                        old(net)@,
                        inner.index(final(net)@),
                        inner.spec_handle(),
                        fresh_socket(),
                        local.port,
                    )
                },
                Err((init, e)) => {
                    &&& self.bind_outcome(old(net)@, local_endpoint) == Err::<int, SystemError>(e)
                    &&& init.wf(final(net)@)
                    &&& init is Unbound <==> self is Unbound
                    &&& init.version() == self.version()
                    &&& self is Bound ==> init == self
                    &&& final(net)@ == old(net)@
                },
            },
    {
        match self {
            Init::Unbound((socket, ver)) => {
                let bound = match BoundInner::bind(net, StackSocket::Tcp(*socket), &local_endpoint.addr) {
                    Ok(bound) => bound,
                    Err(e) => {
                        return Err((Init::new(ver), e));
                    },
                };
                let ghost mid = net@;
                let ghost i = bound.index(mid);
                proof {
                    lemma_position_found(mid, bound.spec_iface());
                    net.lemma_wf();
                }
                let ports = bound.port_manager_mut(net);
                match ports.bind_port(Types::Tcp, local_endpoint.port) {
                    Ok(()) => {
                        proof {
                            lemma_choice_in_range(old(net)@, local_endpoint.addr);
                            old(net).lemma_wf();
                            lemma_bind_extends(
                                old(net)@,
                                i,
                                bound.spec_handle(),
                                SocketModel::Tcp(fresh_socket()),
                                Types::Tcp,
                                local_endpoint.port,
                                false,
                            );
                            lemma_same_keys_position(mid, net@, bound.spec_iface());
                            assert(net@[i].iface.ports[tcp_ports()].ports.contains(local_endpoint.port)) by {
                                let ps = old(net)@[i].iface.ports[tcp_ports()].ports;
                                assert(ps.push(local_endpoint.port)[ps.len() as int] == local_endpoint.port);
                            }
                        }
                        Ok(Init::Bound((bound, local_endpoint)))
                    },
                    Err(e) => {
                        proof {
                            lemma_same_keys_position(mid, net@, bound.spec_iface());
                            assert(net@ =~= mid);
                        }
                        bound.release(net);
                        proof {
                            let t = old(net)@[i].iface.table;
                            assert(t.insert(bound.spec_handle(), SocketModel::Tcp(fresh_socket())).remove(
                                bound.spec_handle(),
                            ) =~= t);
                            assert(net@ =~= old(net)@);
                        }
                        Err((Init::new(ver), e))
                    },
                }
            },
            Init::Bound(inner) => Err((Init::Bound(inner), SystemError::EINVAL)),
        }
    }

    /// What the automatic binding of an unbound socket answers before a connect to
    /// `remote`: the interface chosen and the local address, or why there is none.
    pub open spec fn ephemeral_outcome(&self, net: Seq<NetEntry>, remote: IpAddress) -> Result<
        crate::socket::inet::common::IfaceChoice,
        SystemError,
    > {
        match self {
            Init::Bound(_) => Err(SystemError::EINVAL),
            Init::Unbound(_) => match ephemeral_iface(net, remote) {
                None => Err(SystemError::ENODEV),
                Some(choice) => if ephemeral_exhausted(net[choice.index].iface.ports[tcp_ports()].ports.to_set()) {
                    Err(SystemError::EADDRINUSE)
                } else {
                    Ok(choice)
                },
            },
        }
    }

    /// Binds an unbound socket for a connection to `remote_endpoint`: places its
    /// in-stack socket on the interface from which the remote address is reached,
    /// and reserves an ephemeral port there.
    ///
    /// A bound socket is refused as an invalid argument. Where no interface can be
    /// chosen the answer is no such device; where every ephemeral port is taken, an
    /// address in use. On failure an unbound socket is handed back, and the registry
    /// is as before.
    pub fn bind_to_ephemeral<D>(self, net: &mut NetDevices<D>, remote_endpoint: IpEndpoint) -> (r: Result<
        (BoundInner, IpEndpoint),
        (Self, SystemError),
    >)
        requires
            old(net).wf(),
            self.wf(old(net)@),
        ensures
            final(net).wf(),
            net_extends(old(net)@, final(net)@),
            match r {
                Ok((inner, local)) => {
                    &&& self.ephemeral_outcome(old(net)@, remote_endpoint.addr) matches Ok(choice)
                    &&& crate::socket::inet::common::port::EPHEMERAL_PORT_MIN <= local.port
                    &&& local.addr == choice.local
                    &&& inner.index(final(net)@) == choice.index
                    &&& is_next_ephemeral(
                        old(net)@[choice.index].iface.ports[tcp_ports()].ports.to_set(),
                        old(net)@[choice.index].iface.ports[tcp_ports()].cursor,
                        local.port,
                    )
                    &&& !old(net)@[choice.index].iface.table.dom().contains(inner.spec_handle())
                    &&& final(net)@ == net_after_ephemeral_bind(
                        old(net)@,
                        choice.index,
                        inner.spec_handle(),
                        fresh_socket(),
                        local.port,
                    )
                    &&& (Init::Bound((inner, local))).wf(final(net)@)
                },
                Err((init, e)) => {
                    &&& self.ephemeral_outcome(old(net)@, remote_endpoint.addr) matches Err(expected)
                    &&& e == expected
                    &&& init.wf(final(net)@)
                    &&& init is Unbound <==> self is Unbound
                    &&& init.version() == self.version()
                    &&& self is Bound ==> init == self
                    &&& final(net)@ == old(net)@
                },
            },
    {
        match self {
            Init::Unbound((socket, ver)) => {
                let (bound, address) = match BoundInner::bind_ephemeral(
                    net,
                    StackSocket::Tcp(*socket),
                    remote_endpoint.addr,
                ) {
                    Ok(found) => found,
                    Err(e) => {
                        return Err((Init::new(ver), e));
                    },
                };
                let ghost mid = net@;
                let ghost i = bound.index(mid);
                proof {
                    lemma_position_found(mid, bound.spec_iface());
                    net.lemma_wf();
                }
                let ports = bound.port_manager_mut(net);
                proof {
                    ports.lemma_ports_unique();
                }
                match ports.bind_ephemeral_port(Types::Tcp) {
                    Ok(port) => {
                        proof {
                            let allocated = old(net)@[i].iface.ports[tcp_ports()].ports.to_set();
                            assert(!allocated.contains(port as int as u16));
                            assert(!ephemeral_exhausted(allocated));
                            lemma_choice_in_range(old(net)@, remote_endpoint.addr);
                            old(net).lemma_wf();
                            lemma_bind_extends(
                                old(net)@,
                                i,
                                bound.spec_handle(),
                                SocketModel::Tcp(fresh_socket()),
                                Types::Tcp,
                                port,
                                true,
                            );
                            lemma_same_keys_position(mid, net@, bound.spec_iface());
                            assert(net@[i].iface.ports[tcp_ports()].ports.contains(port)) by {
                                let ps = old(net)@[i].iface.ports[tcp_ports()].ports;
                                assert(ps.push(port)[ps.len() as int] == port);
                            }
                        }
                        Ok((bound, IpEndpoint::new(address, port)))
                    },
                    Err(e) => {
                        proof {
                            lemma_same_keys_position(mid, net@, bound.spec_iface());
                            assert(net@ =~= mid);
                        }
                        bound.release(net);
                        proof {
                            let t = old(net)@[i].iface.table;
                            assert(t.insert(bound.spec_handle(), SocketModel::Tcp(fresh_socket())).remove(
                                bound.spec_handle(),
                            ) =~= t);
                            assert(net@ =~= old(net)@);
                        }
                        Err((Init::new(ver), e))
                    },
                }
            },
            Init::Bound(inner) => Err((Init::Bound(inner), SystemError::EINVAL)),
        }
    }

    /// Why a socket bound to `local`, with in-stack socket `m`, cannot start to
    /// connect to `remote`, if it cannot: an unspecified local address is an invalid
    /// argument, and what the stack refuses counts as a refused connection.
    pub open spec fn connect_error(m: TcpModel, remote: IpEndpoint, local: IpEndpoint) -> Option<SystemError> {
        if local.addr.spec_is_unspecified() {
            Some(SystemError::EINVAL)
        } else if !tcp_connect_ok(m, remote, local) {
            Some(SystemError::ECONNREFUSED)
        } else {
            None
        }
    }

    /// What `connect` makes of a bound socket: the socket connects, or it stays
    /// bound and the error says why.
    pub open spec fn connected_from_bound(
        inner: BoundInner,
        local: IpEndpoint,
        net: Seq<NetEntry>,
        remote: IpEndpoint,
        r: Result<Connecting, (Init, SystemError)>,
        after: Seq<NetEntry>,
    ) -> bool {
        let m = inner.socket(net)->Tcp_0;
        match r {
            Ok(conn) => {
                &&& Self::connect_error(m, remote, local) is None
                &&& conn.spec_inner() == inner
                &&& conn.spec_version() == local.addr.spec_version()
                &&& conn.spec_result() == ConnectResult::Connecting
                &&& after == with_socket(
                    net,
                    inner.index(net),
                    inner.spec_handle(),
                    SocketModel::Tcp(tcp_after_connect(m, remote, local)),
                )
            },
            Err((init, e)) => {
                &&& Self::connect_error(m, remote, local) == Some(e)
                &&& init == Init::Bound((inner, local))
                &&& after == net
            },
        }
    }

    /// What `connect` answers and does; see [`Init::connect`].
    pub open spec fn connected(
        &self,
        net: Seq<NetEntry>,
        remote: IpEndpoint,
        r: Result<Connecting, (Init, SystemError)>,
        after: Seq<NetEntry>,
    ) -> bool {
        match self {
            Init::Bound((inner, local)) => Self::connected_from_bound(*inner, *local, net, remote, r, after),
            Init::Unbound(_) => match self.ephemeral_outcome(net, remote.addr) {
                Err(expected) => {
                    &&& r matches Err((init, e))
                    &&& e == expected
                    &&& init is Unbound
                    &&& init.version() == self.version()
                    &&& after == net
                },
                Ok(choice) => exists|inner: BoundInner, port: u16|
                    {
                        &&& 0 <= choice.index < net.len()
                        &&& inner.spec_iface() == net[choice.index].key
                        &&& crate::socket::inet::common::position_of(net, inner.spec_iface()) == Some(choice.index)
                        &&& !net[choice.index].iface.table.dom().contains(inner.spec_handle())
                        &&& crate::socket::inet::common::port::EPHEMERAL_PORT_MIN <= port
                        &&& is_next_ephemeral(
                            net[choice.index].iface.ports[tcp_ports()].ports.to_set(),
                            net[choice.index].iface.ports[tcp_ports()].cursor,
                            port,
                        )
                        &&& #[trigger] Self::connected_from_bound(
                            inner,
                            IpEndpoint { addr: choice.local, port },
                            net_after_ephemeral_bind(net, choice.index, inner.spec_handle(), fresh_socket(), port),
                            remote,
                            r,
                            after,
                        )
                    },
            },
        }
    }

    /// Starts to connect to `remote_endpoint`. An unbound socket is first bound to
    /// an ephemeral port on the interface from which the remote address is reached.
    ///
    /// Where that binding fails the socket stays unbound, with the error of
    /// [`Init::ephemeral_outcome`]. Where the bound socket cannot connect it stays
    /// bound, with the error of [`Init::connect_error`]. Otherwise the in-stack
    /// socket sends its SYN.
    pub fn connect<D>(self, net: &mut NetDevices<D>, remote_endpoint: IpEndpoint) -> (r: Result<
        Connecting,
        (Self, SystemError),
    >)
        requires
            old(net).wf(),
            self.wf(old(net)@),
        ensures
            final(net).wf(),
            net_extends(old(net)@, final(net)@),
            match r {
                Ok(conn) => conn.wf(final(net)@),
                Err((init, e)) => init.wf(final(net)@),
            },
            self.connected(old(net)@, remote_endpoint, r, final(net)@),
    {
        let (inner, local) = match self {
            Init::Unbound(unbound) => match (Init::Unbound(unbound)).bind_to_ephemeral(net, remote_endpoint) {
                Ok(bound) => bound,
                Err(failed) => {
                    return Err(failed);
                },
            },
            Init::Bound(bound) => bound,
        };
        let ghost mid = net@;
        let ghost i = inner.index(mid);
        let ghost m = inner.socket(mid)->Tcp_0;
        let ghost bound = inner;
        proof {
            lemma_position_found(mid, inner.spec_iface());
            lemma_same_keys_position(old(net)@, mid, inner.spec_iface());
        }
        let result = if local.addr.is_unspecified() {
            Err((Init::Bound((inner, local)), SystemError::EINVAL))
        } else {
            let index = inner.position(net);
            let ok = net.common_at_mut(index).tcp_connect(inner.handle(), remote_endpoint, local);
            proof {
                lemma_same_keys_position(mid, net@, inner.spec_iface());
                assert(net@ =~= with_socket(
                    mid,
                    i,
                    inner.spec_handle(),
                    SocketModel::Tcp(tcp_after_connect(m, remote_endpoint, local)),
                ));
                if !ok {
                    assert(mid[i].iface.table.insert(inner.spec_handle(), SocketModel::Tcp(m)) =~= mid[i].iface.table);
                    assert(net@ =~= mid);
                }
            }
            if ok {
                Ok(Connecting::new(inner, local.addr.version()))
            } else {
                Err((Init::Bound((inner, local)), SystemError::ECONNREFUSED))
            }
        };
        proof {
            assert(Self::connected_from_bound(bound, local, mid, remote_endpoint, result, net@));
            lemma_with_socket_extends(
                mid,
                i,
                bound.spec_handle(),
                SocketModel::Tcp(tcp_after_connect(m, remote_endpoint, local)),
            );
            lemma_extends_chain(mid, mid, mid);
            lemma_extends_chain(old(net)@, mid, net@);
        }
        result
    }

    /// The endpoint that a socket bound to `local` listens on: the port on every
    /// address where the address is unspecified, else the endpoint itself.
    pub open spec fn listen_endpoint(local: IpEndpoint) -> IpListenEndpoint {
        if local.addr.spec_is_unspecified() {
            IpListenEndpoint { addr: None, port: local.port }
        } else {
            IpListenEndpoint { addr: Some(local.addr), port: local.port }
        }
    }

    /// Why the socket cannot listen with the given backlog, if it cannot: an unbound
    /// socket is an invalid argument; where further in-stack sockets are needed and
    /// no interface takes them there is no such device; and what the stack refuses
    /// counts as a refused connection.
    pub open spec fn listen_error(&self, net: Seq<NetEntry>, backlog: usize) -> Option<SystemError> {
        match self {
            Init::Unbound(_) => Some(SystemError::EINVAL),
            Init::Bound((inner, local)) => {
                let la = Self::listen_endpoint(*local);
                if backlog == 0 {
                    Some(SystemError::EINVAL)
                } else if backlog > 1 && iface_to_bind(net, la.spec_addr_or_unspecified()) is None {
                    Some(SystemError::ENODEV)
                } else if !tcp_listen_ok(inner.socket(net)->Tcp_0, la) {
                    Some(SystemError::ECONNREFUSED)
                } else {
                    None
                }
            },
        }
    }

    /// What `listen` answers and does; see [`Init::listen`].
    pub open spec fn listened(
        &self,
        net: Seq<NetEntry>,
        backlog: usize,
        r: Result<Listening, (Init, SystemError)>,
        after: Seq<NetEntry>,
    ) -> bool {
        match r {
            Ok(listening) => {
                &&& self matches Init::Bound((inner, local))
                &&& self.listen_error(net, backlog) is None
                &&& listening.backlog() == backlog
                &&& listening.spec_cursor() == 0
                &&& listening.spec_listen_addr() == Self::listen_endpoint(*local)
                &&& listening.spec_inners()[backlog - 1] == *inner
                &&& after == placed_upto(
                    listening.spec_inners(),
                    with_socket(
                        net,
                        inner.index(net),
                        inner.spec_handle(),
                        SocketModel::Tcp(tcp_after_listen(inner.socket(net)->Tcp_0, Self::listen_endpoint(*local))),
                    ),
                    iface_to_bind(net, Self::listen_endpoint(*local).spec_addr_or_unspecified())->0,
                    SocketModel::Tcp(listening_socket(Self::listen_endpoint(*local))),
                    backlog - 1,
                )
                &&& forall|j: int|
                    0 <= j < backlog - 1 ==> {
                        let k = iface_to_bind(net, Self::listen_endpoint(*local).spec_addr_or_unspecified())->0;
                        &&& !net[k].iface.table.dom().contains((#[trigger] listening.spec_inners()[j]).spec_handle())
                        &&& listening.spec_inners()[j].spec_iface() == net[k].key
                    }
                &&& forall|j: int|
                    0 <= j < backlog ==> listens_on(
                        #[trigger] listening.spec_inners()[j],
                        after,
                        Self::listen_endpoint(*local),
                    )
            },
            Err((init, e)) => {
                &&& init == *self
                &&& self.listen_error(net, backlog) == Some(e)
                &&& after == net
            },
        }
    }

    /// Starts to listen with a backlog of `backlog` connections. A backlog of 0 is an
    /// invalid argument.
    ///
    /// The in-stack socket of the bound socket listens on the endpoint, and for each
    /// further connection of the backlog a new in-stack socket that listens on the
    /// same endpoint is placed on the interface that serves the address, so that
    /// each of the bindings is a socket that listens on the endpoint. On failure,
    /// for which see [`Init::listen_error`], the socket is handed back as it was,
    /// and the registry is as before.
    pub fn listen<D>(self, net: &mut NetDevices<D>, backlog: usize) -> (r: Result<Listening, (Self, SystemError)>)
        requires
            old(net).wf(),
            self.wf(old(net)@),
        ensures
            final(net).wf(),
            net_extends(old(net)@, final(net)@),
            match r {
                Ok(listening) => listening.wf(final(net)@),
                Err((init, e)) => init.wf(final(net)@),
            },
            self.listened(old(net)@, backlog, r, final(net)@),
    {
        proof {
            lemma_extends_chain(net@, net@, net@);
        }
        let (inner, local) = match self {
            Init::Unbound(unbound) => {
                return Err((Init::Unbound(unbound), SystemError::EINVAL));
            },
            Init::Bound(bound) => bound,
        };
        if backlog == 0 {
            return Err((Init::Bound((inner, local)), SystemError::EINVAL));
        }
        let listen_addr = if local.addr.is_unspecified() {
            IpListenEndpoint::from_port(local.port)
        } else {
            IpListenEndpoint::from_endpoint(local)
        };
        let bind_addr = listen_addr.addr_or_unspecified();
        if backlog > 1 {
            let chosen = if bind_addr.is_unspecified() {
                net.default_iface()
            } else {
                net.get_iface_to_bind(&bind_addr)
            };
            if chosen.is_none() {
                return Err((Init::Bound((inner, local)), SystemError::ENODEV));
            }
        }
        proof {
            lemma_extends_chain(net@, net@, net@);
        }
        let ghost start = net@;
        let ghost i0 = inner.index(start);
        let ghost m0 = inner.socket(start)->Tcp_0;
        let ghost k = iface_to_bind(start, bind_addr)->0;
        let ghost placed = SocketModel::Tcp(listening_socket(listen_addr));
        proof {
            lemma_position_found(start, inner.spec_iface());
            lemma_choice_in_range(start, bind_addr);
        }
        let socket = inner.with_mut(net);
        let listening = tcp_listen(socket, listen_addr).is_ok();
        proof {
            lemma_same_keys_position(start, net@, inner.spec_iface());
            if !listening {
                assert(start[i0].iface.table.insert(inner.spec_handle(), SocketModel::Tcp(m0))
                    =~= start[i0].iface.table);
                assert(net@ =~= start);
            }
        }
        if !listening {
            return Err((Init::Bound((inner, local)), SystemError::ECONNREFUSED));
        }
        let ghost mid = net@;
        proof {
            lemma_with_socket_keeps(
                start,
                i0,
                inner.spec_handle(),
                SocketModel::Tcp(tcp_after_listen(m0, listen_addr)),
                inner,
            );
            lemma_with_socket_extends(
                start,
                i0,
                inner.spec_handle(),
                SocketModel::Tcp(tcp_after_listen(m0, listen_addr)),
            );
        }
        let mut inners: Vec<BoundInner> = Vec::new();
        let mut n: usize = 0;
        while n < backlog - 1
            invariant
                n <= backlog - 1,
                backlog > 1 ==> iface_to_bind(start, bind_addr) == Some(k) && 0 <= k < start.len(),
                same_addressing(start, net@),
                start.len() == mid.len(),
                net.wf(),
                inners@.len() == n,
                listen_addr.port != 0,
                bind_addr == listen_addr.spec_addr_or_unspecified(),
                placed == SocketModel::Tcp(listening_socket(listen_addr)),
                net@ == placed_upto(inners@, mid, k, placed, n as int),
                net_extends(start, net@),
                backlog >= 1,
                inner.is_tcp(net@),
                inner.index(net@) == i0,
                inner.socket(net@) == SocketModel::Tcp(tcp_after_listen(m0, listen_addr)),
                net@[i0].iface.ports == start[i0].iface.ports,
                forall|j: int|
                    0 <= j < n ==> {
                        &&& (#[trigger] inners@[j]).is_tcp(net@)
                        &&& inners@[j] != inner
                        &&& inners@[j].index(net@) == k
                        &&& inners@[j].spec_iface() == start[k].key
                        &&& inners@[j].socket(net@) == placed
                        &&& !start[k].iface.table.dom().contains(inners@[j].spec_handle())
                    },
                forall|h: SocketHandle| #[trigger]
                    start[k].iface.table.dom().contains(h) ==> backlog > 1 ==> net@[k].iface.table.dom().contains(h),
                forall|a: int, b: int| 0 <= a < b < n ==> inners@[a] != inners@[b],
            decreases backlog - 1 - n,
        {
            let ghost prev = net@;
            let ghost before = inners@;
            proof {
                lemma_choice_stable(start, prev, bind_addr);
            }
            match BoundInner::bind(net, StackSocket::Tcp(new_listen_smoltcp_socket(listen_addr)), &bind_addr) {
                Ok(bound) => {
                    proof {
                        lemma_with_socket_extends(prev, k, bound.spec_handle(), placed);
                        lemma_extends_chain(start, prev, net@);
                        lemma_position_found(net@, bound.spec_iface());
                        lemma_with_socket_keeps(prev, k, bound.spec_handle(), placed, inner);
                        lemma_position_found(prev, inner.spec_iface());
                        BoundInner::lemma_eq(bound, inner);
                        assert forall|j: int| 0 <= j < n implies (#[trigger] before[j]).is_tcp(net@) && before[j]
                            != bound && before[j].index(net@) == k && before[j].socket(net@) == placed by {
                            lemma_with_socket_keeps(prev, k, bound.spec_handle(), placed, before[j]);
                            BoundInner::lemma_eq(bound, before[j]);
                        }
                        assert(bound.index(net@) == k);
                        assert(bound.socket(net@) == placed);
                        assert(bound.spec_iface() == start[k].key);
                        assert(inner.socket(net@) == inner.socket(prev));
                    }
                    inners.push(bound);
                    proof {
                        lemma_placed_prefix(before, inners@, mid, k, placed, n as int);
                    }
                },
                Err(e) => {
                    proof {
                        assert(false);
                    }
                    return Err((Init::Bound((inner, local)), e));
                },
            }
            n += 1;
        }
        let ghost others = inners@;
        inners.push(inner);
        proof {
            lemma_placed_prefix(others, inners@, mid, k, placed, backlog - 1);
            assert(tcp_port_reserved(net@, i0, local.port));
            assert forall|j: int| 0 <= j < backlog implies listens_on(#[trigger] inners@[j], net@, listen_addr) by {
                if j < backlog - 1 {
                    assert(inners@[j] == others[j]);
                }
            }
        }
        Ok(Listening { inners, connect: 0, listen_addr })
    }

    /// The registry after a bound socket was closed: its port is free, and the
    /// transmit half of its in-stack socket is closed.
    pub open spec fn net_after_close(inner: BoundInner, local: IpEndpoint, net: Seq<NetEntry>) -> Seq<NetEntry> {
        let i = inner.index(net);
        with_socket(
            with_ports(net, i, without_port(net[i].iface.ports, Types::Tcp, local.port)),
            i,
            inner.spec_handle(),
            SocketModel::Tcp(tcp_after_close(inner.socket(net)->Tcp_0)),
        )
    }

    /// Closes the socket: a bound socket frees its port and closes its in-stack
    /// socket, which stays in the socket table; an unbound one has nothing to close.
    pub fn close<D>(&self, net: &mut NetDevices<D>)
        requires
            old(net).wf(),
            self.wf(old(net)@),
        ensures
            final(net).wf(),
            match self {
                Init::Unbound(_) => final(net)@ == old(net)@,
                Init::Bound((inner, local)) => final(net)@ == Self::net_after_close(*inner, *local, old(net)@)
                    && inner.is_tcp(final(net)@),
            },
            net_keeps(old(net)@, final(net)@, Seq::empty(), self.frees()),
    {
        match self {
            Init::Unbound(_) => {
                proof {
                    lemma_extends_chain(net@, net@, net@);
                    lemma_extends_keeps_all(net@, net@);
                }
            },
            Init::Bound((inner, endpoint)) => {
                proof {
                    lemma_position_found(net@, inner.spec_iface());
                    net.lemma_wf();
                    lemma_unbind_keeps(net@, inner.index(net@), Types::Tcp, endpoint.port);
                }
                let ports = inner.port_manager_mut(net);
                ports.unbind_port(Types::Tcp, endpoint.port);
                proof {
                    lemma_same_keys_position(old(net)@, net@, inner.spec_iface());
                }
                let ghost mid = net@;
                let socket = inner.with_mut(net);
                tcp_close(socket);
                proof {
                    lemma_same_keys_position(mid, net@, inner.spec_iface());
                    lemma_with_socket_extends(
                        mid,
                        inner.index(mid),
                        inner.spec_handle(),
                        SocketModel::Tcp(tcp_after_close(inner.socket(mid)->Tcp_0)),
                    );
                    lemma_extends_keeps_all(mid, net@);
                    lemma_keeps_chain(old(net)@, mid, net@, Seq::empty(), Seq::empty(), self.frees(), Seq::empty());
                    assert(self.frees() + Seq::<FreedPort>::empty() =~= self.frees());
                    assert(Seq::<BoundInner>::empty() + Seq::<BoundInner>::empty() =~= Seq::<BoundInner>::empty());
                }
            },
        }
    }

    /// The port that closing the socket frees: that of a bound socket.
    pub open spec fn frees(&self) -> Seq<FreedPort> {
        match self {
            Init::Unbound(_) => Seq::empty(),
            Init::Bound((inner, local)) => seq![
                FreedPort { key: inner.spec_iface(), protocol: tcp_ports(), port: local.port },
            ],
        }
    }
}

/// How far a connection attempt has come.
#[derive(Clone, Copy, Debug, PartialEq, Eq, Structural)]
pub enum ConnectResult {
    /// The connection is established.
    Connected,
    /// The handshake is under way.
    Connecting,
    /// The peer refused, or the attempt was given up.
    Refused,
}

impl ConnectResult {
    /// How far the attempt has come once the in-stack socket is seen in `state`: an
    /// attempt that has ended stays as it is; else it is connected where the socket
    /// may send, under way while the socket is open, and refused otherwise.
    pub open spec fn spec_next(self, state: TcpState) -> ConnectResult {
        if self != ConnectResult::Connecting {
            self
        } else if state.spec_may_send() {
            ConnectResult::Connected
        } else if state.spec_is_open() {
            ConnectResult::Connecting
        } else {
            ConnectResult::Refused
        }
    }

    /// What a connect answers once the attempt has come this far: to try again
    /// while it is under way, success once connected, a refused connection else.
    pub open spec fn spec_answer(self) -> Result<(), SystemError> {
        match self {
            ConnectResult::Connecting => Err(SystemError::EAGAIN_OR_EWOULDBLOCK),
            ConnectResult::Connected => Ok(()),
            ConnectResult::Refused => Err(SystemError::ECONNREFUSED),
        }
    }

    /// Returns how far the attempt has come once the in-stack socket is seen in `state`.
    pub fn next(self, state: TcpState) -> (r: ConnectResult)
        ensures
            r == self.spec_next(state),
    {
        match self {
            ConnectResult::Connecting => {
                if state.may_send() {
                    ConnectResult::Connected
                } else if state.is_open() {
                    ConnectResult::Connecting
                } else {
                    ConnectResult::Refused
                }
            },
            _ => self,
        }
    }
}

/// A TCP socket that has sent its SYN.
pub struct Connecting {
    inner: BoundInner,
    version: IpVersion,
    result: ConnectResult,
}

impl Connecting {
    /// The binding of the socket.
    pub closed spec fn spec_inner(&self) -> BoundInner {
        self.inner
    }

    /// The IP version of the connection.
    pub closed spec fn spec_version(&self) -> IpVersion {
        self.version
    }

    /// How far the attempt has come, as last observed.
    pub closed spec fn spec_result(&self) -> ConnectResult {
        self.result
    }

    /// The socket has a TCP socket in its interface.
    pub open spec fn wf(&self, net: Seq<NetEntry>) -> bool {
        self.spec_inner().is_tcp(net)
    }

    /// The in-stack socket.
    pub open spec fn model(&self, net: Seq<NetEntry>) -> TcpModel {
        self.spec_inner().socket(net)->Tcp_0
    }

    fn new(inner: BoundInner, version: IpVersion) -> (c: Self)
        ensures
            c.spec_inner() == inner,
            c.spec_version() == version,
            c.spec_result() == ConnectResult::Connecting,
    {
        Connecting { inner, version, result: ConnectResult::Connecting }
    }

    /// Whether the attempt was seen to have led to a connection.
    pub fn is_connected(&self) -> (b: bool)
        ensures
            b == (self.spec_result() == ConnectResult::Connected),
    {
        matches!(self.result, ConnectResult::Connected)
    }

    /// The in-stack socket, to change it; nothing else of the registry changes.
    pub fn with_mut<'a, D>(&self, net: &'a mut NetDevices<D>) -> (s: &'a mut tcp::Socket<'static>)
        requires
            old(net).wf(),
            self.wf(old(net)@),
        ensures
            tcp_model(*s) == self.model(old(net)@),
            final(net).wf(),
            final(net)@ == with_socket(
                old(net)@,
                self.spec_inner().index(old(net)@),
                self.spec_inner().spec_handle(),
                SocketModel::Tcp(tcp_model(*final(s))),
            ),
    {
        self.inner.with_mut(net)
    }

    /// What `into_result` makes of the socket; see [`Connecting::into_result`].
    pub open spec fn resulted(self, state: Inner, r: Result<(), SystemError>) -> bool {
        match self.spec_result() {
            ConnectResult::Connecting => state == Inner::Connecting(self) && r == Err::<(), SystemError>(
                SystemError::EAGAIN_OR_EWOULDBLOCK,
            ),
            ConnectResult::Connected => state matches Inner::Established(e) && e.spec_inner() == self.spec_inner()
                && r is Ok,
            ConnectResult::Refused => state matches Inner::Init(init) && init is Unbound && init.version()
                == self.spec_version() && (forall|net: Seq<NetEntry>| init.wf(net)) && r == Err::<(), SystemError>(
                SystemError::ECONNREFUSED,
            ),
        }
    }

    /// The socket as it is once `result` was observed.
    pub closed spec fn with_result(self, result: ConnectResult) -> Connecting {
        Connecting { result, ..self }
    }

    /// Recording an observation changes nothing else of the socket.
    pub proof fn lemma_with_result(self, result: ConnectResult)
        ensures
            self.with_result(result).spec_inner() == self.spec_inner(),
            self.with_result(result).spec_version() == self.spec_version(),
            self.with_result(result).spec_result() == result,
            self.with_result(self.spec_result()) == self,
    {
    }

    /// Ends the connecting state according to the last observation: an attempt
    /// under way stays connecting and the caller is to try again; a connected one
    /// becomes established; a refused one goes back to an unbound socket.
    pub fn into_result(self) -> (r: (Inner, Result<(), SystemError>))
        ensures
            self.resulted(r.0, r.1),
            r.1 == self.spec_result().spec_answer(),
    {
        match self.result {
            ConnectResult::Connecting => (Inner::Connecting(self), Err(SystemError::EAGAIN_OR_EWOULDBLOCK)),
            ConnectResult::Connected => (Inner::Established(Established { inner: self.inner }), Ok(())),
            ConnectResult::Refused => (Inner::Init(Init::new(self.version)), Err(SystemError::ECONNREFUSED)),
        }
    }

    /// Takes the socket for established whatever was observed, so that it can be closed.
    pub fn into_established(self) -> (e: Established)
        ensures
            e.spec_inner() == self.spec_inner(),
    {
        Established { inner: self.inner }
    }

    /// Looks at the in-stack socket and records how far the attempt has come; see
    /// [`ConnectResult::spec_next`].
    ///
    /// Returns whether the attempt has ended, so that `into_result` is due.
    pub fn update_io_events<D>(&mut self, net: &NetDevices<D>) -> (ended: bool)
        requires
            net.wf(),
            old(self).wf(net@),
        ensures
            *final(self) == old(self).with_result(old(self).spec_result().spec_next(old(self).model(net@).state)),
            final(self).spec_inner() == old(self).spec_inner(),
            ended == (final(self).spec_result() != ConnectResult::Connecting),
    {
        let state = tcp_state(self.inner.with(net));
        self.result = self.result.next(state);
        !matches!(self.result, ConnectResult::Connecting)
    }

    /// The local endpoint of the connection, where the in-stack socket has one.
    pub fn get_name<D>(&self, net: &NetDevices<D>) -> (e: Option<IpEndpoint>)
        requires
            net.wf(),
            self.wf(net@),
        ensures
            e == self.model(net@).local,
    {
        tcp_local_endpoint(self.inner.with(net))
    }

    /// The remote endpoint of the connection, where the in-stack socket has one.
    pub fn get_peer_name<D>(&self, net: &NetDevices<D>) -> (e: Option<IpEndpoint>)
        requires
            net.wf(),
            self.wf(net@),
        ensures
            e == self.model(net@).remote,
    {
        tcp_remote_endpoint(self.inner.with(net))
    }
}

/// A TCP socket that listens: one in-stack socket for each connection of its backlog.
pub struct Listening {
    inners: Vec<BoundInner>,
    connect: usize,
    listen_addr: IpListenEndpoint,
}

/// The position of the first binding among `inners`, counting from `from`, whose
/// in-stack socket exchanges packets with a peer.
pub open spec fn first_active_from(inners: Seq<BoundInner>, net: Seq<NetEntry>, from: int) -> Option<int>
    decreases inners.len() - from,
{
    if from < 0 || from >= inners.len() {
        None
    } else if (inners[from].socket(net)->Tcp_0).state.spec_is_active() {
        Some(from)
    } else {
        first_active_from(inners, net, from + 1)
    }
}

/// Where one of the bindings from `from` on has a connection, the first of them is
/// found, at or before it, and has a connection.
pub proof fn lemma_first_active(inners: Seq<BoundInner>, net: Seq<NetEntry>, from: int, waiting: int)
    requires
        0 <= from <= waiting < inners.len(),
        (inners[waiting].socket(net)->Tcp_0).state.spec_is_active(),
    ensures
        first_active_from(inners, net, from) matches Some(found) && from <= found <= waiting && (inners[found].socket(
            net,
        )->Tcp_0).state.spec_is_active(),
    decreases waiting - from,
{
    if !(inners[from].socket(net)->Tcp_0).state.spec_is_active() {
        lemma_first_active(inners, net, from + 1, waiting);
    }
}

/// The registry after the transmit halves of the first `n` of `inners` were closed.
pub open spec fn closed_upto(inners: Seq<BoundInner>, net: Seq<NetEntry>, n: int) -> Seq<NetEntry>
    decreases n,
{
    if n <= 0 {
        net
    } else {
        let prev = closed_upto(inners, net, n - 1);
        let b = inners[n - 1];
        with_socket(prev, b.index(prev), b.spec_handle(), SocketModel::Tcp(tcp_after_close(b.socket(prev)->Tcp_0)))
    }
}

/// The registry after the sockets of the first `n` of `inners` were taken out of
/// their socket tables.
pub open spec fn released_upto(inners: Seq<BoundInner>, net: Seq<NetEntry>, n: int) -> Seq<NetEntry>
    decreases n,
{
    if n <= 0 {
        net
    } else {
        let prev = released_upto(inners, net, n - 1);
        let b = inners[n - 1];
        without_socket(prev, b.index(prev), b.spec_handle())
    }
}

/// The registry after the sockets of the first `n` of `inners`, each as `m` says,
/// were placed under their handles on the interface at position `k`.
pub open spec fn placed_upto(inners: Seq<BoundInner>, net: Seq<NetEntry>, k: int, m: SocketModel, n: int) -> Seq<
    NetEntry,
>
    decreases n,
{
    if n <= 0 {
        net
    } else {
        with_socket(placed_upto(inners, net, k, m, n - 1), k, inners[n - 1].spec_handle(), m)
    }
}

/// What was placed of the first `n` bindings does not depend on the later ones.
pub proof fn lemma_placed_prefix(a: Seq<BoundInner>, b: Seq<BoundInner>, net: Seq<NetEntry>, k: int, m: SocketModel, n: int)
    requires
        0 <= n <= a.len(),
        n <= b.len(),
        forall|j: int| 0 <= j < n ==> a[j] == b[j],
    ensures
        placed_upto(a, net, k, m, n) == placed_upto(b, net, k, m, n),
    decreases n,
{
    if n > 0 {
        lemma_placed_prefix(a, b, net, k, m, n - 1);
    }
}

/// Whether the socket of the binding is a TCP socket that listens on `la`.
pub open spec fn listens_on(b: BoundInner, net: Seq<NetEntry>, la: IpListenEndpoint) -> bool {
    b.socket(net) matches SocketModel::Tcp(m) && m.state == TcpState::Listen && m.listen == la
}

/// A socket that was not bound and has started to connect has for its local
/// endpoint a port of the ephemeral range and an address of the interface that
/// was chosen for it, and its in-stack socket is on that interface.
pub proof fn lemma_connect_name(
    init: Init,
    net: Seq<NetEntry>,
    remote: IpEndpoint,
    connecting: Connecting,
    after: Seq<NetEntry>,
)
    requires
        init is Unbound,
        init.connected(net, remote, Ok::<Connecting, (Init, SystemError)>(connecting), after),
    ensures
        connecting.model(after).local matches Some(local) && {
            &&& crate::socket::inet::common::port::EPHEMERAL_PORT_MIN <= local.port
            &&& local.port != 0
            &&& ephemeral_iface(net, remote.addr) matches Some(choice)
            &&& local.addr == choice.local
            &&& net[choice.index].iface.has_addr(local.addr)
            &&& connecting.spec_inner().spec_iface() == net[choice.index].key
            &&& connecting.spec_inner().index(after) == choice.index
        },
{
    let choice = init.ephemeral_outcome(net, remote.addr)->Ok_0;
    let r = Ok::<Connecting, (Init, SystemError)>(connecting);
    let (inner, port): (BoundInner, u16) = choose|inner: BoundInner, port: u16|
        {
            &&& 0 <= choice.index < net.len()
            &&& inner.spec_iface() == net[choice.index].key
            &&& crate::socket::inet::common::position_of(net, inner.spec_iface()) == Some(choice.index)
            &&& !net[choice.index].iface.table.dom().contains(inner.spec_handle())
            &&& crate::socket::inet::common::port::EPHEMERAL_PORT_MIN <= port
            &&& is_next_ephemeral(
                net[choice.index].iface.ports[tcp_ports()].ports.to_set(),
                net[choice.index].iface.ports[tcp_ports()].cursor,
                port,
            )
            &&& #[trigger] Init::connected_from_bound(
                inner,
                IpEndpoint { addr: choice.local, port },
                net_after_ephemeral_bind(net, choice.index, inner.spec_handle(), fresh_socket(), port),
                remote,
                r,
                after,
            )
        };
    let bound = net_after_ephemeral_bind(net, choice.index, inner.spec_handle(), fresh_socket(), port);
    crate::socket::inet::common::lemma_ephemeral_address_owned(net, remote.addr);
    lemma_same_keys_position(net, bound, inner.spec_iface());
    lemma_same_keys_position(bound, after, inner.spec_iface());
}

/// The in-stack socket of a listening socket that waits for a connection on `la`.
pub open spec fn listening_socket(la: IpListenEndpoint) -> TcpModel {
    tcp_after_listen(fresh_socket(), la)
}

impl Listening {
    /// The bindings of the in-stack sockets, one for each connection of the backlog.
    pub closed spec fn spec_inners(&self) -> Seq<BoundInner> {
        self.inners@
    }

    /// The position of the in-stack socket that `accept` looks at.
    pub closed spec fn spec_cursor(&self) -> usize {
        self.connect
    }

    /// The endpoint that the socket listens on.
    pub closed spec fn spec_listen_addr(&self) -> IpListenEndpoint {
        self.listen_addr
    }

    /// The backlog: the number of in-stack sockets of the listening socket.
    pub open spec fn backlog(&self) -> nat {
        self.spec_inners().len()
    }

    /// Every binding has a TCP socket in its interface, and no two are the same.
    pub open spec fn inners_wf(inners: Seq<BoundInner>, net: Seq<NetEntry>) -> bool {
        &&& forall|j: int| 0 <= j < inners.len() ==> (#[trigger] inners[j]).is_tcp(net)
        &&& forall|j: int, k: int| 0 <= j < k < inners.len() ==> inners[j] != inners[k]
    }

    /// There is at least one in-stack socket, the cursor is on one of them, each has
    /// a TCP socket in its interface, and no two are the same.
    pub open spec fn wf(&self, net: Seq<NetEntry>) -> bool {
        &&& self.spec_inners().len() >= 1
        &&& self.spec_cursor() < self.spec_inners().len()
        &&& self.spec_listen_addr().port != 0
        &&& Self::inners_wf(self.spec_inners(), net)
    }

    /// What `accept` answers and does; see [`Listening::accept`].
    pub open spec fn accepted(
        before: Listening,
        net: Seq<NetEntry>,
        r: Result<(Established, IpEndpoint), SystemError>,
        after: Listening,
        net_after: Seq<NetEntry>,
    ) -> bool {
        let cursor = before.spec_cursor() as int;
        let connected = before.spec_inners()[cursor];
        let m = connected.socket(net)->Tcp_0;
        let chosen = iface_to_bind(net, before.spec_listen_addr().spec_addr_or_unspecified());
        match r {
            Ok((established, remote)) => {
                &&& m.state.spec_is_active()
                &&& m.remote == Some(remote)
                &&& established.spec_inner() == connected
                &&& established.wf(net_after)
                &&& established.model(net_after) == m
                &&& chosen is Some
                &&& after.spec_inners() == before.spec_inners().update(cursor, after.spec_inners()[cursor])
                &&& BoundInner::bound_at(
                    net,
                    chosen->0,
                    after.spec_inners()[cursor].spec_handle(),
                    SocketModel::Tcp(listening_socket(before.spec_listen_addr())),
                    after.spec_inners()[cursor],
                    net_after,
                )
            },
            Err(e) => {
                &&& after.spec_inners() == before.spec_inners()
                &&& net_after == net
                &&& if !(m.state.spec_is_active() && m.remote is Some) {
                    e == SystemError::EAGAIN_OR_EWOULDBLOCK
                } else {
                    e == SystemError::ENODEV && chosen is None
                }
            },
        }
    }

    /// The peer of the in-stack socket under the cursor, where that socket has a
    /// connection.
    fn connected_peer<D>(&self, net: &NetDevices<D>) -> (peer: Option<IpEndpoint>)
        requires
            net.wf(),
            self.wf(net@),
        ensures
            ({
                let m = self.spec_inners()[self.spec_cursor() as int].socket(net@)->Tcp_0;
                peer == if m.state.spec_is_active() {
                    m.remote
                } else {
                    None
                }
            }),
    {
        let socket = self.inners[self.connect].with(net);
        if tcp_state(socket).is_active() {
            tcp_remote_endpoint(socket)
        } else {
            None
        }
    }

    /// Hands out the connection that the cursor is on, if there is one.
    ///
    /// Where the in-stack socket under the cursor has no connection the call would
    /// block. Otherwise a new in-stack socket that listens on the same endpoint
    /// takes the place of the connected one, which is handed out as an established
    /// socket together with the endpoint of its peer; the backlog stays the same.
    /// Where no interface takes the new socket the answer is no such device, and
    /// nothing has changed.
    pub fn accept<D>(&mut self, net: &mut NetDevices<D>) -> (r: Result<(Established, IpEndpoint), SystemError>)
        requires
            old(net).wf(),
            old(self).wf(old(net)@),
        ensures
            final(net).wf(),
            final(self).wf(final(net)@),
            final(self).backlog() == old(self).backlog(),
            final(self).spec_cursor() == old(self).spec_cursor(),
            final(self).spec_listen_addr() == old(self).spec_listen_addr(),
            net_extends(old(net)@, final(net)@),
            Self::accepted(*old(self), old(net)@, r, *final(self), final(net)@),
    {
        proof {
            lemma_extends_chain(net@, net@, net@);
        }
        let cursor = self.connect;
        let remote_endpoint = match self.connected_peer(net) {
            Some(remote) => remote,
            None => {
                return Err(SystemError::EAGAIN_OR_EWOULDBLOCK);
            },
        };
        let bind_addr = self.listen_addr.addr_or_unspecified();
        let mut new_listen = match BoundInner::bind(
            net,
            StackSocket::Tcp(new_listen_smoltcp_socket(self.listen_addr)),
            &bind_addr,
        ) {
            Ok(bound) => bound,
            Err(e) => {
                return Err(e);
            },
        };
        proof {
            let inners = self.inners@;
            let k = iface_to_bind(old(net)@, bind_addr)->0;
            let m = SocketModel::Tcp(listening_socket(self.listen_addr));
            lemma_with_socket_extends(old(net)@, k, new_listen.spec_handle(), m);
            lemma_position_found(net@, new_listen.spec_iface());
            assert forall|j: int| 0 <= j < inners.len() implies (#[trigger] inners[j]).is_tcp(net@) && inners[j]
                != new_listen && inners[j].socket(net@) == inners[j].socket(old(net)@) by {
                lemma_with_socket_keeps(old(net)@, k, new_listen.spec_handle(), m, inners[j]);
                lemma_position_found(old(net)@, inners[j].spec_iface());
                BoundInner::lemma_eq(inners[j], new_listen);
            }
        }
        core::mem::swap(&mut new_listen, &mut self.inners[cursor]);
        Ok((Established { inner: new_listen }, remote_endpoint))
    }

    /// What `update_io_events` makes of the socket and of the readiness flags; see
    /// [`Listening::update_io_events`].
    pub open spec fn events_updated(before: Listening, net: Seq<NetEntry>, pollee: u32, after: Listening, pollee_after: u32) -> bool {
        &&& after.spec_inners() == before.spec_inners()
        &&& after.spec_listen_addr() == before.spec_listen_addr()
        &&& match first_active_from(before.spec_inners(), net, 0) {
            Some(position) => after.spec_cursor() == position && pollee_after == with_flags(pollee, EPOLLIN, true),
            None => after.spec_cursor() == before.spec_cursor() && pollee_after == with_flags(pollee, EPOLLIN, false),
        }
    }

    /// Moves the cursor to the first in-stack socket that has a connection and sets
    /// `EPOLLIN`; where there is none, clears `EPOLLIN` and leaves the cursor.
    pub fn update_io_events<D>(&mut self, net: &NetDevices<D>, pollee: &mut EPollEventType)
        requires
            net.wf(),
            old(self).wf(net@),
        ensures
            final(self).wf(net@),
            Self::events_updated(*old(self), net@, old(pollee)@, *final(self), final(pollee)@),
    {
        let mut i: usize = 0;
        while i < self.inners.len()
            invariant
                i <= self.inners@.len(),
                *self == *old(self),
                *pollee == *old(pollee),
                net.wf(),
                self.wf(net@),
                first_active_from(self.inners@, net@, 0) == first_active_from(self.inners@, net@, i as int),
            decreases self.inners@.len() - i,
        {
            if tcp_state(self.inners[i].with(net)).is_active() {
                self.connect = i;
                pollee.insert(EPollEventType::readable());
                return ;
            }
            i += 1;
        }
        pollee.remove(EPollEventType::readable());
    }

    /// The endpoint that the socket listens on, with the unspecified IPv4 address
    /// where it listens on every address.
    pub fn get_name(&self) -> (e: IpEndpoint)
        ensures
            e == (IpEndpoint {
                addr: self.spec_listen_addr().spec_addr_or_unspecified(),
                port: self.spec_listen_addr().port,
            }),
    {
        IpEndpoint::new(self.listen_addr.addr_or_unspecified(), self.listen_addr.port)
    }

    /// The registry after a listening socket was closed: every in-stack socket is
    /// closed, and the port is free on the interface of the first of them.
    pub open spec fn net_after_close(&self, net: Seq<NetEntry>) -> Seq<NetEntry> {
        let closed = closed_upto(self.spec_inners(), net, self.spec_inners().len() as int);
        let i = self.spec_inners()[0].index(net);
        with_ports(closed, i, without_port(net[i].iface.ports, Types::Tcp, self.spec_listen_addr().port))
    }

    /// The port that closing the socket frees: the port that it listens on, on the
    /// interface of the first of its in-stack sockets.
    pub open spec fn frees(&self) -> Seq<FreedPort> {
        seq![
            FreedPort {
                key: self.spec_inners()[0].spec_iface(),
                protocol: tcp_ports(),
                port: self.spec_listen_addr().port,
            },
        ]
    }

    /// Closes every in-stack socket and frees the port.
    pub fn close<D>(&self, net: &mut NetDevices<D>)
        requires
            old(net).wf(),
            self.wf(old(net)@),
        ensures
            final(net).wf(),
            self.wf(final(net)@),
            final(net)@ == self.net_after_close(old(net)@),
            net_keeps(old(net)@, final(net)@, Seq::empty(), self.frees()),
    {
        proof {
            lemma_extends_chain(net@, net@, net@);
        }
        let mut n: usize = 0;
        while n < self.inners.len()
            invariant
                n <= self.inners@.len(),
                net.wf(),
                self.wf(net@),
                net_extends(old(net)@, net@),
                net@ == closed_upto(self.inners@, old(net)@, n as int),
                self.inners@[0].index(net@) == self.inners@[0].index(old(net)@),
                net@[self.inners@[0].index(net@)].iface.ports == old(net)@[self.inners@[0].index(
                    old(net)@,
                )].iface.ports,
            decreases self.inners@.len() - n,
        {
            let ghost prev = net@;
            let ghost b = self.inners@[n as int];
            proof {
                lemma_position_found(prev, b.spec_iface());
            }
            let socket = self.inners[n].with_mut(net);
            tcp_close(socket);
            proof {
                let m = SocketModel::Tcp(tcp_after_close(b.socket(prev)->Tcp_0));
                assert forall|j: int| 0 <= j < self.inners@.len() implies (#[trigger] self.inners@[j]).is_tcp(
                    net@,
                ) by {
                    lemma_with_socket_keeps(prev, b.index(prev), b.spec_handle(), m, self.inners@[j]);
                }
                lemma_with_socket_keeps(prev, b.index(prev), b.spec_handle(), m, self.inners@[0]);
                lemma_with_socket_extends(prev, b.index(prev), b.spec_handle(), m);
                lemma_extends_chain(old(net)@, prev, net@);
            }
            n += 1;
        }
        let port = self.listen_addr.port;
        let ghost closed = net@;
        proof {
            lemma_position_found(closed, self.inners@[0].spec_iface());
            net.lemma_wf();
            lemma_unbind_keeps(closed, self.inners@[0].index(closed), Types::Tcp, port);
            lemma_extends_keeps_all(old(net)@, closed);
            lemma_keeps_chain(
                old(net)@,
                closed,
                with_ports(
                    closed,
                    self.inners@[0].index(closed),
                    without_port(closed[self.inners@[0].index(closed)].iface.ports, Types::Tcp, port),
                ),
                Seq::empty(),
                Seq::empty(),
                Seq::empty(),
                self.frees(),
            );
            assert(Seq::<FreedPort>::empty() + self.frees() =~= self.frees());
            assert(Seq::<BoundInner>::empty() + Seq::<BoundInner>::empty() =~= Seq::<BoundInner>::empty());
        }
        let ports = self.inners[0].port_manager_mut(net);
        ports.unbind_port(Types::Tcp, port);
        proof {
            assert forall|j: int| 0 <= j < self.inners@.len() implies (#[trigger] self.inners@[j]).is_tcp(net@) by {
                lemma_with_ports_keeps(
                    closed,
                    self.inners@[0].index(closed),
                    net@[self.inners@[0].index(closed)].iface.ports,
                    self.inners@[j],
                );
            }
        }
    }

    /// Takes every in-stack socket out of its socket table.
    pub fn release<D>(&self, net: &mut NetDevices<D>)
        requires
            old(net).wf(),
            self.wf(old(net)@),
        ensures
            final(net).wf(),
            final(net)@ == released_upto(self.spec_inners(), old(net)@, self.spec_inners().len() as int),
            net_keeps(old(net)@, final(net)@, self.spec_inners(), Seq::empty()),
    {
        proof {
            lemma_extends_chain(net@, net@, net@);
            lemma_extends_keeps_all(net@, net@);
            assert(self.inners@.take(0) =~= Seq::<BoundInner>::empty());
        }
        let mut n: usize = 0;
        while n < self.inners.len()
            invariant
                n <= self.inners@.len(),
                net.wf(),
                net_keeps(old(net)@, net@, self.inners@.take(n as int), Seq::empty()),
                forall|j: int| n <= j < self.inners@.len() ==> (#[trigger] self.inners@[j]).wf(net@),
                forall|j: int, k: int| 0 <= j < k < self.inners@.len() ==> self.inners@[j] != self.inners@[k],
                net@ == released_upto(self.inners@, old(net)@, n as int),
            decreases self.inners@.len() - n,
        {
            let ghost prev = net@;
            let ghost b = self.inners@[n as int];
            proof {
                lemma_position_found(prev, b.spec_iface());
            }
            self.inners[n].release(net);
            proof {
                lemma_keeps_chain(
                    old(net)@,
                    prev,
                    net@,
                    self.inners@.take(n as int),
                    seq![b],
                    Seq::empty(),
                    Seq::empty(),
                );
                assert(self.inners@.take(n as int) + seq![b] =~= self.inners@.take(n + 1));
                assert(Seq::<FreedPort>::empty() + Seq::<FreedPort>::empty() =~= Seq::<FreedPort>::empty());
                assert forall|j: int| n < j < self.inners@.len() implies (#[trigger] self.inners@[j]).wf(net@) by {
                    let other = self.inners@[j];
                    BoundInner::lemma_eq(b, other);
                    lemma_position_found(prev, other.spec_iface());
                    lemma_without_socket_keeps(prev, b.index(prev), b.spec_handle(), other);
                }
            }
            n += 1;
        }
        proof {
            assert(self.inners@.take(self.inners@.len() as int) =~= self.inners@);
        }
    }
}

/// A TCP socket with a connection.
pub struct Established {
    inner: BoundInner,
}

/// What a receive into a buffer of `len` bytes answers, given what the stack
/// answered and the state of the in-stack socket: data is handed on; no data for a
/// buffer that has room would block; a finished stream, and a closing state, are
/// the end of the stream (0 bytes); in every other state the connection was reset.
pub open spec fn spec_recv_outcome(raw: Result<usize, TcpRecvError>, state: TcpState, len: nat) -> Result<
    usize,
    SystemError,
> {
    match raw {
        Ok(size) => if size == 0 && len > 0 {
            Err(SystemError::EAGAIN_OR_EWOULDBLOCK)
        } else {
            Ok(size)
        },
        Err(TcpRecvError::Finished) => Ok(0),
        Err(TcpRecvError::InvalidState) => match state {
            TcpState::Closing | TcpState::LastAck | TcpState::TimeWait | TcpState::CloseWait => Ok(0),
            _ => Err(SystemError::ECONNRESET),
        },
    }
}

/// What a send answers, given what the stack answered and the state of the in-stack
/// socket: no byte accepted would block; a failure is a reset connection, or a
/// broken pipe where the transmit half was closed from this side.
pub open spec fn spec_send_outcome(raw: Result<usize, ()>, state: TcpState) -> Result<usize, SystemError> {
    match raw {
        Ok(size) => if size == 0 {
            Err(SystemError::EAGAIN_OR_EWOULDBLOCK)
        } else {
            Ok(size)
        },
        Err(_) => match state {
            TcpState::LastAck | TcpState::TimeWait | TcpState::Closing | TcpState::FinWait1 | TcpState::FinWait2 => Err(
                SystemError::EPIPE,
            ),
            _ => Err(SystemError::ECONNRESET),
        },
    }
}

/// Maps what the stack answered to a receive into a buffer of `len` bytes, in the
/// given state of the in-stack socket, to what the receive answers; see
/// [`spec_recv_outcome`].
pub fn recv_outcome(raw: Result<usize, TcpRecvError>, state: TcpState, len: usize) -> (r: Result<usize, SystemError>)
    requires
        raw is Err ==> !state.spec_keeps_receiving(),
    ensures
        r == spec_recv_outcome(raw, state, len as nat),
{
    match raw {
        Ok(size) => {
            if size == 0 && len > 0 {
                Err(SystemError::EAGAIN_OR_EWOULDBLOCK)
            } else {
                Ok(size)
            }
        },
        Err(TcpRecvError::Finished) => Ok(0),
        Err(TcpRecvError::InvalidState) => match state {
            TcpState::Closed => Err(SystemError::ECONNRESET),
            TcpState::Closing | TcpState::LastAck | TcpState::TimeWait | TcpState::CloseWait => Ok(0),
            TcpState::Listen | TcpState::SynReceived | TcpState::SynSent => Err(SystemError::ECONNRESET),
            TcpState::Established | TcpState::FinWait1 | TcpState::FinWait2 => {
                proof {
                    assert(false);
                }
                Err(SystemError::ECONNRESET)
            },
        },
    }
}

/// Maps what the stack answered to a send, in the given state of the in-stack
/// socket, to what the send answers; see [`spec_send_outcome`].
pub fn send_outcome(raw: Result<usize, ()>, state: TcpState) -> (r: Result<usize, SystemError>)
    requires
        raw is Err ==> !state.spec_may_send(),
    ensures
        r == spec_send_outcome(raw, state),
{
    match raw {
        Ok(0) => Err(SystemError::EAGAIN_OR_EWOULDBLOCK),
        Ok(size) => Ok(size),
        Err(_) => match state {
            TcpState::Closed => Err(SystemError::ECONNRESET),
            TcpState::LastAck | TcpState::TimeWait | TcpState::Closing | TcpState::FinWait1 | TcpState::FinWait2 => Err(
                SystemError::EPIPE,
            ),
            TcpState::Listen | TcpState::SynReceived | TcpState::SynSent => Err(SystemError::ECONNRESET),
            TcpState::Established | TcpState::CloseWait => {
                proof {
                    assert(false);
                }
                Err(SystemError::ECONNRESET)
            },
        },
    }
}

/// What a poll of the interface at position `i` keeps of a registry: the other
/// interfaces, and of the interface polled everything but what its sockets hold
/// and the time of its next poll.
pub open spec fn net_polled(before: Seq<NetEntry>, after: Seq<NetEntry>, i: int) -> bool {
    &&& 0 <= i < before.len()
    &&& after == before.update(i, NetEntry { iface: after[i].iface, ..before[i] })
    &&& IfaceCommon::polled(before[i].iface, after[i].iface)
}

/// A poll keeps every socket of the registry in its table, and keeps its protocol.
pub proof fn lemma_polled_keeps(net: Seq<NetEntry>, after: Seq<NetEntry>, i: int, b: BoundInner)
    requires
        net_polled(net, after, i),
        b.wf(net),
    ensures
        b.wf(after),
        b.index(after) == b.index(net),
        b.is_tcp(net) ==> b.is_tcp(after),
        b.is_udp(net) ==> b.is_udp(after),
        after[b.index(net)].iface.ports == net[b.index(net)].iface.ports,
        after[b.index(net)].iface.bounds == net[b.index(net)].iface.bounds,
{
    lemma_same_keys_position(net, after, b.spec_iface());
    lemma_position_found(net, b.spec_iface());
    let j = b.index(net);
    if j == i {
        assert(net[i].iface.table.dom().contains(b.spec_handle()));
    }
}

/// A registry after a poll extends the registry that it was.
pub proof fn lemma_polled_extends(net: Seq<NetEntry>, after: Seq<NetEntry>, i: int)
    requires
        net_polled(net, after, i),
    ensures
        net_extends(net, after),
{
    assert forall|j: int, h: SocketHandle|
        0 <= j < net.len() && #[trigger] net[j].iface.table.dom().contains(h) implies after[j].iface.table.dom().contains(
        h,
    ) && crate::stack::same_protocol(net[j].iface.table[h], after[j].iface.table[h]) by {
        if j != i {
            assert(after[j] == net[j]);
        }
    }
    assert forall|j: int, p: int, port: u16|
        0 <= j < net.len() && 0 <= p < net[j].iface.ports.len() && #[trigger] net[j].iface.ports[p].ports.contains(
            port,
        ) implies p < after[j].iface.ports.len() && after[j].iface.ports[p].ports.contains(port) by {
        if j != i {
            assert(after[j] == net[j]);
        }
    }
    assert forall|j: int| 0 <= j < net.len() implies (#[trigger] net[j]).key == after[j].key by {
        if j != i {
            assert(after[j] == net[j]);
        }
    }
}

/// The registry after a socket was bound, with its port allocated, extends the
/// registry that it was.
pub proof fn lemma_bind_extends(net: Seq<NetEntry>, i: int, h: SocketHandle, m: SocketModel, protocol: Types, port: u16, ephemeral: bool)
    requires
        0 <= i < net.len(),
        net[i].iface.ports.len() == 6,
        !net[i].iface.table.dom().contains(h),
    ensures
        net_extends(
            net,
            with_ports(
                with_socket(net, i, h, m),
                i,
                if ephemeral {
                    with_ephemeral_port(net[i].iface.ports, protocol, port)
                } else {
                    with_port(net[i].iface.ports, protocol, port)
                },
            ),
        ),
{
    let placed = with_socket(net, i, h, m);
    let ports = if ephemeral {
        with_ephemeral_port(net[i].iface.ports, protocol, port)
    } else {
        with_port(net[i].iface.ports, protocol, port)
    };
    lemma_with_socket_extends(net, i, h, m);
    lemma_with_port_grows(net[i].iface.ports, protocol, port, ephemeral);
    lemma_with_ports_extends(placed, i, ports);
    lemma_extends_chain(net, placed, with_ports(placed, i, ports));
}

impl Established {
    /// The binding of the socket.
    pub closed spec fn spec_inner(&self) -> BoundInner {
        self.inner
    }

    /// The key of the interface of the connection.
    pub fn iface(&self) -> (key: usize)
        ensures
            key == self.spec_inner().spec_iface(),
    {
        self.inner.iface()
    }

    /// The socket has a TCP socket in its interface.
    pub open spec fn wf(&self, net: Seq<NetEntry>) -> bool {
        self.spec_inner().is_tcp(net)
    }

    /// The in-stack socket.
    pub open spec fn model(&self, net: Seq<NetEntry>) -> TcpModel {
        self.spec_inner().socket(net)->Tcp_0
    }

    /// The position of the socket's interface in the registry.
    pub open spec fn index(&self, net: Seq<NetEntry>) -> int {
        self.spec_inner().index(net)
    }

    /// `net` with the in-stack socket of this socket replaced by `m`.
    pub open spec fn net_with(&self, net: Seq<NetEntry>, m: TcpModel) -> Seq<NetEntry> {
        with_socket(net, self.index(net), self.spec_inner().spec_handle(), SocketModel::Tcp(m))
    }

    /// The in-stack socket, to change it; nothing else of the registry changes.
    pub fn with_mut<'a, D>(&self, net: &'a mut NetDevices<D>) -> (s: &'a mut tcp::Socket<'static>)
        requires
            old(net).wf(),
            self.wf(old(net)@),
        ensures
            tcp_model(*s) == self.model(old(net)@),
            final(net).wf(),
            final(net)@ == self.net_with(old(net)@, tcp_model(*final(s))),
    {
        self.inner.with_mut(net)
    }

    /// Closes the transmit half of the connection and polls the interface at the
    /// time `now_micros`, so that the FIN is sent.
    pub fn close<D>(&self, net: &mut NetDevices<D>, now_micros: i64) where D: smoltcp::phy::Device
        requires
            old(net).wf(),
            self.wf(old(net)@),
        ensures
            final(net).wf(),
            self.closed(old(net)@, final(net)@),
    {
        proof {
            lemma_position_found(net@, self.inner.spec_iface());
        }
        let socket = self.inner.with_mut(net);
        tcp_close(socket);
        proof {
            lemma_same_keys_position(old(net)@, net@, self.inner.spec_iface());
        }
        let ghost mid = net@;
        let index = self.inner.position(net);
        let _ = net.poll_at(index, now_micros);
        proof {
            lemma_same_keys_position(mid, net@, self.inner.spec_iface());
            assert(mid[index as int].iface.table.dom().contains(self.inner.spec_handle()));
            assert(net@[index as int].iface.table.dom().contains(self.inner.spec_handle()));
            lemma_with_socket_extends(
                old(net)@,
                index as int,
                self.inner.spec_handle(),
                SocketModel::Tcp(tcp_after_close(self.model(old(net)@))),
            );
            lemma_polled_extends(mid, net@, index as int);
            lemma_extends_chain(old(net)@, mid, net@);
        }
    }

    /// Takes the in-stack socket out of its socket table.
    pub fn release<D>(&self, net: &mut NetDevices<D>)
        requires
            old(net).wf(),
            self.wf(old(net)@),
        ensures
            final(net).wf(),
            final(net)@ == without_socket(old(net)@, self.index(old(net)@), self.spec_inner().spec_handle()),
            net_keeps(old(net)@, final(net)@, seq![self.spec_inner()], Seq::empty()),
    {
        self.inner.release(net);
    }

    /// The local endpoint of the connection, where the in-stack socket has one.
    pub fn get_name<D>(&self, net: &NetDevices<D>) -> (e: Option<IpEndpoint>)
        requires
            net.wf(),
            self.wf(net@),
        ensures
            e == self.model(net@).local,
    {
        tcp_local_endpoint(self.inner.with(net))
    }

    /// The remote endpoint of the connection, where the in-stack socket has one.
    pub fn get_peer_name<D>(&self, net: &NetDevices<D>) -> (e: Option<IpEndpoint>)
        requires
            net.wf(),
            self.wf(net@),
        ensures
            e == self.model(net@).remote,
    {
        tcp_remote_endpoint(self.inner.with(net))
    }

    /// What a receive into a buffer answers and does, where `data` is what the
    /// buffer holds after it; see [`Established::recv_slice`].
    ///
    /// The oldest bytes of the receive buffer of the in-stack socket leave it for
    /// the front of the buffer, as many as there are and the buffer takes. The
    /// stack fails exactly where nothing is buffered and the state is none in which
    /// more may come, and the answer is that of [`spec_recv_outcome`] for what the
    /// stack answered.
    pub open spec fn received(&self, net: Seq<NetEntry>, data: Seq<u8>, r: Result<usize, SystemError>, after: Seq<NetEntry>) -> bool {
        let m = self.model(net);
        &&& self.wf(after)
        &&& net_extends(net, after)
        &&& after == self.net_with(net, self.model(after))
        &&& tcp_same_connection(self.model(after), m)
        &&& self.model(after).tx == m.tx
        &&& m.can_recv == (m.rx.len() > 0)
        &&& exists|raw: Result<usize, TcpRecvError>|
            {
                &&& #[trigger] spec_recv_outcome(raw, m.state, data.len()) == r
                &&& raw is Err <==> !m.state.spec_keeps_receiving() && m.rx.len() == 0
                &&& raw is Err ==> self.model(after).rx == m.rx
                &&& raw is Ok ==> tcp_received(m.rx, data, raw->Ok_0 as int, self.model(after).rx)
            }
    }

    /// What a send of the bytes `data` answers and does; see
    /// [`Established::send_slice`].
    ///
    /// The first bytes of the data go to the end of the transmit buffer of the
    /// in-stack socket, as many as there are and the buffer has room for. The stack
    /// fails exactly where the transmit half is not open, and the answer is that of
    /// [`spec_send_outcome`] for what the stack answered.
    pub open spec fn sent(&self, net: Seq<NetEntry>, data: Seq<u8>, r: Result<usize, SystemError>, after: Seq<NetEntry>) -> bool {
        let m = self.model(net);
        &&& self.wf(after)
        &&& net_extends(net, after)
        &&& after == self.net_with(net, self.model(after))
        &&& tcp_same_connection(self.model(after), m)
        &&& self.model(after).rx == m.rx
        &&& m.can_send == (m.state.spec_may_send() && m.tx.len() < m.tx_capacity)
        &&& exists|raw: Result<usize, ()>|
            {
                &&& #[trigger] spec_send_outcome(raw, m.state) == r
                &&& raw is Err <==> !m.state.spec_may_send()
                &&& raw is Err ==> self.model(after).tx == m.tx
                &&& raw is Ok ==> tcp_sent(m.tx, m.tx_capacity as int, data, raw->Ok_0 as int, self.model(after).tx)
            }
    }

    /// A receive into a buffer that has room hands out data exactly where the
    /// receive buffer of the in-stack socket holds some, and then as much of it as
    /// the buffer takes; where it holds none and more may come, the call would block.
    pub proof fn lemma_received(&self, net: Seq<NetEntry>, data: Seq<u8>, r: Result<usize, SystemError>, after: Seq<NetEntry>)
        requires
            self.received(net, data, r, after),
            data.len() > 0,
        ensures
            self.model(net).can_recv ==> r is Ok && 1 <= r->Ok_0 <= data.len() && r->Ok_0 <= self.model(net).rx.len()
                && data.take(r->Ok_0 as int) == self.model(net).rx.take(r->Ok_0 as int) && self.model(after).rx
                == self.model(net).rx.skip(r->Ok_0 as int),
            !self.model(net).can_recv && self.model(net).state.spec_keeps_receiving() ==> r == Err::<
                usize,
                SystemError,
            >(SystemError::EAGAIN_OR_EWOULDBLOCK) && self.model(after).rx == self.model(net).rx,
    {
    }

    /// A send of data that is not empty takes bytes exactly where the in-stack
    /// socket can send, and then as many as its transmit buffer has room for; where
    /// the buffer is full and the transmit half is open, the call would block.
    pub proof fn lemma_sent(&self, net: Seq<NetEntry>, data: Seq<u8>, r: Result<usize, SystemError>, after: Seq<NetEntry>)
        requires
            self.sent(net, data, r, after),
            data.len() > 0,
        ensures
            self.model(net).can_send ==> r is Ok && 1 <= r->Ok_0 <= data.len() && self.model(after).tx
                == self.model(net).tx + data.take(r->Ok_0 as int),
            !self.model(net).can_send && self.model(net).state.spec_may_send() ==> r == Err::<usize, SystemError>(
                SystemError::EAGAIN_OR_EWOULDBLOCK,
            ) && self.model(after).tx == self.model(net).tx,
    {
    }

    /// What closing the socket at some time makes of the registry: the transmit half
    /// of the in-stack socket is closed, and the interface was polled.
    pub open spec fn closed(&self, net: Seq<NetEntry>, after: Seq<NetEntry>) -> bool {
        &&& self.wf(after)
        &&& net_extends(net, after)
        &&& net_polled(self.net_with(net, tcp_after_close(self.model(net))), after, self.index(net))
    }

    /// Takes received data out of the in-stack socket into `buf`.
    ///
    /// The answer is that of [`spec_recv_outcome`] for what the stack answered: data
    /// where the socket has some, at least one byte where the buffer has room; that
    /// the call would block where it has none and may still get some; else the end
    /// of the stream or a reset connection. Only what the buffers of the in-stack
    /// socket hold changes.
    pub fn recv_slice<D>(&self, net: &mut NetDevices<D>, buf: &mut [u8]) -> (r: Result<usize, SystemError>)
        requires
            old(net).wf(),
            self.wf(old(net)@),
        ensures
            final(net).wf(),
            self.wf(final(net)@),
            filled_front(old(buf)@, final(buf)@, received_len(r)),
            self.received(old(net)@, final(buf)@, r, final(net)@),
    {
        proof {
            lemma_position_found(net@, self.inner.spec_iface());
        }
        let socket = self.inner.with_mut(net);
        let raw = tcp_recv_slice(socket, buf);
        let state = tcp_state(socket);
        proof {
            lemma_same_keys_position(old(net)@, net@, self.inner.spec_iface());
            lemma_with_socket_extends(
                old(net)@,
                self.index(old(net)@),
                self.inner.spec_handle(),
                SocketModel::Tcp(self.model(net@)),
            );
        }
        recv_outcome(raw, state, buf.len())
    }

    /// Puts the data of `buf` into the in-stack socket, as much as it has room for.
    ///
    /// The answer is that of [`spec_send_outcome`] for what the stack answered,
    /// which fails exactly where the transmit half is not open, and takes at least
    /// one byte where its buffer is not full and there is data. Only what the
    /// buffers of the in-stack socket hold changes.
    pub fn send_slice<D>(&self, net: &mut NetDevices<D>, buf: &[u8]) -> (r: Result<usize, SystemError>)
        requires
            old(net).wf(),
            self.wf(old(net)@),
        ensures
            final(net).wf(),
            self.wf(final(net)@),
            self.sent(old(net)@, buf@, r, final(net)@),
    {
        proof {
            lemma_position_found(net@, self.inner.spec_iface());
        }
        let socket = self.inner.with_mut(net);
        let raw = tcp_send_slice(socket, buf);
        let state = tcp_state(socket);
        proof {
            lemma_same_keys_position(old(net)@, net@, self.inner.spec_iface());
            lemma_with_socket_extends(
                old(net)@,
                self.index(old(net)@),
                self.inner.spec_handle(),
                SocketModel::Tcp(self.model(net@)),
            );
        }
        send_outcome(raw, state)
    }

    /// Turns Nagle's algorithm of the in-stack socket on or off. Nothing else
    /// changes.
    pub fn set_nagle_enabled<D>(&self, net: &mut NetDevices<D>, enabled: bool)
        requires
            old(net).wf(),
            self.wf(old(net)@),
        ensures
            final(net).wf(),
            self.wf(final(net)@),
            final(net)@ == self.net_with(old(net)@, tcp_with_nagle(self.model(old(net)@), enabled)),
            net_extends(old(net)@, final(net)@),
    {
        proof {
            lemma_position_found(net@, self.inner.spec_iface());
        }
        let socket = self.inner.with_mut(net);
        crate::stack::tcp_set_nagle_enabled(socket, enabled);
        proof {
            lemma_same_keys_position(old(net)@, net@, self.inner.spec_iface());
            lemma_with_socket_extends(
                old(net)@,
                self.index(old(net)@),
                self.inner.spec_handle(),
                SocketModel::Tcp(self.model(net@)),
            );
        }
    }

    /// Sets the keep-alive interval of the in-stack socket, in seconds. Nothing else
    /// changes.
    pub fn set_keep_alive<D>(&self, net: &mut NetDevices<D>, interval_secs: u32)
        requires
            old(net).wf(),
            self.wf(old(net)@),
        ensures
            final(net).wf(),
            self.wf(final(net)@),
            final(net)@ == self.net_with(old(net)@, tcp_with_keep_alive(self.model(old(net)@), interval_secs)),
            net_extends(old(net)@, final(net)@),
    {
        proof {
            lemma_position_found(net@, self.inner.spec_iface());
        }
        let socket = self.inner.with_mut(net);
        crate::stack::tcp_set_keep_alive(socket, interval_secs);
        proof {
            lemma_same_keys_position(old(net)@, net@, self.inner.spec_iface());
            lemma_with_socket_extends(
                old(net)@,
                self.index(old(net)@),
                self.inner.spec_handle(),
                SocketModel::Tcp(self.model(net@)),
            );
        }
    }

    /// Sets the readiness flags from the in-stack socket: `EPOLLOUT` where it can
    /// send, `EPOLLIN` where it can receive.
    pub fn update_io_events<D>(&self, net: &NetDevices<D>, pollee: &mut EPollEventType)
        requires
            net.wf(),
            self.wf(net@),
        ensures
            final(pollee)@ == with_flags(
                with_flags(old(pollee)@, EPOLLOUT, self.model(net@).can_send),
                EPOLLIN,
                self.model(net@).can_recv,
            ),
    {
        let socket = self.inner.with(net);
        let can_send = tcp_can_send(socket);
        let can_recv = tcp_can_recv(socket);
        pollee.set(EPollEventType::writable(), can_send);
        pollee.set(EPollEventType::readable(), can_recv);
    }
}

/// The state of a TCP socket.
pub enum Inner {
    Init(Init),
    Connecting(Connecting),
    Listening(Listening),
    Established(Established),
}

impl Inner {
    /// The state is well-formed with respect to the registry.
    pub open spec fn wf(&self, net: Seq<NetEntry>) -> bool {
        match self {
            Inner::Init(init) => init.wf(net),
            Inner::Connecting(connecting) => connecting.wf(net),
            Inner::Listening(listening) => listening.wf(net),
            Inner::Established(established) => established.wf(net),
        }
    }

    /// The bindings of the state: those of its in-stack sockets that are in a socket
    /// table.
    pub open spec fn bindings(&self) -> Seq<BoundInner> {
        match self {
            Inner::Init(Init::Unbound(_)) => Seq::empty(),
            Inner::Init(Init::Bound((inner, _))) => seq![*inner],
            Inner::Connecting(connecting) => seq![connecting.spec_inner()],
            Inner::Listening(listening) => listening.spec_inners(),
            Inner::Established(established) => seq![established.spec_inner()],
        }
    }

    /// A state that is well-formed stays so over every change of the registry that
    /// keeps its in-stack sockets and the port that it relies on.
    pub proof fn lemma_keeps_wf(&self, net: Seq<NetEntry>, after: Seq<NetEntry>, gone: Seq<BoundInner>, freed: Seq<FreedPort>)
        requires
            net_inv(net),
            self.wf(net),
            net_keeps(net, after, gone, freed),
            forall|k: int|
                0 <= k < self.bindings().len() ==> !held(
                    gone,
                    (#[trigger] self.bindings()[k]).spec_iface(),
                    self.bindings()[k].spec_handle(),
                ),
            self matches Inner::Init(Init::Bound((inner, local))) ==> !is_freed(
                freed,
                inner.spec_iface(),
                tcp_ports(),
                local.port,
            ),
        ensures
            self.wf(after),
    {
        match self {
            Inner::Init(Init::Unbound(_)) => {},
            Inner::Init(Init::Bound((inner, local))) => {
                assert(self.bindings()[0] == *inner);
                lemma_keeps_binding(net, after, gone, freed, *inner);
                lemma_position_found(net, inner.spec_iface());
                let i = inner.index(net);
                assert(net[i].iface.ports[tcp_ports()].ports.contains(local.port));
            },
            Inner::Connecting(connecting) => {
                assert(self.bindings()[0] == connecting.spec_inner());
                lemma_keeps_binding(net, after, gone, freed, connecting.spec_inner());
            },
            Inner::Established(established) => {
                assert(self.bindings()[0] == established.spec_inner());
                lemma_keeps_binding(net, after, gone, freed, established.spec_inner());
            },
            Inner::Listening(listening) => {
                let inners = listening.spec_inners();
                assert forall|j: int| 0 <= j < inners.len() implies (#[trigger] inners[j]).is_tcp(after) by {
                    assert(self.bindings()[j] == inners[j]);
                    lemma_keeps_binding(net, after, gone, freed, inners[j]);
                }
            },
        }
    }

    /// The binding through which the socket is reached for its buffer sizes and its
    /// interface: none before a connection or a listen; for a listening socket the
    /// first of its bindings.
    pub open spec fn primary(&self) -> Option<BoundInner> {
        match self {
            Inner::Init(_) => None,
            Inner::Connecting(connecting) => Some(connecting.spec_inner()),
            Inner::Listening(listening) => Some(listening.spec_inners()[0]),
            Inner::Established(established) => Some(established.spec_inner()),
        }
    }

    /// The size of the transmit buffer: that of the in-stack socket, or the default
    /// size before there is a connection or a listen.
    pub fn send_buffer_size<D>(&self, net: &NetDevices<D>) -> (n: usize)
        requires
            net.wf(),
            self.wf(net@),
        ensures
            n == match self.primary() {
                None => DEFAULT_TX_BUF_SIZE,
                Some(b) => (b.socket(net@)->Tcp_0).tx_capacity,
            },
    {
        match self {
            Inner::Init(_) => DEFAULT_TX_BUF_SIZE,
            Inner::Connecting(conn) => tcp_send_capacity(conn.inner.with(net)),
            Inner::Listening(listen) => tcp_send_capacity(listen.inners[0].with(net)),
            Inner::Established(est) => tcp_send_capacity(est.inner.with(net)),
        }
    }

    /// The size of the receive buffer: that of the in-stack socket, or the default
    /// size before there is a connection or a listen.
    pub fn recv_buffer_size<D>(&self, net: &NetDevices<D>) -> (n: usize)
        requires
            net.wf(),
            self.wf(net@),
        ensures
            n == match self.primary() {
                None => DEFAULT_RX_BUF_SIZE,
                Some(b) => (b.socket(net@)->Tcp_0).rx_capacity,
            },
    {
        match self {
            Inner::Init(_) => DEFAULT_RX_BUF_SIZE,
            Inner::Connecting(conn) => tcp_recv_capacity(conn.inner.with(net)),
            Inner::Listening(listen) => tcp_recv_capacity(listen.inners[0].with(net)),
            Inner::Established(est) => tcp_recv_capacity(est.inner.with(net)),
        }
    }

    /// What a poll of the socket's interface makes of the registry; nothing where
    /// the socket neither connects nor listens nor has a connection.
    pub open spec fn iface_polled(&self, net: Seq<NetEntry>, after: Seq<NetEntry>) -> bool {
        match self.primary() {
            None => after == net,
            Some(b) => net_polled(net, after, b.index(net)),
        }
    }

    /// A change of the registry that keeps the socket tables and the ports keeps the
    /// state of every socket well-formed.
    pub proof fn lemma_same_tables_wf(&self, net: Seq<NetEntry>, after: Seq<NetEntry>)
        requires
            self.wf(net),
            same_tables(net, after),
        ensures
            self.wf(after),
            match self.primary() {
                None => true,
                Some(b) => b.index(after) == b.index(net) && b.socket(after) == b.socket(net),
            },
    {
        match self {
            Inner::Init(Init::Unbound(_)) => {},
            Inner::Init(Init::Bound((inner, _))) => {
                lemma_same_tables_keeps(net, after, *inner);
            },
            Inner::Connecting(connecting) => {
                lemma_same_tables_keeps(net, after, connecting.spec_inner());
            },
            Inner::Established(established) => {
                lemma_same_tables_keeps(net, after, established.spec_inner());
            },
            Inner::Listening(listening) => {
                let inners = listening.spec_inners();
                assert forall|j: int| 0 <= j < inners.len() implies (#[trigger] inners[j]).is_tcp(after) by {
                    lemma_same_tables_keeps(net, after, inners[j]);
                }
                lemma_same_tables_keeps(net, after, inners[0]);
            },
        }
    }

    /// A state that is well-formed stays so in every registry that extends the one
    /// it is well-formed in.
    pub proof fn lemma_extends_wf(&self, net: Seq<NetEntry>, after: Seq<NetEntry>)
        requires
            net_inv(net),
            self.wf(net),
            net_extends(net, after),
        ensures
            self.wf(after),
    {
        match self {
            Inner::Init(Init::Unbound(_)) => {},
            Inner::Init(Init::Bound((inner, _))) => {
                lemma_extends_keeps(net, after, *inner);
                lemma_position_found(net, inner.spec_iface());
            },
            Inner::Connecting(connecting) => {
                lemma_extends_keeps(net, after, connecting.spec_inner());
            },
            Inner::Established(established) => {
                lemma_extends_keeps(net, after, established.spec_inner());
            },
            Inner::Listening(listening) => {
                let inners = listening.spec_inners();
                assert forall|j: int| 0 <= j < inners.len() implies (#[trigger] inners[j]).is_tcp(after) by {
                    lemma_extends_keeps(net, after, inners[j]);
                }
            },
        }
    }

    /// A poll of an interface keeps the state of every socket well-formed.
    pub proof fn lemma_polled_wf(&self, net: Seq<NetEntry>, after: Seq<NetEntry>, i: int)
        requires
            self.wf(net),
            net_polled(net, after, i),
        ensures
            self.wf(after),
            match self.primary() {
                None => true,
                Some(b) => b.index(after) == b.index(net),
            },
    {
        match self {
            Inner::Init(Init::Unbound(_)) => {},
            Inner::Init(Init::Bound((inner, _))) => {
                lemma_polled_keeps(net, after, i, *inner);
            },
            Inner::Connecting(connecting) => {
                lemma_polled_keeps(net, after, i, connecting.spec_inner());
            },
            Inner::Established(established) => {
                lemma_polled_keeps(net, after, i, established.spec_inner());
            },
            Inner::Listening(listening) => {
                let inners = listening.spec_inners();
                assert forall|j: int| 0 <= j < inners.len() implies (#[trigger] inners[j]).is_tcp(after) by {
                    lemma_polled_keeps(net, after, i, inners[j]);
                }
                lemma_polled_keeps(net, after, i, inners[0]);
            },
        }
    }

    /// Polls the interface of the socket on its device at the time `now_micros`;
    /// nothing happens where the socket neither connects nor listens nor has a
    /// connection.
    pub fn poll_iface<D>(&self, net: &mut NetDevices<D>, now_micros: i64) where D: smoltcp::phy::Device
        requires
            old(net).wf(),
            self.wf(old(net)@),
        ensures
            final(net).wf(),
            self.wf(final(net)@),
            self.iface_polled(old(net)@, final(net)@),
            net_extends(old(net)@, final(net)@),
    {
        proof {
            lemma_extends_chain(net@, net@, net@);
        }
        let bound = match self {
            Inner::Init(_) => {
                return ;
            },
            Inner::Connecting(conn) => &conn.inner,
            Inner::Listening(listen) => &listen.inners[0],
            Inner::Established(est) => &est.inner,
        };
        proof {
            lemma_position_found(net@, bound.spec_iface());
        }
        let index = bound.position(net);
        let _ = net.poll_at(index, now_micros);
        proof {
            self.lemma_polled_wf(old(net)@, net@, index as int);
            lemma_polled_extends(old(net)@, net@, index as int);
        }
    }

    /// The key of the interface of the socket, once it connects or listens.
    pub fn iface(&self) -> (key: Option<usize>)
        requires
            self is Listening ==> self->Listening_0.spec_inners().len() >= 1,
        ensures
            key == match self.primary() {
                None => None::<usize>,
                Some(b) => Some(b.spec_iface()),
            },
    {
        match self {
            Inner::Init(_) => None,
            Inner::Connecting(conn) => Some(conn.inner.iface()),
            Inner::Listening(listen) => Some(listen.inners[0].iface()),
            Inner::Established(est) => Some(est.inner.iface()),
        }
    }
}

} // verus!
