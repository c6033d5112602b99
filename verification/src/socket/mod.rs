//! The socket layer: the socket handle that callers hold, over the sockets of each
//! kind.
use crate::errno::SystemError;
use crate::libs::wait_queue::WaitQueue;
use crate::posix::{PMSG, PSOL};
use crate::socket::common::shutdown::ShutdownTemp;
use crate::socket::endpoint::Endpoint;
use crate::socket::inet::common::{
    held, is_freed, lemma_extends_keeps, net_extends, net_inv, net_keeps, BoundInner, FreedPort, NetDevices,
    NetEntry,
};
use crate::socket::inet::datagram::UdpSocket;
use crate::socket::inet::stream::TcpSocket;
use crate::socket::inet::{spec_blocking_step, step_len, step_len_from, Blocking};
use crate::stack::filled_front;
use vstd::prelude::*;

pub mod common;
pub mod endpoint;
pub mod inet;

verus! {

/// A socket of either kind.
pub enum InetSocket {
    /// A datagram socket.
    Udp(UdpSocket),
    /// A stream socket.
    Tcp(TcpSocket),
}

impl InetSocket {
    /// The state of the socket is well-formed with respect to the registry.
    pub open spec fn wf(&self, net: Seq<NetEntry>) -> bool {
        match self {
            InetSocket::Udp(udp) => udp.wf(net),
            InetSocket::Tcp(tcp) => tcp.wf(net),
        }
    }

    /// The id under which interfaces list the socket among their bound sockets.
    pub open spec fn spec_id(&self) -> usize {
        match self {
            InetSocket::Udp(udp) => udp.flags().id,
            InetSocket::Tcp(tcp) => tcp.flags().id,
        }
    }

    /// The readiness flags.
    pub open spec fn spec_poll(&self) -> u32 {
        match self {
            InetSocket::Udp(udp) => udp.flags().pollee,
            InetSocket::Tcp(tcp) => tcp.flags().pollee,
        }
    }

    /// Whether a wake-up is pending on the wait queue.
    pub open spec fn spec_scheduled(&self) -> bool {
        match self {
            InetSocket::Udp(udp) => udp.flags().scheduled,
            InetSocket::Tcp(tcp) => tcp.flags().scheduled,
        }
    }

    /// Whether the socket is of the same kind as `other`.
    pub open spec fn same_kind(&self, other: &InetSocket) -> bool {
        self is Udp <==> other is Udp
    }

    /// The id under which interfaces list the socket among their bound sockets.
    pub fn id(&self) -> (id: usize)
        ensures
            id == self.spec_id(),
    {
        match self {
            InetSocket::Udp(udp) => udp.id(),
            InetSocket::Tcp(tcp) => tcp.id(),
        }
    }

    /// The wait queue of the socket.
    pub fn wait_queue(&self) -> (q: &WaitQueue)
        ensures
            q.scheduled() == self.spec_scheduled(),
    {
        match self {
            InetSocket::Udp(udp) => udp.wait_queue(),
            InetSocket::Tcp(tcp) => tcp.wait_queue(),
        }
    }

    /// The wait queue of the socket, to begin a wait on it; nothing else changes.
    pub fn wait_queue_mut(&mut self) -> (q: &mut WaitQueue)
        ensures
            q.scheduled() == old(self).spec_scheduled(),
            final(self).same_kind(old(self)),
            final(self).spec_id() == old(self).spec_id(),
            final(self).spec_poll() == old(self).spec_poll(),
            final(self).spec_scheduled() == final(q).scheduled(),
            forall|net: Seq<NetEntry>| old(self).wf(net) ==> final(self).wf(net),
    {
        match self {
            InetSocket::Udp(udp) => udp.wait_queue_mut(),
            InetSocket::Tcp(tcp) => tcp.wait_queue_mut(),
        }
    }

    /// The readiness flags, as a number.
    pub fn poll(&self) -> (events: usize)
        ensures
            events == self.spec_poll(),
    {
        match self {
            InetSocket::Udp(udp) => udp.poll(),
            InetSocket::Tcp(tcp) => tcp.poll(),
        }
    }

    /// The size of the transmit buffer; see [`TcpSocket::send_buffer_size`] and
    /// [`UdpSocket::send_buffer_size`].
    pub fn send_buffer_size<D>(&self, net: &NetDevices<D>) -> (n: usize)
        requires
            net.wf(),
            self.wf(net@),
        ensures
            self is Udp ==> n == crate::socket::inet::datagram::inner::DEFAULT_TX_BUF_SIZE,
            self is Tcp ==> n == match self->Tcp_0.spec_inner() {
                None => crate::socket::inet::stream::inner::DEFAULT_TX_BUF_SIZE,
                Some(state) => match state.primary() {
                    None => crate::socket::inet::stream::inner::DEFAULT_TX_BUF_SIZE,
                    Some(b) => (b.socket(net@)->Tcp_0).tx_capacity,
                },
            },
    {
        match self {
            InetSocket::Udp(udp) => udp.send_buffer_size(),
            InetSocket::Tcp(tcp) => tcp.send_buffer_size(net),
        }
    }

    /// The size of the receive buffer; see [`TcpSocket::recv_buffer_size`] and
    /// [`UdpSocket::recv_buffer_size`].
    pub fn recv_buffer_size<D>(&self, net: &NetDevices<D>) -> (n: usize)
        requires
            net.wf(),
            self.wf(net@),
        ensures
            self is Udp ==> n == crate::socket::inet::datagram::inner::DEFAULT_RX_BUF_SIZE,
            self is Tcp ==> n == match self->Tcp_0.spec_inner() {
                None => crate::socket::inet::stream::inner::DEFAULT_RX_BUF_SIZE,
                Some(state) => match state.primary() {
                    None => crate::socket::inet::stream::inner::DEFAULT_RX_BUF_SIZE,
                    Some(b) => (b.socket(net@)->Tcp_0).rx_capacity,
                },
            },
    {
        match self {
            InetSocket::Udp(udp) => udp.recv_buffer_size(),
            InetSocket::Tcp(tcp) => tcp.recv_buffer_size(net),
        }
    }

    /// What a step of `accept` answers and does: what [`TcpSocket::accept`] does
    /// for a stream socket; a datagram socket does not implement it.
    pub open spec fn accept_stepped(
        before: InetSocket,
        net: Seq<NetEntry>,
        child_id: usize,
        step: Blocking<(InetSocket, Endpoint)>,
        after: InetSocket,
        net_after: Seq<NetEntry>,
    ) -> bool {
        match before {
            InetSocket::Udp(_) => step == Blocking::<(InetSocket, Endpoint)>::Done(Err(SystemError::ENOSYS)) && after
                == before && net_after == net,
            InetSocket::Tcp(tcp) => {
                &&& after matches InetSocket::Tcp(tcp_after)
                &&& exists|attempt: Result<(TcpSocket, crate::wire::IpEndpoint), SystemError>|
                    {
                        &&& #[trigger] TcpSocket::accept_tried(tcp, net, child_id, attempt, tcp_after, net_after)
                        &&& step == spec_blocking_step(
                            Self::accepted(attempt),
                            tcp.flags().nonblock,
                            crate::event_poll::EPOLLIN,
                        )
                    }
            },
        }
    }

    /// One step of `accept`, for which see [`TcpSocket::accept`]; a datagram socket
    /// does not implement it.
    pub fn accept<D>(&mut self, net: &mut NetDevices<D>, child_id: usize) -> (step: Blocking<(InetSocket, Endpoint)>)
        requires
            old(net).wf(),
            old(self).wf(old(net)@),
        ensures
            final(net).wf(),
            net_extends(old(net)@, final(net)@),
            final(self).wf(final(net)@),
            final(self).same_kind(old(self)),
            step matches Blocking::Done(Ok(accepted)) ==> accepted.0.wf(final(net)@) && (accepted.0 is Tcp),
            Self::accept_stepped(*old(self), old(net)@, child_id, step, *final(self), final(net)@),
    {
        match self {
            InetSocket::Udp(_) => Blocking::Done(Err(SystemError::ENOSYS)),
            InetSocket::Tcp(tcp) => {
                let inner_step = tcp.accept(net, child_id);
                proof {
                    let attempt = choose|attempt: Result<(TcpSocket, crate::wire::IpEndpoint), SystemError>|
                        {
                            &&& #[trigger] TcpSocket::accept_tried(
                                old(self)->Tcp_0,
                                old(net)@,
                                child_id,
                                attempt,
                                *tcp,
                                net@,
                            )
                            &&& inner_step == spec_blocking_step(
                                TcpSocket::with_peer(attempt),
                                old(self)->Tcp_0.flags().nonblock,
                                crate::event_poll::EPOLLIN,
                            )
                        };
                    assert(TcpSocket::accept_tried(old(self)->Tcp_0, old(net)@, child_id, attempt, *tcp, net@));
                }
                match inner_step {
                    Blocking::Done(Ok((child, remote))) => Blocking::Done(Ok((InetSocket::Tcp(child), remote))),
                    Blocking::Done(Err(e)) => Blocking::Done(Err(e)),
                    Blocking::WaitFor(events) => Blocking::WaitFor(events),
                }
            },
        }
    }

    /// An accepted socket with the endpoint of its peer, as `accept` hands it out.
    pub open spec fn accepted(attempt: Result<(TcpSocket, crate::wire::IpEndpoint), SystemError>) -> Result<
        (InetSocket, Endpoint),
        SystemError,
    > {
        match attempt {
            Ok((child, remote)) => Ok((InetSocket::Tcp(child), Endpoint::Ip(remote))),
            Err(e) => Err(e),
        }
    }

    /// What `bind` answers and does; see [`TcpSocket::bound`] and
    /// [`UdpSocket::bound_to`].
    pub open spec fn bound(
        before: InetSocket,
        net: Seq<NetEntry>,
        endpoint: Endpoint,
        r: Result<(), SystemError>,
        after: InetSocket,
        net_after: Seq<NetEntry>,
    ) -> bool {
        match before {
            InetSocket::Udp(udp) => after matches InetSocket::Udp(udp_after) && UdpSocket::bound_to(
                udp,
                net,
                endpoint,
                r,
                udp_after,
                net_after,
            ),
            InetSocket::Tcp(tcp) => after matches InetSocket::Tcp(tcp_after) && TcpSocket::bound(
                tcp,
                net,
                endpoint,
                r,
                tcp_after,
                net_after,
            ),
        }
    }

    /// Binds the socket to an endpoint; see [`TcpSocket::bind`] and [`UdpSocket::bind`].
    pub fn bind<D>(&mut self, net: &mut NetDevices<D>, endpoint: Endpoint) -> (r: Result<(), SystemError>)
        requires
            old(net).wf(),
            old(self).wf(old(net)@),
        ensures
            final(net).wf(),
            net_extends(old(net)@, final(net)@),
            final(self).wf(final(net)@),
            final(self).same_kind(old(self)),
            final(self).spec_id() == old(self).spec_id(),
            final(self).spec_poll() == old(self).spec_poll(),
            Self::bound(*old(self), old(net)@, endpoint, r, *final(self), final(net)@),
            r is Ok ==> final(self).name(final(net)@) == Ok::<Endpoint, SystemError>(endpoint),
            r is Err ==> final(net)@ == old(net)@,
    {
        match self {
            InetSocket::Udp(udp) => udp.bind(net, endpoint),
            InetSocket::Tcp(tcp) => tcp.bind(net, endpoint),
        }
    }

    /// Closes the socket; see [`TcpSocket::close`] and [`UdpSocket::close`].
    pub fn close<D>(&mut self, net: &mut NetDevices<D>, now_micros: i64) -> (r: Result<(), SystemError>) where
        D: smoltcp::phy::Device,

        requires
            old(net).wf(),
            old(self).wf(old(net)@),
        ensures
            r is Ok,
            final(net).wf(),
            final(self).wf(final(net)@),
            net_keeps(old(net)@, final(net)@, old(self).bindings(), old(self).frees()),
            match *old(self) {
                InetSocket::Udp(udp) => (*final(self) is Udp) && UdpSocket::closed(
                    udp,
                    old(net)@,
                    final(self)->Udp_0,
                    final(net)@,
                ),
                InetSocket::Tcp(tcp) => (*final(self) is Tcp) && TcpSocket::closed(
                    tcp,
                    old(net)@,
                    final(self)->Tcp_0,
                    final(net)@,
                ),
            },
    {
        match self {
            InetSocket::Udp(udp) => udp.close(net),
            InetSocket::Tcp(tcp) => tcp.close(net, now_micros),
        }
    }

    /// What the first step of `connect` answers and does; see
    /// [`TcpSocket::connect_begun`] and [`UdpSocket::connected`].
    pub open spec fn connect_begun(
        before: InetSocket,
        net: Seq<NetEntry>,
        endpoint: Endpoint,
        step: Blocking<()>,
        after: InetSocket,
        net_after: Seq<NetEntry>,
    ) -> bool {
        match before {
            InetSocket::Udp(udp) => {
                &&& after matches InetSocket::Udp(udp_after)
                &&& exists|r: Result<(), SystemError>|
                    {
                        &&& #[trigger] UdpSocket::connected(udp, net, endpoint, r, udp_after, net_after)
                        &&& step == Blocking::Done(r)
                    }
            },
            InetSocket::Tcp(tcp) => after matches InetSocket::Tcp(tcp_after) && TcpSocket::connect_begun(
                tcp,
                net,
                endpoint,
                step,
                tcp_after,
                net_after,
            ),
        }
    }

    /// The first step of `connect` for a stream socket, for which see
    /// [`TcpSocket::connect`]; the whole of it for a datagram socket, for which see
    /// [`UdpSocket::connect`].
    pub fn connect<D>(&mut self, net: &mut NetDevices<D>, endpoint: Endpoint, now_micros: i64) -> (step: Blocking<
        (),
    >) where D: smoltcp::phy::Device
        requires
            old(net).wf(),
            old(self).wf(old(net)@),
        ensures
            final(net).wf(),
            net_extends(old(net)@, final(net)@),
            final(self).wf(final(net)@),
            final(self).same_kind(old(self)),
            Self::connect_begun(*old(self), old(net)@, endpoint, step, *final(self), final(net)@),
    {
        match self {
            InetSocket::Udp(udp) => {
                let r = udp.connect(net, endpoint);
                assert(UdpSocket::connected(old(self)->Udp_0, old(net)@, endpoint, r, *udp, net@));
                Blocking::Done(r)
            },
            InetSocket::Tcp(tcp) => tcp.connect(net, endpoint, now_micros),
        }
    }

    /// A later step of `connect` for a stream socket, for which see
    /// [`TcpSocket::connect_retry`]; a datagram socket has nothing left to do.
    pub fn connect_retry<D>(&mut self, net: &NetDevices<D>) -> (step: Blocking<()>)
        requires
            net.wf(),
            old(self).wf(net@),
        ensures
            final(self).wf(net@),
            final(self).same_kind(old(self)),
            match *old(self) {
                InetSocket::Udp(_) => step == Blocking::Done(Ok::<(), SystemError>(())) && *final(self) == *old(self),
                InetSocket::Tcp(tcp) => TcpSocket::connect_retried(tcp, net@, step, final(self)->Tcp_0),
            },
    {
        match self {
            InetSocket::Udp(_) => Blocking::Done(Ok(())),
            InetSocket::Tcp(tcp) => tcp.connect_retry(net),
        }
    }

    /// The local endpoint that the socket answers; see [`TcpSocket::name`] and
    /// [`UdpSocket::name`].
    pub open spec fn name(&self, net: Seq<NetEntry>) -> Result<Endpoint, SystemError> {
        match self {
            InetSocket::Udp(udp) => udp.name(),
            InetSocket::Tcp(tcp) => tcp.name(net),
        }
    }

    /// Returns the local endpoint of the socket.
    pub fn get_name<D>(&self, net: &NetDevices<D>) -> (r: Result<Endpoint, SystemError>)
        requires
            net.wf(),
            self.wf(net@),
        ensures
            r == self.name(net@),
    {
        match self {
            InetSocket::Udp(udp) => udp.get_name(),
            InetSocket::Tcp(tcp) => tcp.get_name(net),
        }
    }

    /// The endpoint of the peer; see [`TcpSocket::peer_name`] and
    /// [`UdpSocket::peer_name`].
    pub open spec fn peer_name(&self, net: Seq<NetEntry>) -> Result<Endpoint, SystemError> {
        match self {
            InetSocket::Udp(udp) => udp.peer_name(),
            InetSocket::Tcp(tcp) => tcp.peer_name(net),
        }
    }

    /// Returns the endpoint of the peer.
    pub fn get_peer_name<D>(&self, net: &NetDevices<D>) -> (r: Result<Endpoint, SystemError>)
        requires
            net.wf(),
            self.wf(net@),
        ensures
            r == self.peer_name(net@),
    {
        match self {
            InetSocket::Udp(udp) => udp.get_peer_name(),
            InetSocket::Tcp(tcp) => tcp.get_peer_name(net),
        }
    }

    /// Reads an option of the socket: no option can be read, and the answer is that
    /// no byte of `value` was written.
    pub fn get_option(&self, level: PSOL, name: usize, value: &mut [u8]) -> (r: Result<usize, SystemError>)
        ensures
            r == Ok::<usize, SystemError>(0),
            final(value)@ == old(value)@,
    {
        Ok(0)
    }

    /// Starts to listen, for which see [`TcpSocket::listen`]; a datagram socket does
    /// not implement it.
    pub fn listen<D>(&mut self, net: &mut NetDevices<D>, backlog: usize) -> (r: Result<(), SystemError>)
        requires
            old(net).wf(),
            old(self).wf(old(net)@),
        ensures
            final(net).wf(),
            net_extends(old(net)@, final(net)@),
            final(self).wf(final(net)@),
            final(self).same_kind(old(self)),
            final(self).spec_poll() == old(self).spec_poll(),
            match *old(self) {
                InetSocket::Udp(_) => r == Err::<(), SystemError>(SystemError::ENOSYS) && *final(self) == *old(self)
                    && final(net)@ == old(net)@,
                InetSocket::Tcp(tcp) => TcpSocket::listen_done(
                    tcp,
                    old(net)@,
                    backlog,
                    r,
                    final(self)->Tcp_0,
                    final(net)@,
                ),
            },
            r is Err ==> final(net)@ == old(net)@,
    {
        match self {
            InetSocket::Udp(_) => Err(SystemError::ENOSYS),
            InetSocket::Tcp(tcp) => tcp.listen(net, backlog),
        }
    }

    /// What a step of `recv` into a buffer that holds `data` after it answers and does; see
    /// [`TcpSocket::recv_stepped`] and [`UdpSocket::recv_stepped`].
    pub open spec fn recv_stepped(
        before: InetSocket,
        net: Seq<NetEntry>,
        data: Seq<u8>,
        step: Blocking<usize>,
        after: InetSocket,
        net_after: Seq<NetEntry>,
    ) -> bool {
        match before {
            InetSocket::Udp(udp) => after matches InetSocket::Udp(udp_after) && UdpSocket::recv_stepped(
                udp,
                net,
                data,
                step,
                udp_after,
                net_after,
            ),
            InetSocket::Tcp(tcp) => after matches InetSocket::Tcp(tcp_after) && TcpSocket::recv_stepped(
                tcp,
                net,
                data,
                step,
                tcp_after,
                net_after,
            ),
        }
    }

    /// What a step of `send` of the bytes `data` answers and does; see
    /// [`TcpSocket::send_stepped`] and [`UdpSocket::send_stepped`].
    pub open spec fn send_stepped(
        before: InetSocket,
        net: Seq<NetEntry>,
        data: Seq<u8>,
        step: Blocking<usize>,
        after: InetSocket,
        net_after: Seq<NetEntry>,
    ) -> bool {
        match before {
            InetSocket::Udp(udp) => after matches InetSocket::Udp(udp_after) && UdpSocket::send_stepped(
                udp,
                net,
                data,
                step,
                udp_after,
                net_after,
            ),
            InetSocket::Tcp(tcp) => after matches InetSocket::Tcp(tcp_after) && TcpSocket::send_stepped(
                tcp,
                net,
                data,
                step,
                tcp_after,
                net_after,
            ),
        }
    }

    /// One step of `recv`; see [`TcpSocket::recv`] and [`UdpSocket::recv`].
    pub fn recv<D>(&mut self, net: &mut NetDevices<D>, buffer: &mut [u8], flags: PMSG, now_micros: i64) -> (step:
        Blocking<usize>) where D: smoltcp::phy::Device
        requires
            old(net).wf(),
            old(self).wf(old(net)@),
        ensures
            final(net).wf(),
            net_extends(old(net)@, final(net)@),
            final(self).wf(final(net)@),
            final(self).same_kind(old(self)),
            final(self).spec_poll() == old(self).spec_poll(),
            filled_front(old(buffer)@, final(buffer)@, step_len(step)),
            Self::recv_stepped(*old(self), old(net)@, final(buffer)@, step, *final(self), final(net)@),
    {
        match self {
            InetSocket::Udp(udp) => udp.recv(net, buffer, flags, now_micros),
            InetSocket::Tcp(tcp) => tcp.recv(net, buffer, flags, now_micros),
        }
    }

    /// One step of `read`: `recv` without flags.
    pub fn read<D>(&mut self, net: &mut NetDevices<D>, buffer: &mut [u8], now_micros: i64) -> (step: Blocking<
        usize,
    >) where D: smoltcp::phy::Device
        requires
            old(net).wf(),
            old(self).wf(old(net)@),
        ensures
            final(net).wf(),
            net_extends(old(net)@, final(net)@),
            final(self).wf(final(net)@),
            final(self).same_kind(old(self)),
            final(self).spec_poll() == old(self).spec_poll(),
            filled_front(old(buffer)@, final(buffer)@, step_len(step)),
            Self::recv_stepped(*old(self), old(net)@, final(buffer)@, step, *final(self), final(net)@),
    {
        self.recv(net, buffer, PMSG::empty(), now_micros)
    }

    /// One step of `recv_from`, for which see [`UdpSocket::recv_from`]; a stream
    /// socket does not implement it.
    pub fn recv_from<D>(&mut self, net: &mut NetDevices<D>, buffer: &mut [u8], flags: PMSG, now_micros: i64) -> (step:
        Blocking<(usize, Endpoint)>) where D: smoltcp::phy::Device
        requires
            old(net).wf(),
            old(self).wf(old(net)@),
        ensures
            final(net).wf(),
            net_extends(old(net)@, final(net)@),
            final(self).wf(final(net)@),
            final(self).same_kind(old(self)),
            final(self).spec_poll() == old(self).spec_poll(),
            filled_front(old(buffer)@, final(buffer)@, step_len_from(step)),
            match *old(self) {
                InetSocket::Tcp(_) => step == Blocking::<(usize, Endpoint)>::Done(Err(SystemError::ENOSYS))
                    && *final(self) == *old(self) && final(net)@ == old(net)@,
                InetSocket::Udp(udp) => UdpSocket::recv_from_stepped(
                    udp,
                    old(net)@,
                    final(buffer)@,
                    step,
                    final(self)->Udp_0,
                    final(net)@,
                ),
            },
    {
        match self {
            InetSocket::Udp(udp) => udp.recv_from(net, buffer, flags, now_micros),
            InetSocket::Tcp(_) => Blocking::Done(Err(SystemError::ENOSYS)),
        }
    }

    /// One step of `send`; see [`TcpSocket::send`] and [`UdpSocket::send`].
    pub fn send<D>(&mut self, net: &mut NetDevices<D>, buffer: &[u8], flags: PMSG, now_micros: i64) -> (step:
        Blocking<usize>) where D: smoltcp::phy::Device
        requires
            old(net).wf(),
            old(self).wf(old(net)@),
        ensures
            final(net).wf(),
            net_extends(old(net)@, final(net)@),
            final(self).wf(final(net)@),
            final(self).same_kind(old(self)),
            final(self).spec_poll() == old(self).spec_poll(),
            Self::send_stepped(*old(self), old(net)@, buffer@, step, *final(self), final(net)@),
    {
        match self {
            InetSocket::Udp(udp) => udp.send(net, buffer, flags, now_micros),
            InetSocket::Tcp(tcp) => tcp.send(net, buffer, flags, now_micros),
        }
    }

    /// One step of `write`: `send` without flags.
    pub fn write<D>(&mut self, net: &mut NetDevices<D>, buffer: &[u8], now_micros: i64) -> (step: Blocking<usize>) where
        D: smoltcp::phy::Device,

        requires
            old(net).wf(),
            old(self).wf(old(net)@),
        ensures
            final(net).wf(),
            net_extends(old(net)@, final(net)@),
            final(self).wf(final(net)@),
            final(self).same_kind(old(self)),
            final(self).spec_poll() == old(self).spec_poll(),
            Self::send_stepped(*old(self), old(net)@, buffer@, step, *final(self), final(net)@),
    {
        self.send(net, buffer, PMSG::empty(), now_micros)
    }

    /// One step of `send_to`, for which see [`UdpSocket::send_to`]; a stream socket
    /// does not implement it.
    pub fn send_to<D>(
        &mut self,
        net: &mut NetDevices<D>,
        buffer: &[u8],
        flags: PMSG,
        address: Endpoint,
        now_micros: i64,
    ) -> (step: Blocking<usize>) where D: smoltcp::phy::Device
        requires
            old(net).wf(),
            old(self).wf(old(net)@),
        ensures
            final(net).wf(),
            net_extends(old(net)@, final(net)@),
            final(self).wf(final(net)@),
            final(self).same_kind(old(self)),
            final(self).spec_poll() == old(self).spec_poll(),
            match *old(self) {
                InetSocket::Tcp(_) => step == Blocking::<usize>::Done(Err(SystemError::ENOSYS)) && *final(self)
                    == *old(self) && final(net)@ == old(net)@,
                InetSocket::Udp(udp) => UdpSocket::send_to_stepped(
                    udp,
                    old(net)@,
                    buffer@,
                    address,
                    step,
                    final(self)->Udp_0,
                    final(net)@,
                ),
            },
    {
        match self {
            InetSocket::Udp(udp) => udp.send_to(net, buffer, flags, address, now_micros),
            InetSocket::Tcp(_) => Blocking::Done(Err(SystemError::ENOSYS)),
        }
    }

    /// Sets an option of the socket, for which see [`TcpSocket::set_option`]; a
    /// datagram socket accepts every option and ignores it.
    pub fn set_option<D>(&mut self, net: &mut NetDevices<D>, level: PSOL, name: usize, val: &[u8]) -> (r: Result<
        (),
        SystemError,
    >)
        requires
            old(net).wf(),
            old(self).wf(old(net)@),
        ensures
            final(net).wf(),
            final(self).wf(final(net)@),
            net_extends(old(net)@, final(net)@),
            final(self).same_kind(old(self)),
            final(self).spec_poll() == old(self).spec_poll(),
            match *old(self) {
                InetSocket::Udp(_) => r is Ok && *final(self) == *old(self) && final(net)@ == old(net)@,
                InetSocket::Tcp(tcp) => r == tcp.option_answer(level, name, val@) && tcp.option_set(
                    old(net)@,
                    level,
                    name,
                    val@,
                    final(net)@,
                ),
            },
    {
        proof {
            crate::socket::inet::common::lemma_extends_chain(net@, net@, net@);
        }
        match self {
            InetSocket::Udp(_) => Ok(()),
            InetSocket::Tcp(tcp) => tcp.set_option(net, level, name, val),
        }
    }

    /// Shuts down halves of the connection, for which see [`TcpSocket::shutdown`];
    /// a datagram socket does not implement it.
    pub fn shutdown(&mut self, how: ShutdownTemp) -> (r: Result<(), SystemError>)
        ensures
            final(self).same_kind(old(self)),
            final(self).spec_poll() == old(self).spec_poll(),
            forall|net: Seq<NetEntry>| old(self).wf(net) ==> final(self).wf(net),
            match *old(self) {
                InetSocket::Udp(_) => r == Err::<(), SystemError>(SystemError::ENOSYS) && *final(self) == *old(self),
                InetSocket::Tcp(tcp) => {
                    &&& r is Ok
                    &&& final(self)->Tcp_0.spec_inner() == tcp.spec_inner()
                    &&& final(self)->Tcp_0.flags().shutdown == tcp.flags().shutdown.spec_union(how.spec_bits())
                },
            },
    {
        match self {
            InetSocket::Udp(_) => Err(SystemError::ENOSYS),
            InetSocket::Tcp(tcp) => tcp.shutdown(how),
        }
    }

    /// What an event of its interface makes of the socket: the socket is refreshed
    /// as [`TcpSocket::refreshed`] and [`UdpSocket::events_updated`] say, and a
    /// wake-up is pending on its wait queue.
    pub open spec fn notified(before: InetSocket, net: Seq<NetEntry>, after: InetSocket) -> bool {
        match before {
            InetSocket::Udp(udp) => {
                &&& after matches InetSocket::Udp(udp_after)
                &&& exists|seen: UdpSocket|
                    {
                        &&& #[trigger] UdpSocket::events_updated(udp, net, seen)
                        &&& udp_after.spec_inner() == seen.spec_inner()
                        &&& udp_after.flags() == (crate::socket::inet::datagram::UdpFlags {
                            scheduled: true,
                            ..seen.flags()
                        })
                    }
            },
            InetSocket::Tcp(tcp) => {
                &&& after matches InetSocket::Tcp(tcp_after)
                &&& exists|seen: TcpSocket|
                    {
                        &&& #[trigger] TcpSocket::refreshed(tcp, net, seen)
                        &&& tcp_after.spec_inner() == seen.spec_inner()
                        &&& tcp_after.flags() == (crate::socket::inet::stream::TcpFlags {
                            scheduled: true,
                            ..seen.flags()
                        })
                    }
            },
        }
    }

    /// Refreshes the socket on an event of its interface, and wakes its waiters; see
    /// [`InetSocket::notified`].
    pub fn on_iface_events<D>(&mut self, net: &NetDevices<D>)
        requires
            net.wf(),
            old(self).wf(net@),
        ensures
            final(self).wf(net@),
            final(self).same_kind(old(self)),
            final(self).spec_id() == old(self).spec_id(),
            final(self).spec_scheduled(),
            Self::notified(*old(self), net@, *final(self)),
    {
        match self {
            InetSocket::Udp(udp) => {
                udp.on_iface_events(net);
                let ghost seen = *udp;
                udp.wait_queue_mut().wakeup();
                assert(UdpSocket::events_updated(old(self)->Udp_0, net@, seen));
            },
            InetSocket::Tcp(tcp) => {
                tcp.on_iface_events(net);
                let ghost seen = *tcp;
                tcp.wait_queue_mut().wakeup();
                assert(TcpSocket::refreshed(old(self)->Tcp_0, net@, seen));
            },
        }
    }

    /// The bindings of the socket: those of its in-stack sockets that are in a socket
    /// table.
    pub open spec fn bindings(&self) -> Seq<BoundInner> {
        match self {
            InetSocket::Udp(udp) => udp.bindings(),
            InetSocket::Tcp(tcp) => tcp.bindings(),
        }
    }

    /// The port that closing the socket frees.
    pub open spec fn frees(&self) -> Seq<FreedPort> {
        match self {
            InetSocket::Udp(udp) => udp.frees(),
            InetSocket::Tcp(tcp) => tcp.frees(),
        }
    }

    /// The port that the socket relies on: that of a socket that is bound and does
    /// not listen or connect yet.
    pub open spec fn relies_on(&self) -> Seq<FreedPort> {
        match self {
            InetSocket::Udp(udp) => udp.frees(),
            InetSocket::Tcp(tcp) => match tcp.spec_inner() {
                Some(crate::socket::inet::stream::inner::Inner::Init(init)) => init.frees(),
                _ => Seq::empty(),
            },
        }
    }

    /// Whether the socket shares no in-stack socket with the bindings `gone`, and
    /// relies on none of the ports `freed`.
    pub open spec fn apart_from(&self, gone: Seq<BoundInner>, freed: Seq<FreedPort>) -> bool {
        &&& forall|k: int|
            0 <= k < self.bindings().len() ==> !held(
                gone,
                (#[trigger] self.bindings()[k]).spec_iface(),
                self.bindings()[k].spec_handle(),
            )
        &&& forall|k: int|
            0 <= k < self.relies_on().len() ==> !is_freed(
                freed,
                (#[trigger] self.relies_on()[k]).key,
                self.relies_on()[k].protocol,
                self.relies_on()[k].port,
            )
    }

    /// A socket that is well-formed stays so when another socket is closed: over
    /// every change of the registry that keeps everything but the in-stack sockets
    /// and the port of a socket that it is apart from, each binding of the socket
    /// keeps its entry in the socket table of its interface.
    pub proof fn lemma_keeps_wf(&self, net: Seq<NetEntry>, after: Seq<NetEntry>, gone: Seq<BoundInner>, freed: Seq<FreedPort>)
        requires
            net_inv(net),
            self.wf(net),
            net_keeps(net, after, gone, freed),
            self.apart_from(gone, freed),
        ensures
            self.wf(after),
    {
        match self {
            InetSocket::Tcp(tcp) => {
                if let Some(state) = tcp.spec_inner() {
                    assert(self.bindings() == state.bindings());
                    if let crate::socket::inet::stream::inner::Inner::Init(
                        crate::socket::inet::stream::inner::Init::Bound((inner, local)),
                    ) = state {
                        assert(self.relies_on()[0].port == local.port);
                    }
                    state.lemma_keeps_wf(net, after, gone, freed);
                }
            },
            InetSocket::Udp(udp) => {
                assert(self.bindings() == udp.bindings());
                assert(self.relies_on() == udp.frees());
                udp.lemma_keeps_wf(net, after, gone, freed);
            },
        }
    }

    /// A socket that is well-formed stays so in every registry that extends the one
    /// it is well-formed in: whatever other sockets do, short of closing, each
    /// binding of the socket keeps its entry in the socket table of its interface.
    pub proof fn lemma_extends_wf(&self, net: Seq<NetEntry>, after: Seq<NetEntry>)
        requires
            net_inv(net),
            self.wf(net),
            net_extends(net, after),
        ensures
            self.wf(after),
    {
        match self {
            InetSocket::Tcp(tcp) => {
                if let Some(state) = tcp.spec_inner() {
                    state.lemma_extends_wf(net, after);
                }
            },
            InetSocket::Udp(udp) => {
                if let Some(crate::socket::inet::datagram::inner::UdpInner::Bound(bound)) = udp.spec_inner() {
                    lemma_extends_keeps(net, after, bound.spec_inner());
                    crate::socket::inet::common::lemma_position_found(net, bound.spec_inner().spec_iface());
                }
            },
        }
    }

    /// A poll of an interface keeps the state of every socket well-formed.
    pub proof fn lemma_polled_wf(&self, net: Seq<NetEntry>, after: Seq<NetEntry>, i: int)
        requires
            self.wf(net),
            crate::socket::inet::stream::inner::net_polled(net, after, i),
        ensures
            self.wf(after),
    {
        match self {
            InetSocket::Tcp(tcp) => {
                if let Some(state) = tcp.spec_inner() {
                    state.lemma_polled_wf(net, after, i);
                }
            },
            InetSocket::Udp(udp) => {
                if let Some(crate::socket::inet::datagram::inner::UdpInner::Bound(bound)) = udp.spec_inner() {
                    crate::socket::inet::stream::inner::lemma_polled_keeps(net, after, i, bound.spec_inner());
                }
            },
        }
    }
}

/// What a poll of an interface makes of a socket: where the interface lists the
/// socket among its bound sockets, the socket is notified; else it stays as it is.
pub open spec fn fanned_out(before: InetSocket, net: Seq<NetEntry>, listed: bool, after: InetSocket) -> bool {
    if listed {
        InetSocket::notified(before, net, after)
    } else {
        after == before
    }
}

/// What a poll of the interface at position `i` makes of the registry and of the
/// sockets: the interface is polled, and after that each socket that the interface
/// lists is notified, whatever the poll reported.
pub open spec fn iface_polled(
    i: int,
    net: Seq<NetEntry>,
    sockets: Seq<InetSocket>,
    net_after: Seq<NetEntry>,
    sockets_after: Seq<InetSocket>,
) -> bool {
    &&& crate::socket::inet::stream::inner::net_polled(net, net_after, i)
    &&& sockets_after.len() == sockets.len()
    &&& forall|k: int|
        0 <= k < sockets.len() ==> fanned_out(
            sockets[k],
            net_after,
            net_after[i].iface.bounds.contains(sockets[k].spec_id()),
            #[trigger] sockets_after[k],
        )
}

/// Whether two lists hold the same sockets, whatever their states: socket for
/// socket of the same kind and with the same id.
pub open spec fn same_sockets(a: Seq<InetSocket>, b: Seq<InetSocket>) -> bool {
    &&& a.len() == b.len()
    &&& forall|k: int| 0 <= k < a.len() ==> (#[trigger] b[k]).same_kind(&a[k]) && b[k].spec_id() == a[k].spec_id()
}

/// Whether every socket of `sockets` is well-formed with respect to the registry.
pub open spec fn all_wf(sockets: Seq<InetSocket>, net: Seq<NetEntry>) -> bool {
    forall|k: int| 0 <= k < sockets.len() ==> (#[trigger] sockets[k]).wf(net)
}

fn is_listed(bounds: &Vec<usize>, id: usize) -> (b: bool)
    ensures
        b == bounds@.contains(id),
{
    let mut i: usize = 0;
    while i < bounds.len()
        invariant
            i <= bounds@.len(),
            forall|j: int| 0 <= j < i ==> bounds@[j] != id,
        decreases bounds@.len() - i,
    {
        if bounds[i] == id {
            return true;
        }
        i += 1;
    }
    false
}

/// Polls the interface at a position of the registry at the time `now_micros`, and
/// then notifies its bound sockets.
///
/// The stack exchanges frames with the device and advances its timers. After
/// that each of `sockets` that the interface lists among its bound sockets is
/// refreshed and its waiters are woken, in the order of `sockets`; the others stay
/// as they are. Returns whether the poll may have changed a socket.
pub fn poll_iface<D>(net: &mut NetDevices<D>, index: usize, now_micros: i64, sockets: &mut Vec<InetSocket>) -> (has_events:
    bool) where D: smoltcp::phy::Device
    requires
        old(net).wf(),
        index < old(net)@.len(),
        all_wf(old(sockets)@, old(net)@),
    ensures
        final(net).wf(),
        net_extends(old(net)@, final(net)@),
        all_wf(final(sockets)@, final(net)@),
        same_sockets(old(sockets)@, final(sockets)@),
        iface_polled(index as int, old(net)@, old(sockets)@, final(net)@, final(sockets)@),
{
    let has_events = net.poll_at(index, now_micros);
    proof {
        crate::socket::inet::stream::inner::lemma_polled_extends(old(net)@, net@, index as int);
        assert forall|k: int| 0 <= k < sockets@.len() implies (#[trigger] sockets@[k]).wf(net@) by {
            sockets@[k].lemma_polled_wf(old(net)@, net@, index as int);
        }
    }
    let mut k: usize = 0;
    while k < sockets.len()
        invariant
            k <= sockets@.len(),
            sockets@.len() == old(sockets)@.len(),
            net.wf(),
            index < net@.len(),
            all_wf(sockets@, net@),
            same_sockets(old(sockets)@, sockets@),
            forall|j: int| k <= j < sockets@.len() ==> sockets@[j] == old(sockets)@[j],
            forall|j: int|
                0 <= j < k ==> fanned_out(
                    old(sockets)@[j],
                    net@,
                    net@[index as int].iface.bounds.contains(old(sockets)@[j].spec_id()),
                    #[trigger] sockets@[j],
                ),
        decreases sockets@.len() - k,
    {
        let id = sockets[k].id();
        if is_listed(net.common_at(index).bounds(), id) {
            let ghost before = sockets@;
            sockets[k].on_iface_events(net);
            assert(forall|j: int| 0 <= j < sockets@.len() && j != k ==> sockets@[j] == before[j]);
        }
        k += 1;
    }
    has_events
}

} // verus!
