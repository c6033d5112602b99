//! UDP sockets: datagram sockets over the sockets of the stack.
use crate::errno::SystemError;
use crate::event_poll::{has_flags, with_flags, EPollEventType, EPOLLIN, EPOLLINOUT_BITS, EPOLLOUT};
use crate::libs::wait_queue::WaitQueue;
use crate::posix::PMSG;
use crate::socket::endpoint::Endpoint;
use crate::socket::inet::common::port::EPHEMERAL_PORT_MIN;
use crate::socket::inet::common::{
    lemma_choice_in_range, lemma_position_found, lemma_same_tables_keeps,
    held, is_freed, lemma_extends_chain, lemma_extends_keeps_all, lemma_keeps_binding, lemma_keeps_chain,
    lemma_with_bounds_extends, lemma_with_iface_keeps, net_extends, net_inv, net_keeps, with_bounds, BoundInner,
    FreedPort,
    NetDevices, NetEntry,
};
use crate::socket::inet::{blocking_step, spec_blocking_step, step_len, step_len_from, Blocking};
use crate::stack::filled_front;
use crate::wire::{unspecified_local_endpoint_v4, IpAddress, IpEndpoint};
use vstd::prelude::*;

pub mod inner;

verus! {

/// A UDP socket.
pub struct UdpSocket {
    inner: Option<inner::UdpInner>,
    nonblock: bool,
    wait_queue: WaitQueue,
    id: usize,
    pollee: EPollEventType,
}

/// What the contracts say of a UDP socket apart from its state.
pub struct UdpFlags {
    /// Whether calls that would block fail instead.
    pub nonblock: bool,
    /// The id under which interfaces list the socket among their bound sockets.
    pub id: usize,
    /// The readiness flags.
    pub pollee: u32,
    /// Whether a wake-up is pending on the wait queue.
    pub scheduled: bool,
}

impl UdpSocket {
    /// The state of the socket; `None` once it is closed.
    pub closed spec fn spec_inner(&self) -> Option<inner::UdpInner> {
        self.inner
    }

    /// What the socket holds apart from its state.
    pub closed spec fn flags(&self) -> UdpFlags {
        UdpFlags {
            nonblock: self.nonblock,
            id: self.id,
            pollee: self.pollee@,
            scheduled: self.wait_queue.scheduled(),
        }
    }

    /// The state of an open socket is well-formed with respect to the registry.
    pub open spec fn wf(&self, net: Seq<NetEntry>) -> bool {
        match self.spec_inner() {
            None => true,
            Some(state) => state.wf(net),
        }
    }

    /// The socket is closed.
    pub open spec fn is_closed(&self) -> bool {
        self.spec_inner() is None
    }

    /// The socket is open and not bound.
    pub open spec fn is_unbound(&self) -> bool {
        self.spec_inner() matches Some(inner::UdpInner::Unbound(_))
    }

    /// The socket is bound.
    pub open spec fn is_bound(&self) -> bool {
        self.spec_inner() matches Some(inner::UdpInner::Bound(_))
    }

    /// The bound state of a bound socket.
    pub open spec fn bound(&self) -> inner::BoundUdp {
        self.spec_inner()->0->Bound_0
    }

    /// Whether `other` is this socket as it was, but for the in-stack socket that an
    /// unbound socket holds, which may be another socket of the same kind.
    pub open spec fn same_state(&self, other: &UdpSocket) -> bool {
        &&& self.flags() == other.flags()
        &&& self.is_closed() == other.is_closed()
        &&& self.is_unbound() == other.is_unbound()
        &&& self.is_bound() ==> self.spec_inner() == other.spec_inner()
    }

    /// An unbound socket with the id `id`, under which interfaces will list it
    /// among their bound sockets.
    pub fn new(id: usize, nonblock: bool) -> (s: Self)
        ensures
            s.is_unbound(),
            s.flags() == (UdpFlags { nonblock, id, pollee: 0, scheduled: false }),
            forall|net: Seq<NetEntry>| s.wf(net),
    {
        UdpSocket {
            inner: Some(inner::UdpInner::Unbound(inner::UnboundUdp::new())),
            nonblock,
            wait_queue: WaitQueue::default(),
            id,
            pollee: EPollEventType::empty(),
        }
    }

    /// Whether calls that would block fail instead.
    pub fn is_nonblock(&self) -> (b: bool)
        ensures
            b == self.flags().nonblock,
    {
        self.nonblock
    }

    /// Makes calls that would block fail instead, or block again.
    pub fn set_nonblock(&mut self, nonblock: bool)
        ensures
            final(self).spec_inner() == old(self).spec_inner(),
            final(self).flags() == (UdpFlags { nonblock, ..old(self).flags() }),
    {
        self.nonblock = nonblock;
    }

    /// The id under which interfaces list the socket among their bound sockets.
    pub fn id(&self) -> (id: usize)
        ensures
            id == self.flags().id,
    {
        self.id
    }

    /// The wait queue of the socket.
    pub fn wait_queue(&self) -> (q: &WaitQueue)
        ensures
            q.scheduled() == self.flags().scheduled,
    {
        &self.wait_queue
    }

    /// The wait queue of the socket, to begin a wait on it; nothing else changes.
    pub fn wait_queue_mut(&mut self) -> (q: &mut WaitQueue)
        ensures
            q.scheduled() == old(self).flags().scheduled,
            final(self).spec_inner() == old(self).spec_inner(),
            final(self).flags() == (UdpFlags { scheduled: final(q).scheduled(), ..old(self).flags() }),
    {
        &mut self.wait_queue
    }

    /// The readiness flags, as a number.
    pub fn poll(&self) -> (events: usize)
        ensures
            events == self.flags().pollee,
    {
        self.pollee.bits() as usize
    }

    /// Whether `EPOLLIN` is set.
    pub fn is_epoll_in(&self) -> (b: bool)
        ensures
            b == has_flags(self.flags().pollee, EPOLLIN),
    {
        self.pollee.contains(EPollEventType::readable())
    }

    /// Whether `EPOLLOUT` is set.
    pub fn is_epoll_out(&self) -> (b: bool)
        ensures
            b == has_flags(self.flags().pollee, EPOLLOUT),
    {
        self.pollee.contains(EPollEventType::writable())
    }

    /// The size of the transmit buffer.
    pub fn send_buffer_size(&self) -> (n: usize)
        ensures
            n == inner::DEFAULT_TX_BUF_SIZE,
    {
        inner::DEFAULT_TX_BUF_SIZE
    }

    /// The size of the receive buffer.
    pub fn recv_buffer_size(&self) -> (n: usize)
        ensures
            n == inner::DEFAULT_RX_BUF_SIZE,
    {
        inner::DEFAULT_RX_BUF_SIZE
    }

    /// The local endpoint that the socket answers: the unspecified IPv4 endpoint
    /// while it is not bound, and the endpoint that it is bound to afterwards.
    pub open spec fn name(&self) -> Result<Endpoint, SystemError> {
        match self.spec_inner() {
            None => Err(SystemError::EINVAL),
            Some(inner::UdpInner::Unbound(_)) => Ok(Endpoint::Ip(unspecified_local_endpoint_v4())),
            Some(inner::UdpInner::Bound(bound)) => Ok(Endpoint::Ip(bound.spec_local())),
        }
    }

    /// Returns the local endpoint of the socket; see [`UdpSocket::name`].
    pub fn get_name(&self) -> (r: Result<Endpoint, SystemError>)
        ensures
            r == self.name(),
    {
        match &self.inner {
            None => Err(SystemError::EINVAL),
            Some(inner::UdpInner::Unbound(_)) => Ok(Endpoint::Ip(IpEndpoint::new(IpAddress::Ipv4(0), 0))),
            Some(inner::UdpInner::Bound(bound)) => Ok(Endpoint::Ip(bound.local())),
        }
    }

    /// The endpoint that the socket is connected to; a socket that is not connected
    /// answers so.
    pub open spec fn peer_name(&self) -> Result<Endpoint, SystemError> {
        match self.spec_inner() {
            Some(inner::UdpInner::Bound(bound)) => match bound.spec_remote() {
                Some(remote) => Ok(Endpoint::Ip(remote)),
                None => Err(SystemError::ENOTCONN),
            },
            _ => Err(SystemError::ENOTCONN),
        }
    }

    /// Returns the endpoint that the socket is connected to; see [`UdpSocket::peer_name`].
    pub fn get_peer_name(&self) -> (r: Result<Endpoint, SystemError>)
        ensures
            r == self.peer_name(),
    {
        match &self.inner {
            Some(inner::UdpInner::Bound(bound)) => match bound.remote() {
                Some(remote) => Ok(Endpoint::Ip(remote)),
                None => Err(SystemError::ENOTCONN),
            },
            _ => Err(SystemError::ENOTCONN),
        }
    }

    /// Lists a socket that was just bound among the bound sockets of its interface.
    fn list<D>(&mut self, net: &mut NetDevices<D>, bound: inner::BoundUdp)
        requires
            old(net).wf(),
            bound.wf(old(net)@),
            old(self).spec_inner() is None,
        ensures
            final(net).wf(),
            final(self).wf(final(net)@),
            final(self).flags() == old(self).flags(),
            final(self).spec_inner() == Some(inner::UdpInner::Bound(bound)),
            bound.index(final(net)@) == bound.index(old(net)@),
            net_extends(old(net)@, final(net)@),
            final(net)@ == with_bounds(
                old(net)@,
                bound.index(old(net)@),
                old(net)@[bound.index(old(net)@)].iface.bounds.push(old(self).flags().id),
            ),
    {
        proof {
            lemma_position_found(net@, bound.spec_inner().spec_iface());
        }
        let index = bound.inner().position(net);
        net.common_at_mut(index).bind_socket(self.id);
        proof {
            lemma_with_iface_keeps(old(net)@, index as int, net@[index as int].iface, bound.spec_inner());
            assert(net@ =~= with_bounds(
                old(net)@,
                index as int,
                old(net)@[index as int].iface.bounds.push(self.id),
            ));
            lemma_with_bounds_extends(old(net)@, index as int, old(net)@[index as int].iface.bounds.push(self.id));
        }
        self.inner = Some(inner::UdpInner::Bound(bound));
    }

    /// What `do_bind` answers: an invalid argument for a socket that is bound or
    /// closed, else the answer of [`inner::UnboundUdp::bind_outcome`].
    pub open spec fn bind_answer(&self, net: Seq<NetEntry>, local: IpEndpoint) -> Result<(), SystemError> {
        if self.is_unbound() {
            match inner::UnboundUdp::bind_outcome(net, local) {
                Ok(_) => Ok(()),
                Err(e) => Err(e),
            }
        } else {
            Err(SystemError::EINVAL)
        }
    }

    /// What `do_bind` answers and does; see [`UdpSocket::do_bind`].
    pub open spec fn bind_done(
        before: UdpSocket,
        net: Seq<NetEntry>,
        local_endpoint: IpEndpoint,
        r: Result<(), SystemError>,
        after: UdpSocket,
        net_after: Seq<NetEntry>,
    ) -> bool {
        &&& after.flags() == before.flags()
        &&& r == before.bind_answer(net, local_endpoint)
        &&& match r {
            Ok(_) => {
                &&& after.is_bound()
                &&& after.bound().spec_local() == local_endpoint
                &&& after.bound().spec_remote() is None
                &&& inner::UnboundUdp::bind_outcome(net, local_endpoint) == Ok::<int, SystemError>(
                    after.bound().index(net_after),
                )
                &&& !net[after.bound().index(net_after)].iface.table.dom().contains(
                    after.bound().spec_inner().spec_handle(),
                )
                &&& net_after == with_bounds(
                    inner::net_after_bind(
                        net,
                        after.bound().index(net_after),
                        after.bound().spec_inner().spec_handle(),
                        local_endpoint,
                        false,
                    ),
                    after.bound().index(net_after),
                    net[after.bound().index(net_after)].iface.bounds.push(before.flags().id),
                )
            },
            Err(_) => after.same_state(&before) && net_after == net,
        }
    }

    /// Binds the socket to `local_endpoint` and lists it among the bound sockets of
    /// the interface that serves the address.
    ///
    /// On success the in-stack socket is in the socket table of that interface and
    /// bound to the endpoint, the port is reserved there, and the socket's id is the
    /// last of the interface's bound sockets. On failure nothing has changed.
    pub fn do_bind<D>(&mut self, net: &mut NetDevices<D>, local_endpoint: IpEndpoint) -> (r: Result<(), SystemError>)
        requires
            old(net).wf(),
            old(self).wf(old(net)@),
        ensures
            final(net).wf(),
            final(self).wf(final(net)@),
            net_extends(old(net)@, final(net)@),
            Self::bind_done(*old(self), old(net)@, local_endpoint, r, *final(self), final(net)@),
    {
        match self.inner.take() {
            Some(inner::UdpInner::Unbound(unbound)) => match unbound.bind(net, local_endpoint) {
                Ok(bound) => {
                    proof {
                        lemma_choice_in_range(old(net)@, local_endpoint.addr);
                    }
                    let ghost mid = net@;
                    self.list(net, bound);
                    proof {
                        lemma_extends_chain(old(net)@, mid, net@);
                    }
                    Ok(())
                },
                Err((unbound, e)) => {
                    self.inner = Some(inner::UdpInner::Unbound(unbound));
                    Err(e)
                },
            },
            Some(any) => {
                self.inner = Some(any);
                Err(SystemError::EINVAL)
            },
            None => Err(SystemError::EINVAL),
        }
    }

    /// What `bind` answers and does: what `do_bind` does for an endpoint of the
    /// network layer; every other endpoint is an invalid argument.
    pub open spec fn bound_to(
        before: UdpSocket,
        net: Seq<NetEntry>,
        endpoint: Endpoint,
        r: Result<(), SystemError>,
        after: UdpSocket,
        net_after: Seq<NetEntry>,
    ) -> bool {
        match endpoint {
            Endpoint::Ip(local) => Self::bind_done(before, net, local, r, after, net_after),
            Endpoint::Other => r == Err::<(), SystemError>(SystemError::EINVAL) && after == before && net_after == net,
        }
    }

    /// Binds the socket to an endpoint of the network layer, as `do_bind` does;
    /// every other endpoint is an invalid argument.
    pub fn bind<D>(&mut self, net: &mut NetDevices<D>, endpoint: Endpoint) -> (r: Result<(), SystemError>)
        requires
            old(net).wf(),
            old(self).wf(old(net)@),
        ensures
            final(net).wf(),
            final(self).wf(final(net)@),
            final(self).flags() == old(self).flags(),
            net_extends(old(net)@, final(net)@),
            Self::bound_to(*old(self), old(net)@, endpoint, r, *final(self), final(net)@),
            r is Ok ==> final(self).is_bound() && final(self).name() == Ok::<Endpoint, SystemError>(endpoint),
            r is Err ==> final(self).same_state(old(self)) && final(net)@ == old(net)@,
    {
        match endpoint {
            Endpoint::Ip(addr) => self.do_bind(net, addr),
            Endpoint::Other => Err(SystemError::EINVAL),
        }
    }

    /// What the automatic binding of an unbound socket for datagrams to `remote`
    /// answers and does.
    pub open spec fn bound_ephemeral(
        before: UdpSocket,
        net: Seq<NetEntry>,
        remote: IpAddress,
        r: Result<(), SystemError>,
        after: UdpSocket,
        net_after: Seq<NetEntry>,
    ) -> bool {
        &&& after.flags() == before.flags()
        &&& match r {
            Ok(_) => {
                &&& inner::UnboundUdp::ephemeral_outcome(net, remote) matches Ok(choice)
                &&& after.is_bound()
                &&& after.bound().index(net_after) == choice.index
                &&& after.bound().spec_local().addr == choice.local
                &&& EPHEMERAL_PORT_MIN <= after.bound().spec_local().port
                &&& after.bound().spec_remote() is None
                &&& !net[choice.index].iface.table.dom().contains(after.bound().spec_inner().spec_handle())
                &&& !net[choice.index].iface.ports[inner::udp_ports()].ports.contains(after.bound().spec_local().port)
                &&& net_after == with_bounds(
                    inner::net_after_bind(
                        net,
                        choice.index,
                        after.bound().spec_inner().spec_handle(),
                        after.bound().spec_local(),
                        true,
                    ),
                    choice.index,
                    net[choice.index].iface.bounds.push(before.flags().id),
                )
            },
            Err(e) => {
                &&& inner::UnboundUdp::ephemeral_outcome(net, remote) == Err::<
                    crate::socket::inet::common::IfaceChoice,
                    SystemError,
                >(e)
                &&& after.is_unbound()
                &&& net_after == net
            },
        }
    }

    /// Binds an unbound socket for datagrams to `remote`, and lists it among the
    /// bound sockets of the interface chosen.
    fn bind_ephemeral<D>(&mut self, net: &mut NetDevices<D>, remote: IpAddress) -> (r: Result<(), SystemError>)
        requires
            old(net).wf(),
            old(self).is_unbound(),
            old(self).wf(old(net)@),
        ensures
            final(net).wf(),
            final(self).wf(final(net)@),
            net_extends(old(net)@, final(net)@),
            Self::bound_ephemeral(*old(self), old(net)@, remote, r, *final(self), final(net)@),
    {
        match self.inner.take() {
            Some(inner::UdpInner::Unbound(unbound)) => match unbound.bind_ephemeral(net, remote) {
                Ok(bound) => {
                    proof {
                        lemma_choice_in_range(old(net)@, remote);
                        let i = bound.index(net@);
                        let allocated = old(net)@[i].iface.ports[inner::udp_ports()].ports.to_set();
                        assert(!allocated.contains(bound.spec_local().port as int as u16));
                    }
                    let ghost mid = net@;
                    self.list(net, bound);
                    proof {
                        lemma_extends_chain(old(net)@, mid, net@);
                    }
                    Ok(())
                },
                Err((unbound, e)) => {
                    self.inner = Some(inner::UdpInner::Unbound(unbound));
                    Err(e)
                },
            },
            Some(any) => {
                self.inner = Some(any);
                Err(SystemError::EINVAL)
            },
            None => Err(SystemError::EINVAL),
        }
    }

    /// What `connect` answers and does; see [`UdpSocket::connect`].
    pub open spec fn connected(
        before: UdpSocket,
        net: Seq<NetEntry>,
        endpoint: Endpoint,
        r: Result<(), SystemError>,
        after: UdpSocket,
        net_after: Seq<NetEntry>,
    ) -> bool {
        &&& after.flags() == before.flags()
        &&& match (endpoint, before.spec_inner()) {
            (Endpoint::Ip(remote), Some(inner::UdpInner::Bound(bound))) => {
                &&& r is Ok
                &&& after.spec_inner() == Some(inner::UdpInner::Bound(bound.connected_to(remote)))
                &&& net_after == net
            },
            (Endpoint::Ip(remote), Some(inner::UdpInner::Unbound(_))) => exists|mid: UdpSocket|
                {
                    &&& #[trigger] Self::bound_ephemeral(before, net, remote.addr, r, mid, net_after)
                    &&& match r {
                        Ok(_) => after.spec_inner() == Some(inner::UdpInner::Bound(mid.bound().connected_to(remote))),
                        Err(_) => after == mid,
                    }
                },
            _ => r == Err::<(), SystemError>(SystemError::EINVAL) && after.spec_inner() == before.spec_inner()
                && net_after == net,
        }
    }

    /// Records `endpoint` as the endpoint that datagrams go to. A socket that is
    /// not bound is first bound to an ephemeral port on the interface from which the
    /// endpoint is reached.
    ///
    /// An endpoint that is not of the network layer, and a closed socket, are
    /// invalid arguments. Where the automatic binding fails the socket stays
    /// unbound, with the error of [`inner::UnboundUdp::ephemeral_outcome`].
    pub fn connect<D>(&mut self, net: &mut NetDevices<D>, endpoint: Endpoint) -> (r: Result<(), SystemError>)
        requires
            old(net).wf(),
            old(self).wf(old(net)@),
        ensures
            final(net).wf(),
            final(self).wf(final(net)@),
            net_extends(old(net)@, final(net)@),
            Self::connected(*old(self), old(net)@, endpoint, r, *final(self), final(net)@),
    {
        let remote = match endpoint {
            Endpoint::Ip(remote) => remote,
            Endpoint::Other => {
                return Err(SystemError::EINVAL);
            },
        };
        let ghost mid: UdpSocket = *self;
        if let Some(inner::UdpInner::Unbound(_)) = &self.inner {
            let bound = self.bind_ephemeral(net, remote.addr);
            proof {
                mid = *self;
            }
            if let Err(e) = bound {
                assert(Self::bound_ephemeral(*old(self), old(net)@, remote.addr, Err(e), mid, net@));
                return Err(e);
            }
        }
        match &mut self.inner {
            Some(inner::UdpInner::Bound(bound)) => {
                proof {
                    bound.lemma_connected_to(remote);
                }
                bound.connect(remote);
                assert(old(self).is_unbound() ==> Self::bound_ephemeral(
                    *old(self),
                    old(net)@,
                    remote.addr,
                    Ok(()),
                    mid,
                    net@,
                ));
                Ok(())
            },
            _ => Err(SystemError::EINVAL),
        }
    }

    /// What an attempt to send the bytes `data` to the remote endpoint answers and does;
    /// see [`UdpSocket::send`].
    pub open spec fn send_tried(
        before: UdpSocket,
        net: Seq<NetEntry>,
        data: Seq<u8>,
        r: Result<usize, SystemError>,
        after: UdpSocket,
        net_after: Seq<NetEntry>,
    ) -> bool {
        &&& after.flags() == before.flags()
        &&& after.spec_inner() == before.spec_inner()
        &&& match before.spec_inner() {
            Some(inner::UdpInner::Bound(bound)) => bound.sent(net, data, None, r, net_after),
            _ => r == Err::<usize, SystemError>(SystemError::EINVAL) && net_after == net,
        }
    }

    /// What a step of `send` of the bytes `data` answers and does; see [`UdpSocket::send`].
    pub open spec fn send_stepped(
        before: UdpSocket,
        net: Seq<NetEntry>,
        data: Seq<u8>,
        step: Blocking<usize>,
        after: UdpSocket,
        net_after: Seq<NetEntry>,
    ) -> bool {
        exists|attempt: Result<usize, SystemError>|
            {
                &&& #[trigger] Self::send_tried(before, net, data, attempt, after, net_after)
                &&& step == spec_blocking_step(attempt, before.flags().nonblock, EPOLLOUT)
            }
    }

    /// What a step of `send_to` of the bytes `data` to `to` answers and does; see
    /// [`UdpSocket::send_to`].
    pub open spec fn send_to_stepped(
        before: UdpSocket,
        net: Seq<NetEntry>,
        data: Seq<u8>,
        to: Endpoint,
        step: Blocking<usize>,
        after: UdpSocket,
        net_after: Seq<NetEntry>,
    ) -> bool {
        exists|attempt: Result<usize, SystemError>|
            {
                &&& #[trigger] Self::send_to_tried(before, net, data, to, attempt, after, net_after)
                &&& step == spec_blocking_step(attempt, before.flags().nonblock, EPOLLOUT)
            }
    }

    /// What a step of `recv_from` into a buffer that holds `data` after it answers and does; see
    /// [`UdpSocket::recv_from`].
    pub open spec fn recv_from_stepped(
        before: UdpSocket,
        net: Seq<NetEntry>,
        data: Seq<u8>,
        step: Blocking<(usize, Endpoint)>,
        after: UdpSocket,
        net_after: Seq<NetEntry>,
    ) -> bool {
        exists|attempt: Result<(usize, IpEndpoint), SystemError>|
            {
                &&& #[trigger] Self::recv_tried(before, net, data, attempt, after, net_after)
                &&& step == spec_blocking_step(Self::with_sender(attempt), before.flags().nonblock, EPOLLIN)
            }
    }

    /// What a step of `recv` into a buffer that holds `data` after it answers and does; see
    /// [`UdpSocket::recv`].
    pub open spec fn recv_stepped(
        before: UdpSocket,
        net: Seq<NetEntry>,
        data: Seq<u8>,
        step: Blocking<usize>,
        after: UdpSocket,
        net_after: Seq<NetEntry>,
    ) -> bool {
        exists|attempt: Result<(usize, IpEndpoint), SystemError>|
            {
                &&& #[trigger] Self::recv_tried(before, net, data, attempt, after, net_after)
                &&& step == spec_blocking_step(Self::only_size(attempt), before.flags().nonblock, EPOLLIN)
            }
    }

    /// One step of `send`: the datagram `buffer` goes to the endpoint that the
    /// socket is connected to, as [`inner::BoundUdp::try_send`] says; where that
    /// would block and the socket blocks, the step asks to wait for `EPOLLOUT`. A
    /// socket that is not connected is an invalid argument. The flags are not used.
    pub fn send<D>(&mut self, net: &mut NetDevices<D>, buffer: &[u8], flags: PMSG, now_micros: i64) -> (step:
        Blocking<usize>) where D: smoltcp::phy::Device
        requires
            old(net).wf(),
            old(self).wf(old(net)@),
        ensures
            final(net).wf(),
            final(self).wf(final(net)@),
            net_extends(old(net)@, final(net)@),
            Self::send_stepped(*old(self), old(net)@, buffer@, step, *final(self), final(net)@),
    {
        let attempt = match &self.inner {
            Some(inner::UdpInner::Bound(bound)) => bound.try_send(net, buffer, None, now_micros),
            _ => Err(SystemError::EINVAL),
        };
        let step = blocking_step(attempt, self.nonblock, EPOLLOUT);
        assert(Self::send_tried(*old(self), old(net)@, buffer@, attempt, *self, net@));
        step
    }

    /// What an attempt to send the bytes `data` to `to` answers and does; see
    /// [`UdpSocket::send_to`].
    pub open spec fn send_to_tried(
        before: UdpSocket,
        net: Seq<NetEntry>,
        data: Seq<u8>,
        to: Endpoint,
        r: Result<usize, SystemError>,
        after: UdpSocket,
        net_after: Seq<NetEntry>,
    ) -> bool {
        &&& after.flags() == before.flags()
        &&& match (to, before.spec_inner()) {
            (Endpoint::Ip(dest), Some(inner::UdpInner::Bound(bound))) => {
                &&& after.spec_inner() == before.spec_inner()
                &&& bound.sent(net, data, Some(dest), r, net_after)
            },
            (Endpoint::Ip(dest), Some(inner::UdpInner::Unbound(_))) => exists|
                bound: Result<(), SystemError>,
                mid: UdpSocket,
                net_mid: Seq<NetEntry>,
            |
                {
                    &&& #[trigger] Self::bound_ephemeral(before, net, dest.addr, bound, mid, net_mid)
                    &&& match bound {
                        Ok(_) => after == mid && mid.bound().sent(net_mid, data, Some(dest), r, net_after),
                        Err(e) => after == mid && r == Err::<usize, SystemError>(e) && net_after == net_mid,
                    }
                },
            _ => r == Err::<usize, SystemError>(SystemError::EINVAL) && after.spec_inner() == before.spec_inner()
                && net_after == net,
        }
    }

    /// One step of `send_to`: the datagram `buffer` goes to `address`, as
    /// [`inner::BoundUdp::try_send`] says; where that would block and the socket
    /// blocks, the step asks to wait for `EPOLLOUT`. A socket that is not bound is
    /// first bound to an ephemeral port on the interface from which the address is
    /// reached. An address that is not of the network layer, and a closed socket,
    /// are invalid arguments. The flags are not used.
    pub fn send_to<D>(
        &mut self,
        net: &mut NetDevices<D>,
        buffer: &[u8],
        flags: PMSG,
        address: Endpoint,
        now_micros: i64,
    ) -> (step: Blocking<usize>) where D: smoltcp::phy::Device
        requires
            old(net).wf(),
            old(self).wf(old(net)@),
        ensures
            final(net).wf(),
            final(self).wf(final(net)@),
            net_extends(old(net)@, final(net)@),
            Self::send_to_stepped(*old(self), old(net)@, buffer@, address, step, *final(self), final(net)@),
    {
        let nonblock = self.nonblock;
        let dest = match address {
            Endpoint::Ip(dest) => dest,
            Endpoint::Other => {
                let attempt = Err(SystemError::EINVAL);
                assert(Self::send_to_tried(*old(self), old(net)@, buffer@, address, attempt, *self, net@));
                return blocking_step(attempt, nonblock, EPOLLOUT);
            },
        };
        let ghost bound_r: Result<(), SystemError> = Ok(());
        let ghost mid: UdpSocket = *self;
        let ghost net_mid = net@;
        if let Some(inner::UdpInner::Unbound(_)) = &self.inner {
            let bound = self.bind_ephemeral(net, dest.addr);
            proof {
                bound_r = bound;
                mid = *self;
                net_mid = net@;
            }
            if let Err(e) = bound {
                let attempt = Err(e);
                assert(Self::bound_ephemeral(*old(self), old(net)@, dest.addr, bound_r, mid, net_mid));
                assert(Self::send_to_tried(*old(self), old(net)@, buffer@, address, attempt, *self, net@));
                return blocking_step(attempt, nonblock, EPOLLOUT);
            }
        }
        let attempt = match &self.inner {
            Some(inner::UdpInner::Bound(bound)) => bound.try_send(net, buffer, Some(dest), now_micros),
            _ => Err(SystemError::EINVAL),
        };
        proof {
            lemma_extends_chain(old(net)@, net_mid, net@);
            if old(self).is_unbound() {
                assert(Self::bound_ephemeral(*old(self), old(net)@, dest.addr, bound_r, mid, net_mid));
            }
            assert(Self::send_to_tried(*old(self), old(net)@, buffer@, address, attempt, *self, net@));
        }
        blocking_step(attempt, nonblock, EPOLLOUT)
    }

    /// What an attempt to receive into a buffer that holds `data` after it answers and does;
    /// see [`UdpSocket::recv_from`].
    pub open spec fn recv_tried(
        before: UdpSocket,
        net: Seq<NetEntry>,
        data: Seq<u8>,
        r: Result<(usize, IpEndpoint), SystemError>,
        after: UdpSocket,
        net_after: Seq<NetEntry>,
    ) -> bool {
        &&& after.flags() == before.flags()
        &&& after.spec_inner() == before.spec_inner()
        &&& match before.spec_inner() {
            Some(inner::UdpInner::Bound(bound)) => bound.received(net, data, r, net_after),
            _ => r == Err::<(usize, IpEndpoint), SystemError>(SystemError::EINVAL) && net_after == net,
        }
    }

    /// A datagram with the endpoint that sent it, as a socket call hands it out.
    pub open spec fn with_sender(attempt: Result<(usize, IpEndpoint), SystemError>) -> Result<
        (usize, Endpoint),
        SystemError,
    > {
        match attempt {
            Ok((size, from)) => Ok((size, Endpoint::Ip(from))),
            Err(e) => Err(e),
        }
    }

    /// The length of a datagram, as `recv` hands it out.
    pub open spec fn only_size(attempt: Result<(usize, IpEndpoint), SystemError>) -> Result<usize, SystemError> {
        match attempt {
            Ok((size, _)) => Ok(size),
            Err(e) => Err(e),
        }
    }

    /// One step of `recv_from`: a datagram is received into `buffer` as
    /// [`inner::BoundUdp::try_recv`] says, and handed out with the endpoint that
    /// sent it; where no datagram is there and the socket blocks, the step asks to
    /// wait for `EPOLLIN`. A socket that is not bound is an invalid argument. The
    /// flags are not used.
    pub fn recv_from<D>(&mut self, net: &mut NetDevices<D>, buffer: &mut [u8], flags: PMSG, now_micros: i64) -> (step:
        Blocking<(usize, Endpoint)>) where D: smoltcp::phy::Device
        requires
            old(net).wf(),
            old(self).wf(old(net)@),
        ensures
            final(net).wf(),
            final(self).wf(final(net)@),
            filled_front(old(buffer)@, final(buffer)@, step_len_from(step)),
            net_extends(old(net)@, final(net)@),
            Self::recv_from_stepped(*old(self), old(net)@, final(buffer)@, step, *final(self), final(net)@),
    {
        let attempt = match &self.inner {
            Some(inner::UdpInner::Bound(bound)) => bound.try_recv(net, buffer, now_micros),
            _ => Err(SystemError::EINVAL),
        };
        let ghost seen = attempt;
        let mapped = match attempt {
            Ok((size, from)) => Ok((size, Endpoint::Ip(from))),
            Err(e) => Err(e),
        };
        let step = blocking_step(mapped, self.nonblock, EPOLLIN);
        assert(Self::recv_tried(*old(self), old(net)@, buffer@, seen, *self, net@));
        step
    }

    /// One step of `recv`: as `recv_from`, without the endpoint that sent the datagram.
    pub fn recv<D>(&mut self, net: &mut NetDevices<D>, buffer: &mut [u8], flags: PMSG, now_micros: i64) -> (step:
        Blocking<usize>) where D: smoltcp::phy::Device
        requires
            old(net).wf(),
            old(self).wf(old(net)@),
        ensures
            final(net).wf(),
            final(self).wf(final(net)@),
            filled_front(old(buffer)@, final(buffer)@, step_len(step)),
            net_extends(old(net)@, final(net)@),
            Self::recv_stepped(*old(self), old(net)@, final(buffer)@, step, *final(self), final(net)@),
    {
        let attempt = match &self.inner {
            Some(inner::UdpInner::Bound(bound)) => bound.try_recv(net, buffer, now_micros),
            _ => Err(SystemError::EINVAL),
        };
        let ghost seen = attempt;
        let mapped = match attempt {
            Ok((size, _)) => Ok(size),
            Err(e) => Err(e),
        };
        let step = blocking_step(mapped, self.nonblock, EPOLLIN);
        assert(Self::recv_tried(*old(self), old(net)@, buffer@, seen, *self, net@));
        step
    }

    /// What `update_events` makes of the socket: a bound socket has `EPOLLIN` where
    /// its in-stack socket holds a datagram and `EPOLLOUT` where it can send; every
    /// other socket stays as it is.
    pub open spec fn events_updated(before: UdpSocket, net: Seq<NetEntry>, after: UdpSocket) -> bool {
        &&& after.spec_inner() == before.spec_inner()
        &&& match before.spec_inner() {
            Some(inner::UdpInner::Bound(bound)) => after.flags() == (UdpFlags {
                pollee: with_flags(
                    with_flags(before.flags().pollee, EPOLLIN, bound.model(net).can_recv),
                    EPOLLOUT,
                    bound.model(net).can_send,
                ),
                ..before.flags()
            }),
            _ => after.flags() == before.flags(),
        }
    }

    /// Refreshes the readiness flags from the in-stack socket; see
    /// [`UdpSocket::events_updated`].
    pub fn update_events<D>(&mut self, net: &NetDevices<D>)
        requires
            net.wf(),
            old(self).wf(net@),
        ensures
            final(self).wf(net@),
            Self::events_updated(*old(self), net@, *final(self)),
    {
        match &self.inner {
            Some(inner::UdpInner::Bound(bound)) => {
                bound.update_io_events(net, &mut self.pollee);
            },
            _ => {},
        }
    }

    /// Refreshes the socket on an event of its interface, as `update_events` does.
    pub fn on_iface_events<D>(&mut self, net: &NetDevices<D>)
        requires
            net.wf(),
            old(self).wf(net@),
        ensures
            final(self).wf(net@),
            Self::events_updated(*old(self), net@, *final(self)),
    {
        self.update_events(net);
    }

    /// The bindings of the socket: that of its in-stack socket, once it is bound.
    pub open spec fn bindings(&self) -> Seq<BoundInner> {
        match self.spec_inner() {
            Some(inner::UdpInner::Bound(bound)) => seq![bound.spec_inner()],
            _ => Seq::empty(),
        }
    }

    /// The port that closing the socket frees: that of a bound socket.
    pub open spec fn frees(&self) -> Seq<FreedPort> {
        match self.spec_inner() {
            Some(inner::UdpInner::Bound(bound)) => bound.frees(),
            _ => Seq::empty(),
        }
    }

    /// A socket that is well-formed stays so over every change of the registry that
    /// keeps its in-stack socket and its port.
    pub proof fn lemma_keeps_wf(&self, net: Seq<NetEntry>, after: Seq<NetEntry>, gone: Seq<BoundInner>, freed: Seq<FreedPort>)
        requires
            net_inv(net),
            self.wf(net),
            net_keeps(net, after, gone, freed),
            forall|k: int|
                0 <= k < self.bindings().len() ==> !held(
                    gone,
                    (#[trigger] self.bindings()[k]).spec_iface(),
                    self.bindings()[k].spec_handle(),
                ),
            forall|k: int|
                0 <= k < self.frees().len() ==> !is_freed(
                    freed,
                    (#[trigger] self.frees()[k]).key,
                    self.frees()[k].protocol,
                    self.frees()[k].port,
                ),
        ensures
            self.wf(after),
    {
        if let Some(inner::UdpInner::Bound(bound)) = self.spec_inner() {
            assert(self.bindings()[0] == bound.spec_inner());
            assert(self.frees()[0].port == bound.spec_local().port);
            lemma_keeps_binding(net, after, gone, freed, bound.spec_inner());
            lemma_position_found(net, bound.spec_inner().spec_iface());
            let i = bound.index(net);
            assert(net[i].iface.ports[inner::udp_ports()].ports.contains(bound.spec_local().port));
        }
    }

    /// What `close` makes of the socket and of the registry; see [`UdpSocket::close`].
    pub open spec fn closed(before: UdpSocket, net: Seq<NetEntry>, after: UdpSocket, net_after: Seq<NetEntry>) -> bool {
        &&& after.is_closed()
        &&& match before.spec_inner() {
            None => after.flags() == before.flags() && net_after == net,
            Some(state) => {
                &&& after.flags() == (UdpFlags {
                    pollee: with_flags(before.flags().pollee, EPOLLINOUT_BITS, true),
                    scheduled: true,
                    ..before.flags()
                })
                &&& match state {
                    inner::UdpInner::Unbound(_) => net_after == net,
                    inner::UdpInner::Bound(bound) => {
                        let i = bound.index(net);
                        let unlisted = with_bounds(net, i, net[i].iface.bounds.remove_value(before.flags().id));
                        net_after == bound.net_after_release(unlisted)
                    },
                }
            },
        }
    }

    /// Closes the socket.
    ///
    /// A bound socket leaves the list of bound sockets of its interface, frees its
    /// port, and its in-stack socket is closed and leaves the socket table.
    /// Readiness to read and to write is asserted and the waiters are woken, so that
    /// a call that blocks on the socket returns. A closed socket stays closed, and
    /// closing it again changes nothing.
    pub fn close<D>(&mut self, net: &mut NetDevices<D>) -> (r: Result<(), SystemError>)
        requires
            old(net).wf(),
            old(self).wf(old(net)@),
        ensures
            r is Ok,
            final(net).wf(),
            final(self).wf(final(net)@),
            Self::closed(*old(self), old(net)@, *final(self), final(net)@),
            net_keeps(old(net)@, final(net)@, old(self).bindings(), old(self).frees()),
    {
        proof {
            lemma_extends_chain(net@, net@, net@);
            lemma_extends_keeps_all(net@, net@);
        }
        let state = match self.inner.take() {
            None => {
                return Ok(());
            },
            Some(state) => state,
        };
        if let inner::UdpInner::Bound(bound) = state {
            proof {
                lemma_position_found(net@, bound.spec_inner().spec_iface());
                net.lemma_wf();
            }
            let position = bound.inner().position(net);
            net.common_at_mut(position).unbind_socket(self.id);
            let ghost unlisted = net@;
            proof {
                assert(unlisted =~= with_bounds(
                    old(net)@,
                    position as int,
                    old(net)@[position as int].iface.bounds.remove_value(self.id),
                ));
                lemma_same_tables_keeps(old(net)@, unlisted, bound.spec_inner());
                lemma_with_bounds_extends(
                    old(net)@,
                    position as int,
                    old(net)@[position as int].iface.bounds.remove_value(self.id),
                );
                lemma_extends_keeps_all(old(net)@, unlisted);
            }
            bound.close(net);
            let ghost mid = net@;
            bound.release(net);
            proof {
                let h = bound.spec_inner().spec_handle();
                let i = bound.index(unlisted);
                let freed = crate::socket::inet::common::with_ports(
                    unlisted,
                    i,
                    crate::socket::inet::common::port::without_port(
                        unlisted[i].iface.ports,
                        crate::socket::inet::common::Types::Udp,
                        bound.spec_local().port,
                    ),
                );
                let m = crate::stack::SocketModel::Udp(bound.model(mid));
                assert(freed[i].iface.table.insert(h, m).remove(h) =~= freed[i].iface.table.remove(h));
                assert(net@ =~= bound.net_after_release(unlisted));
                let none_held = Seq::<BoundInner>::empty();
                let none_freed = Seq::<FreedPort>::empty();
                let held = old(self).bindings();
                let freed = old(self).frees();
                lemma_keeps_chain(old(net)@, unlisted, mid, none_held, none_held, none_freed, freed);
                assert(none_held + none_held =~= none_held);
                assert(none_freed + freed =~= freed);
                lemma_keeps_chain(old(net)@, mid, net@, none_held, held, freed, none_freed);
                assert(none_held + held =~= held);
                assert(freed + none_freed =~= freed);
            }
        }
        self.pollee.insert(EPollEventType::readable_writable());
        self.wait_queue.wakeup();
        Ok(())
    }
}

/// After a socket that was not bound was bound automatically, the endpoint that it
/// answers for its name has a port of the ephemeral range, which was free, and an
/// address of the interface that was chosen for it.
pub proof fn lemma_ephemeral_name(
    before: UdpSocket,
    net: Seq<NetEntry>,
    remote: IpAddress,
    after: UdpSocket,
    net_after: Seq<NetEntry>,
)
    requires
        UdpSocket::bound_ephemeral(before, net, remote, Ok(()), after, net_after),
    ensures
        after.name() matches Ok(Endpoint::Ip(local)) && {
            &&& EPHEMERAL_PORT_MIN <= local.port <= crate::socket::inet::common::port::EPHEMERAL_PORT_MAX
            &&& local.port != 0
            &&& crate::socket::inet::common::ephemeral_iface(net, remote) matches Some(choice)
            &&& local.addr == choice.local
            &&& net[choice.index].iface.has_addr(local.addr)
            &&& !net[choice.index].iface.ports[inner::udp_ports()].ports.contains(local.port)
        },
{
    crate::socket::inet::common::lemma_ephemeral_address_owned(net, remote);
}

/// Binding to port 0 is refused by the port manager as an invalid argument,
/// wherever an interface serves the address.
pub proof fn lemma_bind_port_zero(socket: UdpSocket, net: Seq<NetEntry>, local: IpEndpoint)
    requires
        socket.is_unbound(),
        local.port == 0,
        crate::socket::inet::common::iface_to_bind(net, local.addr) is Some,
    ensures
        socket.bind_answer(net, local) == Err::<(), SystemError>(SystemError::EINVAL),
{
}

/// Closing a socket that is closed changes nothing: after `close`, a second `close`
/// leaves the socket and the registry as the first left them.
pub proof fn lemma_close_idempotent(
    before: UdpSocket,
    net: Seq<NetEntry>,
    once: UdpSocket,
    net_once: Seq<NetEntry>,
    twice: UdpSocket,
    net_twice: Seq<NetEntry>,
)
    requires
        UdpSocket::closed(before, net, once, net_once),
        UdpSocket::closed(once, net_once, twice, net_twice),
    ensures
        twice.is_closed(),
        twice.flags() == once.flags(),
        net_twice == net_once,
{
}

} // verus!
