//! TCP sockets: the state machine of a stream socket over the sockets of the stack.
use crate::errno::SystemError;
use crate::event_poll::{has_flags, with_flags, EPollEventType, EPOLLIN, EPOLLINOUT_BITS, EPOLLOUT};
use crate::libs::wait_queue::WaitQueue;
use crate::socket::common::shutdown::{Shutdown, ShutdownBit, ShutdownTemp};
use crate::socket::endpoint::Endpoint;
use crate::socket::inet::{blocking_step, spec_blocking_step, step_len, Blocking};
use crate::stack::{filled_front, received_len, spelled_natively, tcp_with_keep_alive, tcp_with_nagle};
use crate::posix::{PMSG, PSOL};
use crate::socket::inet::common::{
    iface_to_bind, lemma_choice_in_range, lemma_position_found, lemma_same_keys_position,
    lemma_extends_chain, lemma_extends_keeps_all, lemma_keeps_chain, lemma_with_bounds_extends,
    lemma_with_iface_keeps, net_extends, net_keeps, position_of, BoundInner, FreedPort,
    same_tables, with_bounds, without_socket, NetDevices, NetEntry,
};
use crate::wire::{unspecified_local_endpoint_v4, IpAddress, IpEndpoint, IpVersion};
use vstd::prelude::*;

pub mod inner;
pub mod option;

pub use option::Options as TcpOption;

verus! {

/// A TCP socket.
pub struct TcpSocket {
    inner: Option<inner::Inner>,
    shutdown: Shutdown,
    nonblock: bool,
    wait_queue: WaitQueue,
    id: usize,
    pollee: EPollEventType,
}

/// What the contracts say of a TCP socket apart from its state.
pub struct TcpFlags {
    /// The halves of the connection that were shut down.
    pub shutdown: ShutdownBit,
    /// Whether calls that would block fail instead.
    pub nonblock: bool,
    /// The id under which interfaces list the socket among their bound sockets.
    pub id: usize,
    /// The readiness flags.
    pub pollee: u32,
    /// Whether a wake-up is pending on the wait queue.
    pub scheduled: bool,
}

impl TcpSocket {
    /// The state of the socket; `None` once it is closed.
    pub closed spec fn spec_inner(&self) -> Option<inner::Inner> {
        self.inner
    }

    /// What the socket holds apart from its state.
    pub closed spec fn flags(&self) -> TcpFlags {
        TcpFlags {
            shutdown: self.shutdown@,
            nonblock: self.nonblock,
            id: self.id,
            pollee: self.pollee@,
            scheduled: self.wait_queue.scheduled(),
        }
    }

    /// The state of an open socket is well-formed with respect to the registry.
    pub open spec fn wf(&self, net: Seq<NetEntry>) -> bool {
        match self.spec_inner() {
            None => true,
            Some(state) => state.wf(net),
        }
    }

    /// The socket is closed.
    pub open spec fn is_closed(&self) -> bool {
        self.spec_inner() is None
    }

    /// The socket is neither bound nor closed.
    pub open spec fn is_unbound(&self) -> bool {
        self.spec_inner() matches Some(inner::Inner::Init(inner::Init::Unbound(_)))
    }

    /// The socket is bound, and neither connects nor listens.
    pub open spec fn is_bound(&self) -> bool {
        self.spec_inner() matches Some(inner::Inner::Init(inner::Init::Bound(_)))
    }

    /// The socket has sent its SYN.
    pub open spec fn is_connecting(&self) -> bool {
        self.spec_inner() matches Some(inner::Inner::Connecting(_))
    }

    /// The socket listens.
    pub open spec fn is_listening(&self) -> bool {
        self.spec_inner() matches Some(inner::Inner::Listening(_))
    }

    /// The socket has a connection.
    pub open spec fn is_established(&self) -> bool {
        self.spec_inner() matches Some(inner::Inner::Established(_))
    }

    /// Whether two sockets are in the same kind of state.
    pub open spec fn same_phase(&self, other: &TcpSocket) -> bool {
        &&& self.is_closed() == other.is_closed()
        &&& self.is_unbound() == other.is_unbound()
        &&& self.is_bound() == other.is_bound()
        &&& self.is_connecting() == other.is_connecting()
        &&& self.is_listening() == other.is_listening()
        &&& self.is_established() == other.is_established()
    }

    /// Whether `other` is this socket as it was, but for the in-stack socket that an
    /// unbound socket holds, which may be another socket of the same kind.
    pub open spec fn same_state(&self, other: &TcpSocket) -> bool {
        &&& self.same_phase(other)
        &&& self.flags() == other.flags()
        &&& !self.is_unbound() ==> self.spec_inner() == other.spec_inner()
        &&& self.is_unbound() ==> self.spec_inner()->0->Init_0.version() == other.spec_inner()->0->Init_0.version()
    }

    /// An unbound socket of the given IP version with the id `id`, under which
    /// interfaces will list it among their bound sockets.
    pub fn new(id: usize, nonblock: bool, ver: IpVersion) -> (s: Self)
        ensures
            s.is_unbound(),
            s.spec_inner()->0->Init_0.version() == ver,
            s.flags() == (TcpFlags {
                shutdown: ShutdownBit { rd: false, wr: false },
                nonblock,
                id,
                pollee: 0,
                scheduled: false,
            }),
            forall|net: Seq<NetEntry>| s.wf(net),
    {
        TcpSocket {
            inner: Some(inner::Inner::Init(inner::Init::new(ver))),
            shutdown: Shutdown::new(),
            nonblock,
            wait_queue: WaitQueue::default(),
            id,
            pollee: EPollEventType::empty(),
        }
    }

    /// A socket around a connection that was accepted: ready to read and to write.
    pub fn new_established(id: usize, inner: inner::Established, nonblock: bool) -> (s: Self)
        ensures
            s.spec_inner() == Some(inner::Inner::Established(inner)),
            s.flags() == (TcpFlags {
                shutdown: ShutdownBit { rd: false, wr: false },
                nonblock,
                id,
                pollee: EPOLLINOUT_BITS,
                scheduled: false,
            }),
    {
        TcpSocket {
            inner: Some(inner::Inner::Established(inner)),
            shutdown: Shutdown::new(),
            nonblock,
            wait_queue: WaitQueue::default(),
            id,
            pollee: EPollEventType::readable_writable(),
        }
    }

    /// Whether calls that would block fail instead.
    pub fn is_nonblock(&self) -> (b: bool)
        ensures
            b == self.flags().nonblock,
    {
        self.nonblock
    }

    /// Makes calls that would block fail instead, or block again.
    pub fn set_nonblock(&mut self, nonblock: bool)
        ensures
            final(self).spec_inner() == old(self).spec_inner(),
            final(self).flags() == (TcpFlags { nonblock, ..old(self).flags() }),
    {
        self.nonblock = nonblock;
    }

    /// The id under which interfaces list the socket among their bound sockets.
    pub fn id(&self) -> (id: usize)
        ensures
            id == self.flags().id,
    {
        self.id
    }

    /// The halves of the connection that were shut down.
    pub fn shutdown_state(&self) -> (halves: ShutdownTemp)
        ensures
            halves.spec_bits() == self.flags().shutdown,
    {
        self.shutdown.get()
    }

    /// What `do_bind` answers: an invalid argument for a socket that is not in its
    /// initial state, else the answer of [`inner::Init::bind_outcome`].
    pub open spec fn bind_answer(&self, net: Seq<NetEntry>, local: IpEndpoint) -> Result<(), SystemError> {
        match self.spec_inner() {
            Some(inner::Inner::Init(init)) => match init.bind_outcome(net, local) {
                Ok(_) => Ok(()),
                Err(e) => Err(e),
            },
            _ => Err(SystemError::EINVAL),
        }
    }

    /// What `do_bind` answers and does; see [`TcpSocket::do_bind`].
    pub open spec fn bind_done(
        before: TcpSocket,
        net: Seq<NetEntry>,
        local_endpoint: IpEndpoint,
        r: Result<(), SystemError>,
        after: TcpSocket,
        net_after: Seq<NetEntry>,
    ) -> bool {
        &&& after.flags() == before.flags()
        &&& r == before.bind_answer(net, local_endpoint)
        &&& match r {
            Ok(_) => {
                &&& after.spec_inner() matches Some(inner::Inner::Init(inner::Init::Bound((bound, local))))
                &&& local == local_endpoint
                &&& before.spec_inner()->0->Init_0.bind_outcome(net, local_endpoint) == Ok::<int, SystemError>(
                    bound.index(net_after),
                )
                &&& !net[bound.index(net_after)].iface.table.dom().contains(bound.spec_handle())
                &&& net_after == with_bounds(
                    inner::net_after_bind(
                        net,
                        bound.index(net_after),
                        bound.spec_handle(),
                        inner::fresh_socket(),
                        local.port,
                    ),
                    bound.index(net_after),
                    net[bound.index(net_after)].iface.bounds.push(before.flags().id),
                )
            },
            Err(_) => after.same_state(&before) && net_after == net,
        }
    }

    /// Binds the socket to `local_endpoint` and lists it among the bound sockets of
    /// the interface that serves the address.
    ///
    /// On success the in-stack socket is in the socket table of that interface, the
    /// port is reserved there, and the socket's id is the last of the interface's
    /// bound sockets. On failure nothing has changed.
    pub fn do_bind<D>(&mut self, net: &mut NetDevices<D>, local_endpoint: IpEndpoint) -> (r: Result<(), SystemError>)
        requires
            old(net).wf(),
            old(self).wf(old(net)@),
        ensures
            final(net).wf(),
            final(self).wf(final(net)@),
            net_extends(old(net)@, final(net)@),
            Self::bind_done(*old(self), old(net)@, local_endpoint, r, *final(self), final(net)@),
    {
        match self.inner.take() {
            Some(inner::Inner::Init(init)) => match init.bind(net, local_endpoint) {
                Ok(bound) => {
                    let ghost mid = net@;
                    if let inner::Init::Bound((ref b, _)) = bound {
                        proof {
                            lemma_position_found(mid, b.spec_iface());
                        }
                        let index = b.position(net);
                        net.common_at_mut(index).bind_socket(self.id);
                        proof {
                            lemma_choice_in_range(old(net)@, local_endpoint.addr);
                            lemma_with_iface_keeps(mid, index as int, net@[index as int].iface, *b);
                            assert(net@ =~= with_bounds(
                                mid,
                                index as int,
                                mid[index as int].iface.bounds.push(self.id),
                            ));
                            lemma_with_bounds_extends(
                                mid,
                                index as int,
                                mid[index as int].iface.bounds.push(self.id),
                            );
                            lemma_extends_chain(old(net)@, mid, net@);
                            assert(b.index(net@) == index);
                            assert(mid == inner::net_after_bind(
                                old(net)@,
                                index as int,
                                b.spec_handle(),
                                inner::fresh_socket(),
                                local_endpoint.port,
                            ));
                            assert(mid[index as int].iface.bounds == old(net)@[index as int].iface.bounds);
                            assert(inner::tcp_port_reserved(net@, index as int, local_endpoint.port));
                        }
                    }
                    self.inner = Some(inner::Inner::Init(bound));
                    Ok(())
                },
                Err((init, e)) => {
                    self.inner = Some(inner::Inner::Init(init));
                    Err(e)
                },
            },
            Some(any) => {
                self.inner = Some(any);
                Err(SystemError::EINVAL)
            },
            None => Err(SystemError::EINVAL),
        }
    }

    /// Why `do_listen` fails, if it does: an invalid argument for a socket that is
    /// not in its initial state, else the error of [`inner::Init::listen_error`].
    pub open spec fn listen_answer(&self, net: Seq<NetEntry>, backlog: usize) -> Result<(), SystemError> {
        match self.spec_inner() {
            Some(inner::Inner::Init(init)) => match init.listen_error(net, backlog) {
                None => Ok(()),
                Some(e) => Err(e),
            },
            _ => Err(SystemError::EINVAL),
        }
    }

    /// What `do_listen` answers and does; see [`TcpSocket::do_listen`].
    pub open spec fn listen_done(
        before: TcpSocket,
        net: Seq<NetEntry>,
        backlog: usize,
        r: Result<(), SystemError>,
        after: TcpSocket,
        net_after: Seq<NetEntry>,
    ) -> bool {
        &&& after.flags() == before.flags()
        &&& r == before.listen_answer(net, backlog)
        &&& match r {
            Ok(_) => {
                &&& after.spec_inner() matches Some(inner::Inner::Listening(listening))
                &&& listening.backlog() == backlog
                &&& before.spec_inner()->0->Init_0.listened(
                    net,
                    backlog,
                    Ok::<inner::Listening, (inner::Init, SystemError)>(listening),
                    net_after,
                )
            },
            Err(_) => after.spec_inner() == before.spec_inner() && net_after == net,
        }
    }

    /// Starts to listen with a backlog of `backlog` connections; a backlog of 0 is an
    /// invalid argument.
    ///
    /// On success the socket listens with one in-stack socket for each connection of
    /// the backlog; see [`inner::Init::listen`]. On failure nothing has changed.
    pub fn do_listen<D>(&mut self, net: &mut NetDevices<D>, backlog: usize) -> (r: Result<(), SystemError>)
        requires
            old(net).wf(),
            old(self).wf(old(net)@),
        ensures
            final(net).wf(),
            final(self).wf(final(net)@),
            net_extends(old(net)@, final(net)@),
            Self::listen_done(*old(self), old(net)@, backlog, r, *final(self), final(net)@),
    {
        match self.inner.take() {
            Some(inner::Inner::Init(init)) => match init.listen(net, backlog) {
                Ok(listening) => {
                    self.inner = Some(inner::Inner::Listening(listening));
                    Ok(())
                },
                Err((init, e)) => {
                    self.inner = Some(inner::Inner::Init(init));
                    Err(e)
                },
            },
            Some(any) => {
                self.inner = Some(any);
                Err(SystemError::EINVAL)
            },
            None => Err(SystemError::EINVAL),
        }
    }

    /// What `try_accept` answers and does; see [`TcpSocket::try_accept`].
    pub open spec fn accept_tried(
        before: TcpSocket,
        net: Seq<NetEntry>,
        child_id: usize,
        r: Result<(TcpSocket, IpEndpoint), SystemError>,
        after: TcpSocket,
        net_after: Seq<NetEntry>,
    ) -> bool {
        &&& after.flags() == before.flags()
        &&& after.same_phase(&before)
        &&& match before.spec_inner() {
            Some(inner::Inner::Listening(listening)) => {
                &&& after.spec_inner() matches Some(inner::Inner::Listening(listening_after))
                &&& listening_after.backlog() == listening.backlog()
                &&& listening_after.spec_cursor() == listening.spec_cursor()
                &&& listening_after.spec_listen_addr() == listening.spec_listen_addr()
                &&& match r {
                    Ok((child, remote)) => {
                        &&& child.spec_inner() matches Some(inner::Inner::Established(established))
                        &&& child.flags() == (TcpFlags {
                            shutdown: ShutdownBit { rd: false, wr: false },
                            nonblock: before.flags().nonblock,
                            id: child_id,
                            pollee: EPOLLINOUT_BITS,
                            scheduled: false,
                        })
                        &&& exists|mid: Seq<NetEntry>|
                            {
                                &&& #[trigger] inner::Listening::accepted(
                                    listening,
                                    net,
                                    Ok::<(inner::Established, IpEndpoint), SystemError>((established, remote)),
                                    listening_after,
                                    mid,
                                )
                                &&& net_after == Self::listed_at(mid, established.spec_inner().spec_iface(), child_id)
                            }
                    },
                    Err(e) => inner::Listening::accepted(
                        listening,
                        net,
                        Err::<(inner::Established, IpEndpoint), SystemError>(e),
                        listening_after,
                        net_after,
                    ),
                }
            },
            _ => {
                &&& r matches Err(e)
                &&& e == SystemError::EINVAL
                &&& after.spec_inner() == before.spec_inner()
                &&& net_after == net
            },
        }
    }

    /// Hands out a connection of a listening socket as a new socket with the id
    /// `child_id`, together with the endpoint of its peer; see
    /// [`inner::Listening::accept`]. The new socket is listed among the bound sockets
    /// of the interface of its connection.
    ///
    /// A socket that does not listen is an invalid argument. A listening socket
    /// without a connection under its cursor would block. The backlog stays what
    /// it is, whatever the answer.
    pub fn try_accept<D>(&mut self, net: &mut NetDevices<D>, child_id: usize) -> (r: Result<
        (TcpSocket, IpEndpoint),
        SystemError,
    >)
        requires
            old(net).wf(),
            old(self).wf(old(net)@),
        ensures
            final(net).wf(),
            final(self).wf(final(net)@),
            r is Ok ==> r->Ok_0.0.wf(final(net)@),
            net_extends(old(net)@, final(net)@),
            Self::accept_tried(*old(self), old(net)@, child_id, r, *final(self), final(net)@),
    {
        let nonblock = self.nonblock;
        match &mut self.inner {
            Some(inner::Inner::Listening(listening)) => match listening.accept(net) {
                Ok((stream, remote)) => {
                    let ghost mid = net@;
                    proof {
                        lemma_position_found(mid, stream.spec_inner().spec_iface());
                    }
                    Self::enlist_at(net, stream.iface(), child_id);
                    proof {
                        (inner::Inner::Listening(*listening)).lemma_same_tables_wf(mid, net@);
                        (inner::Inner::Established(stream)).lemma_same_tables_wf(mid, net@);
                        lemma_extends_chain(old(net)@, mid, net@);
                    }
                    Ok((TcpSocket::new_established(child_id, stream, nonblock), remote))
                },
                Err(e) => Err(e),
            },
            _ => Err(SystemError::EINVAL),
        }
    }

    /// What `update_events` makes of the socket; see [`TcpSocket::update_events`].
    pub open spec fn events_updated(before: TcpSocket, net: Seq<NetEntry>, ended: bool, after: TcpSocket) -> bool {
        match before.spec_inner() {
            Some(inner::Inner::Connecting(connecting)) => {
                let next = connecting.spec_result().spec_next(connecting.model(net).state);
                &&& after.spec_inner() == Some(inner::Inner::Connecting(connecting.with_result(next)))
                &&& after.flags() == before.flags()
                &&& ended == (next != inner::ConnectResult::Connecting)
            },
            Some(inner::Inner::Established(established)) => {
                &&& after.spec_inner() == before.spec_inner()
                &&& after.flags() == (TcpFlags {
                    pollee: with_flags(
                        with_flags(before.flags().pollee, EPOLLOUT, established.model(net).can_send),
                        EPOLLIN,
                        established.model(net).can_recv,
                    ),
                    ..before.flags()
                })
                &&& !ended
            },
            Some(inner::Inner::Listening(listening)) => {
                &&& after.spec_inner() matches Some(inner::Inner::Listening(listening_after))
                &&& after.flags() == (TcpFlags { pollee: after.flags().pollee, ..before.flags() })
                &&& inner::Listening::events_updated(
                    listening,
                    net,
                    before.flags().pollee,
                    listening_after,
                    after.flags().pollee,
                )
                &&& !ended
            },
            _ => after.spec_inner() == before.spec_inner() && after.flags() == before.flags() && !ended,
        }
    }

    /// Looks at the in-stack sockets and refreshes what the socket knows of them:
    /// a connecting socket records how far the attempt has come, an established one
    /// sets `EPOLLOUT` and `EPOLLIN` from what can be sent and received, a listening
    /// one moves its cursor to a connection and sets `EPOLLIN` where there is one.
    ///
    /// Returns whether a connection attempt has ended, with a connection or with
    /// a refusal.
    pub fn update_events<D>(&mut self, net: &NetDevices<D>) -> (ended: bool)
        requires
            net.wf(),
            old(self).wf(net@),
        ensures
            final(self).wf(net@),
            Self::events_updated(*old(self), net@, ended, *final(self)),
    {
        match &mut self.inner {
            None => false,
            Some(inner::Inner::Init(_)) => false,
            Some(inner::Inner::Connecting(connecting)) => {
                proof {
                    connecting.lemma_with_result(
                        connecting.spec_result().spec_next(connecting.model(net@).state),
                    );
                }
                connecting.update_io_events(net)
            },
            Some(inner::Inner::Established(established)) => {
                established.update_io_events(net, &mut self.pollee);
                false
            },
            Some(inner::Inner::Listening(listening)) => {
                listening.update_io_events(net, &mut self.pollee);
                false
            },
        }
    }

    /// Whether `EPOLLIN` is set.
    pub fn is_epoll_in(&self) -> (b: bool)
        ensures
            b == has_flags(self.flags().pollee, EPOLLIN),
    {
        self.pollee.contains(EPollEventType::readable())
    }

    /// Whether `EPOLLOUT` is set.
    pub fn is_epoll_out(&self) -> (b: bool)
        ensures
            b == has_flags(self.flags().pollee, EPOLLOUT),
    {
        self.pollee.contains(EPollEventType::writable())
    }

    /// What `finish_connect` answers and makes of the socket; see
    /// [`TcpSocket::finish_connect`].
    pub open spec fn connect_finished(before: TcpSocket, r: Result<(), SystemError>, after: TcpSocket) -> bool {
        &&& after.flags() == before.flags()
        &&& match before.spec_inner() {
            Some(inner::Inner::Connecting(connecting)) => {
                &&& after.spec_inner() matches Some(state)
                &&& connecting.resulted(state, r)
            },
            _ => r == Err::<(), SystemError>(SystemError::EINVAL) && after.spec_inner() == before.spec_inner(),
        }
    }

    /// Ends the connecting state according to the last observation; see
    /// [`inner::Connecting::into_result`]. A socket that is not connecting is an
    /// invalid argument and stays as it is.
    pub fn finish_connect(&mut self) -> (r: Result<(), SystemError>)
        ensures
            Self::connect_finished(*old(self), r, *final(self)),
            forall|net: Seq<NetEntry>| old(self).wf(net) ==> final(self).wf(net),
    {
        match self.inner.take() {
            Some(inner::Inner::Connecting(conn)) => {
                let (state, result) = conn.into_result();
                self.inner = Some(state);
                result
            },
            Some(any) => {
                self.inner = Some(any);
                Err(SystemError::EINVAL)
            },
            None => Err(SystemError::EINVAL),
        }
    }

    /// What `on_iface_events` makes of the socket: what `update_events` makes of
    /// it, and then what `finish_connect` makes of it where a connection attempt
    /// has led to a connection; a refusal is only recorded.
    pub open spec fn refreshed(before: TcpSocket, net: Seq<NetEntry>, after: TcpSocket) -> bool {
        exists|ended: bool, mid: TcpSocket|
            {
                &&& #[trigger] Self::events_updated(before, net, ended, mid)
                &&& if mid.connection_seen() {
                    Self::connect_finished(mid, Ok::<(), SystemError>(()), after)
                } else {
                    after == mid
                }
            }
    }

    /// Whether the socket is connecting and has seen its attempt lead to a
    /// connection.
    pub open spec fn connection_seen(&self) -> bool {
        self.spec_inner() matches Some(inner::Inner::Connecting(connecting)) && connecting.spec_result()
            == inner::ConnectResult::Connected
    }

    /// Refreshes the socket on an event of its interface: what `update_events`
    /// does, and then `finish_connect` where a connection attempt has led to a
    /// connection. A refused attempt is only recorded: the socket stays as it is
    /// until `check_connect` has reported the refusal.
    pub fn on_iface_events<D>(&mut self, net: &NetDevices<D>)
        requires
            net.wf(),
            old(self).wf(net@),
        ensures
            final(self).wf(net@),
            final(self).flags().id == old(self).flags().id,
            Self::refreshed(*old(self), net@, *final(self)),
    {
        let ended = self.update_events(net);
        let ghost mid = *self;
        let connected = match &self.inner {
            Some(inner::Inner::Connecting(connecting)) => connecting.is_connected(),
            _ => false,
        };
        if connected {
            let r = self.finish_connect();
            assert(Self::connect_finished(mid, r, *self));
        }
        assert(Self::events_updated(*old(self), net@, ended, mid));
    }

    /// What `check_connect` answers and makes of the socket; see
    /// [`TcpSocket::check_connect`].
    pub open spec fn connect_checked(before: TcpSocket, net: Seq<NetEntry>, r: Result<(), SystemError>, after: TcpSocket) -> bool {
        &&& after.flags() == before.flags()
        &&& match before.spec_inner() {
            Some(inner::Inner::Connecting(connecting)) => {
                let next = connecting.spec_result().spec_next(connecting.model(net).state);
                &&& after.spec_inner() matches Some(state)
                &&& connecting.with_result(next).resulted(state, r)
            },
            Some(inner::Inner::Established(_)) => r is Ok && after.spec_inner() == before.spec_inner(),
            _ => r == Err::<(), SystemError>(SystemError::EINVAL) && after.spec_inner() == before.spec_inner(),
        }
    }

    /// Looks how far a connection attempt has come: a connecting socket looks at
    /// its in-stack socket, records what it sees, and ends the connecting state
    /// accordingly. An established socket answers success; every other state is an
    /// invalid argument. The readiness flags stay as they are: they change with the
    /// events of the interface only.
    pub fn check_connect<D>(&mut self, net: &NetDevices<D>) -> (r: Result<(), SystemError>)
        requires
            net.wf(),
            old(self).wf(net@),
        ensures
            final(self).wf(net@),
            Self::connect_checked(*old(self), net@, r, *final(self)),
    {
        match self.inner.take() {
            Some(inner::Inner::Connecting(mut conn)) => {
                proof {
                    conn.lemma_with_result(conn.spec_result().spec_next(conn.model(net@).state));
                }
                conn.update_io_events(net);
                let (state, result) = conn.into_result();
                self.inner = Some(state);
                result
            },
            Some(inner::Inner::Established(es)) => {
                self.inner = Some(inner::Inner::Established(es));
                Ok(())
            },
            Some(any) => {
                self.inner = Some(any);
                Err(SystemError::EINVAL)
            },
            None => Err(SystemError::EINVAL),
        }
    }

    /// The registry once a socket that was not bound before it started to connect,
    /// and is now in the state `state`, is listed among the bound sockets of the
    /// interface that it was bound on; a socket that was bound is listed already.
    pub open spec fn listed_anew(init: inner::Init, state: inner::Inner, net: Seq<NetEntry>, id: usize) -> Seq<
        NetEntry,
    > {
        if init is Unbound {
            Self::listed(state, net, id)
        } else {
            net
        }
    }

    /// What `start_connect` answers and does; see [`TcpSocket::start_connect`].
    pub open spec fn connect_started(
        before: TcpSocket,
        net: Seq<NetEntry>,
        remote: IpEndpoint,
        r: Result<(), SystemError>,
        after: TcpSocket,
        net_after: Seq<NetEntry>,
    ) -> bool {
        &&& after.flags() == before.flags()
        &&& match before.spec_inner() {
            None => r == Err::<(), SystemError>(SystemError::EINVAL) && after.is_closed() && net_after == net,
            Some(inner::Inner::Init(init)) => exists|
                attempt: Result<inner::Connecting, (inner::Init, SystemError)>,
                mid: Seq<NetEntry>,
            |
                {
                    &&& #[trigger] init.connected(net, remote, attempt, mid)
                    &&& match attempt {
                        Ok(connecting) => {
                            &&& after.spec_inner() == Some(inner::Inner::Connecting(connecting))
                            &&& r == if before.flags().nonblock {
                                Err::<(), SystemError>(SystemError::EINPROGRESS)
                            } else {
                                Ok::<(), SystemError>(())
                            }
                            &&& inner::net_polled(
                                Self::listed_anew(init, inner::Inner::Connecting(connecting), mid, before.flags().id),
                                net_after,
                                connecting.spec_inner().index(mid),
                            )
                        },
                        Err((init_after, e)) => {
                            &&& after.spec_inner() == Some(inner::Inner::Init(init_after))
                            &&& r == Err::<(), SystemError>(e)
                            &&& net_after == Self::listed_anew(
                                init,
                                inner::Inner::Init(init_after),
                                mid,
                                before.flags().id,
                            )
                        },
                    }
                },
            Some(inner::Inner::Connecting(connecting)) => {
                &&& after.spec_inner() == before.spec_inner()
                &&& if before.flags().nonblock {
                    r == Err::<(), SystemError>(SystemError::EALREADY) && net_after == net
                } else {
                    r is Ok && inner::net_polled(net, net_after, connecting.spec_inner().index(net))
                }
            },
            Some(_) => r == Err::<(), SystemError>(SystemError::EISCONN) && after.spec_inner() == before.spec_inner()
                && net_after == net,
        }
    }

    /// Starts to connect to `remote_endpoint`, and polls the interface at the time
    /// `now_micros` so that the SYN is sent.
    ///
    /// A socket in its initial state connects as [`inner::Init::connect`] says; the
    /// answer is then success, or "in progress" for a non-blocking socket. A socket
    /// that was not bound and was bound for the connection is listed among the bound
    /// sockets of its interface, as a socket that `bind` has bound is. A socket
    /// that is connecting already answers success, or "already" where it is
    /// non-blocking. A listening or established socket is connected already. A
    /// closed socket is an invalid argument.
    pub fn start_connect<D>(&mut self, net: &mut NetDevices<D>, remote_endpoint: IpEndpoint, now_micros: i64) -> (r:
        Result<(), SystemError>) where D: smoltcp::phy::Device
        requires
            old(net).wf(),
            old(self).wf(old(net)@),
        ensures
            final(net).wf(),
            final(self).wf(final(net)@),
            net_extends(old(net)@, final(net)@),
            Self::connect_started(*old(self), old(net)@, remote_endpoint, r, *final(self), final(net)@),
    {
        let nonblock = self.nonblock;
        match self.inner.take() {
            None => Err(SystemError::EINVAL),
            Some(inner::Inner::Init(init)) => {
                let was_unbound = match &init {
                    inner::Init::Unbound(_) => true,
                    inner::Init::Bound(_) => false,
                };
                let attempt = init.connect(net, remote_endpoint);
                let ghost mid = net@;
                let ghost seen = attempt;
                let r = match attempt {
                    Ok(connecting) => {
                        let state = inner::Inner::Connecting(connecting);
                        if was_unbound {
                            Self::enlist(&state, net, self.id);
                        }
                        let ghost listed = net@;
                        state.poll_iface(net, now_micros);
                        proof {
                            lemma_extends_chain(old(net)@, mid, listed);
                            lemma_extends_chain(old(net)@, listed, net@);
                        }
                        self.inner = Some(state);
                        if !nonblock {
                            Ok(())
                        } else {
                            Err(SystemError::EINPROGRESS)
                        }
                    },
                    Err((init, e)) => {
                        let state = inner::Inner::Init(init);
                        if was_unbound {
                            Self::enlist(&state, net, self.id);
                        }
                        proof {
                            lemma_extends_chain(old(net)@, mid, net@);
                        }
                        self.inner = Some(state);
                        Err(e)
                    },
                };
                assert(init.connected(old(net)@, remote_endpoint, seen, mid));
                r
            },
            Some(inner::Inner::Connecting(connecting)) => {
                let state = inner::Inner::Connecting(connecting);
                if nonblock {
                    self.inner = Some(state);
                    Err(SystemError::EALREADY)
                } else {
                    state.poll_iface(net, now_micros);
                    self.inner = Some(state);
                    Ok(())
                }
            },
            Some(any) => {
                self.inner = Some(any);
                Err(SystemError::EISCONN)
            },
        }
    }

    /// What `try_recv` into a buffer that holds `data` after it answers and does; see
    /// [`TcpSocket::try_recv`].
    pub open spec fn recv_tried(
        before: TcpSocket,
        net: Seq<NetEntry>,
        data: Seq<u8>,
        r: Result<usize, SystemError>,
        after: TcpSocket,
        net_after: Seq<NetEntry>,
    ) -> bool {
        &&& after.flags() == before.flags()
        &&& after.spec_inner() == before.spec_inner()
        &&& match before.spec_inner() {
            None => r == Err::<usize, SystemError>(SystemError::ECONNRESET) && net_after == net,
            Some(inner::Inner::Established(established)) => exists|polled: Seq<NetEntry>, taken: Seq<NetEntry>|
                {
                    &&& inner::net_polled(net, polled, established.index(net))
                    &&& established.wf(polled)
                    &&& #[trigger] established.received(polled, data, r, taken)
                    &&& inner::net_polled(taken, net_after, established.index(net))
                },
            Some(state) => {
                &&& r == Err::<usize, SystemError>(SystemError::EINVAL)
                &&& exists|polled: Seq<NetEntry>|
                    #[trigger] state.iface_polled(net, polled) && state.iface_polled(polled, net_after)
            },
        }
    }

    /// Tries to receive into `buf`, with a poll of the interface at the time
    /// `now_micros` before and after, so that what has arrived is seen and what is
    /// to be acknowledged is sent.
    ///
    /// An established socket receives as [`inner::Established::recv_slice`] says.
    /// A closed socket answers that the connection was reset; every other state is an
    /// invalid argument.
    pub fn try_recv<D>(&mut self, net: &mut NetDevices<D>, buf: &mut [u8], now_micros: i64) -> (r: Result<
        usize,
        SystemError,
    >) where D: smoltcp::phy::Device
        requires
            old(net).wf(),
            old(self).wf(old(net)@),
        ensures
            final(net).wf(),
            final(self).wf(final(net)@),
            filled_front(old(buf)@, final(buf)@, received_len(r)),
            net_extends(old(net)@, final(net)@),
            Self::recv_tried(*old(self), old(net)@, final(buf)@, r, *final(self), final(net)@),
    {
        match &self.inner {
            None => Err(SystemError::ECONNRESET),
            Some(state) => {
                state.poll_iface(net, now_micros);
                let ghost polled = net@;
                let result = match state {
                    inner::Inner::Established(established) => established.recv_slice(net, buf),
                    _ => Err(SystemError::EINVAL),
                };
                let ghost taken = net@;
                proof {
                    if let inner::Inner::Established(established) = state {
                        lemma_position_found(old(net)@, established.spec_inner().spec_iface());
                        lemma_same_keys_position(old(net)@, polled, established.spec_inner().spec_iface());
                        lemma_same_keys_position(polled, taken, established.spec_inner().spec_iface());
                    }
                }
                state.poll_iface(net, now_micros);
                proof {
                    lemma_extends_chain(old(net)@, polled, taken);
                    lemma_extends_chain(old(net)@, taken, net@);
                    if let inner::Inner::Established(established) = state {
                        assert(established.received(polled, buf@, result, taken));
                    } else {
                        assert(state.iface_polled(old(net)@, polled));
                    }
                }
                result
            },
        }
    }

    /// What `try_send` of the bytes `data` answers and does; see [`TcpSocket::try_send`].
    pub open spec fn send_tried(
        before: TcpSocket,
        net: Seq<NetEntry>,
        data: Seq<u8>,
        r: Result<usize, SystemError>,
        after: TcpSocket,
        net_after: Seq<NetEntry>,
    ) -> bool {
        &&& after.flags() == before.flags()
        &&& after.spec_inner() == before.spec_inner()
        &&& match before.spec_inner() {
            None => r == Err::<usize, SystemError>(SystemError::EINVAL) && net_after == net,
            Some(inner::Inner::Established(established)) => exists|queued: Seq<NetEntry>|
                {
                    &&& #[trigger] established.sent(net, data, r, queued)
                    &&& inner::net_polled(queued, net_after, established.index(net))
                },
            Some(state) => r == Err::<usize, SystemError>(SystemError::EINVAL) && state.iface_polled(net, net_after),
        }
    }

    /// Tries to send the data of `buf`, and polls the interface at the time
    /// `now_micros` so that what was queued is sent.
    ///
    /// An established socket sends as [`inner::Established::send_slice`] says; every
    /// other state is an invalid argument.
    pub fn try_send<D>(&mut self, net: &mut NetDevices<D>, buf: &[u8], now_micros: i64) -> (r: Result<
        usize,
        SystemError,
    >) where D: smoltcp::phy::Device
        requires
            old(net).wf(),
            old(self).wf(old(net)@),
        ensures
            final(net).wf(),
            final(self).wf(final(net)@),
            net_extends(old(net)@, final(net)@),
            Self::send_tried(*old(self), old(net)@, buf@, r, *final(self), final(net)@),
    {
        match &self.inner {
            None => Err(SystemError::EINVAL),
            Some(state) => {
                let sent = match state {
                    inner::Inner::Established(established) => established.send_slice(net, buf),
                    _ => Err(SystemError::EINVAL),
                };
                let ghost queued = net@;
                proof {
                    if let inner::Inner::Established(established) = state {
                        lemma_position_found(old(net)@, established.spec_inner().spec_iface());
                        lemma_same_keys_position(old(net)@, queued, established.spec_inner().spec_iface());
                    }
                }
                state.poll_iface(net, now_micros);
                proof {
                    lemma_extends_chain(old(net)@, queued, net@);
                    if let inner::Inner::Established(established) = state {
                        assert(established.sent(old(net)@, buf@, sent, queued));
                    }
                }
                sent
            },
        }
    }

    /// The wait queue of the socket.
    pub fn wait_queue(&self) -> (q: &WaitQueue)
        ensures
            q.scheduled() == self.flags().scheduled,
    {
        &self.wait_queue
    }

    /// The wait queue of the socket, to begin a wait on it; nothing else changes.
    pub fn wait_queue_mut(&mut self) -> (q: &mut WaitQueue)
        ensures
            q.scheduled() == old(self).flags().scheduled,
            final(self).spec_inner() == old(self).spec_inner(),
            final(self).flags() == (TcpFlags { scheduled: final(q).scheduled(), ..old(self).flags() }),
    {
        &mut self.wait_queue
    }

    /// The local endpoint that the socket answers: the unspecified endpoint for an
    /// unbound IPv4 socket, and nothing that is implemented for an unbound IPv6
    /// socket; the endpoint that a bound socket was bound to; the endpoint that a
    /// listening socket listens on; and the local endpoint of the in-stack socket for
    /// a connecting or established one, which is not connected where it has none.
    pub open spec fn name(&self, net: Seq<NetEntry>) -> Result<Endpoint, SystemError> {
        match self.spec_inner() {
            None => Err(SystemError::EINVAL),
            Some(inner::Inner::Init(inner::Init::Unbound((_, ver)))) => match ver {
                IpVersion::Ipv4 => Ok(Endpoint::Ip(unspecified_local_endpoint_v4())),
                IpVersion::Ipv6 => Err(SystemError::ENOSYS),
            },
            Some(inner::Inner::Init(inner::Init::Bound((_, local)))) => Ok(Endpoint::Ip(local)),
            Some(inner::Inner::Connecting(connecting)) => match connecting.model(net).local {
                Some(e) => Ok(Endpoint::Ip(e)),
                None => Err(SystemError::ENOTCONN),
            },
            Some(inner::Inner::Established(established)) => match established.model(net).local {
                Some(e) => Ok(Endpoint::Ip(e)),
                None => Err(SystemError::ENOTCONN),
            },
            Some(inner::Inner::Listening(listening)) => Ok(
                Endpoint::Ip(
                    IpEndpoint {
                        addr: listening.spec_listen_addr().spec_addr_or_unspecified(),
                        port: listening.spec_listen_addr().port,
                    },
                ),
            ),
        }
    }

    /// Returns the local endpoint of the socket; see [`TcpSocket::name`].
    pub fn get_name<D>(&self, net: &NetDevices<D>) -> (r: Result<Endpoint, SystemError>)
        requires
            net.wf(),
            self.wf(net@),
        ensures
            r == self.name(net@),
    {
        match &self.inner {
            None => Err(SystemError::EINVAL),
            Some(inner::Inner::Init(inner::Init::Unbound((_, ver)))) => match ver {
                IpVersion::Ipv4 => Ok(Endpoint::Ip(IpEndpoint::new(IpAddress::Ipv4(0), 0))),
                IpVersion::Ipv6 => Err(SystemError::ENOSYS),
            },
            Some(inner::Inner::Init(inner::Init::Bound((_, local)))) => Ok(Endpoint::Ip(*local)),
            Some(inner::Inner::Connecting(connecting)) => match connecting.get_name(net) {
                Some(e) => Ok(Endpoint::Ip(e)),
                None => Err(SystemError::ENOTCONN),
            },
            Some(inner::Inner::Established(established)) => match established.get_name(net) {
                Some(e) => Ok(Endpoint::Ip(e)),
                None => Err(SystemError::ENOTCONN),
            },
            Some(inner::Inner::Listening(listening)) => Ok(Endpoint::Ip(listening.get_name())),
        }
    }

    /// The endpoint of the peer: that of the in-stack socket of a connecting or
    /// established socket; every other socket is not connected.
    pub open spec fn peer_name(&self, net: Seq<NetEntry>) -> Result<Endpoint, SystemError> {
        match self.spec_inner() {
            Some(inner::Inner::Connecting(connecting)) => match connecting.model(net).remote {
                Some(e) => Ok(Endpoint::Ip(e)),
                None => Err(SystemError::ENOTCONN),
            },
            Some(inner::Inner::Established(established)) => match established.model(net).remote {
                Some(e) => Ok(Endpoint::Ip(e)),
                None => Err(SystemError::ENOTCONN),
            },
            _ => Err(SystemError::ENOTCONN),
        }
    }

    /// Returns the endpoint of the peer; see [`TcpSocket::peer_name`].
    pub fn get_peer_name<D>(&self, net: &NetDevices<D>) -> (r: Result<Endpoint, SystemError>)
        requires
            net.wf(),
            self.wf(net@),
        ensures
            r == self.peer_name(net@),
    {
        match &self.inner {
            Some(inner::Inner::Connecting(connecting)) => match connecting.get_peer_name(net) {
                Some(e) => Ok(Endpoint::Ip(e)),
                None => Err(SystemError::ENOTCONN),
            },
            Some(inner::Inner::Established(established)) => match established.get_peer_name(net) {
                Some(e) => Ok(Endpoint::Ip(e)),
                None => Err(SystemError::ENOTCONN),
            },
            _ => Err(SystemError::ENOTCONN),
        }
    }

    /// What `bind` answers and does: what `do_bind` does for an endpoint of the
    /// network layer; every other endpoint is an invalid argument.
    pub open spec fn bound(
        before: TcpSocket,
        net: Seq<NetEntry>,
        endpoint: Endpoint,
        r: Result<(), SystemError>,
        after: TcpSocket,
        net_after: Seq<NetEntry>,
    ) -> bool {
        match endpoint {
            Endpoint::Ip(local) => Self::bind_done(before, net, local, r, after, net_after),
            Endpoint::Other => r == Err::<(), SystemError>(SystemError::EINVAL) && after == before && net_after == net,
        }
    }

    /// Binds the socket to an endpoint of the network layer, as `do_bind` does;
    /// every other endpoint is an invalid argument.
    pub fn bind<D>(&mut self, net: &mut NetDevices<D>, endpoint: Endpoint) -> (r: Result<(), SystemError>)
        requires
            old(net).wf(),
            old(self).wf(old(net)@),
        ensures
            final(net).wf(),
            final(self).wf(final(net)@),
            final(self).flags() == old(self).flags(),
            net_extends(old(net)@, final(net)@),
            Self::bound(*old(self), old(net)@, endpoint, r, *final(self), final(net)@),
            r is Ok ==> final(self).is_bound() && final(self).name(final(net)@) == Ok::<Endpoint, SystemError>(
                endpoint,
            ),
            r is Err ==> final(self).same_state(old(self)) && final(net)@ == old(net)@,
    {
        match endpoint {
            Endpoint::Ip(addr) => self.do_bind(net, addr),
            Endpoint::Other => Err(SystemError::EINVAL),
        }
    }

    /// The readiness flags, as a number.
    pub fn poll(&self) -> (events: usize)
        ensures
            events == self.flags().pollee,
    {
        self.pollee.bits() as usize
    }

    /// Starts to listen, as `do_listen` does.
    pub fn listen<D>(&mut self, net: &mut NetDevices<D>, backlog: usize) -> (r: Result<(), SystemError>)
        requires
            old(net).wf(),
            old(self).wf(old(net)@),
        ensures
            final(net).wf(),
            final(self).wf(final(net)@),
            net_extends(old(net)@, final(net)@),
            Self::listen_done(*old(self), old(net)@, backlog, r, *final(self), final(net)@),
    {
        self.do_listen(net, backlog)
    }

    /// The size of the transmit buffer: that of the in-stack socket, or the default
    /// size where the socket has not come to use one.
    pub fn send_buffer_size<D>(&self, net: &NetDevices<D>) -> (n: usize)
        requires
            net.wf(),
            self.wf(net@),
        ensures
            n == match self.spec_inner() {
                None => inner::DEFAULT_TX_BUF_SIZE,
                Some(state) => match state.primary() {
                    None => inner::DEFAULT_TX_BUF_SIZE,
                    Some(b) => (b.socket(net@)->Tcp_0).tx_capacity,
                },
            },
    {
        match &self.inner {
            None => inner::DEFAULT_TX_BUF_SIZE,
            Some(state) => state.send_buffer_size(net),
        }
    }

    /// The size of the receive buffer: that of the in-stack socket, or the default
    /// size where the socket has not come to use one.
    pub fn recv_buffer_size<D>(&self, net: &NetDevices<D>) -> (n: usize)
        requires
            net.wf(),
            self.wf(net@),
        ensures
            n == match self.spec_inner() {
                None => inner::DEFAULT_RX_BUF_SIZE,
                Some(state) => match state.primary() {
                    None => inner::DEFAULT_RX_BUF_SIZE,
                    Some(b) => (b.socket(net@)->Tcp_0).rx_capacity,
                },
            },
    {
        match &self.inner {
            None => inner::DEFAULT_RX_BUF_SIZE,
            Some(state) => state.recv_buffer_size(net),
        }
    }

    /// Shuts down the halves of the connection that `how` names: each is added to
    /// the halves that were shut down, and nothing else changes.
    pub fn shutdown(&mut self, how: ShutdownTemp) -> (r: Result<(), SystemError>)
        ensures
            r is Ok,
            final(self).spec_inner() == old(self).spec_inner(),
            final(self).flags() == (TcpFlags {
                shutdown: old(self).flags().shutdown.spec_union(how.spec_bits()),
                ..old(self).flags()
            }),
    {
        let self_shutdown = self.shutdown.get().bits();
        let diff = how.bits().difference(self_shutdown);
        if diff.is_empty() {
            return Ok(());
        }
        if diff.contains(ShutdownBit::shut_rd()) {
            self.shutdown.recv_shutdown();
        }
        if diff.contains(ShutdownBit::shut_wr()) {
            self.shutdown.send_shutdown();
        }
        Ok(())
    }

    /// The bindings of the socket: those of its in-stack sockets that are in a socket
    /// table.
    pub open spec fn bindings(&self) -> Seq<BoundInner> {
        match self.spec_inner() {
            None => Seq::empty(),
            Some(state) => state.bindings(),
        }
    }

    /// The port that closing the socket frees: that of a bound socket and that of a
    /// listening one.
    pub open spec fn frees(&self) -> Seq<FreedPort> {
        match self.spec_inner() {
            Some(inner::Inner::Init(init)) => init.frees(),
            Some(inner::Inner::Listening(listening)) => listening.frees(),
            _ => Seq::empty(),
        }
    }

    /// The registry once the id `id` is added to the bound sockets of the interface
    /// registered under `key`.
    pub open spec fn listed_at(net: Seq<NetEntry>, key: usize, id: usize) -> Seq<NetEntry> {
        let i = position_of(net, key)->0;
        with_bounds(net, i, net[i].iface.bounds.push(id))
    }

    /// The registry once a socket with the id `id` that is in the state `state` is
    /// listed among the bound sockets of its interface, where it has one.
    pub open spec fn listed(state: inner::Inner, net: Seq<NetEntry>, id: usize) -> Seq<NetEntry> {
        match Self::listing_key(state) {
            None => net,
            Some(key) => Self::listed_at(net, key, id),
        }
    }

    /// Adds the id `id` to the bound sockets of the interface registered under `key`.
    fn enlist_at<D>(net: &mut NetDevices<D>, key: usize, id: usize)
        requires
            old(net).wf(),
            position_of(old(net)@, key) is Some,
        ensures
            final(net).wf(),
            net_extends(old(net)@, final(net)@),
            same_tables(old(net)@, final(net)@),
            final(net)@ == Self::listed_at(old(net)@, key, id),
    {
        proof {
            lemma_position_found(net@, key);
        }
        let position = net.position(key).unwrap();
        net.common_at_mut(position).bind_socket(id);
        proof {
            assert(net@ =~= with_bounds(
                old(net)@,
                position as int,
                old(net)@[position as int].iface.bounds.push(id),
            ));
            lemma_with_bounds_extends(
                old(net)@,
                position as int,
                old(net)@[position as int].iface.bounds.push(id),
            );
        }
    }

    /// Lists a socket with the id `id` that is in the state `state` among the bound
    /// sockets of its interface, where it has one.
    fn enlist<D>(state: &inner::Inner, net: &mut NetDevices<D>, id: usize)
        requires
            old(net).wf(),
            state.wf(old(net)@),
        ensures
            final(net).wf(),
            state.wf(final(net)@),
            net_extends(old(net)@, final(net)@),
            same_tables(old(net)@, final(net)@),
            final(net)@ == Self::listed(*state, old(net)@, id),
            match state.primary() {
                None => true,
                Some(b) => b.index(final(net)@) == b.index(old(net)@) && b.socket(final(net)@) == b.socket(old(net)@),
            },
    {
        let key = match state {
            inner::Inner::Init(inner::Init::Bound((bound, _))) => Some(bound.iface()),
            other => other.iface(),
        };
        if let Some(key) = key {
            proof {
                if let Some(b) = state.primary() {
                    lemma_position_found(net@, b.spec_iface());
                } else {
                    lemma_position_found(net@, key);
                }
            }
            Self::enlist_at(net, key, id);
        }
        proof {
            state.lemma_same_tables_wf(old(net)@, net@);
            lemma_extends_chain(net@, net@, net@);
        }
    }

    /// The key of the interface that lists a socket in this state among its bound
    /// sockets, if one does.
    pub open spec fn listing_key(state: inner::Inner) -> Option<usize> {
        match state {
            inner::Inner::Init(inner::Init::Bound((bound, _))) => Some(bound.spec_iface()),
            inner::Inner::Init(inner::Init::Unbound(_)) => None,
            _ => Some(state.primary()->0.spec_iface()),
        }
    }

    /// The registry once the socket with the id `id` is no longer listed among the
    /// bound sockets of its interface.
    pub open spec fn unlisted(state: inner::Inner, net: Seq<NetEntry>, id: usize) -> Seq<NetEntry> {
        match Self::listing_key(state) {
            None => net,
            Some(key) => {
                let i = position_of(net, key)->0;
                with_bounds(net, i, net[i].iface.bounds.remove_value(id))
            },
        }
    }

    /// What closing a socket in the state `state` makes of the registry: the
    /// in-stack sockets are closed and taken out of their socket tables; a bound
    /// socket and a listening one free their port; and the interface of a connection
    /// was polled, so that the FIN could leave.
    pub open spec fn torn_down(state: inner::Inner, net: Seq<NetEntry>, after: Seq<NetEntry>) -> bool {
        match state {
            inner::Inner::Init(inner::Init::Unbound(_)) => after == net,
            inner::Inner::Init(inner::Init::Bound((bound, local))) => after == without_socket(
                inner::Init::net_after_close(bound, local, net),
                bound.index(net),
                bound.spec_handle(),
            ),
            inner::Inner::Connecting(connecting) => exists|established: inner::Established, mid: Seq<NetEntry>|
                {
                    &&& established.spec_inner() == connecting.spec_inner()
                    &&& #[trigger] established.closed(net, mid)
                    &&& after == without_socket(mid, established.index(net), established.spec_inner().spec_handle())
                },
            inner::Inner::Established(established) => exists|mid: Seq<NetEntry>|
                {
                    &&& #[trigger] established.closed(net, mid)
                    &&& after == without_socket(mid, established.index(net), established.spec_inner().spec_handle())
                },
            inner::Inner::Listening(listening) => after == inner::released_upto(
                listening.spec_inners(),
                listening.net_after_close(net),
                listening.spec_inners().len() as int,
            ),
        }
    }

    /// What `close` makes of the socket and of the registry; see [`TcpSocket::close`].
    pub open spec fn closed(before: TcpSocket, net: Seq<NetEntry>, after: TcpSocket, net_after: Seq<NetEntry>) -> bool {
        &&& after.is_closed()
        &&& match before.spec_inner() {
            None => after.flags() == before.flags() && net_after == net,
            Some(state) => {
                &&& after.flags() == (TcpFlags {
                    pollee: with_flags(before.flags().pollee, EPOLLINOUT_BITS, true),
                    scheduled: true,
                    ..before.flags()
                })
                &&& Self::torn_down(state, Self::unlisted(state, net, before.flags().id), net_after)
            },
        }
    }

    /// Closes the socket, with a poll of the interface of a connection at the time
    /// `now_micros`.
    ///
    /// The socket leaves the list of bound sockets of its interface, its in-stack
    /// sockets are closed and leave their socket tables, and a bound or listening
    /// socket frees its port. Readiness to read and to write is asserted and the
    /// waiters are woken, so that a call that blocks on the socket returns. A closed
    /// socket stays closed, and closing it again changes nothing.
    pub fn close<D>(&mut self, net: &mut NetDevices<D>, now_micros: i64) -> (r: Result<(), SystemError>) where
        D: smoltcp::phy::Device,

        requires
            old(net).wf(),
            old(self).wf(old(net)@),
        ensures
            r is Ok,
            final(net).wf(),
            final(self).wf(final(net)@),
            Self::closed(*old(self), old(net)@, *final(self), final(net)@),
            net_keeps(old(net)@, final(net)@, old(self).bindings(), old(self).frees()),
    {
        proof {
            lemma_extends_chain(net@, net@, net@);
            lemma_extends_keeps_all(net@, net@);
        }
        let state = match self.inner.take() {
            None => {
                return Ok(());
            },
            Some(state) => state,
        };
        let key = match &state {
            inner::Inner::Init(inner::Init::Bound((bound, _))) => Some(bound.iface()),
            other => other.iface(),
        };
        if let Some(key) = key {
            proof {
                if let Some(b) = state.primary() {
                    lemma_position_found(net@, b.spec_iface());
                } else {
                    lemma_position_found(net@, key);
                }
            }
            let position = net.position(key).unwrap();
            net.common_at_mut(position).unbind_socket(self.id);
        }
        let ghost listed = net@;
        let ghost none_held = Seq::<BoundInner>::empty();
        let ghost none_freed = Seq::<FreedPort>::empty();
        let ghost held = old(self).bindings();
        let ghost freed = old(self).frees();
        proof {
            assert(listed =~= Self::unlisted(state, old(net)@, self.id));
            state.lemma_same_tables_wf(old(net)@, listed);
            assert(net_extends(old(net)@, listed));
            lemma_extends_keeps_all(old(net)@, listed);
        }
        match state {
            inner::Inner::Connecting(conn) => {
                let conn = conn.into_established();
                conn.close(net, now_micros);
                let ghost mid = net@;
                proof {
                    lemma_position_found(listed, conn.spec_inner().spec_iface());
                    lemma_same_keys_position(listed, mid, conn.spec_inner().spec_iface());
                }
                conn.release(net);
                proof {
                    assert(conn.closed(listed, mid));
                    lemma_extends_chain(old(net)@, listed, mid);
                    lemma_extends_keeps_all(old(net)@, mid);
                    lemma_keeps_chain(old(net)@, mid, net@, none_held, held, none_freed, none_freed);
                    assert(none_held + held =~= held);
                    assert(none_freed + none_freed =~= freed);
                }
            },
            inner::Inner::Established(es) => {
                es.close(net, now_micros);
                let ghost mid = net@;
                proof {
                    lemma_position_found(listed, es.spec_inner().spec_iface());
                    lemma_same_keys_position(listed, mid, es.spec_inner().spec_iface());
                }
                es.release(net);
                proof {
                    assert(es.closed(listed, mid));
                    lemma_extends_chain(old(net)@, listed, mid);
                    lemma_extends_keeps_all(old(net)@, mid);
                    lemma_keeps_chain(old(net)@, mid, net@, none_held, held, none_freed, none_freed);
                    assert(none_held + held =~= held);
                    assert(none_freed + none_freed =~= freed);
                }
            },
            inner::Inner::Listening(ls) => {
                ls.close(net);
                let ghost mid = net@;
                ls.release(net);
                proof {
                    lemma_keeps_chain(old(net)@, listed, mid, none_held, none_held, none_freed, freed);
                    assert(none_held + none_held =~= none_held);
                    assert(none_freed + freed =~= freed);
                    lemma_keeps_chain(old(net)@, mid, net@, none_held, held, freed, none_freed);
                    assert(none_held + held =~= held);
                    assert(freed + none_freed =~= freed);
                }
            },
            inner::Inner::Init(init) => {
                init.close(net);
                let ghost mid = net@;
                proof {
                    lemma_keeps_chain(old(net)@, listed, mid, none_held, none_held, none_freed, freed);
                    assert(none_held + none_held =~= none_held);
                    assert(none_freed + freed =~= freed);
                }
                if let inner::Init::Bound((bound, _)) = init {
                    proof {
                        lemma_position_found(listed, bound.spec_iface());
                        lemma_same_keys_position(listed, net@, bound.spec_iface());
                    }
                    bound.release(net);
                    proof {
                        lemma_keeps_chain(old(net)@, mid, net@, none_held, held, freed, none_freed);
                        assert(none_held + held =~= held);
                        assert(freed + none_freed =~= freed);
                    }
                }
            },
        }
        self.pollee.insert(EPollEventType::readable_writable());
        self.wait_queue.wakeup();
        Ok(())
    }

    /// What `set_option` answers: options of other levels than TCP are accepted and
    /// ignored; an unknown TCP option is an invalid argument; `NoDelay` needs a
    /// value of at least one byte and `KeepIntvl` one of four bytes, and both an
    /// established socket; every other TCP option is accepted and ignored.
    pub open spec fn option_answer(&self, level: PSOL, name: usize, val: Seq<u8>) -> Result<(), SystemError> {
        if level != PSOL::TCP {
            Ok(())
        } else {
            match TcpOption::spec_from_number(name as i32) {
                None => Err(SystemError::EINVAL),
                Some(TcpOption::NoDelay) => if val.len() >= 1 && self.is_established() {
                    Ok(())
                } else {
                    Err(SystemError::EINVAL)
                },
                Some(TcpOption::KeepIntvl) => if val.len() == 4 && self.is_established() {
                    Ok(())
                } else {
                    Err(SystemError::EINVAL)
                },
                Some(_) => Ok(()),
            }
        }
    }

    /// What `set_option` does to the registry: `NoDelay` turns Nagle's algorithm of
    /// the in-stack socket on where the first byte of the value is not 0, and off
    /// where it is; `KeepIntvl` sets the keep-alive interval of the in-stack socket to
    /// the number of seconds that the value spells in the byte order of the machine;
    /// nothing else changes, and nothing at all where the option is refused or
    /// ignored.
    pub open spec fn option_set(
        &self,
        net: Seq<NetEntry>,
        level: PSOL,
        name: usize,
        val: Seq<u8>,
        net_after: Seq<NetEntry>,
    ) -> bool {
        if level == PSOL::TCP && self.option_answer(level, name, val) is Ok {
            match (TcpOption::spec_from_number(name as i32), self.spec_inner()) {
                (Some(TcpOption::NoDelay), Some(inner::Inner::Established(established))) => net_after
                    == established.net_with(net, tcp_with_nagle(established.model(net), val[0] != 0)),
                (Some(TcpOption::KeepIntvl), Some(inner::Inner::Established(established))) => exists|secs: u32| #[trigger]
                    spelled_natively(val[0], val[1], val[2], val[3], secs) && net_after == established.net_with(
                        net,
                        tcp_with_keep_alive(established.model(net), secs),
                    ),
                _ => net_after == net,
            }
        } else {
            net_after == net
        }
    }

    /// Sets an option of the socket; see [`TcpSocket::option_answer`] for the answer
    /// and [`TcpSocket::option_set`] for what is set.
    pub fn set_option<D>(&mut self, net: &mut NetDevices<D>, level: PSOL, name: usize, val: &[u8]) -> (r: Result<
        (),
        SystemError,
    >)
        requires
            old(net).wf(),
            old(self).wf(old(net)@),
        ensures
            final(net).wf(),
            final(self).wf(final(net)@),
            final(self).spec_inner() == old(self).spec_inner(),
            final(self).flags() == old(self).flags(),
            net_extends(old(net)@, final(net)@),
            old(self).option_set(old(net)@, level, name, val@, final(net)@),
            r == old(self).option_answer(level, name, val@),
    {
        proof {
            lemma_extends_chain(net@, net@, net@);
        }
        if level != PSOL::TCP {
            return Ok(());
        }
        let option_name = match TcpOption::try_from(#[verifier::truncate] (name as i32)) {
            Ok(option) => option,
            Err(e) => {
                return Err(e);
            },
        };
        match option_name {
            TcpOption::NoDelay => {
                if val.len() == 0 {
                    return Err(SystemError::EINVAL);
                }
                let nagle_enabled = val[0] != 0;
                match &self.inner {
                    Some(inner::Inner::Established(established)) => {
                        established.set_nagle_enabled(net, nagle_enabled);
                        Ok(())
                    },
                    _ => Err(SystemError::EINVAL),
                }
            },
            TcpOption::KeepIntvl => {
                if val.len() != 4 {
                    return Err(SystemError::EINVAL);
                }
                match &self.inner {
                    Some(inner::Inner::Established(established)) => {
                        let interval = crate::stack::u32_from_ne_bytes(val[0], val[1], val[2], val[3]);
                        established.set_keep_alive(net, interval);
                        Ok(())
                    },
                    _ => Err(SystemError::EINVAL),
                }
            },
            _ => Ok(()),
        }
    }

    /// An accepted socket with the endpoint of its peer, as a socket call hands it out.
    pub open spec fn with_peer(attempt: Result<(TcpSocket, IpEndpoint), SystemError>) -> Result<
        (TcpSocket, Endpoint),
        SystemError,
    > {
        match attempt {
            Ok((child, remote)) => Ok((child, Endpoint::Ip(remote))),
            Err(e) => Err(e),
        }
    }

    /// What a step of `accept` answers and does; see [`TcpSocket::accept`].
    pub open spec fn accept_stepped(
        before: TcpSocket,
        net: Seq<NetEntry>,
        child_id: usize,
        step: Blocking<(TcpSocket, Endpoint)>,
        after: TcpSocket,
        net_after: Seq<NetEntry>,
    ) -> bool {
        exists|attempt: Result<(TcpSocket, IpEndpoint), SystemError>|
            {
                &&& #[trigger] Self::accept_tried(before, net, child_id, attempt, after, net_after)
                &&& step == spec_blocking_step(Self::with_peer(attempt), before.flags().nonblock, EPOLLIN)
            }
    }

    /// What a step of `recv` into a buffer that holds `data` after it answers and does; see
    /// [`TcpSocket::recv`].
    pub open spec fn recv_stepped(
        before: TcpSocket,
        net: Seq<NetEntry>,
        data: Seq<u8>,
        step: Blocking<usize>,
        after: TcpSocket,
        net_after: Seq<NetEntry>,
    ) -> bool {
        exists|attempt: Result<usize, SystemError>|
            {
                &&& #[trigger] Self::recv_tried(before, net, data, attempt, after, net_after)
                &&& step == spec_blocking_step(attempt, before.flags().nonblock, EPOLLIN)
            }
    }

    /// What a step of `send` of the bytes `data` answers and does; see [`TcpSocket::send`].
    pub open spec fn send_stepped(
        before: TcpSocket,
        net: Seq<NetEntry>,
        data: Seq<u8>,
        step: Blocking<usize>,
        after: TcpSocket,
        net_after: Seq<NetEntry>,
    ) -> bool {
        exists|attempt: Result<usize, SystemError>|
            {
                &&& #[trigger] Self::send_tried(before, net, data, attempt, after, net_after)
                &&& step == spec_blocking_step(attempt, before.flags().nonblock, EPOLLOUT)
            }
    }

    /// One step of `accept`: what `try_accept` answers, or, where that would block
    /// and the socket blocks, the request to wait for `EPOLLIN`.
    pub fn accept<D>(&mut self, net: &mut NetDevices<D>, child_id: usize) -> (step: Blocking<(TcpSocket, Endpoint)>)
        requires
            old(net).wf(),
            old(self).wf(old(net)@),
        ensures
            final(net).wf(),
            final(self).wf(final(net)@),
            step matches Blocking::Done(Ok(accepted)) ==> accepted.0.wf(final(net)@),
            net_extends(old(net)@, final(net)@),
            Self::accept_stepped(*old(self), old(net)@, child_id, step, *final(self), final(net)@),
    {
        let attempt = self.try_accept(net, child_id);
        let ghost seen = attempt;
        let mapped = match attempt {
            Ok((child, remote)) => Ok((child, Endpoint::Ip(remote))),
            Err(e) => Err(e),
        };
        let step = blocking_step(mapped, self.nonblock, EPOLLIN);
        assert(Self::accept_tried(*old(self), old(net)@, child_id, seen, *self, net@));
        step
    }

    /// One step of `recv`: what `try_recv` answers, or, where that would block and
    /// the socket blocks, the request to wait for `EPOLLIN`. The flags are not used.
    pub fn recv<D>(&mut self, net: &mut NetDevices<D>, buffer: &mut [u8], flags: PMSG, now_micros: i64) -> (step:
        Blocking<usize>) where D: smoltcp::phy::Device
        requires
            old(net).wf(),
            old(self).wf(old(net)@),
        ensures
            final(net).wf(),
            final(self).wf(final(net)@),
            filled_front(old(buffer)@, final(buffer)@, step_len(step)),
            net_extends(old(net)@, final(net)@),
            Self::recv_stepped(*old(self), old(net)@, final(buffer)@, step, *final(self), final(net)@),
    {
        let attempt = self.try_recv(net, buffer, now_micros);
        let step = blocking_step(attempt, self.nonblock, EPOLLIN);
        assert(Self::recv_tried(*old(self), old(net)@, buffer@, attempt, *self, net@));
        step
    }

    /// One step of `send`: what `try_send` answers, or, where that would block and
    /// the socket blocks, the request to wait for `EPOLLOUT`. The flags are not used.
    pub fn send<D>(&mut self, net: &mut NetDevices<D>, buffer: &[u8], flags: PMSG, now_micros: i64) -> (step:
        Blocking<usize>) where D: smoltcp::phy::Device
        requires
            old(net).wf(),
            old(self).wf(old(net)@),
        ensures
            final(net).wf(),
            final(self).wf(final(net)@),
            net_extends(old(net)@, final(net)@),
            Self::send_stepped(*old(self), old(net)@, buffer@, step, *final(self), final(net)@),
    {
        let attempt = self.try_send(net, buffer, now_micros);
        let step = blocking_step(attempt, self.nonblock, EPOLLOUT);
        assert(Self::send_tried(*old(self), old(net)@, buffer@, attempt, *self, net@));
        step
    }

    /// The step that the answer of `check_connect` amounts to: while the attempt is
    /// under way the caller looks again after the next event of the interface; every
    /// other answer ends the connect.
    pub open spec fn connect_step(checked: Result<(), SystemError>) -> Blocking<()> {
        match checked {
            Err(SystemError::EAGAIN_OR_EWOULDBLOCK) => Blocking::WaitFor(EPOLLOUT),
            _ => Blocking::Done(checked),
        }
    }

    /// What the first step of `connect` answers and does; see [`TcpSocket::connect`].
    pub open spec fn connect_begun(
        before: TcpSocket,
        net: Seq<NetEntry>,
        endpoint: Endpoint,
        step: Blocking<()>,
        after: TcpSocket,
        net_after: Seq<NetEntry>,
    ) -> bool {
        match endpoint {
            Endpoint::Other => step == Blocking::Done(Err::<(), SystemError>(SystemError::EINVAL)) && after
                == before && net_after == net,
            Endpoint::Ip(remote) => exists|started: Result<(), SystemError>, mid: TcpSocket|
                {
                    &&& #[trigger] Self::connect_started(before, net, remote, started, mid, net_after)
                    &&& match started {
                        Err(_) => step == Blocking::Done(started) && after == mid,
                        Ok(_) => Self::connect_retried(mid, net_after, step, after),
                    }
                },
        }
    }

    /// What a later step of `connect` answers and does; see
    /// [`TcpSocket::connect_retry`].
    pub open spec fn connect_retried(before: TcpSocket, net: Seq<NetEntry>, step: Blocking<()>, after: TcpSocket) -> bool {
        exists|checked: Result<(), SystemError>|
            {
                &&& #[trigger] Self::connect_checked(before, net, checked, after)
                &&& step == Self::connect_step(checked)
            }
    }

    /// The first step of `connect`: starts to connect as `start_connect` does, and
    /// where that succeeds looks how far the attempt has come as `check_connect`
    /// does. Every endpoint that is not of the network layer is an invalid argument.
    pub fn connect<D>(&mut self, net: &mut NetDevices<D>, endpoint: Endpoint, now_micros: i64) -> (step: Blocking<
        (),
    >) where D: smoltcp::phy::Device
        requires
            old(net).wf(),
            old(self).wf(old(net)@),
        ensures
            final(net).wf(),
            final(self).wf(final(net)@),
            net_extends(old(net)@, final(net)@),
            Self::connect_begun(*old(self), old(net)@, endpoint, step, *final(self), final(net)@),
    {
        let remote = match endpoint {
            Endpoint::Ip(remote) => remote,
            Endpoint::Other => {
                return Blocking::Done(Err(SystemError::EINVAL));
            },
        };
        let started = self.start_connect(net, remote, now_micros);
        let ghost mid = *self;
        let step = match started {
            Err(e) => Blocking::Done(Err(e)),
            Ok(()) => {
                let checked = self.check_connect(net);
                match checked {
                    Err(SystemError::EAGAIN_OR_EWOULDBLOCK) => Blocking::WaitFor(EPOLLOUT),
                    other => Blocking::Done(other),
                }
            },
        };
        assert(Self::connect_started(*old(self), old(net)@, remote, started, mid, net@));
        step
    }

    /// A later step of `connect`: looks how far the attempt has come, as
    /// `check_connect` does.
    pub fn connect_retry<D>(&mut self, net: &NetDevices<D>) -> (step: Blocking<()>)
        requires
            net.wf(),
            old(self).wf(net@),
        ensures
            final(self).wf(net@),
            Self::connect_retried(*old(self), net@, step, *final(self)),
    {
        let checked = self.check_connect(net);
        match checked {
            Err(SystemError::EAGAIN_OR_EWOULDBLOCK) => Blocking::WaitFor(EPOLLOUT),
            other => Blocking::Done(other),
        }
    }
}

/// Whatever `try_accept` answers on a listening socket, the socket listens
/// afterwards with the backlog that it had: it has as many in-stack sockets as
/// before, and each of them has its entry in a socket table.
pub proof fn lemma_backlog_preserved(
    before: TcpSocket,
    net: Seq<NetEntry>,
    child_id: usize,
    r: Result<(TcpSocket, IpEndpoint), SystemError>,
    after: TcpSocket,
    net_after: Seq<NetEntry>,
)
    requires
        before.is_listening(),
        after.wf(net_after),
        TcpSocket::accept_tried(before, net, child_id, r, after, net_after),
    ensures
        after.is_listening(),
        after.spec_inner()->0->Listening_0.backlog() == before.spec_inner()->0->Listening_0.backlog(),
        forall|j: int|
            0 <= j < after.spec_inner()->0->Listening_0.backlog() ==> (
            #[trigger] after.spec_inner()->0->Listening_0.spec_inners()[j]).is_tcp(net_after),
        r is Ok ==> (after.spec_inner()->0->Listening_0.spec_inners()[before.spec_inner()->0->Listening_0.spec_cursor() as int].socket(
            net_after,
        )->Tcp_0).state == crate::stack::TcpState::Listen,
{
    if let Ok((child, remote)) = r {
        let listening = before.spec_inner()->0->Listening_0;
        let after_listening = after.spec_inner()->0->Listening_0;
        let established = child.spec_inner()->0->Established_0;
        let key = established.spec_inner().spec_iface();
        let cursor = listening.spec_cursor() as int;
        let placed = after_listening.spec_inners()[cursor];
        let mid = choose|mid: Seq<NetEntry>| #[trigger]
            inner::Listening::accepted(
                listening,
                net,
                Ok::<(inner::Established, IpEndpoint), SystemError>((established, remote)),
                after_listening,
                mid,
            ) && net_after == TcpSocket::listed_at(mid, key, child_id);
        lemma_position_found(mid, key);
        let i = position_of(mid, key)->0;
        lemma_with_bounds_extends(mid, i, mid[i].iface.bounds.push(child_id));
        lemma_position_found(net_after, placed.spec_iface());
        lemma_same_keys_position(net, mid, placed.spec_iface());
        lemma_same_keys_position(mid, net_after, placed.spec_iface());
    }
}

/// A listening socket hands out the connections that have come in, one with each
/// notification: where one of its in-stack sockets has a connection when the
/// socket is told of an event of its interface, the socket is readable after that,
/// and `try_accept` then answers with the first connection and its peer, provided
/// that an interface takes the in-stack socket that is to listen in its place.
pub proof fn lemma_accept_in_turn(
    before: TcpSocket,
    net: Seq<NetEntry>,
    waiting: int,
    ended: bool,
    told: TcpSocket,
    child_id: usize,
    r: Result<(TcpSocket, IpEndpoint), SystemError>,
    after: TcpSocket,
    net_after: Seq<NetEntry>,
)
    requires
        before.spec_inner() matches Some(inner::Inner::Listening(listening)) && {
            &&& 0 <= waiting < listening.backlog()
            &&& (listening.spec_inners()[waiting].socket(net)->Tcp_0).state.spec_is_active()
            &&& forall|j: int|
                0 <= j < listening.backlog() && (#[trigger] listening.spec_inners()[j].socket(
                    net,
                )->Tcp_0).state.spec_is_active() ==> (listening.spec_inners()[j].socket(net)->Tcp_0).remote is Some
            &&& iface_to_bind(net, listening.spec_listen_addr().spec_addr_or_unspecified()) is Some
        },
        TcpSocket::events_updated(before, net, ended, told),
        TcpSocket::accept_tried(told, net, child_id, r, after, net_after),
    ensures
        has_flags(told.flags().pollee, EPOLLIN),
        r matches Ok((child, remote)) && {
            let listening = before.spec_inner()->0->Listening_0;
            let first = inner::first_active_from(listening.spec_inners(), net, 0)->0;
            &&& 0 <= first <= waiting
            &&& child.spec_inner() matches Some(inner::Inner::Established(established))
            &&& established.spec_inner() == listening.spec_inners()[first]
            &&& (listening.spec_inners()[first].socket(net)->Tcp_0).remote == Some(remote)
            &&& child.flags().id == child_id
        },
        after.is_listening(),
        after.spec_inner()->0->Listening_0.backlog() == before.spec_inner()->0->Listening_0.backlog(),
{
    let listening = before.spec_inner()->0->Listening_0;
    inner::lemma_first_active(listening.spec_inners(), net, 0, waiting);
    crate::event_poll::lemma_in_out_independent(before.flags().pollee, true);
}

/// A refused connection is reported as such: where a connecting socket is told of
/// an event of its interface when its in-stack socket is no longer open, the socket
/// stays connecting, and `check_connect` then answers that the connection was
/// refused, whatever the registry has become, and leaves the socket unbound.
pub proof fn lemma_refusal_is_reported(
    before: TcpSocket,
    net: Seq<NetEntry>,
    told: TcpSocket,
    later: Seq<NetEntry>,
    r: Result<(), SystemError>,
    after: TcpSocket,
)
    requires
        before.spec_inner() matches Some(inner::Inner::Connecting(connecting)) && {
            &&& connecting.spec_result() == inner::ConnectResult::Connecting
            &&& !connecting.model(net).state.spec_may_send()
            &&& !connecting.model(net).state.spec_is_open()
        },
        TcpSocket::refreshed(before, net, told),
        TcpSocket::connect_checked(told, later, r, after),
    ensures
        told.spec_inner() matches Some(inner::Inner::Connecting(recorded)) && recorded.spec_result()
            == inner::ConnectResult::Refused,
        r == Err::<(), SystemError>(SystemError::ECONNREFUSED),
        after.spec_inner() matches Some(inner::Inner::Init(init)) && init is Unbound,
        after.flags() == before.flags(),
{
    let connecting = before.spec_inner()->0->Connecting_0;
    connecting.lemma_with_result(inner::ConnectResult::Refused);
    let recorded = connecting.with_result(inner::ConnectResult::Refused);
    recorded.lemma_with_result(inner::ConnectResult::Refused);
}

/// `accept` on a listening socket on which no connection has come in would block:
/// where the in-stack socket under the cursor still listens, `try_accept` answers
/// that the call would block, and nothing has changed.
pub proof fn lemma_accept_would_block(
    before: TcpSocket,
    net: Seq<NetEntry>,
    child_id: usize,
    r: Result<(TcpSocket, IpEndpoint), SystemError>,
    after: TcpSocket,
    net_after: Seq<NetEntry>,
)
    requires
        before.spec_inner() matches Some(inner::Inner::Listening(listening)) && (listening.spec_inners()[listening.spec_cursor() as int].socket(
            net,
        )->Tcp_0).state == crate::stack::TcpState::Listen,
        TcpSocket::accept_tried(before, net, child_id, r, after, net_after),
    ensures
        r matches Err(e) && e == SystemError::EAGAIN_OR_EWOULDBLOCK,
        net_after == net,
        after.flags() == before.flags(),
{
}

/// Closing a socket that is closed changes nothing: after `close`, a second `close`
/// leaves the socket and the registry as the first left them.
pub proof fn lemma_close_idempotent(
    before: TcpSocket,
    net: Seq<NetEntry>,
    once: TcpSocket,
    net_once: Seq<NetEntry>,
    twice: TcpSocket,
    net_twice: Seq<NetEntry>,
)
    requires
        TcpSocket::closed(before, net, once, net_once),
        TcpSocket::closed(once, net_once, twice, net_twice),
    ensures
        twice.is_closed(),
        twice.flags() == once.flags(),
        net_twice == net_once,
{
}

/// Binding an unbound socket to port 0 is refused by the port manager as an invalid
/// argument, wherever an interface serves the address.
pub proof fn lemma_bind_port_zero(socket: TcpSocket, net: Seq<NetEntry>, local: IpEndpoint)
    requires
        socket.is_unbound(),
        local.port == 0,
        iface_to_bind(net, local.addr) is Some,
    ensures
        socket.bind_answer(net, local) == Err::<(), SystemError>(SystemError::EINVAL),
{
}

/// Between two polls of its interface the readiness flags of a socket stay as they
/// are, whatever is bound, listened, accepted, started to connect, looked at for
/// the end of a connection attempt, received or sent on it: each of these calls
/// leaves the flags what they were.
pub proof fn lemma_readiness_kept(
    before: TcpSocket,
    net: Seq<NetEntry>,
    after: TcpSocket,
    net_after: Seq<NetEntry>,
    child_id: usize,
    remote: IpEndpoint,
    data: Seq<u8>,
    accepted: Result<(TcpSocket, IpEndpoint), SystemError>,
    started: Result<(), SystemError>,
    moved: Result<usize, SystemError>,
    step: Blocking<()>,
    backlog: usize,
)
    requires
        TcpSocket::accept_tried(before, net, child_id, accepted, after, net_after) || TcpSocket::connect_started(
            before,
            net,
            remote,
            started,
            after,
            net_after,
        ) || TcpSocket::recv_tried(before, net, data, moved, after, net_after) || TcpSocket::send_tried(
            before,
            net,
            data,
            moved,
            after,
            net_after,
        ) || TcpSocket::connect_checked(before, net, started, after) || TcpSocket::connect_retried(
            before,
            net,
            step,
            after,
        ) || TcpSocket::bind_done(before, net, remote, started, after, net_after) || TcpSocket::listen_done(
            before,
            net,
            backlog,
            started,
            after,
            net_after,
        ),
    ensures
        after.flags().pollee == before.flags().pollee,
{
}

} // verus!
