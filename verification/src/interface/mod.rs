//! A network interface: one instance of the protocol stack with its socket table,
//! its port manager and the list of user sockets that are bound to it.
use crate::errno::SystemError;
use crate::socket::inet::common::port::{no_ports, ports_unique, PortManager, PortSpace};
use crate::stack::{
    addrs_have, blocks_wf, iface_addrs, iface_has_ip_addr, iface_ip_addrs, iface_poll, iface_poll_at, spec_blocks,
    iface_push_first_addr, iface_set_first_addr, no_sockets, same_sockets, sockets_add_tcp,
    sockets_add_udp, sockets_get_mut_tcp, sockets_get_mut_udp, sockets_get_tcp, sockets_get_udp,
    sockets_new, sockets_remove, spec_assignable, stack_growable, stack_poll_at, stack_sockets, tcp_after_connect,
    tcp_connect, tcp_connect_ok, tcp_model, udp_model, SocketModel,
};
use crate::wire::{IpAddress, IpCidr, IpEndpoint};
use smoltcp::iface::{Interface, SocketHandle, SocketSet};
use smoltcp::socket::{tcp, udp};
use vstd::prelude::*;

pub mod tap;

verus! {

/// The time of the next poll that an interface records, in milliseconds: the time
/// that its stack wants, a time before 0 taken as 0; and 0 where it wants none.
pub open spec fn spec_next_poll(wanted: Option<i64>) -> u64 {
    match wanted {
        Some(at) => if at < 0 {
            0
        } else {
            at as u64
        },
        None => 0,
    }
}

/// The time of the next poll that an interface records, given what its stack wants.
pub fn next_poll(wanted: Option<i64>) -> (ms: u64)
    ensures
        ms == spec_next_poll(wanted),
{
    match wanted {
        Some(at) => if at < 0 {
            0
        } else {
            at as u64
        },
        None => 0,
    }
}

/// What the socket layer asks of an interface, whatever kind of device carries it.
pub trait Iface {
    /// The part of the interface that does not depend on the device.
    spec fn spec_common(&self) -> IfaceCommon;

    /// The file descriptor to watch for frames, where the device has one.
    spec fn spec_raw_fd(&self) -> Option<i32>;

    /// The part of the interface that does not depend on the device.
    fn common(&self) -> (c: &IfaceCommon)
        ensures
            *c == self.spec_common(),
    ;

    /// The file descriptor to watch for frames, where the device has one.
    fn raw_fd(&self) -> (fd: Option<i32>)
        ensures
            fd == self.spec_raw_fd(),
    ;
}

/// Data common to network devices.
#[derive(Debug)]
pub struct NetDeviceCommonData {
    /// How the address of the interface was assigned.
    pub addr_assign_type: u8,
    /// The type of the network device.
    pub net_device_type: u16,
}

impl Default for NetDeviceCommonData {
    fn default() -> (d: Self)
        ensures
            d.addr_assign_type == 0,
            d.net_device_type == 1,
    {
        Self { addr_assign_type: 0, net_device_type: 1 }
    }
}

/// A socket of the stack that is not yet in a socket table.
pub enum StackSocket {
    Tcp(tcp::Socket<'static>),
    Udp(udp::Socket<'static>),
}

impl StackSocket {
    /// What the contracts say of the socket.
    pub open spec fn model(self) -> SocketModel {
        match self {
            StackSocket::Tcp(s) => SocketModel::Tcp(tcp_model(s)),
            StackSocket::Udp(s) => SocketModel::Udp(udp_model(s)),
        }
    }
}

/// What the contracts say of an interface.
pub struct IfaceView {
    /// The number of the interface.
    pub iface_id: usize,
    /// Whether sockets bound to the unspecified address go to this interface.
    pub default_iface: bool,
    /// The sockets in the interface's socket table, by handle.
    pub table: Map<SocketHandle, SocketModel>,
    /// The address blocks assigned to the interface.
    pub addrs: Seq<IpCidr>,
    /// The ids of the user sockets bound to the interface, in the order of binding.
    pub bounds: Seq<usize>,
    /// The ports allocated on the interface, by the position of their protocol.
    pub ports: Seq<PortSpace>,
    /// When the stack wants to be polled next, in milliseconds; 0 where it does not say.
    pub poll_at_ms: u64,
}

impl IfaceView {
    /// Whether one of the interface's address blocks has exactly this address.
    pub open spec fn has_addr(self, addr: IpAddress) -> bool {
        addrs_have(self.addrs, addr)
    }

    /// Whether the socket table holds a TCP socket under `h`.
    pub open spec fn has_tcp(self, h: SocketHandle) -> bool {
        self.table.dom().contains(h) && self.table[h] is Tcp
    }

    /// Whether the socket table holds a UDP socket under `h`.
    pub open spec fn has_udp(self, h: SocketHandle) -> bool {
        self.table.dom().contains(h) && self.table[h] is Udp
    }
}

/// The part of an interface that does not depend on its device.
pub struct IfaceCommon {
    iface_id: usize,
    smol_iface: Interface,
    sockets: SocketSet<'static>,
    bounds: Vec<usize>,
    port_manager: PortManager,
    poll_at_ms: u64,
    default_iface: bool,
}

impl View for IfaceCommon {
    type V = IfaceView;

    closed spec fn view(&self) -> IfaceView {
        IfaceView {
            iface_id: self.iface_id,
            default_iface: self.default_iface,
            table: stack_sockets(self.sockets),
            addrs: iface_addrs(self.smol_iface),
            bounds: self.bounds@,
            ports: self.port_manager@,
            poll_at_ms: self.poll_at_ms,
        }
    }
}

impl IfaceCommon {
    /// What a new interface around the stack interface `iface` holds, when it is the
    /// default interface with number 1.
    pub open spec fn new_view(iface: Interface) -> IfaceView {
        IfaceView {
            iface_id: 1,
            default_iface: true,
            table: no_sockets(),
            addrs: iface_addrs(iface),
            bounds: Seq::<usize>::empty(),
            ports: no_ports(),
            poll_at_ms: 0,
        }
    }

    /// What a poll keeps of an interface: everything but what its sockets hold and
    /// the time of the next poll; no socket enters or leaves the table.
    pub open spec fn polled(before: IfaceView, after: IfaceView) -> bool {
        &&& same_sockets(before.table, after.table)
        &&& after == (IfaceView { table: after.table, poll_at_ms: after.poll_at_ms, ..before })
    }

    /// The port manager keeps its invariant, and the socket table can always grow.
    pub closed spec fn wf(&self) -> bool {
        &&& self.port_manager.inv()
        &&& stack_growable(self.sockets)
    }

    /// A well-formed interface has six port namespaces, in each of which no port is
    /// allocated twice and port 0 is not allocated.
    pub proof fn lemma_ports(&self)
        requires
            self.wf(),
        ensures
            self@.ports.len() == 6,
            ports_unique(self@.ports),
    {
        self.port_manager.lemma_ports_unique();
    }

    /// An interface around a configured stack interface: no socket, no port, no
    /// bound user socket.
    pub fn new(iface_id: usize, default_iface: bool, iface: Interface) -> (c: Self)
        ensures
            c.wf(),
            c@.iface_id == iface_id,
            c@.default_iface == default_iface,
            c@ == (IfaceView { iface_id, default_iface, ..Self::new_view(iface) }),
    {
        IfaceCommon {
            iface_id,
            smol_iface: iface,
            sockets: sockets_new(),
            bounds: Vec::new(),
            port_manager: PortManager::new(),
            poll_at_ms: 0,
            default_iface,
        }
    }

    /// The time, in milliseconds, at which the stack of the interface, asked at the
    /// time `now_micros`, wants to be polled next, if it wants to.
    pub closed spec fn wanted_poll(&self, now_micros: i64) -> Option<i64> {
        stack_poll_at(self.smol_iface, self.sockets, now_micros)
    }

    /// Lets the stack exchange frames with `device` at the time `now_micros`, and
    /// records when it wants to be polled next; see [`next_poll`].
    ///
    /// Returns whether the state of a socket may have changed. No socket enters or
    /// leaves the table; what the sockets hold is whatever the network brought. The
    /// list of bound sockets stays as it is: the sockets themselves are not held
    /// here, and [`crate::socket::poll_iface`] notifies them after each poll.
    pub fn poll<D>(&mut self, device: &mut D, now_micros: i64) -> (has_events: bool) where
        D: smoltcp::phy::Device + ?Sized,

        requires
            old(self).wf(),
        ensures
            final(self).wf(),
            Self::polled(old(self)@, final(self)@),
            final(self)@.poll_at_ms == spec_next_poll(final(self).wanted_poll(now_micros)),
    {
        let has_events = iface_poll(&mut self.smol_iface, &mut self.sockets, device, now_micros);
        let wanted = iface_poll_at(&mut self.smol_iface, &self.sockets, now_micros);
        self.poll_at_ms = next_poll(wanted);
        has_events
    }

    /// Replaces the interface's first address block by the one given, or assigns it
    /// where the interface has none.
    ///
    /// Fails with an invalid argument unless exactly one block is given, and its
    /// address is a unicast address or the unspecified IPv4 address.
    pub fn update_ip_addrs(&mut self, ip_addrs: &[IpCidr]) -> (r: Result<(), SystemError>)
        requires
            old(self).wf(),
        ensures
            final(self).wf(),
            r is Ok <==> ip_addrs@.len() == 1 && spec_assignable(ip_addrs@[0]),
            r is Err ==> r->Err_0 == SystemError::EINVAL && final(self)@ == old(self)@,
            r is Ok ==> final(self)@ == (IfaceView {
                addrs: if old(self)@.addrs.len() > 0 {
                    old(self)@.addrs.update(0, ip_addrs@[0])
                } else {
                    seq![ip_addrs@[0]]
                },
                ..old(self)@
            }),
    {
        if ip_addrs.len() != 1 {
            return Err(SystemError::EINVAL);
        }
        let cidr = ip_addrs[0];
        let addr = cidr.address();
        let assignable = addr.is_unicast() || match addr {
            IpAddress::Ipv4(bits) => bits == 0,
            IpAddress::Ipv6(_) => false,
        };
        if !assignable {
            return Err(SystemError::EINVAL);
        }
        let current = iface_ip_addrs(&self.smol_iface);
        let ghost before = iface_addrs(self.smol_iface);
        if current.len() > 0 {
            iface_set_first_addr(&mut self.smol_iface, cidr.parts());
        } else {
            iface_push_first_addr(&mut self.smol_iface, cidr.parts());
        }
        proof {
            let after = iface_addrs(self.smol_iface);
            let expected = if before.len() > 0 {
                before.update(0, cidr)
            } else {
                seq![cidr]
            };
            assert(spec_blocks(after).len() == after.len());
            assert(spec_blocks(before).len() == before.len());
            assert forall|i: int| 0 <= i < after.len() implies after[i] == expected[i] by {
                assert(spec_blocks(after)[i] == after[i].spec_parts());
                if i > 0 {
                    assert(spec_blocks(before)[i] == before[i].spec_parts());
                }
                IpCidr::lemma_same_parts(after[i], expected[i]);
            }
            assert(after =~= expected);
        }
        Ok(())
    }

    /// Appends a user socket to the list of bound sockets.
    pub fn bind_socket(&mut self, socket_id: usize)
        requires
            old(self).wf(),
        ensures
            final(self).wf(),
            final(self)@ == (IfaceView { bounds: old(self)@.bounds.push(socket_id), ..old(self)@ }),
    {
        self.bounds.push(socket_id);
    }

    /// Takes the first occurrence of a user socket out of the list of bound sockets;
    /// nothing happens where it is not in the list.
    pub fn unbind_socket(&mut self, socket_id: usize)
        requires
            old(self).wf(),
        ensures
            final(self).wf(),
            final(self)@ == (IfaceView { bounds: old(self)@.bounds.remove_value(socket_id), ..old(self)@ }),
    {
        let mut i: usize = 0;
        while i < self.bounds.len()
            invariant
                i <= self.bounds@.len(),
                *self == *old(self),
                self.wf(),
                forall|j: int| 0 <= j < i ==> self.bounds@[j] != socket_id,
            decreases self.bounds@.len() - i,
        {
            if self.bounds[i] == socket_id {
                proof {
                    let s = self.bounds@;
                    assert(s.index_of_first(socket_id) == Some(i as int)) by {
                        s.index_of_first_ensures(socket_id);
                    }
                }
                self.bounds.remove(i);
                return ;
            }
            i += 1;
        }
        proof {
            let s = self.bounds@;
            assert(s.index_of_first(socket_id) is None) by {
                s.index_of_first_ensures(socket_id);
            }
        }
    }

    /// Whether sockets bound to the unspecified address go to this interface.
    pub fn is_default_iface(&self) -> (b: bool)
        ensures
            b == self@.default_iface,
    {
        self.default_iface
    }

    /// The number of the interface.
    pub fn iface_id(&self) -> (id: usize)
        ensures
            id == self@.iface_id,
    {
        self.iface_id
    }

    /// When the stack wants to be polled next, in milliseconds; 0 where it does not say.
    pub fn poll_at_ms(&self) -> (at: u64)
        ensures
            at == self@.poll_at_ms,
    {
        self.poll_at_ms
    }

    /// The ids of the user sockets bound to the interface.
    pub fn bounds(&self) -> (ids: &Vec<usize>)
        ensures
            ids@ == self@.bounds,
    {
        &self.bounds
    }

    /// The interface's port manager.
    pub fn port_manager(&self) -> (m: &PortManager)
        requires
            self.wf(),
        ensures
            m@ == self@.ports,
            m.inv(),
    {
        &self.port_manager
    }

    /// The interface's port manager, to allocate or free ports.
    pub fn port_manager_mut(&mut self) -> (m: &mut PortManager)
        requires
            old(self).wf(),
        ensures
            m@ == old(self)@.ports,
            m.inv(),
            final(self)@ == (IfaceView { ports: final(m)@, ..old(self)@ }),
            final(m).inv() ==> final(self).wf(),
    {
        &mut self.port_manager
    }

    /// The address blocks assigned to the interface.
    pub fn ip_addrs(&self) -> (addrs: Vec<IpCidr>)
        ensures
            addrs@ == self@.addrs,
    {
        let blocks = iface_ip_addrs(&self.smol_iface);
        let ghost assigned = iface_addrs(self.smol_iface);
        let mut addrs: Vec<IpCidr> = Vec::new();
        let mut i: usize = 0;
        while i < blocks.len()
            invariant
                i <= blocks@.len(),
                blocks@ == spec_blocks(assigned),
                blocks_wf(blocks@),
                addrs@ == assigned.take(i as int),
            decreases blocks@.len() - i,
        {
            let block = IpCidr::from_parts(blocks[i]);
            proof {
                assert(blocks@[i as int] == assigned[i as int].spec_parts());
                IpCidr::lemma_same_parts(block, assigned[i as int]);
            }
            addrs.push(block);
            proof {
                assert(addrs@ =~= assigned.take(i + 1));
            }
            i += 1;
        }
        proof {
            assert(assigned.take(i as int) =~= assigned);
        }
        addrs
    }

    /// Whether one of the interface's address blocks has exactly this address.
    pub fn has_ip_addr(&self, addr: IpAddress) -> (b: bool)
        ensures
            b == self@.has_addr(addr),
    {
        iface_has_ip_addr(&self.smol_iface, addr)
    }

    /// Puts a socket into the socket table and returns its handle, which was free.
    pub fn add_socket(&mut self, socket: StackSocket) -> (h: SocketHandle)
        requires
            old(self).wf(),
        ensures
            final(self).wf(),
            !old(self)@.table.dom().contains(h),
            final(self)@ == (IfaceView { table: old(self)@.table.insert(h, socket.model()), ..old(self)@ }),
    {
        match socket {
            StackSocket::Tcp(s) => sockets_add_tcp(&mut self.sockets, s),
            StackSocket::Udp(s) => sockets_add_udp(&mut self.sockets, s),
        }
    }

    /// Takes the socket under `h` out of the socket table.
    pub fn remove_socket(&mut self, h: SocketHandle)
        requires
            old(self).wf(),
            old(self)@.table.dom().contains(h),
        ensures
            final(self).wf(),
            final(self)@ == (IfaceView { table: old(self)@.table.remove(h), ..old(self)@ }),
    {
        sockets_remove(&mut self.sockets, h);
    }

    /// The TCP socket under `h`.
    pub fn tcp<'a>(&'a self, h: SocketHandle) -> (s: &'a tcp::Socket<'static>)
        requires
            self@.has_tcp(h),
        ensures
            SocketModel::Tcp(tcp_model(*s)) == self@.table[h],
    {
        sockets_get_tcp(&self.sockets, h)
    }

    /// The TCP socket under `h`, to change it; nothing else of the interface changes.
    pub fn tcp_mut<'a>(&'a mut self, h: SocketHandle) -> (s: &'a mut tcp::Socket<'static>)
        requires
            old(self).wf(),
            old(self)@.has_tcp(h),
        ensures
            final(self).wf(),
            SocketModel::Tcp(tcp_model(*s)) == old(self)@.table[h],
            final(self)@ == (IfaceView {
                table: old(self)@.table.insert(h, SocketModel::Tcp(tcp_model(*final(s)))),
                ..old(self)@
            }),
    {
        sockets_get_mut_tcp(&mut self.sockets, h)
    }

    /// The UDP socket under `h`.
    pub fn udp<'a>(&'a self, h: SocketHandle) -> (s: &'a udp::Socket<'static>)
        requires
            self@.has_udp(h),
        ensures
            SocketModel::Udp(udp_model(*s)) == self@.table[h],
    {
        sockets_get_udp(&self.sockets, h)
    }

    /// The UDP socket under `h`, to change it; nothing else of the interface changes.
    pub fn udp_mut<'a>(&'a mut self, h: SocketHandle) -> (s: &'a mut udp::Socket<'static>)
        requires
            old(self).wf(),
            old(self)@.has_udp(h),
        ensures
            final(self).wf(),
            SocketModel::Udp(udp_model(*s)) == old(self)@.table[h],
            final(self)@ == (IfaceView {
                table: old(self)@.table.insert(h, SocketModel::Udp(udp_model(*final(s)))),
                ..old(self)@
            }),
    {
        sockets_get_mut_udp(&mut self.sockets, h)
    }

    /// Asks the TCP socket under `h` to connect from `local` to `remote`.
    ///
    /// The stack refuses on an open socket, on port 0 or an unspecified address at
    /// either end, and on ends of two IP versions; the socket is then as before.
    pub fn tcp_connect(&mut self, h: SocketHandle, remote: IpEndpoint, local: IpEndpoint) -> (ok: bool)
        requires
            old(self).wf(),
            old(self)@.has_tcp(h),
        ensures
            final(self).wf(),
            ok == tcp_connect_ok(old(self)@.table[h]->Tcp_0, remote, local),
            final(self)@ == (IfaceView {
                table: old(self)@.table.insert(
                    h,
                    SocketModel::Tcp(tcp_after_connect(old(self)@.table[h]->Tcp_0, remote, local)),
                ),
                ..old(self)@
            }),
    {
        let s = sockets_get_mut_tcp(&mut self.sockets, h);
        let r = tcp_connect(s, &mut self.smol_iface, remote, local);
        r.is_ok()
    }
}

} // verus!
