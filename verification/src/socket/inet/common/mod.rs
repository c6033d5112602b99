//! What the sockets of the internet family share: the kinds of in-stack socket, the
//! port manager, the registry of interfaces, and the binding of a socket to an
//! interface.
use crate::errno::SystemError;
use crate::interface::tap::TapIface;
use crate::interface::{spec_next_poll, IfaceCommon, IfaceView, StackSocket};
use crate::stack::cidr_contains;
use crate::stack::cidr_contains_addr;
use crate::stack::SocketModel;
use crate::wire::{IpAddress, IpCidr};
use smoltcp::iface::SocketHandle;
use smoltcp::socket::{tcp, udp};
use vstd::prelude::*;

pub mod port;

pub use port::PortManager;

verus! {

/// The kinds of socket that an interface can hold; each has a port namespace of its own.
#[derive(Clone, Copy, Debug, PartialEq, Eq, Structural)]
pub enum Types {
    Raw,
    Icmp,
    Udp,
    Tcp,
    Dhcpv4,
    Dns,
}

impl Types {
    /// The position of the kind's port namespace.
    pub open spec fn spec_index(self) -> int {
        match self {
            Types::Raw => 0,
            Types::Icmp => 1,
            Types::Udp => 2,
            Types::Tcp => 3,
            Types::Dhcpv4 => 4,
            Types::Dns => 5,
        }
    }
}

/// What the contracts say of one entry of the registry of interfaces.
pub struct NetEntry {
    /// The key under which the interface is registered.
    pub key: usize,
    /// The interface.
    pub iface: IfaceView,
    /// The file descriptor to watch for the interface's frames, where it has one.
    pub raw_fd: Option<i32>,
}

/// Whether the keys of `entries` increase strictly.
pub open spec fn keys_increase(entries: Seq<NetEntry>) -> bool {
    forall|i: int, j: int| 0 <= i < j < entries.len() ==> entries[i].key < entries[j].key
}

/// The position of the entry with key `key`, counting from `from`.
pub open spec fn position_from(entries: Seq<NetEntry>, key: usize, from: int) -> Option<int>
    decreases entries.len() - from,
{
    if from < 0 || from >= entries.len() {
        None
    } else if entries[from].key == key {
        Some(from)
    } else {
        position_from(entries, key, from + 1)
    }
}

/// The position of the entry with key `key`.
pub open spec fn position_of(entries: Seq<NetEntry>, key: usize) -> Option<int> {
    position_from(entries, key, 0)
}

/// The position of the first default interface, counting from `from`.
pub open spec fn default_from(entries: Seq<NetEntry>, from: int) -> Option<int>
    decreases entries.len() - from,
{
    if from < 0 || from >= entries.len() {
        None
    } else if entries[from].iface.default_iface {
        Some(from)
    } else {
        default_from(entries, from + 1)
    }
}

/// The position of the first interface that has the address `addr`, counting from `from`.
pub open spec fn owner_from(entries: Seq<NetEntry>, addr: IpAddress, from: int) -> Option<int>
    decreases entries.len() - from,
{
    if from < 0 || from >= entries.len() {
        None
    } else if entries[from].iface.has_addr(addr) {
        Some(from)
    } else {
        owner_from(entries, addr, from + 1)
    }
}

/// The address of the first block among `addrs` whose subnet contains `addr`,
/// counting from `from`.
pub open spec fn subnet_addr_from(addrs: Seq<IpCidr>, addr: IpAddress, from: int) -> Option<IpAddress>
    decreases addrs.len() - from,
{
    if from < 0 || from >= addrs.len() {
        None
    } else if cidr_contains(addrs[from], addr) {
        Some(addrs[from].spec_address())
    } else {
        subnet_addr_from(addrs, addr, from + 1)
    }
}

/// An interface chosen for a socket, with the local address for the socket.
pub struct IfaceChoice {
    /// The position of the interface in the registry.
    pub index: int,
    /// The local address.
    pub local: IpAddress,
}

/// The position of the first interface with a block whose subnet contains `addr`,
/// counting from `from`, and the address of its first such block.
pub open spec fn subnet_from(entries: Seq<NetEntry>, addr: IpAddress, from: int) -> Option<IfaceChoice>
    decreases entries.len() - from,
{
    if from < 0 || from >= entries.len() {
        None
    } else {
        match subnet_addr_from(entries[from].iface.addrs, addr, 0) {
            Some(local) => Some(IfaceChoice { index: from, local }),
            None => subnet_from(entries, addr, from + 1),
        }
    }
}

/// The interface on which a socket bound to `addr` is placed: the first default
/// interface for the unspecified address, else the first interface that has the
/// address.
pub open spec fn iface_to_bind(entries: Seq<NetEntry>, addr: IpAddress) -> Option<int> {
    if addr.spec_is_unspecified() {
        default_from(entries, 0)
    } else {
        owner_from(entries, addr, 0)
    }
}

/// The interface and the local address for a socket that is to reach `remote` and
/// is not bound: the interface that has `remote` as its own address, with that
/// address; else the first interface with a subnet that contains `remote`, with the
/// address of that block; else the first interface, with its first address.
pub open spec fn ephemeral_iface(entries: Seq<NetEntry>, remote: IpAddress) -> Option<IfaceChoice> {
    match owner_from(entries, remote, 0) {
        Some(i) => Some(IfaceChoice { index: i, local: remote }),
        None => match subnet_from(entries, remote, 0) {
            Some(found) => Some(found),
            None => if entries.len() > 0 && entries[0].iface.addrs.len() > 0 {
                Some(IfaceChoice { index: 0, local: entries[0].iface.addrs[0].spec_address() })
            } else {
                None
            },
        },
    }
}

/// One registered interface.
struct Registered<D> {
    key: usize,
    iface: TapIface<D>,
}

/// The registry of interfaces, ordered by key.
pub struct NetDevices<D> {
    entries: Vec<Registered<D>>,
}

impl<D> View for NetDevices<D> {
    type V = Seq<NetEntry>;

    closed spec fn view(&self) -> Seq<NetEntry> {
        Seq::new(
            self.entries@.len(),
            |i: int|
                NetEntry {
                    key: self.entries@[i].key,
                    iface: self.entries@[i].iface.common@,
                    raw_fd: self.entries@[i].iface.raw_fd,
                },
        )
    }
}

/// What holds of every well-formed registry: the keys increase, and on every
/// interface no port is allocated twice under one protocol.
pub open spec fn net_inv(net: Seq<NetEntry>) -> bool {
    &&& keys_increase(net)
    &&& forall|i: int|
        0 <= i < net.len() ==> (#[trigger] net[i]).iface.ports.len() == 6 && port::ports_unique(net[i].iface.ports)
}

impl<D> NetDevices<D> {
    /// In a well-formed registry the keys increase, and on every interface no port
    /// is allocated twice under one protocol.
    pub proof fn lemma_wf(&self)
        requires
            self.wf(),
        ensures
            net_inv(self@),
    {
        assert forall|i: int| 0 <= i < self@.len() implies (#[trigger] self@[i]).iface.ports.len() == 6
            && port::ports_unique(self@[i].iface.ports) by {
            assert(self.entries@[i].iface.common.wf());
            self.entries@[i].iface.common.lemma_ports();
        }
    }

    /// The keys increase, and every interface is well-formed.
    pub closed spec fn wf(&self) -> bool {
        &&& keys_increase(self@)
        &&& forall|i: int| 0 <= i < self.entries@.len() ==> (#[trigger] self.entries@[i]).iface.common.wf()
    }

    /// An empty registry.
    pub fn new() -> (net: Self)
        ensures
            net.wf(),
            net@ == Seq::<NetEntry>::empty(),
    {
        NetDevices { entries: Vec::new() }
    }

    /// The number of registered interfaces.
    pub fn len(&self) -> (n: usize)
        ensures
            n == self@.len(),
    {
        self.entries.len()
    }

    /// The key of the interface at a position.
    pub fn key_at(&self, index: usize) -> (key: usize)
        requires
            index < self@.len(),
        ensures
            key == self@[index as int].key,
    {
        self.entries[index].key
    }

    /// The file descriptor to watch for the frames of the interface at a position.
    pub fn raw_fd_at(&self, index: usize) -> (fd: Option<i32>)
        requires
            index < self@.len(),
        ensures
            fd == self@[index as int].raw_fd,
    {
        self.entries[index].iface.raw_fd
    }

    /// The position of the interface registered under `key`.
    pub fn position(&self, key: usize) -> (r: Option<usize>)
        ensures
            r is Some <==> position_of(self@, key) is Some,
            r is Some ==> r->0 == position_of(self@, key)->0 && r->0 < self@.len() && self@[r->0 as int].key == key,
    {
        let mut i: usize = 0;
        while i < self.entries.len()
            invariant
                i <= self@.len(),
                position_of(self@, key) == position_from(self@, key, i as int),
            decreases self@.len() - i,
        {
            if self.entries[i].key == key {
                return Some(i);
            }
            i += 1;
        }
        None
    }

    /// Whether an interface is registered under `key`.
    pub fn contains_key(&self, key: usize) -> (b: bool)
        ensures
            b == position_of(self@, key) is Some,
    {
        self.position(key).is_some()
    }

    /// The interface at a position.
    pub fn common_at(&self, index: usize) -> (c: &IfaceCommon)
        requires
            self.wf(),
            index < self@.len(),
        ensures
            c@ == self@[index as int].iface,
            c.wf(),
    {
        &self.entries[index].iface.common
    }

    /// The interface at a position, to change it; the other interfaces stay.
    pub fn common_at_mut(&mut self, index: usize) -> (c: &mut IfaceCommon)
        requires
            old(self).wf(),
            index < old(self)@.len(),
        ensures
            c@ == old(self)@[index as int].iface,
            c.wf(),
            final(self)@ == old(self)@.update(index as int, NetEntry { iface: final(c)@, ..old(self)@[index as int] }),
            final(c).wf() ==> final(self).wf(),
    {
        &mut self.entries[index].iface.common
    }

    /// Registers `iface` under `key`, in place of the interface that was registered
    /// under that key, which is returned.
    pub fn insert(&mut self, key: usize, iface: TapIface<D>) -> (previous: Option<TapIface<D>>)
        requires
            old(self).wf(),
            iface.common.wf(),
        ensures
            final(self).wf(),
            final(self)@ == registry_insert(
                old(self)@,
                NetEntry { key, iface: iface.common@, raw_fd: iface.raw_fd },
            ),
            previous is Some <==> position_of(old(self)@, key) is Some,
            previous is Some ==> previous->0.common@ == old(self)@[position_of(old(self)@, key)->0].iface,
    {
        let mut i: usize = 0;
        while i < self.entries.len() && self.entries[i].key < key
            invariant
                i <= self@.len(),
                *self == *old(self),
                self.wf(),
                forall|j: int| 0 <= j < i ==> self@[j].key < key,
                position_of(self@, key) == position_from(self@, key, i as int),
            decreases self@.len() - i,
        {
            i += 1;
        }
        proof {
            lemma_count_below(self@, key, i as int);
        }
        let ghost before = self.entries@;
        if i < self.entries.len() && self.entries[i].key == key {
            let mut entry = Registered { key, iface };
            core::mem::swap(&mut entry, &mut self.entries[i]);
            proof {
                assert forall|j: int| 0 <= j < self.entries@.len() implies (#[trigger] self.entries@[j]).iface.common.wf() by {
                    if j != i {
                        assert(self.entries@[j] == before[j]);
                    }
                }
                assert forall|a: int, b: int| 0 <= a < b < self@.len() implies self@[a].key < self@[b].key by {
                    assert(self@[a].key == old(self)@[a].key);
                    assert(self@[b].key == old(self)@[b].key);
                }
            }
            Some(entry.iface)
        } else {
            proof {
                lemma_absent_beyond(self@, key, i as int);
            }
            self.entries.insert(i, Registered { key, iface });
            proof {
                assert forall|j: int| 0 <= j < self.entries@.len() implies (#[trigger] self.entries@[j]).iface.common.wf() by {
                    if j < i {
                        assert(self.entries@[j] == before[j]);
                    } else if j > i {
                        assert(self.entries@[j] == before[j - 1]);
                    }
                }
                assert forall|a: int, b: int| 0 <= a < b < self@.len() implies self@[a].key < self@[b].key by {
                    let a0 = if a < i { a } else { a - 1 };
                    let b0 = if b < i { b } else { b - 1 };
                    if a != i {
                        assert(self@[a].key == old(self)@[a0].key);
                    }
                    if b != i {
                        assert(self@[b].key == old(self)@[b0].key);
                    }
                }
            }
            None
        }
    }

    /// Takes the interface registered under `key` out of the registry and returns it.
    pub fn remove(&mut self, key: usize) -> (removed: Option<TapIface<D>>)
        requires
            old(self).wf(),
        ensures
            final(self).wf(),
            match position_of(old(self)@, key) {
                Some(i) => removed is Some && removed->0.common@ == old(self)@[i].iface && removed->0.common.wf()
                    && final(self)@ == old(self)@.remove(i),
                None => removed is None && final(self)@ == old(self)@,
            },
    {
        match self.position(key) {
            None => None,
            Some(i) => {
                let ghost before = self.entries@;
                let entry = self.entries.remove(i);
                proof {
                    assert forall|j: int| 0 <= j < self.entries@.len() implies (#[trigger] self.entries@[j]).iface.common.wf() by {
                        if j < i {
                            assert(self.entries@[j] == before[j]);
                        } else {
                            assert(self.entries@[j] == before[j + 1]);
                        }
                    }
                    assert forall|a: int, b: int| 0 <= a < b < self@.len() implies self@[a].key < self@[b].key by {
                        let a0 = if a < i { a } else { a + 1 };
                        let b0 = if b < i { b } else { b + 1 };
                        assert(self@[a].key == old(self)@[a0].key);
                        assert(self@[b].key == old(self)@[b0].key);
                    }
                    assert(before[i as int].iface.common.wf());
                }
                Some(entry.iface)
            },
        }
    }

    /// Takes every interface out of the registry.
    pub fn clear(&mut self)
        ensures
            final(self).wf(),
            final(self)@ == Seq::<NetEntry>::empty(),
    {
        self.entries.clear();
    }

    /// The time, in milliseconds, at which the stack of the interface at a position,
    /// asked at the time `now_micros`, wants to be polled next, if it wants to.
    pub closed spec fn wanted_poll(&self, index: int, now_micros: i64) -> Option<i64> {
        self.entries@[index].iface.common.wanted_poll(now_micros)
    }

    /// Polls the interface at a position on its device; see [`IfaceCommon::poll`].
    pub fn poll_at(&mut self, index: usize, now_micros: i64) -> (has_events: bool) where D: smoltcp::phy::Device
        requires
            old(self).wf(),
            index < old(self)@.len(),
        ensures
            final(self).wf(),
            final(self)@ == old(self)@.update(
                index as int,
                NetEntry { iface: final(self)@[index as int].iface, ..old(self)@[index as int] },
            ),
            IfaceCommon::polled(old(self)@[index as int].iface, final(self)@[index as int].iface),
            final(self)@[index as int].iface.poll_at_ms == spec_next_poll(
                final(self).wanted_poll(index as int, now_micros),
            ),
    {
        let ghost before = self.entries@;
        let has_events = self.entries[index].iface.poll(now_micros);
        proof {
            assert forall|j: int| 0 <= j < self.entries@.len() implies (#[trigger] self.entries@[j]).iface.common.wf() by {
                if j != index {
                    assert(self.entries@[j] == before[j]);
                }
            }
            assert forall|a: int, b: int| 0 <= a < b < self@.len() implies self@[a].key < self@[b].key by {
                assert(self@[a].key == old(self)@[a].key);
                assert(self@[b].key == old(self)@[b].key);
            }
        }
        has_events
    }

    /// The position of the first default interface.
    pub fn default_iface(&self) -> (r: Option<usize>)
        ensures
            r is Some <==> default_from(self@, 0) is Some,
            r is Some ==> r->0 == default_from(self@, 0)->0 && r->0 < self@.len(),
    {
        let mut i: usize = 0;
        while i < self.entries.len()
            invariant
                i <= self@.len(),
                default_from(self@, 0) == default_from(self@, i as int),
            decreases self@.len() - i,
        {
            if self.entries[i].iface.common.is_default_iface() {
                return Some(i);
            }
            i += 1;
        }
        None
    }

    /// The position of the first interface that has the address `ip_addr`.
    pub fn get_iface_to_bind(&self, ip_addr: &IpAddress) -> (r: Option<usize>)
        ensures
            r is Some <==> owner_from(self@, *ip_addr, 0) is Some,
            r is Some ==> r->0 == owner_from(self@, *ip_addr, 0)->0 && r->0 < self@.len(),
    {
        let mut i: usize = 0;
        while i < self.entries.len()
            invariant
                i <= self@.len(),
                owner_from(self@, *ip_addr, 0) == owner_from(self@, *ip_addr, i as int),
            decreases self@.len() - i,
        {
            if self.entries[i].iface.common.has_ip_addr(*ip_addr) {
                return Some(i);
            }
            i += 1;
        }
        None
    }

    /// The position of the first interface with a subnet that contains `remote`, and
    /// the address of its first block with such a subnet.
    fn get_subnet_iface(&self, remote: &IpAddress) -> (r: Option<(usize, IpAddress)>)
        ensures
            match r {
                Some((i, local)) => subnet_from(self@, *remote, 0) == Some(IfaceChoice { index: i as int, local })
                    && i < self@.len(),
                None => subnet_from(self@, *remote, 0) is None,
            },
    {
        let mut i: usize = 0;
        while i < self.entries.len()
            invariant
                i <= self@.len(),
                subnet_from(self@, *remote, 0) == subnet_from(self@, *remote, i as int),
            decreases self@.len() - i,
        {
            let addrs = self.entries[i].iface.common.ip_addrs();
            let mut j: usize = 0;
            while j < addrs.len()
                invariant
                    j <= addrs@.len(),
                    i < self@.len(),
                    addrs@ == self@[i as int].iface.addrs,
                    subnet_from(self@, *remote, 0) == subnet_from(self@, *remote, i as int),
                    subnet_addr_from(addrs@, *remote, 0) == subnet_addr_from(addrs@, *remote, j as int),
                decreases addrs@.len() - j,
            {
                if cidr_contains_addr(addrs[j].parts(), *remote) {
                    assert(subnet_addr_from(addrs@, *remote, j as int) == Some(addrs@[j as int].spec_address()));
                    return Some((i, addrs[j].address()));
                }
                j += 1;
            }
            assert(subnet_addr_from(addrs@, *remote, 0) is None);
            i += 1;
        }
        None
    }

    /// The interface and the local address for a socket that is to reach `remote`
    /// and is not bound; see [`ephemeral_iface`].
    pub fn get_ephemeral_iface(&self, remote: &IpAddress) -> (r: Option<(usize, IpAddress)>)
        ensures
            match r {
                Some((i, local)) => ephemeral_iface(self@, *remote) == Some(IfaceChoice { index: i as int, local })
                    && i < self@.len(),
                None => ephemeral_iface(self@, *remote) is None,
            },
    {
        if let Some(i) = self.get_iface_to_bind(remote) {
            return Some((i, *remote));
        }
        if let Some(found) = self.get_subnet_iface(remote) {
            return Some(found);
        }
        if self.entries.len() > 0 {
            let addrs = self.entries[0].iface.common.ip_addrs();
            if addrs.len() > 0 {
                return Some((0, addrs[0].address()));
            }
        }
        None
    }
}

/// The number of entries of `entries` whose key is below `key`.
pub open spec fn count_below(entries: Seq<NetEntry>, key: usize) -> int
    decreases entries.len(),
{
    if entries.len() == 0 {
        0
    } else {
        count_below(entries.drop_last(), key) + if entries.last().key < key {
            1int
        } else {
            0int
        }
    }
}

/// `entries` with `entry` registered: in place of the entry of the same key, or
/// else at the place that keeps the keys in order.
pub open spec fn registry_insert(entries: Seq<NetEntry>, entry: NetEntry) -> Seq<NetEntry> {
    match position_of(entries, entry.key) {
        Some(i) => entries.update(i, entry),
        None => entries.insert(count_below(entries, entry.key), entry),
    }
}

proof fn lemma_count_below(entries: Seq<NetEntry>, key: usize, i: int)
    requires
        keys_increase(entries),
        0 <= i <= entries.len(),
        forall|j: int| 0 <= j < i ==> entries[j].key < key,
        i < entries.len() ==> entries[i].key >= key,
    ensures
        count_below(entries, key) == i,
    decreases entries.len(),
{
    if entries.len() > 0 {
        let rest = entries.drop_last();
        if i == entries.len() {
            lemma_count_below(rest, key, i - 1);
        } else {
            assert(entries.last().key >= entries[i].key);
            lemma_count_below(rest, key, i);
        }
    }
}

proof fn lemma_absent_beyond(entries: Seq<NetEntry>, key: usize, i: int)
    requires
        keys_increase(entries),
        0 <= i <= entries.len(),
        i < entries.len() ==> entries[i].key > key,
    ensures
        position_from(entries, key, i) is None,
    decreases entries.len() - i,
{
    if i < entries.len() {
        lemma_absent_beyond(entries, key, i + 1);
    }
}

/// `net` with the interface at position `i` replaced by `iface`.
pub open spec fn with_iface(net: Seq<NetEntry>, i: int, iface: IfaceView) -> Seq<NetEntry> {
    net.update(i, NetEntry { iface, ..net[i] })
}

/// `net` with the socket table of the interface at position `i` replaced by `table`.
pub open spec fn with_table(net: Seq<NetEntry>, i: int, table: Map<SocketHandle, SocketModel>) -> Seq<NetEntry> {
    with_iface(net, i, IfaceView { table, ..net[i].iface })
}

/// `net` with the socket under `h` of the interface at position `i` replaced by `m`.
pub open spec fn with_socket(net: Seq<NetEntry>, i: int, h: SocketHandle, m: SocketModel) -> Seq<NetEntry> {
    with_table(net, i, net[i].iface.table.insert(h, m))
}

/// `net` without the socket under `h` of the interface at position `i`.
pub open spec fn without_socket(net: Seq<NetEntry>, i: int, h: SocketHandle) -> Seq<NetEntry> {
    with_table(net, i, net[i].iface.table.remove(h))
}

/// `net` with the ports of the interface at position `i` replaced by `ports`.
pub open spec fn with_ports(net: Seq<NetEntry>, i: int, ports: Seq<port::PortSpace>) -> Seq<NetEntry> {
    with_iface(net, i, IfaceView { ports, ..net[i].iface })
}

/// `net` with the list of bound sockets of the interface at position `i` replaced
/// by `bounds`.
pub open spec fn with_bounds(net: Seq<NetEntry>, i: int, bounds: Seq<usize>) -> Seq<NetEntry> {
    with_iface(net, i, IfaceView { bounds, ..net[i].iface })
}

/// Whether two registries hold interfaces under the same keys, in the same order.
pub open spec fn same_keys(a: Seq<NetEntry>, b: Seq<NetEntry>) -> bool {
    &&& a.len() == b.len()
    &&& forall|j: int| 0 <= j < a.len() ==> (#[trigger] a[j]).key == b[j].key
}

/// In two registries with the same keys every key is found at the same position.
pub proof fn lemma_same_keys_position(a: Seq<NetEntry>, b: Seq<NetEntry>, key: usize)
    requires
        same_keys(a, b),
    ensures
        position_of(a, key) == position_of(b, key),
{
    lemma_same_keys_position_from(a, b, key, 0);
}

proof fn lemma_same_keys_position_from(a: Seq<NetEntry>, b: Seq<NetEntry>, key: usize, from: int)
    requires
        same_keys(a, b),
        0 <= from,
    ensures
        position_from(a, key, from) == position_from(b, key, from),
    decreases a.len() - from,
{
    if from < a.len() {
        assert(a[from].key == b[from].key);
        lemma_same_keys_position_from(a, b, key, from + 1);
    }
}

/// A key that is found is found at a position of the registry, where it stands.
pub proof fn lemma_position_found(net: Seq<NetEntry>, key: usize)
    requires
        position_of(net, key) is Some,
    ensures
        0 <= position_of(net, key)->0 < net.len(),
        net[position_of(net, key)->0].key == key,
{
    lemma_position_found_from(net, key, 0);
}

proof fn lemma_position_found_from(net: Seq<NetEntry>, key: usize, from: int)
    requires
        position_from(net, key, from) is Some,
        0 <= from,
    ensures
        from <= position_from(net, key, from)->0 < net.len(),
        net[position_from(net, key, from)->0].key == key,
    decreases net.len() - from,
{
    if from < net.len() && net[from].key != key {
        lemma_position_found_from(net, key, from + 1);
    }
}

/// The binding of a user socket to an interface: the key of the interface and the
/// handle of the socket in that interface's socket table.
#[derive(Debug)]
pub struct BoundInner {
    handle: SocketHandle,
    iface: usize,
}

impl BoundInner {
    /// The handle of the socket in the socket table.
    pub closed spec fn spec_handle(&self) -> SocketHandle {
        self.handle
    }

    /// The key of the interface.
    pub closed spec fn spec_iface(&self) -> usize {
        self.iface
    }

    /// The position of the interface in the registry.
    pub open spec fn index(&self, net: Seq<NetEntry>) -> int {
        position_of(net, self.spec_iface())->0
    }

    /// The interface is registered and its socket table holds a socket under the handle.
    pub open spec fn wf(&self, net: Seq<NetEntry>) -> bool {
        &&& position_of(net, self.spec_iface()) is Some
        &&& net[self.index(net)].iface.table.dom().contains(self.spec_handle())
    }

    /// The binding is well-formed and its socket is a TCP socket.
    pub open spec fn is_tcp(&self, net: Seq<NetEntry>) -> bool {
        self.wf(net) && net[self.index(net)].iface.table[self.spec_handle()] is Tcp
    }

    /// The binding is well-formed and its socket is a UDP socket.
    pub open spec fn is_udp(&self, net: Seq<NetEntry>) -> bool {
        self.wf(net) && net[self.index(net)].iface.table[self.spec_handle()] is Udp
    }

    /// The socket of the binding.
    pub open spec fn socket(&self, net: Seq<NetEntry>) -> SocketModel {
        net[self.index(net)].iface.table[self.spec_handle()]
    }

    /// The interface of the binding.
    pub open spec fn iface_view(&self, net: Seq<NetEntry>) -> IfaceView {
        net[self.index(net)].iface
    }

    /// What `bind` makes of the registry `net` for a socket `m` and an address:
    /// the registry with the socket added under `h` at the interface chosen.
    pub open spec fn bound_at(net: Seq<NetEntry>, i: int, h: SocketHandle, m: SocketModel, b: BoundInner, after: Seq<NetEntry>) -> bool {
        &&& 0 <= i < net.len()
        &&& b.spec_iface() == net[i].key
        &&& b.spec_handle() == h
        &&& position_of(net, b.spec_iface()) == Some(i)
        &&& !net[i].iface.table.dom().contains(h)
        &&& after == with_socket(net, i, h, m)
    }

    fn place<D>(net: &mut NetDevices<D>, index: usize, socket: StackSocket) -> (b: BoundInner)
        requires
            old(net).wf(),
            index < old(net)@.len(),
        ensures
            final(net).wf(),
            Self::bound_at(old(net)@, index as int, b.spec_handle(), socket.model(), b, final(net)@),
            b.wf(final(net)@),
            b.index(final(net)@) == index,
    {
        let key = net.key_at(index);
        proof {
            lemma_position_at(net@, index as int);
        }
        let common = net.common_at_mut(index);
        let handle = common.add_socket(socket);
        proof {
            lemma_same_keys_position(old(net)@, net@, key);
        }
        BoundInner { handle, iface: key }
    }

    /// Places `socket` in the socket table of the interface that serves `address`:
    /// the first default interface for the unspecified address, else the first
    /// interface that has the address.
    ///
    /// Fails, with no such device, exactly where there is no such interface; the
    /// registry is then as before.
    pub fn bind<D>(net: &mut NetDevices<D>, socket: StackSocket, address: &IpAddress) -> (r: Result<Self, SystemError>)
        requires
            old(net).wf(),
        ensures
            final(net).wf(),
            match r {
                Ok(b) => {
                    &&& iface_to_bind(old(net)@, *address) is Some
                    &&& Self::bound_at(
                        old(net)@,
                        iface_to_bind(old(net)@, *address)->0,
                        b.spec_handle(),
                        socket.model(),
                        b,
                        final(net)@,
                    )
                    &&& b.wf(final(net)@)
                    &&& b.index(final(net)@) == iface_to_bind(old(net)@, *address)->0
                },
                Err(e) => {
                    &&& e == SystemError::ENODEV
                    &&& iface_to_bind(old(net)@, *address) is None
                    &&& final(net)@ == old(net)@
                },
            },
    {
        let chosen = if address.is_unspecified() {
            net.default_iface()
        } else {
            net.get_iface_to_bind(address)
        };
        match chosen {
            Some(index) => Ok(Self::place(net, index, socket)),
            None => Err(SystemError::ENODEV),
        }
    }

    /// Places `socket` in the socket table of the interface from which `remote` is
    /// reached, and returns the local address to use; see [`ephemeral_iface`].
    ///
    /// Fails, with no such device, exactly where no interface can be chosen; the
    /// registry is then as before.
    pub fn bind_ephemeral<D>(net: &mut NetDevices<D>, socket: StackSocket, remote: IpAddress) -> (r: Result<
        (Self, IpAddress),
        SystemError,
    >)
        requires
            old(net).wf(),
        ensures
            final(net).wf(),
            match r {
                Ok((b, local)) => {
                    &&& ephemeral_iface(old(net)@, remote) is Some
                    &&& ephemeral_iface(old(net)@, remote)->0.local == local
                    &&& Self::bound_at(
                        old(net)@,
                        ephemeral_iface(old(net)@, remote)->0.index,
                        b.spec_handle(),
                        socket.model(),
                        b,
                        final(net)@,
                    )
                    &&& b.wf(final(net)@)
                    &&& b.index(final(net)@) == ephemeral_iface(old(net)@, remote)->0.index
                },
                Err(e) => {
                    &&& e == SystemError::ENODEV
                    &&& ephemeral_iface(old(net)@, remote) is None
                    &&& final(net)@ == old(net)@
                },
            },
    {
        match net.get_ephemeral_iface(&remote) {
            Some((index, local)) => Ok((Self::place(net, index, socket), local)),
            None => Err(SystemError::ENODEV),
        }
    }

    /// The key of the interface.
    pub fn iface(&self) -> (key: usize)
        ensures
            key == self.spec_iface(),
    {
        self.iface
    }

    /// The handle of the socket in the socket table.
    pub fn handle(&self) -> (h: SocketHandle)
        ensures
            h == self.spec_handle(),
    {
        self.handle
    }

    /// The position of the interface in the registry.
    pub fn position<D>(&self, net: &NetDevices<D>) -> (i: usize)
        requires
            self.wf(net@),
        ensures
            i == self.index(net@),
            i < net@.len(),
            net@[i as int].key == self.spec_iface(),
    {
        net.position(self.iface).unwrap()
    }

    /// The port manager of the interface.
    pub fn port_manager<'a, D>(&self, net: &'a NetDevices<D>) -> (m: &'a PortManager)
        requires
            net.wf(),
            self.wf(net@),
        ensures
            m@ == self.iface_view(net@).ports,
            m.inv(),
    {
        let i = self.position(net);
        net.common_at(i).port_manager()
    }

    /// The port manager of the interface, to allocate or free ports; nothing else
    /// of the registry changes.
    pub fn port_manager_mut<'a, D>(&self, net: &'a mut NetDevices<D>) -> (m: &'a mut PortManager)
        requires
            old(net).wf(),
            self.wf(old(net)@),
        ensures
            m@ == self.iface_view(old(net)@).ports,
            m.inv(),
            final(net)@ == with_ports(old(net)@, self.index(old(net)@), final(m)@),
            final(m).inv() ==> final(net).wf(),
    {
        let i = self.position(net);
        net.common_at_mut(i).port_manager_mut()
    }

    /// The TCP socket of the binding.
    pub fn with<'a, D>(&self, net: &'a NetDevices<D>) -> (s: &'a tcp::Socket<'static>)
        requires
            net.wf(),
            self.is_tcp(net@),
        ensures
            SocketModel::Tcp(crate::stack::tcp_model(*s)) == self.socket(net@),
    {
        let i = self.position(net);
        net.common_at(i).tcp(self.handle)
    }

    /// The TCP socket of the binding, to change it; nothing else of the registry changes.
    pub fn with_mut<'a, D>(&self, net: &'a mut NetDevices<D>) -> (s: &'a mut tcp::Socket<'static>)
        requires
            old(net).wf(),
            self.is_tcp(old(net)@),
        ensures
            SocketModel::Tcp(crate::stack::tcp_model(*s)) == self.socket(old(net)@),
            final(net).wf(),
            final(net)@ == with_socket(
                old(net)@,
                self.index(old(net)@),
                self.spec_handle(),
                SocketModel::Tcp(crate::stack::tcp_model(*final(s))),
            ),
    {
        let i = self.position(net);
        net.common_at_mut(i).tcp_mut(self.handle)
    }

    /// The UDP socket of the binding.
    pub fn with_udp<'a, D>(&self, net: &'a NetDevices<D>) -> (s: &'a udp::Socket<'static>)
        requires
            net.wf(),
            self.is_udp(net@),
        ensures
            SocketModel::Udp(crate::stack::udp_model(*s)) == self.socket(net@),
    {
        let i = self.position(net);
        net.common_at(i).udp(self.handle)
    }

    /// The UDP socket of the binding, to change it; nothing else of the registry changes.
    pub fn with_udp_mut<'a, D>(&self, net: &'a mut NetDevices<D>) -> (s: &'a mut udp::Socket<'static>)
        requires
            old(net).wf(),
            self.is_udp(old(net)@),
        ensures
            SocketModel::Udp(crate::stack::udp_model(*s)) == self.socket(old(net)@),
            final(net).wf(),
            final(net)@ == with_socket(
                old(net)@,
                self.index(old(net)@),
                self.spec_handle(),
                SocketModel::Udp(crate::stack::udp_model(*final(s))),
            ),
    {
        let i = self.position(net);
        net.common_at_mut(i).udp_mut(self.handle)
    }

    /// Takes the socket of the binding out of its socket table.
    pub fn release<D>(&self, net: &mut NetDevices<D>)
        requires
            old(net).wf(),
            self.wf(old(net)@),
        ensures
            final(net).wf(),
            final(net)@ == without_socket(old(net)@, self.index(old(net)@), self.spec_handle()),
            net_keeps(old(net)@, final(net)@, seq![*self], Seq::empty()),
    {
        proof {
            lemma_release_keeps(net@, *self);
        }
        let i = self.position(net);
        net.common_at_mut(i).remove_socket(self.handle);
    }
}

/// The key at a position of a registry with increasing keys is found at that position.
pub proof fn lemma_position_at(net: Seq<NetEntry>, i: int)
    requires
        keys_increase(net),
        0 <= i < net.len(),
    ensures
        position_of(net, net[i].key) == Some(i),
{
    lemma_position_at_from(net, i, 0);
}

proof fn lemma_position_at_from(net: Seq<NetEntry>, i: int, from: int)
    requires
        keys_increase(net),
        0 <= from <= i < net.len(),
    ensures
        position_from(net, net[i].key, from) == Some(i),
    decreases i - from,
{
    if from < i {
        lemma_position_at_from(net, i, from + 1);
    }
}

/// Whether two registries hold, under the same keys, interfaces with the same
/// addresses, of which the same are default interfaces.
pub open spec fn same_addressing(a: Seq<NetEntry>, b: Seq<NetEntry>) -> bool {
    &&& a.len() == b.len()
    &&& forall|j: int|
        0 <= j < a.len() ==> (#[trigger] a[j]).key == b[j].key && a[j].iface.addrs == b[j].iface.addrs
            && a[j].iface.default_iface == b[j].iface.default_iface
}

/// The choice of an interface depends on the addresses of the interfaces and on
/// which of them are default interfaces, and on nothing else.
pub proof fn lemma_choice_stable(a: Seq<NetEntry>, b: Seq<NetEntry>, addr: IpAddress)
    requires
        same_addressing(a, b),
    ensures
        iface_to_bind(a, addr) == iface_to_bind(b, addr),
        ephemeral_iface(a, addr) == ephemeral_iface(b, addr),
{
    lemma_choice_stable_from(a, b, addr, 0);
    if a.len() > 0 {
        assert(a[0].iface.addrs == b[0].iface.addrs);
    }
}

proof fn lemma_choice_stable_from(a: Seq<NetEntry>, b: Seq<NetEntry>, addr: IpAddress, from: int)
    requires
        same_addressing(a, b),
        0 <= from,
    ensures
        default_from(a, from) == default_from(b, from),
        owner_from(a, addr, from) == owner_from(b, addr, from),
        subnet_from(a, addr, from) == subnet_from(b, addr, from),
    decreases a.len() - from,
{
    if from < a.len() {
        assert(a[from].key == b[from].key);
        lemma_choice_stable_from(a, b, addr, from + 1);
    }
}

/// An interface that is chosen stands at a position of the registry.
pub proof fn lemma_choice_in_range(net: Seq<NetEntry>, addr: IpAddress)
    ensures
        iface_to_bind(net, addr) is Some ==> 0 <= iface_to_bind(net, addr)->0 < net.len(),
        ephemeral_iface(net, addr) is Some ==> 0 <= ephemeral_iface(net, addr)->0.index < net.len(),
{
    lemma_choice_in_range_from(net, addr, 0);
}

proof fn lemma_choice_in_range_from(net: Seq<NetEntry>, addr: IpAddress, from: int)
    requires
        0 <= from,
    ensures
        default_from(net, from) is Some ==> from <= default_from(net, from)->0 < net.len(),
        owner_from(net, addr, from) is Some ==> from <= owner_from(net, addr, from)->0 < net.len(),
        subnet_from(net, addr, from) is Some ==> from <= subnet_from(net, addr, from)->0.index < net.len(),
    decreases net.len() - from,
{
    if from < net.len() {
        lemma_choice_in_range_from(net, addr, from + 1);
    }
}

impl BoundInner {
    /// Two bindings are one binding exactly where they have one interface and one handle.
    pub proof fn lemma_eq(a: BoundInner, b: BoundInner)
        ensures
            a == b <==> (a.spec_iface() == b.spec_iface() && a.spec_handle() == b.spec_handle()),
    {
    }
}

/// Replacing a socket of a registry keeps every other socket of it, and keeps a
/// TCP socket where a TCP socket is replaced by one.
pub proof fn lemma_with_socket_keeps(net: Seq<NetEntry>, i: int, h: SocketHandle, m: SocketModel, b: BoundInner)
    requires
        0 <= i < net.len(),
        b.wf(net),
    ensures
        b.wf(with_socket(net, i, h, m)),
        b.index(with_socket(net, i, h, m)) == b.index(net),
        (b.index(net) != i || b.spec_handle() != h) ==> b.socket(with_socket(net, i, h, m)) == b.socket(net),
        (b.index(net) == i && b.spec_handle() == h) ==> b.socket(with_socket(net, i, h, m)) == m,
        with_socket(net, i, h, m)[b.index(net)].iface.ports == net[b.index(net)].iface.ports,
{
    lemma_same_keys_position(net, with_socket(net, i, h, m), b.spec_iface());
    lemma_position_found(net, b.spec_iface());
}

/// Taking a socket out of a registry keeps every other socket of it.
pub proof fn lemma_without_socket_keeps(net: Seq<NetEntry>, i: int, h: SocketHandle, b: BoundInner)
    requires
        0 <= i < net.len(),
        b.wf(net),
        b.index(net) != i || b.spec_handle() != h,
    ensures
        b.wf(without_socket(net, i, h)),
        b.index(without_socket(net, i, h)) == b.index(net),
        b.socket(without_socket(net, i, h)) == b.socket(net),
{
    lemma_same_keys_position(net, without_socket(net, i, h), b.spec_iface());
    lemma_position_found(net, b.spec_iface());
}

/// A change of an interface that keeps its socket table keeps every socket of the
/// registry.
pub proof fn lemma_with_iface_keeps(net: Seq<NetEntry>, i: int, iface: IfaceView, b: BoundInner)
    requires
        0 <= i < net.len(),
        b.wf(net),
        iface.table == net[i].iface.table,
    ensures
        b.wf(with_iface(net, i, iface)),
        b.index(with_iface(net, i, iface)) == b.index(net),
        b.socket(with_iface(net, i, iface)) == b.socket(net),
{
    lemma_same_keys_position(net, with_iface(net, i, iface), b.spec_iface());
    lemma_position_found(net, b.spec_iface());
}

/// A change of the ports of an interface keeps every socket of the registry.
pub proof fn lemma_with_ports_keeps(net: Seq<NetEntry>, i: int, ports: Seq<port::PortSpace>, b: BoundInner)
    requires
        0 <= i < net.len(),
        b.wf(net),
    ensures
        b.wf(with_ports(net, i, ports)),
        b.index(with_ports(net, i, ports)) == b.index(net),
        b.socket(with_ports(net, i, ports)) == b.socket(net),
{
    lemma_same_keys_position(net, with_ports(net, i, ports), b.spec_iface());
    lemma_position_found(net, b.spec_iface());
}

/// Whether two registries hold, under the same keys, interfaces with the same
/// socket tables and the same ports.
pub open spec fn same_tables(a: Seq<NetEntry>, b: Seq<NetEntry>) -> bool {
    &&& a.len() == b.len()
    &&& forall|j: int|
        0 <= j < a.len() ==> (#[trigger] a[j]).key == b[j].key && a[j].iface.table == b[j].iface.table
            && a[j].iface.ports == b[j].iface.ports
}

/// Two registries with the same socket tables hold every socket alike.
pub proof fn lemma_same_tables_keeps(a: Seq<NetEntry>, b: Seq<NetEntry>, bound: BoundInner)
    requires
        same_tables(a, b),
        bound.wf(a),
    ensures
        bound.wf(b),
        bound.index(b) == bound.index(a),
        bound.socket(b) == bound.socket(a),
        b[bound.index(a)].iface.ports == a[bound.index(a)].iface.ports,
{
    lemma_same_keys_position(a, b, bound.spec_iface());
    lemma_position_found(a, bound.spec_iface());
}

/// Whether `after` holds everything that the sockets bound in `before` rely on:
/// the same interfaces under the same keys, and on each of them every socket of
/// `before`, still of its protocol, and every port that was allocated.
pub open spec fn net_extends(before: Seq<NetEntry>, after: Seq<NetEntry>) -> bool {
    &&& same_keys(before, after)
    &&& forall|j: int, h: SocketHandle|
        0 <= j < before.len() && #[trigger] before[j].iface.table.dom().contains(h) ==> {
            &&& after[j].iface.table.dom().contains(h)
            &&& crate::stack::same_protocol(before[j].iface.table[h], after[j].iface.table[h])
        }
    &&& forall|j: int, p: int, port: u16|
        0 <= j < before.len() && 0 <= p < before[j].iface.ports.len() && #[trigger] before[j].iface.ports[p].ports.contains(
            port,
        ) ==> p < after[j].iface.ports.len() && after[j].iface.ports[p].ports.contains(port)
}

/// A binding that is well-formed stays so in every registry that extends the one
/// it is well-formed in: its interface is found at the same position, and its
/// socket is in the socket table, of the same protocol.
pub proof fn lemma_extends_keeps(before: Seq<NetEntry>, after: Seq<NetEntry>, b: BoundInner)
    requires
        net_extends(before, after),
        b.wf(before),
    ensures
        b.wf(after),
        b.index(after) == b.index(before),
        b.is_tcp(before) ==> b.is_tcp(after),
        b.is_udp(before) ==> b.is_udp(after),
{
    lemma_same_keys_position(before, after, b.spec_iface());
    lemma_position_found(before, b.spec_iface());
    let j = b.index(before);
    assert(before[j].iface.table.dom().contains(b.spec_handle()));
}

/// Every registry extends itself, and extending is transitive.
pub proof fn lemma_extends_chain(a: Seq<NetEntry>, b: Seq<NetEntry>, c: Seq<NetEntry>)
    requires
        net_extends(a, b),
        net_extends(b, c),
    ensures
        net_extends(a, a),
        net_extends(a, c),
{
    assert forall|j: int, h: SocketHandle|
        0 <= j < a.len() && #[trigger] a[j].iface.table.dom().contains(h) implies c[j].iface.table.dom().contains(h) && (
    crate::stack::same_protocol(a[j].iface.table[h], c[j].iface.table[h])) by {
        assert(b[j].iface.table.dom().contains(h));
    }
    assert forall|j: int, p: int, port: u16|
        0 <= j < a.len() && 0 <= p < a[j].iface.ports.len() && #[trigger] a[j].iface.ports[p].ports.contains(
            port,
        ) implies p < c[j].iface.ports.len() && c[j].iface.ports[p].ports.contains(port) by {
        assert(b[j].iface.ports[p].ports.contains(port));
    }
    assert forall|j: int| 0 <= j < a.len() implies (#[trigger] a[j]).key == c[j].key by {
        assert(b[j].key == a[j].key);
    }
}

/// A registry in which a socket was placed under a free handle, or replaced by one
/// of its protocol, extends the registry that it was.
pub proof fn lemma_with_socket_extends(net: Seq<NetEntry>, i: int, h: SocketHandle, m: SocketModel)
    requires
        0 <= i < net.len(),
        net[i].iface.table.dom().contains(h) ==> crate::stack::same_protocol(net[i].iface.table[h], m),
    ensures
        net_extends(net, with_socket(net, i, h, m)),
{
}

/// A registry in which the ports of an interface were replaced by ports that hold
/// every port that was allocated extends the registry that it was.
pub proof fn lemma_with_ports_extends(net: Seq<NetEntry>, i: int, ports: Seq<port::PortSpace>)
    requires
        0 <= i < net.len(),
        ports.len() == net[i].iface.ports.len(),
        forall|p: int, x: u16|
            0 <= p < ports.len() && #[trigger] net[i].iface.ports[p].ports.contains(x) ==> ports[p].ports.contains(x),
    ensures
        net_extends(net, with_ports(net, i, ports)),
{
}

/// A registry in which the list of bound sockets of an interface was replaced
/// extends the registry that it was.
pub proof fn lemma_with_bounds_extends(net: Seq<NetEntry>, i: int, bounds: Seq<usize>)
    requires
        0 <= i < net.len(),
    ensures
        net_extends(net, with_bounds(net, i, bounds)),
{
}

/// A port that was allocated leaves every port allocated that was.
pub proof fn lemma_with_port_grows(spaces: Seq<port::PortSpace>, protocol: Types, x: u16, ephemeral: bool)
    requires
        spaces.len() == 6,
    ensures
        ({
            let after = if ephemeral {
                port::with_ephemeral_port(spaces, protocol, x)
            } else {
                port::with_port(spaces, protocol, x)
            };
            &&& after.len() == 6
            &&& forall|p: int, y: u16|
                0 <= p < 6 && #[trigger] spaces[p].ports.contains(y) ==> after[p].ports.contains(y)
        }),
{
    let after = if ephemeral {
        port::with_ephemeral_port(spaces, protocol, x)
    } else {
        port::with_port(spaces, protocol, x)
    };
    assert forall|p: int, y: u16| 0 <= p < 6 && #[trigger] spaces[p].ports.contains(y) implies after[p].ports.contains(
        y,
    ) by {
        if p == protocol.spec_index() {
            let s = spaces[p].ports;
            let k = choose|k: int| 0 <= k < s.len() && s[k] == y;
            assert(s.push(x)[k] == y);
        }
    }
}

/// The local address that is chosen for a socket that is not bound belongs to the
/// interface that is chosen with it.
pub proof fn lemma_ephemeral_address_owned(net: Seq<NetEntry>, remote: IpAddress)
    requires
        ephemeral_iface(net, remote) is Some,
    ensures
        0 <= ephemeral_iface(net, remote)->0.index < net.len(),
        net[ephemeral_iface(net, remote)->0.index].iface.has_addr(ephemeral_iface(net, remote)->0.local),
{
    lemma_choice_in_range(net, remote);
    lemma_owned_from(net, remote, 0);
    match owner_from(net, remote, 0) {
        Some(_) => {},
        None => match subnet_from(net, remote, 0) {
            Some(_) => {},
            None => {
                let addrs = net[0].iface.addrs;
                assert(addrs[0].spec_address() == ephemeral_iface(net, remote)->0.local);
            },
        },
    }
}

proof fn lemma_owned_from(net: Seq<NetEntry>, remote: IpAddress, from: int)
    requires
        0 <= from,
    ensures
        owner_from(net, remote, from) matches Some(i) ==> net[i].iface.has_addr(remote),
        subnet_from(net, remote, from) matches Some(choice) ==> net[choice.index].iface.has_addr(choice.local),
    decreases net.len() - from,
{
    if from < net.len() {
        lemma_owned_from(net, remote, from + 1);
        lemma_subnet_addr_owned(net[from].iface.addrs, remote, 0);
    }
}

proof fn lemma_subnet_addr_owned(addrs: Seq<IpCidr>, remote: IpAddress, from: int)
    requires
        0 <= from,
    ensures
        subnet_addr_from(addrs, remote, from) matches Some(local) ==> crate::stack::addrs_have(addrs, local),
    decreases addrs.len() - from,
{
    if from < addrs.len() {
        lemma_subnet_addr_owned(addrs, remote, from + 1);
        if cidr_contains(addrs[from], remote) {
            assert(addrs[from].spec_address() == subnet_addr_from(addrs, remote, from)->0);
        }
    }
}

/// A socket that is to reach a peer on no known subnet, which is the address of no
/// interface either, gets the first interface, and the first address of that
/// interface for its local address.
pub proof fn lemma_ephemeral_fallback(net: Seq<NetEntry>, remote: IpAddress)
    requires
        net.len() > 0,
        net[0].iface.addrs.len() > 0,
        forall|i: int| 0 <= i < net.len() ==> !(#[trigger] net[i]).iface.has_addr(remote),
        forall|i: int, j: int|
            0 <= i < net.len() && 0 <= j < net[i].iface.addrs.len() ==> !cidr_contains(
                #[trigger] net[i].iface.addrs[j],
                remote,
            ),
    ensures
        ephemeral_iface(net, remote) == Some(IfaceChoice { index: 0, local: net[0].iface.addrs[0].spec_address() }),
{
    lemma_no_match_from(net, remote, 0);
}

proof fn lemma_no_match_from(net: Seq<NetEntry>, remote: IpAddress, from: int)
    requires
        0 <= from,
        forall|i: int| 0 <= i < net.len() ==> !(#[trigger] net[i]).iface.has_addr(remote),
        forall|i: int, j: int|
            0 <= i < net.len() && 0 <= j < net[i].iface.addrs.len() ==> !cidr_contains(
                #[trigger] net[i].iface.addrs[j],
                remote,
            ),
    ensures
        owner_from(net, remote, from) is None,
        subnet_from(net, remote, from) is None,
    decreases net.len() - from,
{
    if from < net.len() {
        lemma_no_match_from(net, remote, from + 1);
        lemma_no_subnet_from(net, from, remote, 0);
        assert(!net[from].iface.has_addr(remote));
    }
}

proof fn lemma_no_subnet_from(net: Seq<NetEntry>, i: int, remote: IpAddress, from: int)
    requires
        0 <= i < net.len(),
        0 <= from,
        forall|j: int| 0 <= j < net[i].iface.addrs.len() ==> !cidr_contains(#[trigger] net[i].iface.addrs[j], remote),
    ensures
        subnet_addr_from(net[i].iface.addrs, remote, from) is None,
    decreases net[i].iface.addrs.len() - from,
{
    if from < net[i].iface.addrs.len() {
        lemma_no_subnet_from(net, i, remote, from + 1);
    }
}

impl BoundInner {
    /// For every binding that is well-formed, the interface that it names is
    /// registered, and the socket table of that interface holds an entry, and so
    /// exactly one, under the handle of the binding.
    pub proof fn lemma_handle_consistent(&self, net: Seq<NetEntry>)
        requires
            self.wf(net),
        ensures
            0 <= self.index(net) < net.len(),
            net[self.index(net)].key == self.spec_iface(),
            net[self.index(net)].iface.table.dom().contains(self.spec_handle()),
    {
        lemma_position_found(net, self.spec_iface());
    }
}

/// A port that was freed: the key of the interface, the position of the protocol's
/// port namespace, and the port.
pub struct FreedPort {
    /// The key of the interface.
    pub key: usize,
    /// The position of the port namespace.
    pub protocol: int,
    /// The port.
    pub port: u16,
}

/// Whether one of `bindings` is the binding of the handle `h` on the interface
/// registered under `key`.
pub open spec fn held(bindings: Seq<BoundInner>, key: usize, h: SocketHandle) -> bool {
    exists|k: int|
        0 <= k < bindings.len() && (#[trigger] bindings[k]).spec_iface() == key && bindings[k].spec_handle() == h
}

/// Whether `port` of the namespace at `protocol` on the interface registered under
/// `key` is among `freed`.
pub open spec fn is_freed(freed: Seq<FreedPort>, key: usize, protocol: int, port: u16) -> bool {
    exists|k: int|
        0 <= k < freed.len() && (#[trigger] freed[k]).key == key && freed[k].protocol == protocol && freed[k].port
            == port
}

/// Whether `after` holds everything that `before` held but the sockets of
/// `bindings` and the ports `freed`: the same interfaces under the same keys, and
/// on each of them every other socket, still of its protocol, and every other port
/// that was allocated.
pub open spec fn net_keeps(before: Seq<NetEntry>, after: Seq<NetEntry>, bindings: Seq<BoundInner>, freed: Seq<FreedPort>) -> bool {
    &&& same_keys(before, after)
    &&& forall|j: int, h: SocketHandle|
        0 <= j < before.len() && #[trigger] before[j].iface.table.dom().contains(h) && !held(
            bindings,
            before[j].key,
            h,
        ) ==> {
            &&& after[j].iface.table.dom().contains(h)
            &&& crate::stack::same_protocol(before[j].iface.table[h], after[j].iface.table[h])
        }
    &&& forall|j: int, p: int, port: u16|
        0 <= j < before.len() && 0 <= p < before[j].iface.ports.len() && #[trigger] before[j].iface.ports[p].ports.contains(
            port,
        ) && !is_freed(freed, before[j].key, p, port) ==> p < after[j].iface.ports.len()
            && after[j].iface.ports[p].ports.contains(port)
}

/// A registry that extends another keeps everything of it.
pub proof fn lemma_extends_keeps_all(before: Seq<NetEntry>, after: Seq<NetEntry>)
    requires
        net_extends(before, after),
    ensures
        net_keeps(before, after, Seq::empty(), Seq::empty()),
{
}

/// What was kept over two changes of the registry is kept over both, but for the
/// sockets and the ports that either change took.
pub proof fn lemma_keeps_chain(
    a: Seq<NetEntry>,
    b: Seq<NetEntry>,
    c: Seq<NetEntry>,
    first: Seq<BoundInner>,
    second: Seq<BoundInner>,
    freed_first: Seq<FreedPort>,
    freed_second: Seq<FreedPort>,
)
    requires
        net_keeps(a, b, first, freed_first),
        net_keeps(b, c, second, freed_second),
    ensures
        net_keeps(a, c, first + second, freed_first + freed_second),
{
    let both = first + second;
    let freed = freed_first + freed_second;
    assert forall|j: int| 0 <= j < a.len() implies (#[trigger] a[j]).key == c[j].key by {
        assert(b[j].key == a[j].key);
    }
    assert forall|j: int, h: SocketHandle|
        0 <= j < a.len() && #[trigger] a[j].iface.table.dom().contains(h) && !held(both, a[j].key, h) implies c[j].iface.table.dom().contains(
        h,
    ) && crate::stack::same_protocol(a[j].iface.table[h], c[j].iface.table[h]) by {
        assert(b[j].key == a[j].key);
        if held(first, a[j].key, h) {
            let k = choose|k: int|
                0 <= k < first.len() && (#[trigger] first[k]).spec_iface() == a[j].key && first[k].spec_handle() == h;
            assert(both[k] == first[k]);
        }
        assert(b[j].iface.table.dom().contains(h));
        if held(second, b[j].key, h) {
            let k = choose|k: int|
                0 <= k < second.len() && (#[trigger] second[k]).spec_iface() == b[j].key && second[k].spec_handle()
                    == h;
            assert(both[first.len() + k] == second[k]);
        }
    }
    assert forall|j: int, p: int, port: u16|
        0 <= j < a.len() && 0 <= p < a[j].iface.ports.len() && #[trigger] a[j].iface.ports[p].ports.contains(port)
            && !is_freed(freed, a[j].key, p, port) implies p < c[j].iface.ports.len() && c[j].iface.ports[p].ports.contains(
        port,
    ) by {
        assert(b[j].key == a[j].key);
        if is_freed(freed_first, a[j].key, p, port) {
            let k = choose|k: int|
                0 <= k < freed_first.len() && (#[trigger] freed_first[k]).key == a[j].key && freed_first[k].protocol == p
                    && freed_first[k].port == port;
            assert(freed[k] == freed_first[k]);
        }
        assert(b[j].iface.ports[p].ports.contains(port));
        if is_freed(freed_second, b[j].key, p, port) {
            let k = choose|k: int|
                0 <= k < freed_second.len() && (#[trigger] freed_second[k]).key == b[j].key && freed_second[k].protocol
                    == p && freed_second[k].port == port;
            assert(freed[freed_first.len() + k] == freed_second[k]);
        }
    }
}

/// A binding that is well-formed stays so over every change of the registry that
/// keeps its socket: its interface is found at the same position, and its socket is
/// in the socket table, of the same protocol.
pub proof fn lemma_keeps_binding(
    before: Seq<NetEntry>,
    after: Seq<NetEntry>,
    bindings: Seq<BoundInner>,
    freed: Seq<FreedPort>,
    b: BoundInner,
)
    requires
        net_keeps(before, after, bindings, freed),
        b.wf(before),
        !held(bindings, b.spec_iface(), b.spec_handle()),
    ensures
        b.wf(after),
        b.index(after) == b.index(before),
        b.is_tcp(before) ==> b.is_tcp(after),
        b.is_udp(before) ==> b.is_udp(after),
{
    lemma_same_keys_position(before, after, b.spec_iface());
    lemma_position_found(before, b.spec_iface());
    let j = b.index(before);
    assert(before[j].iface.table.dom().contains(b.spec_handle()));
}

/// Taking the socket of a binding out of its socket table keeps everything else of
/// the registry.
pub proof fn lemma_release_keeps(net: Seq<NetEntry>, b: BoundInner)
    requires
        b.wf(net),
    ensures
        net_keeps(net, without_socket(net, b.index(net), b.spec_handle()), seq![b], Seq::empty()),
{
    lemma_position_found(net, b.spec_iface());
    let i = b.index(net);
    let after = without_socket(net, i, b.spec_handle());
    let bindings = seq![b];
    assert forall|j: int, h: SocketHandle|
        0 <= j < net.len() && #[trigger] net[j].iface.table.dom().contains(h) && !held(bindings, net[j].key, h) implies after[j].iface.table.dom().contains(
        h,
    ) && crate::stack::same_protocol(net[j].iface.table[h], after[j].iface.table[h]) by {
        if j == i && h == b.spec_handle() {
            assert(bindings[0].spec_iface() == net[j].key && bindings[0].spec_handle() == h);
        }
    }
}

/// Freeing a port of an interface keeps everything else of the registry.
pub proof fn lemma_unbind_keeps(net: Seq<NetEntry>, i: int, protocol: Types, port: u16)
    requires
        net_inv(net),
        0 <= i < net.len(),
    ensures
        net_keeps(
            net,
            with_ports(net, i, port::without_port(net[i].iface.ports, protocol, port)),
            Seq::empty(),
            seq![FreedPort { key: net[i].key, protocol: protocol.spec_index(), port }],
        ),
{
    let after = with_ports(net, i, port::without_port(net[i].iface.ports, protocol, port));
    let freed = seq![FreedPort { key: net[i].key, protocol: protocol.spec_index(), port }];
    assert forall|j: int, p: int, x: u16|
        0 <= j < net.len() && 0 <= p < net[j].iface.ports.len() && #[trigger] net[j].iface.ports[p].ports.contains(x)
            && !is_freed(freed, net[j].key, p, x) implies p < after[j].iface.ports.len() && after[j].iface.ports[p].ports.contains(
        x,
    ) by {
        if j == i && p == protocol.spec_index() {
            let s = net[i].iface.ports[p].ports;
            assert(net[i].iface.ports.len() == 6 && port::ports_unique(net[i].iface.ports));
            port::lemma_remove_value(s, port);
            if x == port {
                assert(freed[0].key == net[j].key && freed[0].protocol == p && freed[0].port == x);
            } else {
                assert(s.to_set().contains(x));
                assert(s.remove_value(port).to_set().contains(x));
            }
        }
    }
}

} // verus!
