//! Allocation of explicit and ephemeral ports, one namespace for each protocol.
use super::Types;
use crate::errno::SystemError;
use vstd::prelude::*;

verus! {

/// The lowest ephemeral port.
pub const EPHEMERAL_PORT_MIN: u16 = 49152;

/// The highest ephemeral port.
pub const EPHEMERAL_PORT_MAX: u16 = 65535;

/// Whether every port of `lo..=hi` is in `allocated`.
pub open spec fn all_allocated(allocated: Set<u16>, lo: int, hi: int) -> bool {
    forall|q: int| lo <= q <= hi && 0 <= q <= u16::MAX ==> #[trigger] allocated.contains(q as u16)
}

/// Whether `p` is the lowest port of `lo..=hi` that is not in `allocated`.
pub open spec fn is_first_free(allocated: Set<u16>, lo: int, hi: int, p: int) -> bool {
    &&& lo <= p <= hi
    &&& 0 <= p <= u16::MAX
    &&& !allocated.contains(p as u16)
    &&& all_allocated(allocated, lo, p - 1)
}

/// Whether `p` is the ephemeral port that a search from `cursor` finds: the first free
/// port above the cursor, or else the first free port from the bottom of the range.
pub open spec fn is_next_ephemeral(allocated: Set<u16>, cursor: u16, p: u16) -> bool {
    ||| is_first_free(allocated, cursor + 1, EPHEMERAL_PORT_MAX as int, p as int)
    ||| (all_allocated(allocated, cursor + 1, EPHEMERAL_PORT_MAX as int) && is_first_free(
        allocated,
        EPHEMERAL_PORT_MIN as int,
        cursor as int,
        p as int,
    ))
}

/// Whether every ephemeral port is in `allocated`.
pub open spec fn ephemeral_exhausted(allocated: Set<u16>) -> bool {
    all_allocated(allocated, EPHEMERAL_PORT_MIN as int, EPHEMERAL_PORT_MAX as int)
}

/// What `bind_port` answers for a port, given the ports allocated before.
pub open spec fn bind_port_result(allocated: Set<u16>, port: u16) -> Result<(), SystemError> {
    if port == 0 {
        Err(SystemError::EINVAL)
    } else if allocated.contains(port) {
        Err(SystemError::EADDRINUSE)
    } else {
        Ok(())
    }
}

/// What the contracts say of the ports of one protocol.
pub struct PortSpace {
    /// The allocated ports, in the order of their allocation.
    pub ports: Seq<u16>,
    /// The port at which the last search for an ephemeral port ended.
    pub cursor: u16,
}

/// The ports of every protocol while none is allocated.
pub open spec fn no_ports() -> Seq<PortSpace> {
    Seq::new(6, |i: int| PortSpace { ports: Seq::<u16>::empty(), cursor: EPHEMERAL_PORT_MAX })
}

/// `spaces` after `port` was allocated under `protocol`.
pub open spec fn with_port(spaces: Seq<PortSpace>, protocol: Types, port: u16) -> Seq<PortSpace> {
    let old = spaces[protocol.spec_index()];
    spaces.update(protocol.spec_index(), PortSpace { ports: old.ports.push(port), ..old })
}

/// `spaces` after the search for an ephemeral port under `protocol` ended on `port`.
pub open spec fn with_ephemeral_port(spaces: Seq<PortSpace>, protocol: Types, port: u16) -> Seq<PortSpace> {
    let old = spaces[protocol.spec_index()];
    spaces.update(protocol.spec_index(), PortSpace { ports: old.ports.push(port), cursor: port })
}

/// `spaces` after `port` was freed under `protocol`.
pub open spec fn without_port(spaces: Seq<PortSpace>, protocol: Types, port: u16) -> Seq<PortSpace> {
    let old = spaces[protocol.spec_index()];
    spaces.update(protocol.spec_index(), PortSpace { ports: old.ports.remove_value(port), ..old })
}

/// Whether no port is allocated twice under any protocol, and port 0 under none.
pub open spec fn ports_unique(spaces: Seq<PortSpace>) -> bool {
    forall|i: int|
        0 <= i < spaces.len() ==> (#[trigger] spaces[i]).ports.no_duplicates() && !spaces[i].ports.contains(0)
}

/// The ports allocated under one protocol, and where the last ephemeral port was found.
struct PortTable {
    ports: Vec<u16>,
    cursor: u16,
}

impl View for PortTable {
    type V = PortSpace;

    closed spec fn view(&self) -> PortSpace {
        PortSpace { ports: self.ports@, cursor: self.cursor }
    }
}

impl PortTable {
    spec fn wf(&self) -> bool {
        &&& self.ports@.no_duplicates()
        &&& !self.ports@.contains(0)
        &&& EPHEMERAL_PORT_MIN <= self.cursor
    }

    fn new() -> (t: PortTable)
        ensures
            t.wf(),
            t@ == (PortSpace { ports: Seq::<u16>::empty(), cursor: EPHEMERAL_PORT_MAX }),
    {
        PortTable { ports: Vec::new(), cursor: EPHEMERAL_PORT_MAX }
    }

    /// The index at which `port` is stored, if it is allocated.
    fn position(&self, port: u16) -> (r: Option<usize>)
        ensures
            r is Some <==> self.ports@.contains(port),
            r is Some ==> r->0 < self.ports@.len() && self.ports@[r->0 as int] == port,
            r is Some ==> forall|j: int| 0 <= j < r->0 ==> self.ports@[j] != port,
    {
        let mut i: usize = 0;
        while i < self.ports.len()
            invariant
                i <= self.ports@.len(),
                forall|j: int| 0 <= j < i ==> self.ports@[j] != port,
            decreases self.ports@.len() - i,
        {
            if self.ports[i] == port {
                return Some(i);
            }
            i += 1;
        }
        None
    }

    /// The lowest free port of `lo..=hi`, if there is one.
    fn first_free(&self, lo: u16, hi: u16) -> (r: Option<u16>)
        requires
            lo <= hi,
        ensures
            match r {
                Some(p) => is_first_free(self.ports@.to_set(), lo as int, hi as int, p as int),
                None => all_allocated(self.ports@.to_set(), lo as int, hi as int),
            },
    {
        let mut p: u32 = lo as u32;
        while p <= hi as u32
            invariant
                lo <= p <= hi + 1,
                all_allocated(self.ports@.to_set(), lo as int, p - 1),
            decreases hi + 1 - p,
        {
            if self.position(p as u16).is_none() {
                return Some(p as u16);
            }
            p += 1;
        }
        None
    }

    fn bind_port(&mut self, port: u16) -> (r: Result<(), SystemError>)
        requires
            old(self).wf(),
        ensures
            final(self).wf(),
            r == bind_port_result(old(self)@.ports.to_set(), port),
            r is Ok ==> final(self)@ == (PortSpace { ports: old(self)@.ports.push(port), ..old(self)@ }),
            r is Err ==> final(self)@ == old(self)@,
    {
        if port == 0 {
            return Err(SystemError::EINVAL);
        }
        if self.position(port).is_some() {
            return Err(SystemError::EADDRINUSE);
        }
        proof {
            lemma_push_fresh(self.ports@, port);
        }
        self.ports.push(port);
        Ok(())
    }

    fn bind_ephemeral_port(&mut self) -> (r: Result<u16, SystemError>)
        requires
            old(self).wf(),
        ensures
            final(self).wf(),
            match r {
                Ok(p) => {
                    &&& EPHEMERAL_PORT_MIN <= p
                    &&& !old(self)@.ports.to_set().contains(p)
                    &&& is_next_ephemeral(old(self)@.ports.to_set(), old(self)@.cursor, p)
                    &&& final(self)@ == (PortSpace { ports: old(self)@.ports.push(p), cursor: p })
                },
                Err(e) => {
                    &&& e == SystemError::EADDRINUSE
                    &&& ephemeral_exhausted(old(self)@.ports.to_set())
                    &&& final(self)@ == old(self)@
                },
            },
    {
        let cursor = self.cursor;
        let above = if cursor < EPHEMERAL_PORT_MAX {
            self.first_free(cursor + 1, EPHEMERAL_PORT_MAX)
        } else {
            None
        };
        let found = match above {
            Some(p) => Some(p),
            None => self.first_free(EPHEMERAL_PORT_MIN, cursor),
        };
        match found {
            None => Err(SystemError::EADDRINUSE),
            Some(p) => {
                proof {
                    lemma_push_fresh(self.ports@, p);
                }
                self.ports.push(p);
                self.cursor = p;
                Ok(p)
            },
        }
    }

    fn unbind_port(&mut self, port: u16)
        requires
            old(self).wf(),
        ensures
            final(self).wf(),
            final(self)@ == (PortSpace { ports: old(self)@.ports.remove_value(port), ..old(self)@ }),
    {
        let ghost s = self.ports@;
        proof {
            s.index_of_first_ensures(port);
        }
        match self.position(port) {
            None => {},
            Some(i) => {
                proof {
                    lemma_remove_at(s, i as int);
                }
                self.ports.remove(i);
            },
        }
    }
}

/// Allocates explicit and ephemeral ports, independently for each protocol.
pub struct PortManager {
    raw: PortTable,
    icmp: PortTable,
    udp: PortTable,
    tcp: PortTable,
    dhcpv4: PortTable,
    dns: PortTable,
}

impl View for PortManager {
    type V = Seq<PortSpace>;

    closed spec fn view(&self) -> Seq<PortSpace> {
        seq![self.raw@, self.icmp@, self.udp@, self.tcp@, self.dhcpv4@, self.dns@]
    }
}

impl PortManager {
    /// What holds of every port manager: under each protocol no port is allocated
    /// twice, and port 0 is never allocated.
    pub closed spec fn inv(&self) -> bool {
        &&& self.raw.wf()
        &&& self.icmp.wf()
        &&& self.udp.wf()
        &&& self.tcp.wf()
        &&& self.dhcpv4.wf()
        &&& self.dns.wf()
    }

    /// The ports allocated under a protocol, in the order of their allocation.
    pub open spec fn ports(&self, protocol: Types) -> Seq<u16> {
        self@[protocol.spec_index()].ports
    }

    /// The set of ports allocated under a protocol.
    pub open spec fn allocated(&self, protocol: Types) -> Set<u16> {
        self.ports(protocol).to_set()
    }

    /// The port at which the last search for an ephemeral port ended.
    pub open spec fn cursor(&self, protocol: Types) -> u16 {
        self@[protocol.spec_index()].cursor
    }

    /// A manager with no port allocated.
    pub fn new() -> (m: PortManager)
        ensures
            m.inv(),
            m@ == no_ports(),
    {
        PortManager {
            raw: PortTable::new(),
            icmp: PortTable::new(),
            udp: PortTable::new(),
            tcp: PortTable::new(),
            dhcpv4: PortTable::new(),
            dns: PortTable::new(),
        }
    }

    /// Whether `port` is allocated under `protocol`.
    pub fn is_allocated(&self, protocol: Types, port: u16) -> (b: bool)
        ensures
            b == self.allocated(protocol).contains(port),
    {
        let found = match protocol {
            Types::Raw => self.raw.position(port),
            Types::Icmp => self.icmp.position(port),
            Types::Udp => self.udp.position(port),
            Types::Tcp => self.tcp.position(port),
            Types::Dhcpv4 => self.dhcpv4.position(port),
            Types::Dns => self.dns.position(port),
        };
        found.is_some()
    }

    /// Allocates `port` under `protocol`.
    ///
    /// Port 0 is refused as an invalid argument, an allocated port as an address in
    /// use. Otherwise the port is allocated, and nothing else changes.
    pub fn bind_port(&mut self, protocol: Types, port: u16) -> (r: Result<(), SystemError>)
        requires
            old(self).inv(),
        ensures
            final(self).inv(),
            r == bind_port_result(old(self).allocated(protocol), port),
            r is Ok ==> final(self)@ == with_port(old(self)@, protocol, port),
            r is Err ==> final(self)@ == old(self)@,
    {
        match protocol {
            Types::Raw => self.raw.bind_port(port),
            Types::Icmp => self.icmp.bind_port(port),
            Types::Udp => self.udp.bind_port(port),
            Types::Tcp => self.tcp.bind_port(port),
            Types::Dhcpv4 => self.dhcpv4.bind_port(port),
            Types::Dns => self.dns.bind_port(port),
        }
    }

    /// Allocates an ephemeral port under `protocol` and returns it.
    ///
    /// The search takes the first free port above the cursor, or else the first free
    /// port from the bottom of the ephemeral range, and leaves the cursor on it. It
    /// fails, with an address in use, exactly where the whole range is allocated.
    pub fn bind_ephemeral_port(&mut self, protocol: Types) -> (r: Result<u16, SystemError>)
        requires
            old(self).inv(),
        ensures
            final(self).inv(),
            match r {
                Ok(p) => {
                    &&& EPHEMERAL_PORT_MIN <= p
                    &&& !old(self).allocated(protocol).contains(p)
                    &&& is_next_ephemeral(old(self).allocated(protocol), old(self).cursor(protocol), p)
                    &&& final(self)@ == with_ephemeral_port(old(self)@, protocol, p)
                },
                Err(e) => {
                    &&& e == SystemError::EADDRINUSE
                    &&& ephemeral_exhausted(old(self).allocated(protocol))
                    &&& final(self)@ == old(self)@
                },
            },
    {
        match protocol {
            Types::Raw => self.raw.bind_ephemeral_port(),
            Types::Icmp => self.icmp.bind_ephemeral_port(),
            Types::Udp => self.udp.bind_ephemeral_port(),
            Types::Tcp => self.tcp.bind_ephemeral_port(),
            Types::Dhcpv4 => self.dhcpv4.bind_ephemeral_port(),
            Types::Dns => self.dns.bind_ephemeral_port(),
        }
    }

    /// Frees `port` under `protocol`; nothing happens where it is not allocated.
    pub fn unbind_port(&mut self, protocol: Types, port: u16)
        requires
            old(self).inv(),
        ensures
            final(self).inv(),
            final(self)@ == without_port(old(self)@, protocol, port),
    {
        match protocol {
            Types::Raw => self.raw.unbind_port(port),
            Types::Icmp => self.icmp.unbind_port(port),
            Types::Udp => self.udp.unbind_port(port),
            Types::Tcp => self.tcp.unbind_port(port),
            Types::Dhcpv4 => self.dhcpv4.unbind_port(port),
            Types::Dns => self.dns.unbind_port(port),
        }
    }

    /// Every port manager has six port namespaces, in each of which no port is
    /// allocated twice and port 0 is not allocated.
    pub proof fn lemma_ports_unique(&self)
        requires
            self.inv(),
        ensures
            self@.len() == 6,
            ports_unique(self@),
    {
    }
}

/// A port that was freed is no longer allocated, every other port is as before, and
/// freeing a port that is not allocated changes nothing.
pub proof fn lemma_remove_value(s: Seq<u16>, port: u16)
    requires
        s.no_duplicates(),
    ensures
        s.remove_value(port).to_set() == s.to_set().remove(port),
        s.remove_value(port).no_duplicates(),
        !s.contains(port) ==> s.remove_value(port) == s,
{
    s.index_of_first_ensures(port);
    match s.index_of_first(port) {
        None => {
            assert(s.to_set().remove(port) =~= s.to_set());
        },
        Some(i) => {
            let t = s.remove(i);
            assert forall|a: int| 0 <= a < t.len() implies #[trigger] t[a] == s[if a < i { a } else { a + 1 }] by {}
            assert forall|a: int, b: int| 0 <= a < t.len() && 0 <= b < t.len() && a != b implies t[a] != t[b] by {
                let a2 = if a < i { a } else { a + 1 };
                let b2 = if b < i { b } else { b + 1 };
                assert(t[a] == s[a2]);
                assert(t[b] == s[b2]);
            }
            assert forall|x: u16| t.contains(x) <==> (s.contains(x) && x != port) by {
                if t.contains(x) {
                    let a = choose|a: int| 0 <= a < t.len() && t[a] == x;
                    let a2 = if a < i { a } else { a + 1 };
                    assert(t[a] == s[a2]);
                    assert(s.contains(x));
                }
                if s.contains(x) && x != port {
                    let a = choose|a: int| 0 <= a < s.len() && s[a] == x;
                    let a2 = if a < i { a } else { a - 1 };
                    assert(t[a2] == s[a]);
                }
            }
            assert(t.to_set() =~= s.to_set().remove(port));
        },
    }
}

proof fn lemma_push_fresh(s: Seq<u16>, p: u16)
    requires
        s.no_duplicates(),
        !s.contains(0),
        !s.contains(p),
        p != 0,
    ensures
        s.push(p).no_duplicates(),
        !s.push(p).contains(0),
{
    let t = s.push(p);
    assert forall|i: int, j: int| 0 <= i < t.len() && 0 <= j < t.len() && i != j implies t[i] != t[j] by {
        if i < s.len() && j < s.len() {
        } else if i < s.len() {
            assert(s.contains(s[i]));
        } else {
            assert(s.contains(s[j]));
        }
    }
    if t.contains(0) {
        let i = choose|i: int| 0 <= i < t.len() && t[i] == 0;
        assert(s[i] == 0);
    }
}

proof fn lemma_remove_at(s: Seq<u16>, i: int)
    requires
        s.no_duplicates(),
        !s.contains(0),
        0 <= i < s.len(),
        s.index_of_first(s[i]) == Some(i),
    ensures
        s.remove(i) == s.remove_value(s[i]),
        s.remove(i).no_duplicates(),
        !s.remove(i).contains(0),
{
    let t = s.remove(i);
    lemma_remove_value(s, s[i]);
    if t.contains(0) {
        let a = choose|a: int| 0 <= a < t.len() && t[a] == 0;
        let a2 = if a < i { a } else { a + 1 };
        assert(t[a] == s[a2]);
        assert(s[a2] == 0);
    }
}

} // verus!
