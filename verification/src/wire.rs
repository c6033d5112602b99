//! Plain values for addresses, endpoints and address blocks.
use vstd::prelude::*;

verus! {

/// The low byte of a number.
pub open spec fn spec_low_byte(x: u32) -> u8 {
    (x % 256) as u8
}

/// Returns the low byte of a number.
pub fn low_byte(x: u32) -> (b: u8)
    ensures
        b == spec_low_byte(x),
{
    (x % 256) as u8
}

/// Internet protocol version.
#[derive(Clone, Copy, Debug, PartialEq, Eq, Structural)]
pub enum IpVersion {
    Ipv4,
    Ipv6,
}

/// An internetworking address, held as the number that its octets spell in network order.
#[derive(Clone, Copy, Debug, PartialEq, Eq, Structural)]
pub enum IpAddress {
    /// An IPv4 address.
    Ipv4(u32),
    /// An IPv6 address.
    Ipv6(u128),
}

impl IpAddress {
    /// The IPv4 address `a0.a1.a2.a3`.
    pub open spec fn spec_v4(a0: u8, a1: u8, a2: u8, a3: u8) -> IpAddress {
        IpAddress::Ipv4((a0 * 0x100_0000 + a1 * 0x1_0000 + a2 * 0x100 + a3) as u32)
    }

    /// Builds the IPv4 address `a0.a1.a2.a3`.
    pub fn v4(a0: u8, a1: u8, a2: u8, a3: u8) -> (a: IpAddress)
        ensures
            a == Self::spec_v4(a0, a1, a2, a3),
    {
        IpAddress::Ipv4(
            (a0 as u32) * 0x100_0000 + (a1 as u32) * 0x1_0000 + (a2 as u32) * 0x100 + (a3 as u32),
        )
    }

    /// The version of the address.
    pub open spec fn spec_version(self) -> IpVersion {
        match self {
            IpAddress::Ipv4(_) => IpVersion::Ipv4,
            IpAddress::Ipv6(_) => IpVersion::Ipv6,
        }
    }

    /// Returns the version of the address.
    pub fn version(&self) -> (v: IpVersion)
        ensures
            v == self.spec_version(),
    {
        match self {
            IpAddress::Ipv4(_) => IpVersion::Ipv4,
            IpAddress::Ipv6(_) => IpVersion::Ipv6,
        }
    }

    /// Whether the address is the unspecified one of its version (`0.0.0.0` or `::`).
    pub open spec fn spec_is_unspecified(self) -> bool {
        match self {
            IpAddress::Ipv4(bits) => bits == 0,
            IpAddress::Ipv6(bits) => bits == 0,
        }
    }

    /// Returns whether the address is the unspecified one of its version.
    pub fn is_unspecified(&self) -> (b: bool)
        ensures
            b == self.spec_is_unspecified(),
    {
        match self {
            IpAddress::Ipv4(bits) => *bits == 0,
            IpAddress::Ipv6(bits) => *bits == 0,
        }
    }

    /// Whether the address names one host: it is neither unspecified nor a multicast
    /// address nor the IPv4 broadcast address.
    pub open spec fn spec_is_unicast(self) -> bool {
        match self {
            IpAddress::Ipv4(bits) => bits != 0 && bits != 0xffff_ffff && bits / 0x1000_0000 != 0xe,
            IpAddress::Ipv6(bits) => bits != 0 && bits / 0x100_0000_0000_0000_0000_0000_0000_0000 != 0xff,
        }
    }

    /// Returns whether the address names one host.
    pub fn is_unicast(&self) -> (b: bool)
        ensures
            b == self.spec_is_unicast(),
    {
        match self {
            IpAddress::Ipv4(bits) => *bits != 0 && *bits != 0xffff_ffff && *bits / 0x1000_0000 != 0xe,
            IpAddress::Ipv6(bits) => *bits != 0 && *bits / 0x100_0000_0000_0000_0000_0000_0000_0000 != 0xff,
        }
    }

    /// The unspecified address of the given version.
    pub open spec fn spec_unspecified(version: IpVersion) -> IpAddress {
        match version {
            IpVersion::Ipv4 => IpAddress::Ipv4(0),
            IpVersion::Ipv6 => IpAddress::Ipv6(0),
        }
    }

    /// Returns the unspecified address of the given version.
    pub fn unspecified(version: IpVersion) -> (a: IpAddress)
        ensures
            a == Self::spec_unspecified(version),
            a.spec_is_unspecified(),
            a.spec_version() == version,
    {
        match version {
            IpVersion::Ipv4 => IpAddress::Ipv4(0),
            IpVersion::Ipv6 => IpAddress::Ipv6(0),
        }
    }
}

/// An address and a port.
#[derive(Clone, Copy, Debug, PartialEq, Eq, Structural)]
pub struct IpEndpoint {
    pub addr: IpAddress,
    pub port: u16,
}

impl IpEndpoint {
    /// Builds the endpoint of an address and a port.
    pub fn new(addr: IpAddress, port: u16) -> (e: IpEndpoint)
        ensures
            e == (IpEndpoint { addr, port }),
    {
        IpEndpoint { addr, port }
    }
}

/// The unspecified local IPv4 endpoint, `0.0.0.0:0`.
pub open spec fn unspecified_local_endpoint_v4() -> IpEndpoint {
    IpEndpoint { addr: IpAddress::Ipv4(0), port: 0 }
}

/// A port with an optional address: without one, every local address is meant.
#[derive(Clone, Copy, Debug, PartialEq, Eq, Structural)]
pub struct IpListenEndpoint {
    pub addr: Option<IpAddress>,
    pub port: u16,
}

impl IpListenEndpoint {
    /// The listen endpoint of a port on every local address.
    pub fn from_port(port: u16) -> (e: IpListenEndpoint)
        ensures
            e == (IpListenEndpoint { addr: None, port }),
    {
        IpListenEndpoint { addr: None, port }
    }

    /// The listen endpoint of one address and port.
    pub fn from_endpoint(endpoint: IpEndpoint) -> (e: IpListenEndpoint)
        ensures
            e == (IpListenEndpoint { addr: Some(endpoint.addr), port: endpoint.port }),
    {
        IpListenEndpoint { addr: Some(endpoint.addr), port: endpoint.port }
    }

    /// The address that the endpoint stands for when a full endpoint is asked for:
    /// its own, or the unspecified IPv4 address.
    pub open spec fn spec_addr_or_unspecified(self) -> IpAddress {
        match self.addr {
            Some(a) => a,
            None => IpAddress::Ipv4(0),
        }
    }

    /// Returns the endpoint's address, or the unspecified IPv4 address where it has none.
    pub fn addr_or_unspecified(&self) -> (a: IpAddress)
        ensures
            a == self.spec_addr_or_unspecified(),
    {
        match self.addr {
            Some(a) => a,
            None => IpAddress::Ipv4(0),
        }
    }
}

/// The largest prefix length of an address block of the given version.
pub open spec fn max_prefix_len(version: IpVersion) -> int {
    match version {
        IpVersion::Ipv4 => 32,
        IpVersion::Ipv6 => 128,
    }
}

/// The two parts of an address block, as plain values.
#[derive(Clone, Copy, Debug, PartialEq, Eq, Structural)]
pub struct AddrBlock {
    /// The address.
    pub addr: IpAddress,
    /// The length of the subnet prefix.
    pub prefix_len: u8,
}

impl AddrBlock {
    /// The prefix is no longer than the address.
    pub open spec fn wf(self) -> bool {
        self.prefix_len <= max_prefix_len(self.addr.spec_version())
    }
}

/// An address block: an address and the length of its subnet prefix.
#[derive(Clone, Copy, Debug, PartialEq, Eq, Structural)]
pub struct IpCidr {
    addr: IpAddress,
    prefix_len: u8,
}

impl IpCidr {
    /// The address of the block.
    pub closed spec fn spec_address(self) -> IpAddress {
        self.addr
    }

    /// The prefix length of the block.
    pub closed spec fn spec_prefix_len(self) -> u8 {
        self.prefix_len
    }

    /// The prefix is no longer than the address.
    #[verifier::type_invariant]
    pub closed spec fn wf(self) -> bool {
        self.prefix_len <= max_prefix_len(self.addr.spec_version())
    }

    /// Builds a block; `None` where the prefix is longer than the address.
    pub fn new(addr: IpAddress, prefix_len: u8) -> (r: Option<IpCidr>)
        ensures
            r is Some <==> prefix_len <= max_prefix_len(addr.spec_version()),
            r is Some ==> r->0.spec_address() == addr && r->0.spec_prefix_len() == prefix_len,
    {
        let max: u8 = match addr {
            IpAddress::Ipv4(_) => 32,
            IpAddress::Ipv6(_) => 128,
        };
        if prefix_len <= max {
            Some(IpCidr { addr, prefix_len })
        } else {
            None
        }
    }

    /// The two parts of the block.
    pub open spec fn spec_parts(self) -> AddrBlock {
        AddrBlock { addr: self.spec_address(), prefix_len: self.spec_prefix_len() }
    }

    /// Returns the two parts of the block.
    pub fn parts(&self) -> (b: AddrBlock)
        ensures
            b == self.spec_parts(),
            b.wf(),
    {
        proof {
            use_type_invariant(self);
        }
        AddrBlock { addr: self.addr, prefix_len: self.prefix_len }
    }

    /// The block of two parts of which the prefix is no longer than the address.
    pub fn from_parts(b: AddrBlock) -> (c: IpCidr)
        requires
            b.wf(),
        ensures
            c.spec_parts() == b,
    {
        IpCidr { addr: b.addr, prefix_len: b.prefix_len }
    }

    /// Two blocks with the same parts are one block.
    pub proof fn lemma_same_parts(a: IpCidr, b: IpCidr)
        requires
            a.spec_parts() == b.spec_parts(),
        ensures
            a == b,
    {
    }

    /// Returns the address of the block.
    pub fn address(&self) -> (a: IpAddress)
        ensures
            a == self.spec_address(),
    {
        self.addr
    }

    /// Returns the prefix length of the block.
    pub fn prefix_len(&self) -> (n: u8)
        ensures
            n == self.spec_prefix_len(),
            n <= max_prefix_len(self.spec_address().spec_version()),
    {
        proof {
            use_type_invariant(self);
        }
        self.prefix_len
    }
}

} // verus!
