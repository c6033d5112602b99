//! The arguments of socket calls as the caller lays them out.
use super::family::AddressFamily;
use vstd::prelude::*;

verus! {

/// The bit of a socket type argument that asks for a non-blocking socket.
pub const SOCK_NONBLOCK: u32 = 0x800;

/// The bit of a socket type argument that asks to close the socket on `exec`.
pub const SOCK_CLOEXEC: u32 = 0x80000;

/// The bits of a socket type argument that name the socket type.
pub const SOCK_TYPE_MASK: u32 = 0xf;

/// The type argument of a `socket` call: a socket type in the low four bits,
/// together with the flags `SOCK_NONBLOCK` and `SOCK_CLOEXEC`.
#[derive(Clone, Copy, Debug, PartialEq, Eq, Structural)]
pub struct PosixArgsSocketType {
    bits: u32,
}

impl View for PosixArgsSocketType {
    type V = u32;

    closed spec fn view(&self) -> u32 {
        self.bits
    }
}

impl PosixArgsSocketType {
    /// The type argument `STREAM`.
    pub const STREAM: u32 = 1;

    /// The type argument `DGRAM`.
    pub const DGRAM: u32 = 2;

    /// The type argument `RAW`.
    pub const RAW: u32 = 3;

    /// The type argument `RDM`.
    pub const RDM: u32 = 4;

    /// The type argument `SEQPACKET`.
    pub const SEQPACKET: u32 = 5;

    /// The type argument `DCCP`.
    pub const DCCP: u32 = 6;

    /// The type argument `PACKET`.
    pub const PACKET: u32 = 10;

    /// The flag `NONBLOCK`.
    pub const NONBLOCK: u32 = 0x800;

    /// The flag `CLOEXEC`.
    pub const CLOEXEC: u32 = 0x80000;

    /// The argument with exactly the given bits, if they are bits of a socket type
    /// or of the two flags.
    pub fn from_bits(bits: u32) -> (r: Option<Self>)
        ensures
            r is Some <==> bits & !0x8080fu32 == 0,
            r is Some ==> r->0@ == bits,
    {
        if bits & !0x8080fu32 == 0 {
            Some(PosixArgsSocketType { bits })
        } else {
            None
        }
    }

    /// The argument made of the known bits among those given.
    pub fn from_bits_truncate(bits: u32) -> (r: Self)
        ensures
            r@ == bits & 0x8080fu32,
    {
        PosixArgsSocketType { bits: bits & 0x8080fu32 }
    }

    /// The raw bits of the argument.
    pub fn bits(&self) -> (b: u32)
        ensures
            b == self@,
    {
        self.bits
    }

    /// The argument without its flags.
    pub open spec fn spec_types(&self) -> PosixArgsSocketType {
        Self::spec_from_bits(self@ & SOCK_TYPE_MASK)
    }

    /// The argument with the given bits.
    pub closed spec fn spec_from_bits(bits: u32) -> PosixArgsSocketType {
        PosixArgsSocketType { bits }
    }

    /// An argument is made of its bits.
    pub proof fn lemma_from_bits(bits: u32)
        ensures
            Self::spec_from_bits(bits)@ == bits,
    {
    }

    /// Returns the argument without its flags: the low four bits.
    pub fn types(&self) -> (t: PosixArgsSocketType)
        ensures
            t == self.spec_types(),
            t@ == self@ & SOCK_TYPE_MASK,
    {
        PosixArgsSocketType { bits: self.bits & SOCK_TYPE_MASK }
    }

    /// Whether the flag `NONBLOCK` is set.
    pub fn is_nonblock(&self) -> (b: bool)
        ensures
            b == (self@ & SOCK_NONBLOCK == SOCK_NONBLOCK),
    {
        self.bits & SOCK_NONBLOCK == SOCK_NONBLOCK
    }

    /// Whether the flag `CLOEXEC` is set.
    pub fn is_cloexec(&self) -> (b: bool)
        ensures
            b == (self@ & SOCK_CLOEXEC == SOCK_CLOEXEC),
    {
        self.bits & SOCK_CLOEXEC == SOCK_CLOEXEC
    }
}

/// An IPv4 socket address as the caller lays it out.
#[derive(Debug, Clone, Copy)]
pub struct SockAddrIn {
    pub sin_family: u16,
    pub sin_port: u16,
    pub sin_addr: u32,
    pub sin_zero: [u8; 8],
}

/// A Unix socket address as the caller lays it out.
#[derive(Debug, Clone, Copy)]
pub struct SockAddrUn {
    pub sun_family: u16,
    pub sun_path: [u8; 108],
}

/// A link-layer socket address as the caller lays it out.
#[derive(Debug, Clone, Copy)]
pub struct SockAddrLl {
    pub sll_family: u16,
    pub sll_protocol: u16,
    pub sll_ifindex: u32,
    pub sll_hatype: u16,
    pub sll_pkttype: u8,
    pub sll_halen: u8,
    pub sll_addr: [u8; 8],
}

/// A netlink socket address as the caller lays it out.
#[derive(Debug, Clone, Copy)]
pub struct SockAddrNl {
    pub nl_family: AddressFamily,
    pub nl_pad: u16,
    pub nl_pid: u32,
    pub nl_groups: u32,
}

/// A socket address of a family that is not known yet.
#[derive(Debug, Clone, Copy)]
pub struct SockAddrPlaceholder {
    pub family: u16,
    pub data: [u8; 14],
}

} // verus!
