//! The arithmetic of the TAP device: the size of its frames and the outcome of its
//! reads and writes. Opening the device and moving the frames are the caller's.
use vstd::prelude::*;

verus! {

/// The kind of frame that a device carries.
#[derive(Clone, Copy, Debug, PartialEq, Eq, Structural)]
pub enum Medium {
    /// Ethernet frames.
    Ethernet,
    /// IP packets without a link-layer header.
    Ip,
}

/// The length of the header of an Ethernet frame.
pub const ETHERNET_HEADER_LEN: usize = 14;

/// The error number of a read or write that would block.
pub const EAGAIN: i32 = 11;

/// `EthernetFrame::header_len` of the stack: the length of the header of an
/// Ethernet frame, which is 14.
#[verifier::external_body]
fn ethernet_header_len() -> (len: usize)
    ensures
        len == ETHERNET_HEADER_LEN,
{
    smoltcp::wire::EthernetFrame::<&[u8]>::header_len()
}

/// The largest frame of a device on `medium` whose IP packets are at most `ip_mtu`
/// bytes long: an Ethernet frame has its header in front of the IP packet.
pub open spec fn spec_interface_mtu(medium: Medium, ip_mtu: usize) -> int {
    match medium {
        Medium::Ip => ip_mtu as int,
        Medium::Ethernet => ip_mtu + ETHERNET_HEADER_LEN,
    }
}

/// Returns the largest frame of a device; `None` where it is too large for a `usize`.
pub fn interface_mtu(medium: Medium, ip_mtu: usize) -> (mtu: Option<usize>)
    ensures
        mtu is Some <==> spec_interface_mtu(medium, ip_mtu) <= usize::MAX,
        mtu is Some ==> mtu->0 == spec_interface_mtu(medium, ip_mtu),
{
    match medium {
        Medium::Ip => Some(ip_mtu),
        Medium::Ethernet => ip_mtu.checked_add(ethernet_header_len()),
    }
}

/// The outcome of a read from, or a write to, the device.
#[derive(Clone, Copy, Debug, PartialEq, Eq, Structural)]
pub enum IoOutcome {
    /// A whole frame of this length was moved.
    Frame(usize),
    /// The device has no frame, or takes none now.
    WouldBlock,
    /// The device failed, with this error number.
    Fatal(i32),
}

/// The outcome of a read or write that returned `returned`, where `errno` is the
/// error number of a call that failed: a call that returned a length moved a whole
/// frame; one that failed with `EAGAIN` would block; every other failure is fatal.
pub open spec fn spec_io_outcome(returned: isize, errno: i32) -> IoOutcome {
    if returned >= 0 {
        IoOutcome::Frame(returned as usize)
    } else if errno == EAGAIN {
        IoOutcome::WouldBlock
    } else {
        IoOutcome::Fatal(errno)
    }
}

/// Classifies what a read or write returned; see [`spec_io_outcome`].
pub fn io_outcome(returned: isize, errno: i32) -> (o: IoOutcome)
    ensures
        o == spec_io_outcome(returned, errno),
{
    if returned >= 0 {
        IoOutcome::Frame(returned as usize)
    } else if errno == EAGAIN {
        IoOutcome::WouldBlock
    } else {
        IoOutcome::Fatal(errno)
    }
}

/// The hardware address of the device: locally administered, `02:00:00` followed by
/// the three bytes given.
pub fn mac_address(b3: u8, b4: u8, b5: u8) -> (mac: [u8; 6])
    ensures
        mac@ == seq![0x02u8, 0x00u8, 0x00u8, b3, b4, b5],
{
    let mac = [0x02, 0x00, 0x00, b3, b4, b5];
    assert(mac@ =~= seq![0x02u8, 0x00u8, 0x00u8, b3, b4, b5]);
    mac
}

} // verus!
