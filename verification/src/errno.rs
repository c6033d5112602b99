//! Error kinds surfaced by the socket layer.
use vstd::prelude::*;

verus! {

/// POSIX-style error kinds returned by socket operations.
///
/// Every variant corresponds to one Linux error number, see [`SystemError::code`].
#[allow(non_camel_case_types)]
#[derive(Clone, Copy, Debug, PartialEq, Eq, Structural)]
pub enum SystemError {
    /// Invalid argument, or an operation that the socket's state does not allow.
    EINVAL,
    /// The operation would block.
    EAGAIN_OR_EWOULDBLOCK,
    /// A non-blocking connect has been started.
    EINPROGRESS,
    /// A connect is already under way.
    EALREADY,
    /// The socket is already connected or listening.
    EISCONN,
    /// The socket is not connected.
    ENOTCONN,
    /// The port is already allocated.
    EADDRINUSE,
    /// No interface serves the address.
    ENODEV,
    /// The peer refused the connection.
    ECONNREFUSED,
    /// The connection was reset.
    ECONNRESET,
    /// The transmit half of the connection is closed.
    EPIPE,
    /// The protocol is not supported by the socket type.
    EPROTONOSUPPORT,
    /// The operation is not implemented.
    ENOSYS,
    /// A wait ran out of time.
    ETIMEDOUT,
}

impl SystemError {
    /// The Linux error number of each kind.
    pub open spec fn spec_code(self) -> int {
        match self {
            SystemError::EINVAL => 22,
            SystemError::EAGAIN_OR_EWOULDBLOCK => 11,
            SystemError::EINPROGRESS => 115,
            SystemError::EALREADY => 114,
            SystemError::EISCONN => 106,
            SystemError::ENOTCONN => 107,
            SystemError::EADDRINUSE => 98,
            SystemError::ENODEV => 19,
            SystemError::ECONNREFUSED => 111,
            SystemError::ECONNRESET => 104,
            SystemError::EPIPE => 32,
            SystemError::EPROTONOSUPPORT => 93,
            SystemError::ENOSYS => 38,
            SystemError::ETIMEDOUT => 110,
        }
    }

    /// Returns the Linux error number of this kind.
    pub fn code(self) -> (c: i32)
        ensures
            c == self.spec_code(),
    {
        match self {
            SystemError::EINVAL => 22,
            SystemError::EAGAIN_OR_EWOULDBLOCK => 11,
            SystemError::EINPROGRESS => 115,
            SystemError::EALREADY => 114,
            SystemError::EISCONN => 106,
            SystemError::ENOTCONN => 107,
            SystemError::EADDRINUSE => 98,
            SystemError::ENODEV => 19,
            SystemError::ECONNREFUSED => 111,
            SystemError::ECONNRESET => 104,
            SystemError::EPIPE => 32,
            SystemError::EPROTONOSUPPORT => 93,
            SystemError::ENOSYS => 38,
            SystemError::ETIMEDOUT => 110,
        }
    }

    /// Whether the kind is transient: the caller may retry once the socket is ready.
    pub open spec fn spec_is_transient(self) -> bool {
        self == SystemError::EAGAIN_OR_EWOULDBLOCK || self == SystemError::EINPROGRESS || self
            == SystemError::EALREADY
    }

    /// Returns whether the kind is transient.
    pub fn is_transient(self) -> (b: bool)
        ensures
            b == self.spec_is_transient(),
    {
        match self {
            SystemError::EAGAIN_OR_EWOULDBLOCK | SystemError::EINPROGRESS | SystemError::EALREADY => true,
            _ => false,
        }
    }
}

} // verus!
