//! Sockets of the internet family.
use crate::errno::SystemError;
use vstd::prelude::*;

pub mod common;
pub mod datagram;
pub mod stream;
pub mod syscall;

pub use datagram::UdpSocket;
pub use stream::TcpSocket;

verus! {

/// The outcome of one step of a call that may block.
pub enum Blocking<T> {
    /// The call is over, with this answer.
    Done(Result<T, SystemError>),
    /// The call would block: the caller waits on the socket's wait queue until one
    /// of these readiness flags is set, and then takes the step again.
    WaitFor(u32),
}

/// The step that an attempt amounts to: an attempt that would block asks a blocking
/// socket to wait for the readiness flags `events`; every other attempt ends the call.
pub open spec fn spec_blocking_step<T>(attempt: Result<T, SystemError>, nonblock: bool, events: u32) -> Blocking<T> {
    match attempt {
        Err(SystemError::EAGAIN_OR_EWOULDBLOCK) => if nonblock {
            Blocking::Done(attempt)
        } else {
            Blocking::WaitFor(events)
        },
        _ => Blocking::Done(attempt),
    }
}

/// The number of bytes that a step of a receive wrote into its buffer.
pub open spec fn step_len(step: Blocking<usize>) -> int {
    match step {
        Blocking::Done(Ok(size)) => size as int,
        _ => 0,
    }
}

/// The number of bytes that a step of a receive that names the sender wrote into
/// its buffer.
pub open spec fn step_len_from<E>(step: Blocking<(usize, E)>) -> int {
    match step {
        Blocking::Done(Ok((size, _))) => size as int,
        _ => 0,
    }
}

/// Turns an attempt into the step of a call that may block; see [`spec_blocking_step`].
pub fn blocking_step<T>(attempt: Result<T, SystemError>, nonblock: bool, events: u32) -> (step: Blocking<T>)
    ensures
        step == spec_blocking_step(attempt, nonblock, events),
{
    match attempt {
        Err(SystemError::EAGAIN_OR_EWOULDBLOCK) => {
            if nonblock {
                Blocking::Done(Err(SystemError::EAGAIN_OR_EWOULDBLOCK))
            } else {
                Blocking::WaitFor(events)
            }
        },
        other => Blocking::Done(other),
    }
}

} // verus!
