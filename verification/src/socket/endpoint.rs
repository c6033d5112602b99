//! The endpoints that socket calls take and give.
use crate::wire::IpEndpoint;
use vstd::prelude::*;

verus! {

/// The endpoint of a socket.
#[derive(Debug, Clone, Copy, PartialEq, Eq, Structural)]
pub enum Endpoint {
    /// An endpoint of the network layer.
    Ip(IpEndpoint),
    /// An endpoint of a kind that the internet family does not take.
    Other,
}

impl Endpoint {
    /// The endpoint of the network layer that is `endpoint`.
    pub fn from(endpoint: IpEndpoint) -> (e: Self)
        ensures
            e == Endpoint::Ip(endpoint),
    {
        Endpoint::Ip(endpoint)
    }
}

} // verus!
