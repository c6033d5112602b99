//! Process identifiers, as far as the socket layer needs them.
use vstd::prelude::*;

verus! {

/// The identifier of a process.
#[derive(Debug, Clone, Copy, PartialEq, Eq, Structural)]
pub struct Pid(usize);

impl Pid {
    /// The number of the identifier.
    pub closed spec fn spec_data(self) -> usize {
        self.0
    }

    /// The identifier with the given number.
    pub fn new(data: usize) -> (p: Pid)
        ensures
            p.spec_data() == data,
    {
        Pid(data)
    }

    /// Returns the number of the identifier.
    pub fn data(self) -> (d: usize)
        ensures
            d == self.spec_data(),
    {
        self.0
    }
}

/// Gives out process identifiers.
pub struct ProcessManager {}

impl ProcessManager {
    /// The identifier of the process that runs as the thread with the given number:
    /// the number itself where an identifier is wide enough for it.
    pub fn pid_of_thread(thread_id: u64) -> (p: Pid)
        ensures
            thread_id <= usize::MAX ==> p.spec_data() == thread_id,
    {
        Pid::new(#[verifier::truncate] (thread_id as usize))
    }
}

} // verus!
