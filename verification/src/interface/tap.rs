//! An interface together with the device that carries its frames.
use super::{spec_next_poll, Iface, IfaceCommon};
use smoltcp::iface::Interface;
use vstd::prelude::*;

verus! {

/// An interface over a device of type `D`, such as a TAP device.
pub struct TapIface<D> {
    /// The device that carries the interface's frames.
    pub inner: D,
    /// The part of the interface that does not depend on the device.
    pub common: IfaceCommon,
    /// The file descriptor to watch for frames, where the device has one.
    pub raw_fd: Option<i32>,
}

impl<D> TapIface<D> {
    /// The default interface, numbered 1, over `inner`, around a stack interface that
    /// was configured for that device.
    pub fn new(inner: D, iface: Interface, raw_fd: Option<i32>) -> (t: Self)
        ensures
            t.common.wf(),
            t.common@ == IfaceCommon::new_view(iface),
            t.raw_fd == raw_fd,
            t.inner == inner,
    {
        let common = IfaceCommon::new(1, true, iface);
        TapIface { inner, common, raw_fd }
    }

    /// Polls the interface on its own device; see [`IfaceCommon::poll`].
    pub fn poll(&mut self, now_micros: i64) -> (has_events: bool) where D: smoltcp::phy::Device
        requires
            old(self).common.wf(),
        ensures
            final(self).common.wf(),
            final(self).raw_fd == old(self).raw_fd,
            IfaceCommon::polled(old(self).common@, final(self).common@),
            final(self).common@.poll_at_ms == spec_next_poll(final(self).common.wanted_poll(now_micros)),
    {
        self.common.poll(&mut self.inner, now_micros)
    }
}

impl<D> Iface for TapIface<D> {
    open spec fn spec_common(&self) -> IfaceCommon {
        self.common
    }

    open spec fn spec_raw_fd(&self) -> Option<i32> {
        self.raw_fd
    }

    fn common(&self) -> (c: &IfaceCommon) {
        &self.common
    }

    fn raw_fd(&self) -> (fd: Option<i32>) {
        self.raw_fd
    }
}

} // verus!
