//! The device under an interface, and the pump that polls the interfaces.
pub mod irq;
pub mod tap;
