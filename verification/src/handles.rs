//! Opaque identifiers that the host runtime hands to the driver.
//!
//! The driver never creates, interprets or frees what a handle stands for.
//! It keeps handles, compares them, and hands them back.

use vstd::prelude::*;

verus! {

/// The driver image on whose behalf protocols are opened and receivers made.
#[derive(Clone, Copy, Debug, PartialEq, Eq, Hash, Structural)]
pub struct AgentHandle {
    pub token: usize,
}

/// A device that the host runtime offers for binding.
#[derive(Clone, Copy, Debug, PartialEq, Eq, Hash, Structural)]
pub struct ControllerHandle {
    pub token: usize,
}

/// An open channel to a controller's raw reports.
#[derive(Clone, Copy, Debug, PartialEq, Eq, Hash, Structural)]
pub struct TransportHandle {
    pub token: usize,
}

/// One receiver's subscription to a transport's report-available
/// notification.
#[derive(Clone, Copy, Debug, PartialEq, Eq, Hash, Structural)]
pub struct Registration {
    pub token: usize,
}

} // verus!
