//! PipeWire consumer presence events.

use vstd::prelude::*;

verus! {

/// Notification of PipeWire consumer count change.
#[derive(Debug, Clone, Copy, PartialEq, Eq, Structural)]
pub enum ConsumerEvent {
    /// Consumer count changed. Payload is the new total.
    Changed(u32),
}

} // verus!
