//! The handlers this crate brings itself: the loopback reflector and the local forward.

use vstd::prelude::*;

use crate::contract::{Handler, Metering};
use crate::open_policy::OptIn;

verus! {

/// The loopback reflector: it opens no host resource and reflects only the caller's own bytes, so
/// it has a safe public form, and cannot answer with more than it receives.
pub struct Echo;

impl Handler for Echo {
    type Exposure = OptIn;

    fn metering(&self) -> (metering: Metering)
        ensures
            metering == Metering::Metered,
    {
        Metering::Metered
    }
}

/// The local forward: connect an address and splice bytes to it. A service the operator
/// deliberately stood up, so it may be opened; it states no bound of its own.
pub struct Forward {
    /// The `host:port` or `unix:<path>` it connects.
    pub addr: String,
}

impl Handler for Forward {
    type Exposure = OptIn;

    fn metering(&self) -> (metering: Metering)
        ensures
            metering == Metering::Unmetered,
    {
        Metering::Unmetered
    }
}

} // verus!
