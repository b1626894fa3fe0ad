//! The seals: traits a crate outside this one cannot name, and so cannot implement.

use vstd::prelude::*;

use crate::contract::Handler;
use crate::witness::Origin;

verus! {

/// Closes the marker family of [`crate::open_policy`], and holds its origin rule.
pub trait Marker {
    /// Whether a handler with this marker accepts a witness of `origin`.
    spec fn accepts_origin(origin: Origin) -> bool;

    /// Whether a handler with this marker accepts a witness of `origin`.
    fn accepts(origin: Origin) -> (accepted: bool)
        ensures
            accepted == Self::accepts_origin(origin),
    ;
}

/// Closes [`crate::bridge::ErasedHandler`] to the handlers the contract admits.
pub trait Bridged {

}

impl<H: Handler> Bridged for H {

}

} // verus!
