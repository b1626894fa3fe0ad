//! The open-safety marker family a handler declares: does this service have a legitimate public
//! use, or must it never face an unauthenticated stranger?
//!
//! A handler names one of three markers as an associated type, so the answer is a compile-time
//! property of the handler, with no forgettable default. Each marker also fixes which witness
//! origins its handler accepts: [`Never`] accepts a rooted witness only, [`OptIn`] a rooted and an
//! open one, and [`ProvenOnly`] a proven one and nothing else. So a proven key with no standing
//! never reaches a handler that trusts its peer or one that serves strangers.
//!
//! The family is sealed: a crate outside this one cannot add a fourth, more permissive marker.

use vstd::prelude::*;

use crate::sealed;
use crate::witness::Origin;

verus! {

/// Does this handler have a legitimate public use: may it ever face an unauthenticated stranger, if
/// the operator opts in?
///
/// It is the ceiling, not the choice: it says whether public is ever legitimate, never that this
/// exposure is public. If in doubt, pick [`Never`].
pub trait PublicUse: sealed::Marker + Sized + Send + Sync + 'static {
    /// Whether serving this handler to an unauthenticated stranger is ever legitimate.
    const OPEN_SAFE: bool;
}

/// No legitimate public use: this service must never be served to strangers.
///
/// It names a policy, never a value: nothing outside this module can make one.
pub struct Never(());

/// A legitimate public use: may be served to strangers if the operator opts in.
///
/// It names a policy, never a value: nothing outside this module can make one.
pub struct OptIn(());

/// Built for a peer whose key the transport proved and who presented no token: it answers that key
/// and grants it nothing. Not open-safe: a stranger who proves nothing never reaches it.
///
/// It names a policy, never a value: nothing outside this module can make one.
pub struct ProvenOnly(());

impl PublicUse for Never {
    const OPEN_SAFE: bool = false;
}

impl PublicUse for OptIn {
    const OPEN_SAFE: bool = true;
}

impl PublicUse for ProvenOnly {
    const OPEN_SAFE: bool = false;
}

impl sealed::Marker for Never {
    open spec fn accepts_origin(origin: Origin) -> bool {
        origin == Origin::Rooted
    }

    fn accepts(origin: Origin) -> (accepted: bool) {
        match origin {
            Origin::Rooted => true,
            Origin::Open | Origin::Proven => false,
        }
    }
}

impl sealed::Marker for OptIn {
    open spec fn accepts_origin(origin: Origin) -> bool {
        origin == Origin::Rooted || origin == Origin::Open
    }

    fn accepts(origin: Origin) -> (accepted: bool) {
        match origin {
            Origin::Rooted | Origin::Open => true,
            Origin::Proven => false,
        }
    }
}

impl sealed::Marker for ProvenOnly {
    open spec fn accepts_origin(origin: Origin) -> bool {
        origin == Origin::Proven
    }

    fn accepts(origin: Origin) -> (accepted: bool) {
        match origin {
            Origin::Proven => true,
            Origin::Rooted | Origin::Open => false,
        }
    }
}

/// Whether a handler whose marker is `P` accepts a witness of `origin`: the one rule every serving
/// proof is minted by.
pub open spec fn accepted_by<P: PublicUse>(origin: Origin) -> bool {
    P::accepts_origin(origin)
}

/// Whether a handler whose marker is `P` accepts a witness of `origin`.
pub fn accepts<P: PublicUse>(origin: Origin) -> (accepted: bool)
    ensures
        accepted == accepted_by::<P>(origin),
{
    P::accepts(origin)
}

/// The one-way conversion relation between exposure ceilings: an outer handler may hand its proof
/// inward only to an inner whose ceiling is compatible with its own.
///
/// [`Never`] is compatible with itself and with [`OptIn`]; [`OptIn`] and [`ProvenOnly`] each only
/// with itself. A conversion that would launder a witness is not a runtime refusal but a type
/// error.
pub trait Compatible<Inner: PublicUse>: PublicUse {
    /// Whatever the outer marker accepts, the inner one accepts too.
    proof fn widens(origin: Origin)
        ensures
            accepted_by::<Self>(origin) ==> accepted_by::<Inner>(origin),
    ;
}

impl<M: PublicUse> Compatible<M> for M {
    proof fn widens(origin: Origin) {
    }
}

impl Compatible<OptIn> for Never {
    proof fn widens(origin: Origin) {
    }
}

/// The three acceptance sets, and that they part company where it matters: a witness that some
/// marker accepts as proven is accepted by no other marker, every rooted witness is accepted by
/// both of the others, and only [`OptIn`] accepts an open one. A marker is open-safe exactly when
/// it accepts an open witness.
pub proof fn markers_keep_origins_apart(origin: Origin)
    ensures
        accepted_by::<Never>(origin) <==> origin == Origin::Rooted,
        accepted_by::<OptIn>(origin) <==> origin == Origin::Rooted || origin == Origin::Open,
        accepted_by::<ProvenOnly>(origin) <==> origin == Origin::Proven,
        accepted_by::<ProvenOnly>(origin) ==> !accepted_by::<Never>(origin) && !accepted_by::<
            OptIn,
        >(origin),
        accepted_by::<Never>(origin) ==> accepted_by::<OptIn>(origin),
        Never::OPEN_SAFE == accepted_by::<Never>(Origin::Open),
        OptIn::OPEN_SAFE == accepted_by::<OptIn>(Origin::Open),
        ProvenOnly::OPEN_SAFE == accepted_by::<ProvenOnly>(Origin::Open),
{
}

} // verus!
