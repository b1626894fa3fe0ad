//! The erased bridge: the dispatcher's view of a handler, and the split between preparing a stream
//! and serving it, which lands the ceiling refusal before any success response.

use vstd::prelude::*;

use crate::contract::{Handler, Metering, Served};
use crate::open_policy::{
    accepted_by, accepts, markers_keep_origins_apart, Never, OptIn, ProvenOnly, PublicUse,
};
use crate::sealed;
use crate::witness::{Admitted, Origin, Refusal};

verus! {

/// The dispatcher's view of a handler, its marker erased to the answers the marker gives. Sealed to
/// the handlers the contract admits.
pub trait ErasedHandler: sealed::Bridged + Send + Sync {
    /// The answers this handler's marker gives.
    spec fn ceiling(&self) -> Ceiling;

    /// Whether this handler's own metering may answer `metering`.
    spec fn meters(&self, metering: Metering) -> bool;

    /// Whether this handler may ever face an unauthenticated stranger.
    fn open_safe(&self) -> (safe: bool)
        ensures
            safe == self.ceiling().open_safe,
    ;

    /// Whether this handler's marker accepts a witness of `origin`.
    fn accepts(&self, origin: Origin) -> (accepted: bool)
        ensures
            accepted == self.ceiling().accepts_origin(origin),
    ;

    /// The responder-side rate limit this handler enforces.
    fn metering(&self) -> (metering: Metering)
        ensures
            self.meters(metering),
    ;

    /// Freeze every answer a route table reads, so heterogeneous handlers share one table.
    fn freeze(&self) -> (bound: BoundHandler)
        ensures
            bound.ceiling == self.ceiling(),
            self.meters(bound.metering),
    ;

    /// The pre-success half: mint the handler-bound proof, refusing a witness the handler's marker
    /// does not accept.
    fn prepare(&self, admitted: Admitted) -> (prepared: Result<Prepared<Self>, Refusal>) where
        Self: Sized + Handler,

        ensures
            match prepared {
                Ok(prepared) => {
                    &&& self.ceiling().accepts_origin(admitted.source())
                    &&& prepared.witness() == admitted
                },
                Err(refusal) => {
                    &&& !self.ceiling().accepts_origin(admitted.source())
                    &&& refusal is NotAdmitted
                },
            },
    ;
}

/// What a marker answers, with the marker itself erased.
#[derive(Debug, Clone, Copy, PartialEq, Eq, Structural)]
pub struct Ceiling {
    /// Whether serving the handler to an unauthenticated stranger is ever legitimate.
    pub open_safe: bool,
    /// Whether the handler accepts a rooted witness.
    pub accepts_rooted: bool,
    /// Whether the handler accepts an open witness.
    pub accepts_open: bool,
    /// Whether the handler accepts a proven witness.
    pub accepts_proven: bool,
}

/// A handler as a route holds it: its ceiling and its metering, frozen at the bind.
#[derive(Debug, Clone, Copy, PartialEq, Eq, Structural)]
pub struct BoundHandler {
    /// What its marker answers.
    pub ceiling: Ceiling,
    /// The responder-side rate limit it enforces.
    pub metering: Metering,
}

impl Ceiling {
    /// Whether the frozen origin rule accepts a witness of `origin`.
    pub open spec fn accepts_origin(self, origin: Origin) -> bool {
        match origin {
            Origin::Rooted => self.accepts_rooted,
            Origin::Open => self.accepts_open,
            Origin::Proven => self.accepts_proven,
        }
    }

    /// Whether the frozen origin rule accepts a witness of `origin`.
    pub fn accepts(&self, origin: Origin) -> (accepted: bool)
        ensures
            accepted == self.accepts_origin(origin),
    {
        match origin {
            Origin::Rooted => self.accepts_rooted,
            Origin::Open => self.accepts_open,
            Origin::Proven => self.accepts_proven,
        }
    }
}

/// What the marker `P` answers.
pub open spec fn marker_ceiling<P: PublicUse>() -> Ceiling {
    Ceiling {
        open_safe: P::OPEN_SAFE,
        accepts_rooted: accepted_by::<P>(Origin::Rooted),
        accepts_open: accepted_by::<P>(Origin::Open),
        accepts_proven: accepted_by::<P>(Origin::Proven),
    }
}

impl<H: Handler> ErasedHandler for H {
    open spec fn ceiling(&self) -> Ceiling {
        marker_ceiling::<H::Exposure>()
    }

    open spec fn meters(&self, metering: Metering) -> bool {
        call_ensures(<H as Handler>::metering, (self,), metering)
    }

    fn open_safe(&self) -> (safe: bool) {
        <H::Exposure as PublicUse>::OPEN_SAFE
    }

    fn accepts(&self, origin: Origin) -> (accepted: bool) {
        accepts::<H::Exposure>(origin)
    }

    fn metering(&self) -> (metering: Metering) {
        Handler::metering(self)
    }

    fn freeze(&self) -> (bound: BoundHandler) {
        let ceiling = Ceiling {
            open_safe: <H::Exposure as PublicUse>::OPEN_SAFE,
            accepts_rooted: accepts::<H::Exposure>(Origin::Rooted),
            accepts_open: accepts::<H::Exposure>(Origin::Open),
            accepts_proven: accepts::<H::Exposure>(Origin::Proven),
        };
        BoundHandler { ceiling, metering: Handler::metering(self) }
    }

    fn prepare(&self, admitted: Admitted) -> (prepared: Result<Prepared<Self>, Refusal>) {
        match Served::<H>::mint(admitted) {
            Ok(served) => Ok(Prepared { served }),
            Err(refusal) => Err(refusal),
        }
    }
}

/// The frozen post-success step: the proof minted for one handler type, to be served once.
#[must_use]
pub struct Prepared<H: Handler> {
    served: Served<H>,
}

impl<H: Handler> Prepared<H> {
    /// The witness the prepared stream was admitted by.
    pub closed spec fn witness(self) -> Admitted {
        self.served.witness()
    }

    /// Spend the prepared step on the stream it was prepared for: the handler's own proof.
    pub fn serve(self) -> (served: Served<H>)
        ensures
            served.witness() == self.witness(),
    {
        self.served
    }
}

/// What each marker answers once it is erased. [`OptIn`] lets a stranger in and a token holder;
/// [`Never`] a token holder alone; [`ProvenOnly`] a proven key alone. Only [`OptIn`] is ever
/// open-safe.
pub proof fn what_each_marker_answers()
    ensures
        marker_ceiling::<OptIn>() == (Ceiling {
            open_safe: true,
            accepts_rooted: true,
            accepts_open: true,
            accepts_proven: false,
        }),
        marker_ceiling::<Never>() == (Ceiling {
            open_safe: false,
            accepts_rooted: true,
            accepts_open: false,
            accepts_proven: false,
        }),
        marker_ceiling::<ProvenOnly>() == (Ceiling {
            open_safe: false,
            accepts_rooted: false,
            accepts_open: false,
            accepts_proven: true,
        }),
{
    markers_keep_origins_apart(Origin::Rooted);
    markers_keep_origins_apart(Origin::Open);
    markers_keep_origins_apart(Origin::Proven);
}

/// Erasing a handler changes none of its answers: a route's frozen rule lets a witness through
/// exactly where the handler itself would prepare it, and a refused witness is told only that it is
/// not admitted.
pub proof fn a_frozen_handler_answers_as_itself<H: Handler>(
    handler: &H,
    bound: BoundHandler,
    admitted: Admitted,
    origin: Origin,
    accepted: bool,
    prepared: Result<Prepared<H>, Refusal>,
)
    requires
        call_ensures(<H as ErasedHandler>::freeze, (handler,), bound),
        call_ensures(Admitted::origin, (&admitted,), origin),
        call_ensures(Ceiling::accepts, (&bound.ceiling, origin), accepted),
        call_ensures(<H as ErasedHandler>::prepare, (handler, admitted), prepared),
    ensures
        accepted <==> prepared is Ok,
        prepared matches Ok(ready) ==> ready.witness() == admitted,
        prepared matches Err(refusal) ==> refusal is NotAdmitted,
        origin == Origin::Rooted ==> accepted == bound.ceiling.accepts_rooted,
        origin == Origin::Open ==> accepted == bound.ceiling.accepts_open,
        origin == Origin::Proven ==> accepted == bound.ceiling.accepts_proven,
{
}

/// A handler's erased answers are its marker's.
pub proof fn a_handler_answers_as_its_marker<H: Handler>(
    handler: &H,
    safe: bool,
    origin: Origin,
    accepted: bool,
    bound: BoundHandler,
)
    requires
        call_ensures(<H as ErasedHandler>::open_safe, (handler,), safe),
        call_ensures(<H as ErasedHandler>::accepts, (handler, origin), accepted),
        call_ensures(<H as ErasedHandler>::freeze, (handler,), bound),
    ensures
        safe == H::Exposure::OPEN_SAFE,
        accepted == accepted_by::<H::Exposure>(origin),
        bound.ceiling.open_safe == safe,
        call_ensures(<H as Handler>::metering, (handler,), bound.metering),
{
}

} // verus!
