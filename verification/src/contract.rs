//! The handler contract: one marker, one metering, and the proof that binds an admitted stream to
//! the handler serving it.

use core::marker::PhantomData;

use vstd::prelude::*;

use crate::open_policy::{accepted_by, accepts, Compatible, PublicUse};
use crate::witness::{Admission, Admitted, Origin, Refusal, VerifyKey};

verus! {

/// What a service handler declares about its responder-side rate limit. A caveat a banner narrates,
/// never a security gate.
#[derive(Debug, Clone, Copy, PartialEq, Eq, Structural)]
pub enum Metering {
    /// The handler bounds what a caller may consume, or cannot answer with more than it receives.
    Metered,
    /// The handler answers any caller with no responder-side bound, so an open one is drainable.
    Unmetered,
}

/// Why a handler stopped serving one admitted stream.
#[derive(Debug, Clone, PartialEq, Eq)]
pub enum ServeError {
    /// The node's gate (or a proof's ceiling) refused the request.
    Refused(Refusal),
    /// A rooted witness is required, but the node's gate admitted by an open policy or witnessed a
    /// proven key with no token.
    OpenAdmission,
    /// The stream failed at the transport level.
    Io {
        /// What the transport reported.
        detail: String,
    },
}

impl ServeError {
    /// The sentence a caller reads: what a refusal or the transport says of itself, unchanged.
    pub open spec fn text(self) -> Seq<char> {
        match self {
            ServeError::Refused(refusal) => refusal.text(),
            ServeError::OpenAdmission => "this service requires a rooted admission"@,
            ServeError::Io { detail } => detail@,
        }
    }

    /// The sentence a caller reads.
    pub fn message(&self) -> (message: String)
        ensures
            message@ == self.text(),
    {
        match self {
            ServeError::Refused(refusal) => refusal.message(),
            ServeError::OpenAdmission => {
                String::from_str("this service requires a rooted admission")
            },
            ServeError::Io { detail } => detail.clone(),
        }
    }
}

/// A service handler: what to do with one admitted stream.
///
/// Whether the handler may ever face an unauthenticated stranger is stated once, as
/// [`Handler::Exposure`]: there is no default and no runtime flag.
pub trait Handler: Send + Sync + 'static {
    /// This handler's open-safety ceiling.
    type Exposure: PublicUse;

    /// The responder-side rate limit this handler enforces, read from its configuration. A handler
    /// that does not state a bound is narrated as unbounded when opened.
    fn metering(&self) -> (metering: Metering)
        default_ensures
            metering == Metering::Unmetered,
    {
        Metering::Unmetered
    }
}

/// A serving proof for the concrete handler `H`, carrying one gate's single-use witness.
///
/// No public constructor and no `Clone`: a proof is minted only where the handler's marker accepts
/// the witness's origin.
#[must_use]
pub struct Served<H: Handler> {
    admitted: Admitted,
    handler: PhantomData<H>,
}

impl<H: Handler> Served<H> {
    #[verifier::type_invariant]
    spec fn marker_accepts(self) -> bool {
        accepted_by::<H::Exposure>(self.admitted.source())
    }

    /// The witness the proof carries.
    pub closed spec fn witness(self) -> Admitted {
        self.admitted
    }

    /// Mint the proof, refusing a witness whose origin the handler's marker does not accept.
    pub(crate) fn mint(admitted: Admitted) -> (served: Result<Self, Refusal>)
        ensures
            match served {
                Ok(proof) => {
                    &&& accepted_by::<H::Exposure>(admitted.source())
                    &&& proof.witness() == admitted
                },
                Err(refusal) => {
                    &&& !accepted_by::<H::Exposure>(admitted.source())
                    &&& refusal is NotAdmitted
                },
            },
    {
        if !accepts::<H::Exposure>(admitted.origin()) {
            return Err(Refusal::NotAdmitted);
        }
        Ok(Served { admitted, handler: PhantomData })
    }

    /// The identity the node's gate admitted.
    pub fn peer(&self) -> (peer: VerifyKey)
        ensures
            peer == self.witness().peer_key(),
    {
        self.admitted.peer()
    }

    /// By what authority the node's gate admitted the peer.
    pub fn kind(&self) -> (kind: Admission)
        ensures
            kind == self.witness().authority(),
    {
        self.admitted.kind()
    }

    /// Whether the peer was admitted as a whole-node member.
    pub fn is_member(&self) -> (member: bool)
        ensures
            member == (self.witness().authority() == Admission::Member),
            member ==> self.witness().source() == Origin::Rooted,
    {
        self.admitted.is_member()
    }

    /// How the node's gate minted the witness: always one of the origins the handler's marker
    /// accepts.
    pub fn origin(&self) -> (origin: Origin)
        ensures
            origin == self.witness().source(),
            accepted_by::<H::Exposure>(origin),
    {
        proof {
            use_type_invariant(self);
        }
        self.admitted.origin()
    }

    /// The one narrowing seam: hand the rooted witness to an engine whose safety precondition is a
    /// verified peer. Refused when the witness is not rooted.
    pub fn into_rooted(self) -> (rooted: Result<RootedAdmitted, ServeError>)
        ensures
            match rooted {
                Ok(rooted) => {
                    &&& self.witness().source() == Origin::Rooted
                    &&& rooted.witness() == self.witness()
                },
                Err(error) => {
                    &&& self.witness().source() != Origin::Rooted
                    &&& error is OpenAdmission
                },
            },
    {
        if !matches!(self.admitted.origin(), Origin::Rooted) {
            return Err(ServeError::OpenAdmission);
        }
        Ok(RootedAdmitted { admitted: self.admitted })
    }

    /// Hand this proof inward to the inner handler `I`, preserving the witness. The bound is the
    /// wall: what a compatible outer marker accepted, the inner one accepts, so this never refuses.
    pub fn delegate<I>(self) -> (served: Result<Served<I>, ServeError>) where
        I: Handler,
        H::Exposure: Compatible<I::Exposure>,

        ensures
            served matches Ok(inner) && inner.witness() == self.witness(),
    {
        proof {
            use_type_invariant(&self);
            <H::Exposure as Compatible<I::Exposure>>::widens(self.admitted.source());
        }
        match Served::<I>::mint(self.admitted) {
            Ok(inner) => Ok(inner),
            Err(refusal) => Err(ServeError::Refused(refusal)),
        }
    }
}

/// A gate witness narrowed to a rooted admission. The only mint is [`Served::into_rooted`], so an
/// engine that demands this type cannot be reached with an open or a proven witness.
#[must_use]
#[derive(Debug)]
pub struct RootedAdmitted {
    admitted: Admitted,
}

impl RootedAdmitted {
    #[verifier::type_invariant]
    spec fn is_rooted(self) -> bool {
        self.admitted.source() == Origin::Rooted
    }

    /// The witness that was narrowed.
    pub closed spec fn witness(self) -> Admitted {
        self.admitted
    }

    /// The verified identity the node's gate admitted.
    pub fn peer(&self) -> (peer: VerifyKey)
        ensures
            peer == self.witness().peer_key(),
    {
        self.admitted.peer()
    }

    /// By what authority the node's gate admitted the peer.
    pub fn kind(&self) -> (kind: Admission)
        ensures
            kind == self.witness().authority(),
    {
        self.admitted.kind()
    }

    /// Whether the peer was admitted as a whole-node member.
    pub fn is_member(&self) -> (member: bool)
        ensures
            member == (self.witness().authority() == Admission::Member),
    {
        self.admitted.is_member()
    }

    /// The node's gate witness this wraps, rooted by construction.
    pub fn into_admitted(self) -> (admitted: Admitted)
        ensures
            admitted == self.witness(),
            admitted.source() == Origin::Rooted,
    {
        proof {
            use_type_invariant(&self);
        }
        self.admitted
    }
}

/// A proof narrows to a rooted one exactly where its witness is rooted, and the witness stays what it
/// was: the same peer, with the same standing.
pub proof fn only_a_rooted_proof_narrows<H: Handler>(
    served: Served<H>,
    rooted: Result<RootedAdmitted, ServeError>,
)
    requires
        call_ensures(Served::<H>::into_rooted, (served,), rooted),
    ensures
        rooted is Ok <==> served.witness().source() == Origin::Rooted,
        rooted matches Ok(narrowed) ==> narrowed.witness() == served.witness(),
        rooted matches Err(error) ==> error is OpenAdmission,
{
}

/// A proof is handed inward whole: the inner handler gets the very witness the outer one had.
pub proof fn a_proof_is_handed_inward_whole<H: Handler, I: Handler>(
    served: Served<H>,
    inner: Result<Served<I>, ServeError>,
) where H::Exposure: Compatible<I::Exposure>
    requires
        call_ensures(Served::<H>::delegate::<I>, (served,), inner),
    ensures
        inner matches Ok(handed) && handed.witness() == served.witness(),
{
}

/// A serve error passes on what its cause says, unchanged.
pub proof fn a_serve_error_passes_on_its_cause(
    refusal: Refusal,
    detail: String,
    of_refusal: String,
    refused: String,
    of_transport: String,
)
    requires
        call_ensures(Refusal::message, (&refusal,), of_refusal),
        call_ensures(ServeError::message, (&ServeError::Refused(refusal),), refused),
        call_ensures(ServeError::message, (&ServeError::Io { detail },), of_transport),
    ensures
        refused@ == of_refusal@,
        of_transport@ == detail@,
{
}

} // verus!
