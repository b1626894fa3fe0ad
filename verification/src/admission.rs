//! Admission: who may reach a named service on this node, and the one uniform refusal a dialer who
//! may not gets.
//!
//! A stream takes one of three paths, by its service alone. A service an overlay opened admits
//! anyone under the public caps. A proven-only route admits a key the transport proved and the
//! route knows. Everything else, served or not, faces the base gate. What only the token library
//! can answer, a parse or a ruling, is asked for one answer at a time and handed back.

use std::sync::Arc;

use tokio::sync::{OwnedSemaphorePermit, Semaphore, TryAcquireError};
use vstd::prelude::*;
use vstd::string::*;

use crate::catalog::Posture;
use crate::cut::Cap;
use crate::exposer::{sound, Exposer};
use crate::gate::{claim_word, peer_proven, Gate, GateRefusal, PeerProof, SessionPeer};
use crate::overlay::{catalog_of, PublicServices};
use crate::pool::{
    made_with, may_answer, may_give, may_refuse, permit_in, take, taken_from, PublicPool, PublicSession,
    PROVEN_STREAM_PERMITS, PUBLIC_SESSION_PERMITS, PUBLIC_STREAM_PERMITS, RAW_STREAM_OPEN_PERMITS,
};
use crate::services::{is_listing, listing, Access, Services, Table};
use crate::text::name_lt;
use crate::witness::{Admission, Admitted, Origin, Refusal, RefusalView, VerifyKey};

verus! {

/// Which public pool is at its cap.
#[derive(Debug, Clone, Copy, PartialEq, Eq, Structural)]
pub enum PublicCap {
    /// The public-session pool.
    Sessions,
    /// The public-stream pool.
    Streams,
}

/// Why the host did not admit a stream, in full, for the host's own log. It never crosses the wire.
#[derive(Debug, Clone, Copy, PartialEq, Eq, Structural)]
pub enum HostRefusal {
    /// A presented capability did not parse.
    MalformedCapability,
    /// The transport does not prove the peer, so nothing may be ruled on its key.
    PeerNotProven {
        /// What the session's transport claims.
        declared: PeerProof,
    },
    /// The node's gate ruled.
    Gate(GateRefusal),
    /// The proven key is not one the proven-only route knows.
    UnknownKey,
    /// The public-path capacity is reached.
    PublicAtCapacity {
        /// Which pool is at its cap.
        cap: PublicCap,
    },
    /// The proven-only capacity is reached.
    ProvenAtCapacity,
}

impl HostRefusal {
    /// The line a node logs.
    pub open spec fn text(self) -> Seq<char> {
        match self {
            HostRefusal::MalformedCapability => "malformed capability"@,
            HostRefusal::PeerNotProven { declared } => {
                "the transport does not prove the peer (declared: "@ + claim_word(declared)
                    + "); a rooted gate cannot admit"@
            },
            HostRefusal::Gate(GateRefusal::Missing) => "no capability was presented"@,
            HostRefusal::Gate(GateRefusal::NotGranted) => {
                "the capability does not grant the service"@
            },
            HostRefusal::Gate(GateRefusal::Revoked) => "the capability is revoked"@,
            HostRefusal::Gate(GateRefusal::Undecided) => "the node's gate did not decide in time"@,
            HostRefusal::UnknownKey => "the route does not know the peer's key"@,
            HostRefusal::PublicAtCapacity { cap: PublicCap::Sessions } => {
                "public capacity reached (public sessions); refusing rather than queueing the admitted public dial"@
            },
            HostRefusal::PublicAtCapacity { cap: PublicCap::Streams } => {
                "public capacity reached (public streams); refusing rather than queueing the admitted public dial"@
            },
            HostRefusal::ProvenAtCapacity => {
                "proven-only capacity reached; refusing rather than queueing the proven dial"@
            },
        }
    }

    /// The line a node logs.
    pub fn message(&self) -> (message: String)
        ensures
            message@ == self.text(),
    {
        match self {
            HostRefusal::MalformedCapability => String::from_str("malformed capability"),
            HostRefusal::PeerNotProven { declared } => {
                String::from_str("the transport does not prove the peer (declared: ").concat(
                    declared.label(),
                ).concat("); a rooted gate cannot admit")
            },
            HostRefusal::Gate(GateRefusal::Missing) => {
                String::from_str("no capability was presented")
            },
            HostRefusal::Gate(GateRefusal::NotGranted) => {
                String::from_str("the capability does not grant the service")
            },
            HostRefusal::Gate(GateRefusal::Revoked) => {
                String::from_str("the capability is revoked")
            },
            HostRefusal::Gate(GateRefusal::Undecided) => {
                String::from_str("the node's gate did not decide in time")
            },
            HostRefusal::UnknownKey => {
                String::from_str("the route does not know the peer's key")
            },
            HostRefusal::PublicAtCapacity { cap: PublicCap::Sessions } => {
                String::from_str(
                    "public capacity reached (public sessions); refusing rather than queueing the admitted public dial",
                )
            },
            HostRefusal::PublicAtCapacity { cap: PublicCap::Streams } => {
                String::from_str(
                    "public capacity reached (public streams); refusing rather than queueing the admitted public dial",
                )
            },
            HostRefusal::ProvenAtCapacity => {
                String::from_str(
                    "proven-only capacity reached; refusing rather than queueing the proven dial",
                )
            },
        }
    }
}

/// Whether a host cause rules on the dialer. The one that does not is a gate that ran out of time:
/// it decided nothing about their authority.
pub open spec fn rules_on_dialer(refusal: HostRefusal) -> bool {
    refusal != HostRefusal::Gate(GateRefusal::Undecided)
}

/// What a host cause becomes on the wire.
pub open spec fn wire_answer(refusal: HostRefusal) -> RefusalView {
    if rules_on_dialer(refusal) {
        RefusalView::NotAdmitted
    } else {
        RefusalView::Unavailable {
            detail: "the node's gate did not finish deciding in time; retry"@,
        }
    }
}

/// The wire refusal a host cause becomes. Every cause that rules on the dialer is the same
/// payload-free answer; the one that rules on nothing is about this host, with fixed text.
pub fn wire_refusal(refusal: &HostRefusal) -> (answer: Refusal)
    ensures
        answer@ == wire_answer(*refusal),
{
    match refusal {
        HostRefusal::MalformedCapability
        | HostRefusal::PeerNotProven { .. }
        | HostRefusal::UnknownKey
        | HostRefusal::PublicAtCapacity { .. }
        | HostRefusal::ProvenAtCapacity => Refusal::NotAdmitted,
        HostRefusal::Gate(gate) => match gate {
            GateRefusal::Missing | GateRefusal::NotGranted | GateRefusal::Revoked => {
                Refusal::NotAdmitted
            },
            GateRefusal::Undecided => Refusal::Unavailable {
                detail: "the node's gate did not finish deciding in time; retry".to_owned(),
            },
        },
    }
}

/// The wire is no oracle: two refusals that rule on the dialer, whatever their causes, are one and
/// the same answer.
pub proof fn every_ruling_refuses_alike(a: HostRefusal, b: HostRefusal)
    requires
        rules_on_dialer(a),
        rules_on_dialer(b),
    ensures
        wire_answer(a) == wire_answer(b),
        wire_answer(a) == RefusalView::NotAdmitted,
{
}

/// The per-node state every session and stream is served under.
pub struct Serving {
    gate: Gate,
    public: PublicServices,
    public_unsafe: PublicServices,
    services: Services,
    public_pool: PublicPool,
    proven_pool: Arc<Semaphore>,
    raw_stream_opens: Arc<Semaphore>,
}

impl Serving {
    #[verifier::type_invariant]
    spec fn proven(self) -> bool {
        sound(self.services@, self.gate, self.public@, self.public_unsafe@)
    }

    /// The routes served.
    pub closed spec fn table(self) -> Table {
        self.services@
    }

    /// The base gate.
    pub closed spec fn base(self) -> Gate {
        self.gate
    }

    /// The safe overlay.
    pub closed spec fn open_names(self) -> Set<Seq<char>> {
        self.public@
    }

    /// The unsafe overlay.
    pub closed spec fn unsafe_names(self) -> Set<Seq<char>> {
        self.public_unsafe@
    }

    /// The public pools.
    pub closed spec fn public_permits(self) -> PublicPool {
        self.public_pool
    }

    /// The proven-only pool.
    pub closed spec fn proven_permits(self) -> Semaphore {
        *self.proven_pool
    }

    /// The raw-stream open pool.
    pub closed spec fn open_permits(self) -> Semaphore {
        *self.raw_stream_opens
    }

    /// Arm a proven exposer with the production capacity.
    pub fn arm(exposer: Exposer) -> (serving: Serving)
        ensures
            serving.table() == exposer.table(),
            serving.base() == exposer.base(),
            serving.open_names() == exposer.open_names(),
            serving.unsafe_names() == exposer.unsafe_names(),
            made_with(*serving.public_permits().sessions) == PUBLIC_SESSION_PERMITS,
            made_with(*serving.public_permits().streams) == PUBLIC_STREAM_PERMITS,
            made_with(serving.proven_permits()) == PROVEN_STREAM_PERMITS,
            made_with(serving.open_permits()) == RAW_STREAM_OPEN_PERMITS,
    {
        Serving::arm_with(
            exposer,
            PublicPool::new(),
            Arc::new(Semaphore::new(PROVEN_STREAM_PERMITS)),
            Arc::new(Semaphore::new(RAW_STREAM_OPEN_PERMITS)),
        )
    }

    /// Arm a proven exposer with these pools.
    pub fn arm_with(
        exposer: Exposer,
        public_pool: PublicPool,
        proven_pool: Arc<Semaphore>,
        raw_stream_opens: Arc<Semaphore>,
    ) -> (serving: Serving)
        ensures
            serving.table() == exposer.table(),
            serving.base() == exposer.base(),
            serving.open_names() == exposer.open_names(),
            serving.unsafe_names() == exposer.unsafe_names(),
            serving.public_permits() == public_pool,
            serving.proven_permits() == *proven_pool,
            serving.open_permits() == *raw_stream_opens,
    {
        let (services, gate, public, public_unsafe) = exposer.into_parts();
        Serving {
            gate,
            public,
            public_unsafe,
            services,
            public_pool,
            proven_pool,
            raw_stream_opens,
        }
    }

    /// The routes served.
    pub fn services(&self) -> (services: &Services)
        ensures
            services@ == self.table(),
    {
        &self.services
    }

    /// Take a raw-stream open permit, to hold across the open: what the open pool's semaphore
    /// answers decides, and nothing else.
    pub fn take_open_permit(&self) -> (permit: Option<OwnedSemaphorePermit>)
        ensures
            exists|taken: Result<OwnedSemaphorePermit, TryAcquireError>| #[trigger]
                may_answer(self.open_permits(), taken) && permit == permit_in(taken),
            permit matches Some(permit) ==> taken_from(permit) == self.open_permits(),
            permit is Some ==> may_give(self.open_permits()),
            permit is None ==> may_refuse(self.open_permits()),
    {
        assert(self.open_permits() == *self.raw_stream_opens);
        take(&self.raw_stream_opens)
    }
}

/// Which path a stream's admission takes.
#[derive(Debug, Clone, Copy, PartialEq, Eq, Structural)]
pub enum Path {
    /// An overlay opened the service: anyone, under the public caps.
    Open,
    /// A proven-only route: a known proven key, under the proven cap.
    Proven,
    /// The base gate.
    Gated,
}

/// The path a service name takes.
pub open spec fn path_of(
    table: Table,
    public: Set<Seq<char>>,
    public_unsafe: Set<Seq<char>>,
    service: Seq<char>,
) -> Path {
    if public.contains(service) || public_unsafe.contains(service) {
        Path::Open
    } else if table.contains_key(service) && table[service].access == Access::ProvenOnly {
        Path::Proven
    } else {
        Path::Gated
    }
}

/// A gated service and an absent one are told apart by nothing: a name no overlay opened and no
/// proven-only route serves faces the base gate, whether the node serves it or not.
pub proof fn absent_and_gated_take_one_path(
    table: Table,
    public: Set<Seq<char>>,
    public_unsafe: Set<Seq<char>>,
    absent: Seq<char>,
    gated: Seq<char>,
)
    requires
        !table.contains_key(absent),
        !public.contains(absent) && !public_unsafe.contains(absent),
        table.contains_key(gated),
        table[gated].access != Access::ProvenOnly,
        !public.contains(gated) && !public_unsafe.contains(gated),
    ensures
        path_of(table, public, public_unsafe, absent) == Path::Gated,
        path_of(table, public, public_unsafe, gated) == Path::Gated,
{
}

/// An admitted stream: the witness the dispatch spends, the capabilities the node's gate ruled on
/// to admit it, and the permit it holds until it ends.
pub struct AdmittedStream {
    /// The witness.
    pub witness: Admitted,
    /// Every capability the node's gate ruled on: the presented one, and on the two-token path the
    /// badge too. Empty where nothing was ruled on.
    pub ruled: Vec<Cap>,
    /// The permit of the pool this stream counts against, held for the stream's life.
    pub permit: Option<OwnedSemaphorePermit>,
}

/// A capability slot whose text did not parse.
#[derive(Debug, Clone, Copy, PartialEq, Eq, Structural)]
pub struct Malformed;

/// What a proven-only route's owner answers about a key.
#[derive(Debug, Clone, Copy, PartialEq, Eq, Structural)]
pub struct Vouch {
    /// Whether the store behind the node's gate holds the key revoked.
    pub revoked: bool,
    /// Whether the route knows the key.
    pub known: bool,
}

/// What admission needs next.
pub enum AdmitStep {
    /// Parse the capability slot.
    ParseCapability(AwaitCapability),
    /// Parse the membership slot.
    ParseMembership(AwaitMembership),
    /// Have the node's gate rule on what was presented.
    Rule(AwaitRuling),
    /// Ask about a proven key.
    Vouch(AwaitVouch),
    /// Nothing: the stream is ruled.
    Done(Result<AdmittedStream, HostRefusal>),
}

/// Admission, waiting for the capability slot to be parsed.
#[derive(Debug, PartialEq, Eq)]
pub struct AwaitCapability {
    peer: VerifyKey,
    gate: Gate,
    second: bool,
}

/// Admission, waiting for the membership slot to be parsed.
#[derive(Debug, PartialEq, Eq)]
pub struct AwaitMembership {
    peer: VerifyKey,
    gate: Gate,
    slip: Cap,
}

/// Admission, waiting for a ruling.
#[derive(Debug, PartialEq, Eq)]
pub struct AwaitRuling {
    peer: VerifyKey,
    gate: Gate,
    presented: Option<Cap>,
    badge: Option<Cap>,
}

/// Admission, waiting for what a proven-only route's owner says of a key.
pub struct AwaitVouch {
    peer: VerifyKey,
    pool: Arc<Semaphore>,
}

impl AwaitCapability {
    /// The peer being admitted.
    pub closed spec fn key(self) -> VerifyKey {
        self.peer
    }

    /// The base gate it faces.
    pub closed spec fn base(self) -> Gate {
        self.gate
    }

    /// Whether the second slot is filled.
    pub closed spec fn has_second(self) -> bool {
        self.second
    }

    /// Go on with the parsed capability. The second slot is looked at only where the first is bound
    /// to an authority: no other capability is ever ruled on together with a badge.
    pub fn parsed(self, capability: Result<Cap, Malformed>) -> (step: AdmitStep)
        ensures
            match capability {
                Err(_) => step == AdmitStep::Done(Err(HostRefusal::MalformedCapability)),
                Ok(cap) => {
                    if cap.authority_bound && self.has_second() {
                        step matches AdmitStep::ParseMembership(wait) && {
                            &&& wait.key() == self.key()
                            &&& wait.base() == self.base()
                            &&& wait.first() == cap
                        }
                    } else {
                        asks_ruling(step, self.key(), self.base(), Some(cap), None)
                    }
                },
            },
    {
        match capability {
            Err(_) => AdmitStep::Done(Err(HostRefusal::MalformedCapability)),
            Ok(slip) => {
                if slip.authority_bound && self.second {
                    AdmitStep::ParseMembership(
                        AwaitMembership { peer: self.peer, gate: self.gate, slip },
                    )
                } else {
                    AdmitStep::Rule(
                        AwaitRuling {
                            peer: self.peer,
                            gate: self.gate,
                            presented: Some(slip),
                            badge: None,
                        },
                    )
                }
            },
        }
    }
}

/// Whether a step asks the node's gate to rule on exactly this.
pub open spec fn asks_ruling(
    step: AdmitStep,
    peer: VerifyKey,
    gate: Gate,
    presented: Option<Cap>,
    badge: Option<Cap>,
) -> bool {
    step matches AdmitStep::Rule(wait) && {
        &&& wait.key() == peer
        &&& wait.base() == gate
        &&& wait.first() == presented
        &&& wait.second() == badge
    }
}

impl AwaitMembership {
    /// The peer being admitted.
    pub closed spec fn key(self) -> VerifyKey {
        self.peer
    }

    /// The base gate it faces.
    pub closed spec fn base(self) -> Gate {
        self.gate
    }

    /// The authority-bound capability in the first slot.
    pub closed spec fn first(self) -> Cap {
        self.slip
    }

    /// Go on with the parsed badge.
    pub fn parsed(self, membership: Result<Cap, Malformed>) -> (step: AdmitStep)
        ensures
            match membership {
                Err(_) => step == AdmitStep::Done(Err(HostRefusal::MalformedCapability)),
                Ok(badge) => asks_ruling(
                    step,
                    self.key(),
                    self.base(),
                    Some(self.first()),
                    Some(badge),
                ),
            },
    {
        match membership {
            Err(_) => AdmitStep::Done(Err(HostRefusal::MalformedCapability)),
            Ok(badge) => AdmitStep::Rule(
                AwaitRuling {
                    peer: self.peer,
                    gate: self.gate,
                    presented: Some(self.slip),
                    badge: Some(badge),
                },
            ),
        }
    }
}

/// The capabilities a ruling rests on, in the order the node's gate verified them: none on an open
/// gate, which rules on nothing.
pub open spec fn ruled_on(gate: Gate, presented: Option<Cap>, badge: Option<Cap>) -> Seq<Cap> {
    if !gate.rules_on_tokens() {
        Seq::empty()
    } else {
        match (presented, badge) {
            (Some(cap), Some(badge)) => seq![cap, badge],
            (Some(cap), None) => seq![cap],
            (None, Some(badge)) => seq![badge],
            (None, None) => Seq::empty(),
        }
    }
}

/// Whether a stream the node's gate ruled on is admitted as the ruling says.
pub open spec fn admitted_as_ruled(
    admitted: Result<AdmittedStream, HostRefusal>,
    peer: VerifyKey,
    gate: Gate,
    presented: Option<Cap>,
    badge: Option<Cap>,
    ruling: Result<Admission, GateRefusal>,
) -> bool {
    match admitted {
        Ok(stream) => {
            &&& stream.witness.peer_key() == peer
            &&& stream.ruled@ == ruled_on(gate, presented, badge)
            &&& stream.permit is None
            &&& if gate.rules_on_tokens() {
                ruling == Ok::<_, GateRefusal>(stream.witness.authority())
                    && stream.witness.source() == Origin::Rooted
            } else {
                stream.witness.authority() == Admission::Slip && stream.witness.source()
                    == Origin::Open
            }
        },
        Err(refusal) => {
            &&& gate.rules_on_tokens()
            &&& ruling matches Err(cause) && refusal == HostRefusal::Gate(cause)
        },
    }
}

impl AwaitRuling {
    /// The peer being admitted.
    pub closed spec fn key(self) -> VerifyKey {
        self.peer
    }

    /// The base gate it faces.
    pub closed spec fn base(self) -> Gate {
        self.gate
    }

    /// The capability in the first slot.
    pub closed spec fn first(self) -> Option<Cap> {
        self.presented
    }

    /// The badge in the second slot.
    pub closed spec fn second(self) -> Option<Cap> {
        self.badge
    }

    /// Whether the ruling is asked of two capabilities together: a slip, and the badge that vouches
    /// for the dialer under the authority the slip names.
    pub fn is_foreign(&self) -> (foreign: bool)
        ensures
            foreign == (self.first() is Some && self.second() is Some),
    {
        self.presented.is_some() && self.badge.is_some()
    }

    /// Go on with the ruling.
    pub fn ruled(self, ruling: Result<Admission, GateRefusal>) -> (admitted: Result<
        AdmittedStream,
        HostRefusal,
    >)
        ensures
            admitted_as_ruled(
                admitted,
                self.key(),
                self.base(),
                self.first(),
                self.second(),
                ruling,
            ),
    {
        let wants: bool = self.gate.wants_capability();
        match self.gate.admit_witnessed(self.peer, ruling) {
            Err(refusal) => Err(HostRefusal::Gate(refusal)),
            Ok(witness) => {
                let mut ruled: Vec<Cap> = Vec::new();
                if wants {
                    if let Some(cap) = self.presented {
                        ruled.push(cap);
                    }
                    if let Some(badge) = self.badge {
                        ruled.push(badge);
                    }
                }
                assert(ruled@ =~= ruled_on(self.base(), self.first(), self.second()));
                Ok(AdmittedStream { witness, ruled, permit: None })
            },
        }
    }
}

impl AwaitVouch {
    /// The peer being admitted.
    pub closed spec fn key(self) -> VerifyKey {
        self.peer
    }

    /// The pool its stream will count against.
    pub closed spec fn permits(self) -> Semaphore {
        *self.pool
    }

    /// Go on with what was answered about the key. Only a key that is known and not revoked ever
    /// reaches the pool, so a stranger holds none of its permits.
    pub fn vouched(self, vouch: Vouch) -> (admitted: Result<AdmittedStream, HostRefusal>)
        ensures
            vouch.revoked ==> admitted == Err::<AdmittedStream, _>(
                HostRefusal::Gate(GateRefusal::Revoked),
            ),
            !vouch.revoked && !vouch.known ==> admitted == Err::<AdmittedStream, _>(
                HostRefusal::UnknownKey,
            ),
            !vouch.revoked && vouch.known ==> match admitted {
                Ok(stream) => admitted_proven(stream, self.key(), self.permits()),
                Err(refusal) => {
                    &&& refusal == HostRefusal::ProvenAtCapacity
                    &&& may_refuse(self.permits())
                },
            },
    {
        if vouch.revoked {
            return Err(HostRefusal::Gate(GateRefusal::Revoked));
        }
        if !vouch.known {
            return Err(HostRefusal::UnknownKey);
        }
        proven_stream(self.peer, take(&self.pool))
    }
}

/// Admit a stream to a proven-only route, given what the proven pool gave: one permit makes one
/// stream, and none refuses it for capacity.
fn proven_stream(peer: VerifyKey, permit: Option<OwnedSemaphorePermit>) -> (admitted: Result<
    AdmittedStream,
    HostRefusal,
>)
    ensures
        match permit {
            None => admitted == Err::<AdmittedStream, _>(HostRefusal::ProvenAtCapacity),
            Some(permit) => admitted matches Ok(stream) && stream.permit == Some(permit)
                && admitted_proven(stream, peer, taken_from(permit)),
        },
{
    match permit {
        None => Err(HostRefusal::ProvenAtCapacity),
        Some(permit) => {
            let ruled: Vec<Cap> = Vec::new();
            assert(ruled@ =~= Seq::empty());
            Ok(AdmittedStream { witness: Admitted::proven(peer), ruled, permit: Some(permit) })
        },
    }
}

/// What every stream admitted through a proven-only route is: a witness with no standing, nothing
/// ruled on, and one permit of the proven pool.
pub open spec fn admitted_proven(stream: AdmittedStream, peer: VerifyKey, pool: Semaphore) -> bool {
    &&& stream.witness.peer_key() == peer
    &&& stream.witness.source() == Origin::Proven
    &&& stream.witness.authority() == Admission::Slip
    &&& stream.ruled@ == Seq::<Cap>::empty()
    &&& stream.permit matches Some(permit) && taken_from(permit) == pool
}

/// What every stream admitted through an overlay is: a witness with no standing, nothing ruled on,
/// and one permit of the public-stream pool.
pub open spec fn admitted_open(stream: AdmittedStream, peer: VerifyKey, pool: PublicPool) -> bool {
    &&& stream.witness.peer_key() == peer
    &&& stream.witness.source() == Origin::Open
    &&& stream.witness.authority() == Admission::Slip
    &&& stream.ruled@ == Seq::<Cap>::empty()
    &&& stream.permit matches Some(permit) && taken_from(permit) == *pool.streams
}

/// Admit a stream to an opened service, given the stream permit it took and whether its session
/// holds one too: both make a stream, and a missing one refuses it for that capacity.
fn open_stream(peer: VerifyKey, permit: Option<OwnedSemaphorePermit>, entered: bool) -> (admitted:
    Result<AdmittedStream, HostRefusal>)
    ensures
        match permit {
            None => admitted == Err::<AdmittedStream, _>(
                HostRefusal::PublicAtCapacity { cap: PublicCap::Streams },
            ),
            Some(permit) => if !entered {
                admitted == Err::<AdmittedStream, _>(
                    HostRefusal::PublicAtCapacity { cap: PublicCap::Sessions },
                )
            } else {
                admitted matches Ok(stream) && {
                    &&& stream.witness.peer_key() == peer
                    &&& stream.witness.source() == Origin::Open
                    &&& stream.witness.authority() == Admission::Slip
                    &&& stream.ruled@ == Seq::<Cap>::empty()
                    &&& stream.permit == Some(permit)
                }
            },
        },
{
    if permit.is_none() {
        return Err(HostRefusal::PublicAtCapacity { cap: PublicCap::Streams });
    }
    if !entered {
        return Err(HostRefusal::PublicAtCapacity { cap: PublicCap::Sessions });
    }
    let ruled: Vec<Cap> = Vec::new();
    assert(ruled@ =~= Seq::empty());
    Ok(AdmittedStream { witness: Admitted::open(peer), ruled, permit })
}

impl Serving {
    /// The path a service name takes on this node.
    pub open spec fn path(self, service: Seq<char>) -> Path {
        path_of(self.table(), self.open_names(), self.unsafe_names(), service)
    }

    /// The path a service name takes on this node.
    pub fn path_for(&self, service: &str) -> (path: Path)
        ensures
            path == self.path(service@),
    {
        if self.public.contains(service) || self.public_unsafe.contains(service) {
            return Path::Open;
        }
        match self.services.get(service) {
            Some(route) => match route.access {
                Access::ProvenOnly => Path::Proven,
                _ => Path::Gated,
            },
            None => Path::Gated,
        }
    }

    /// Admit a stream to an opened service: a stream permit first, then the session's own. A
    /// session is only classified by a stream that runs, so a refused stream never burns a session
    /// slot.
    fn admit_open(&self, session: &mut PublicSession, peer: VerifyKey) -> (admitted: Result<
        AdmittedStream,
        HostRefusal,
    >)
        ensures
            open_under_caps(
                admitted,
                peer,
                self.public_permits(),
                *old(session),
                *final(session),
            ),
    {
        let permit: Option<OwnedSemaphorePermit> = take(&self.public_pool.streams);
        let entered: bool = permit.is_some() && session.enter(&self.public_pool.sessions);
        open_stream(peer, permit, entered)
    }

    /// Begin ruling on a stream. `capability` and `membership` say whether the request fills each
    /// slot. The service name decides the path and nothing else.
    pub fn begin(
        &self,
        session: &mut PublicSession,
        peer: SessionPeer,
        capability: bool,
        membership: bool,
        service: &str,
    ) -> (step: AdmitStep)
        ensures
            match self.path(service@) {
                Path::Open => step matches AdmitStep::Done(admitted) && open_under_caps(
                    admitted,
                    peer.key,
                    self.public_permits(),
                    *old(session),
                    *final(session),
                ),
                Path::Proven => {
                    &&& *final(session) == *old(session)
                    &&& if peer.claim.proves() {
                        step matches AdmitStep::Vouch(wait) && wait.key() == peer.key
                            && wait.permits() == self.proven_permits()
                    } else {
                        step == AdmitStep::Done(
                            Err(HostRefusal::PeerNotProven { declared: peer.claim }),
                        )
                    }
                },
                Path::Gated => {
                    &&& *final(session) == *old(session)
                    &&& if self.base().rules_on_tokens() && !peer.claim.proves() {
                        step == AdmitStep::Done(
                            Err(HostRefusal::PeerNotProven { declared: peer.claim }),
                        )
                    } else if capability {
                        step matches AdmitStep::ParseCapability(wait) && {
                            &&& wait.key() == peer.key
                            &&& wait.base() == self.base()
                            &&& wait.has_second() == membership
                        }
                    } else {
                        asks_ruling(step, peer.key, self.base(), None, None)
                    }
                },
            },
    {
        match self.path_for(service) {
            Path::Open => AdmitStep::Done(self.admit_open(session, peer.key)),
            Path::Proven => {
                if !peer_proven(peer.claim) {
                    return AdmitStep::Done(
                        Err(HostRefusal::PeerNotProven { declared: peer.claim }),
                    );
                }
                AdmitStep::Vouch(
                    AwaitVouch { peer: peer.key, pool: Arc::clone(&self.proven_pool) },
                )
            },
            Path::Gated => {
                if self.gate.wants_capability() && !peer_proven(peer.claim) {
                    return AdmitStep::Done(
                        Err(HostRefusal::PeerNotProven { declared: peer.claim }),
                    );
                }
                if capability {
                    AdmitStep::ParseCapability(
                        AwaitCapability { peer: peer.key, gate: self.gate, second: membership },
                    )
                } else {
                    AdmitStep::Rule(
                        AwaitRuling {
                            peer: peer.key,
                            gate: self.gate,
                            presented: None,
                            badge: None,
                        },
                    )
                }
            },
        }
    }
}

/// What a stream faces the node's gate with, and what was answered about it. Each answer counts
/// only where admission asks for it.
pub struct Facts {
    /// The capability slot, parsed; `None` where the request left it empty.
    pub capability: Option<Result<Cap, Malformed>>,
    /// The membership slot, parsed; `None` where the request left it empty.
    pub membership: Option<Result<Cap, Malformed>>,
    /// The ruling on what was presented.
    pub ruling: Result<Admission, GateRefusal>,
    /// What a proven-only route's owner says of the key.
    pub vouch: Vouch,
}

/// Whether a stream that faces the base gate is ruled as its facts say.
pub open spec fn gated_as_facts_say(
    admitted: Result<AdmittedStream, HostRefusal>,
    peer: SessionPeer,
    gate: Gate,
    facts: Facts,
) -> bool {
    if gate.rules_on_tokens() && !peer.claim.proves() {
        admitted == Err::<AdmittedStream, _>(HostRefusal::PeerNotProven { declared: peer.claim })
    } else {
        match facts.capability {
            None => admitted_as_ruled(admitted, peer.key, gate, None, None, facts.ruling),
            Some(Err(_)) => admitted == Err::<AdmittedStream, _>(HostRefusal::MalformedCapability),
            Some(Ok(cap)) => {
                if !cap.authority_bound || facts.membership is None {
                    admitted_as_ruled(admitted, peer.key, gate, Some(cap), None, facts.ruling)
                } else {
                    match facts.membership->0 {
                        Err(_) => admitted == Err::<AdmittedStream, _>(
                            HostRefusal::MalformedCapability,
                        ),
                        Ok(badge) => admitted_as_ruled(
                            admitted,
                            peer.key,
                            gate,
                            Some(cap),
                            Some(badge),
                            facts.ruling,
                        ),
                    }
                }
            },
        }
    }
}

/// Whether a stream on the open path is ruled as it must be: admitted under both public caps, or
/// refused for one of them, whose pool had nothing to give, with the session left as it was.
pub open spec fn open_under_caps(
    admitted: Result<AdmittedStream, HostRefusal>,
    peer: VerifyKey,
    pool: PublicPool,
    before: PublicSession,
    after: PublicSession,
) -> bool {
    match admitted {
        Ok(stream) => {
            &&& admitted_open(stream, peer, pool)
            &&& after.held() is Some
            &&& before.held() is Some ==> after == before
            &&& before.held() is None ==> taken_from(after.held()->0) == *pool.sessions
        },
        Err(refusal) => {
            &&& after == before
            &&& match refusal {
                HostRefusal::PublicAtCapacity { cap: PublicCap::Streams } => {
                    may_refuse(*pool.streams)
                },
                HostRefusal::PublicAtCapacity { cap: PublicCap::Sessions } => {
                    &&& may_give(*pool.streams)
                    &&& before.held() is None && may_refuse(*pool.sessions)
                },
                _ => false,
            }
        },
    }
}

/// Whether a stream on a proven-only route is ruled as its facts say.
pub open spec fn proven_as_facts_say(
    admitted: Result<AdmittedStream, HostRefusal>,
    peer: SessionPeer,
    pool: Semaphore,
    vouch: Vouch,
) -> bool {
    if !peer.claim.proves() {
        admitted == Err::<AdmittedStream, _>(HostRefusal::PeerNotProven { declared: peer.claim })
    } else if vouch.revoked {
        admitted == Err::<AdmittedStream, _>(HostRefusal::Gate(GateRefusal::Revoked))
    } else if !vouch.known {
        admitted == Err::<AdmittedStream, _>(HostRefusal::UnknownKey)
    } else {
        match admitted {
            Ok(stream) => admitted_proven(stream, peer.key, pool),
            Err(refusal) => refusal == HostRefusal::ProvenAtCapacity && may_refuse(pool),
        }
    }
}

/// Whether a stream is ruled as its path and its facts say.
pub open spec fn ruled_as_facts_say(
    admitted: Result<AdmittedStream, HostRefusal>,
    serving: Serving,
    service: Seq<char>,
    peer: SessionPeer,
    facts: Facts,
    before: PublicSession,
    after: PublicSession,
) -> bool {
    match serving.path(service) {
        Path::Open => open_under_caps(admitted, peer.key, serving.public_permits(), before, after),
        Path::Proven => {
            &&& after == before
            &&& proven_as_facts_say(admitted, peer, serving.proven_permits(), facts.vouch)
        },
        Path::Gated => {
            &&& after == before
            &&& gated_as_facts_say(admitted, peer, serving.base(), facts)
        },
    }
}

/// Rule on a stream whose facts are all at hand.
pub fn rule_stream(
    serving: &Serving,
    session: &mut PublicSession,
    peer: SessionPeer,
    facts: Facts,
    service: &str,
) -> (admitted: Result<AdmittedStream, HostRefusal>)
    ensures
        ruled_as_facts_say(
            admitted,
            *serving,
            service@,
            peer,
            facts,
            *old(session),
            *final(session),
        ),
{
    let Facts { capability, membership, ruling, vouch } = facts;
    match serving.begin(session, peer, capability.is_some(), membership.is_some(), service) {
        AdmitStep::Done(admitted) => admitted,
        AdmitStep::Vouch(wait) => wait.vouched(vouch),
        AdmitStep::Rule(wait) => wait.ruled(ruling),
        AdmitStep::ParseCapability(wait) => match capability {
            None => Err(HostRefusal::MalformedCapability),
            Some(parsed) => match wait.parsed(parsed) {
                AdmitStep::Done(admitted) => admitted,
                AdmitStep::Rule(wait) => wait.ruled(ruling),
                AdmitStep::ParseMembership(wait) => match membership {
                    None => Err(HostRefusal::MalformedCapability),
                    Some(parsed) => match wait.parsed(parsed) {
                        AdmitStep::Done(admitted) => admitted,
                        AdmitStep::Rule(wait) => wait.ruled(ruling),
                        _ => Err(HostRefusal::MalformedCapability),
                    },
                },
                _ => Err(HostRefusal::MalformedCapability),
            },
        },
        AdmitStep::ParseMembership(_) => Err(HostRefusal::MalformedCapability),
    }
}

/// A second slot is nothing without an authority-bound first one: whatever stands in it, the ruling
/// is the same.
pub proof fn a_second_slot_needs_an_authority_bound_first(
    admitted: Result<AdmittedStream, HostRefusal>,
    peer: SessionPeer,
    gate: Gate,
    facts: Facts,
    other: Facts,
)
    requires
        facts.capability == other.capability,
        facts.ruling == other.ruling,
        facts.capability matches Some(Ok(cap)) ==> !cap.authority_bound,
    ensures
        gated_as_facts_say(admitted, peer, gate, facts) == gated_as_facts_say(
            admitted,
            peer,
            gate,
            other,
        ),
{
}

/// A gate that rules on tokens never rules on a key nobody proved: whatever is presented over such
/// a session, the stream is refused.
pub proof fn an_unproven_peer_is_never_ruled_on(
    admitted: Result<AdmittedStream, HostRefusal>,
    serving: Serving,
    service: Seq<char>,
    peer: SessionPeer,
    facts: Facts,
    before: PublicSession,
    after: PublicSession,
)
    requires
        ruled_as_facts_say(admitted, serving, service, peer, facts, before, after),
        serving.path(service) != Path::Open,
        serving.base().rules_on_tokens(),
        !peer.claim.proves(),
    ensures
        admitted == Err::<AdmittedStream, _>(HostRefusal::PeerNotProven { declared: peer.claim }),
        wire_answer(admitted->Err_0) == RefusalView::NotAdmitted,
{
}

/// Where a witness comes from fixes what admitted it. A rooted one was ruled on by a gate that
/// rules on tokens, for a peer the transport proved; a proven one came through a proven-only route;
/// an open one through an overlay or an open gate. Only a rooted witness is ever a member's, and
/// only a stream on the open path holds a public permit.
pub proof fn a_witness_tells_its_path(
    stream: AdmittedStream,
    serving: Serving,
    service: Seq<char>,
    peer: SessionPeer,
    facts: Facts,
    before: PublicSession,
    after: PublicSession,
)
    requires
        ruled_as_facts_say(Ok(stream), serving, service, peer, facts, before, after),
    ensures
        stream.witness.peer_key() == peer.key,
        stream.witness.source() == Origin::Rooted <==> serving.path(service) == Path::Gated
            && serving.base().rules_on_tokens(),
        stream.witness.source() == Origin::Rooted ==> peer.claim.proves() && facts.ruling == Ok::<
            _,
            GateRefusal,
        >(stream.witness.authority()),
        stream.witness.source() == Origin::Proven <==> serving.path(service) == Path::Proven,
        stream.witness.source() == Origin::Proven ==> peer.claim.proves() && facts.vouch.known
            && !facts.vouch.revoked,
        stream.witness.authority() == Admission::Member ==> stream.witness.source()
            == Origin::Rooted,
        stream.witness.source() != Origin::Rooted ==> stream.ruled@ == Seq::<Cap>::empty(),
        serving.path(service) == Path::Gated ==> stream.permit is None && after == before,
{
    assert(ruled_on(serving.base(), None, None) =~= Seq::empty());
}

/// A name takes the open path exactly where an overlay holds it, whatever stands behind the name; a
/// name no overlay holds takes the proven path exactly where its route is proven-only; and every
/// other name, served or not, faces the base gate.
pub proof fn an_overlay_alone_opens_a_name(serving: &Serving, service: &str, path: Path)
    requires
        call_ensures(Serving::path_for, (serving, service), path),
    ensures
        path == Path::Open <==> serving.open_names().contains(service@)
            || serving.unsafe_names().contains(service@),
        path == Path::Proven <==> !serving.open_names().contains(service@)
            && !serving.unsafe_names().contains(service@) && serving.table().contains_key(service@)
            && serving.table()[service@].access == Access::ProvenOnly,
{
}

/// An opened name lets anyone in, whoever they are and whatever they present or do not: it is refused
/// only where a public pool has nothing to give. So a stranger with no token is admitted as one, with
/// no standing and nothing recorded, wherever neither pool refuses.
pub proof fn an_opened_name_admits_a_stranger(
    serving: &Serving,
    session: &mut PublicSession,
    peer: SessionPeer,
    facts: Facts,
    service: &str,
    admitted: Result<AdmittedStream, HostRefusal>,
)
    requires
        call_ensures(rule_stream, (serving, session, peer, facts, service), admitted),
        serving.open_names().contains(service@) || serving.unsafe_names().contains(service@),
    ensures
        !may_refuse(*serving.public_permits().streams) && (old(session).held() is Some
            || !may_refuse(*serving.public_permits().sessions)) ==> admitted is Ok,
        admitted matches Ok(stream) ==> {
            &&& stream.witness.peer_key() == peer.key
            &&& stream.witness.source() == Origin::Open
            &&& stream.witness.authority() == Admission::Slip
            &&& stream.ruled@.len() == 0
            &&& stream.permit matches Some(permit) && taken_from(permit)
                == *serving.public_permits().streams
            &&& final(session).held() is Some
        },
        admitted matches Err(refusal) ==> {
            &&& refusal is PublicAtCapacity
            &&& refusal == (HostRefusal::PublicAtCapacity { cap: PublicCap::Streams }) ==> may_refuse(
                *serving.public_permits().streams,
            )
            &&& refusal == (HostRefusal::PublicAtCapacity { cap: PublicCap::Sessions }) ==> may_refuse(
                *serving.public_permits().sessions,
            ) && old(session).held() is None
            &&& final(session).held() == old(session).held()
        },
{
}

/// What a catalog calls open on a gated node is what admits a stranger: the names it lists as open
/// are the names whose streams take the open path.
pub proof fn an_open_posture_is_an_open_path(
    serving: &Serving,
    service: &str,
    path: Path,
    entries: Seq<(Seq<char>, Posture)>,
)
    requires
        call_ensures(Serving::path_for, (serving, service), path),
        is_listing(listing(serving.table()), serving.table()),
        serving.table().contains_key(service@),
        serving.base() != Gate::Open,
        entries == catalog_of(
            serving.table(),
            serving.base(),
            serving.open_names(),
            serving.unsafe_names(),
        ),
    ensures
        entries.contains((service@, Posture::Open)) <==> path == Path::Open,
        entries.contains((service@, Posture::Gated)) <==> path != Path::Open,
{
    let names = listing(serving.table());
    assert(names.contains(service@));
    let i = choose|i: int| 0 <= i < names.len() && names[i] == service@;
    assert(entries[i].0 == service@);
    assert forall|j: int| 0 <= j < entries.len() && (#[trigger] entries[j]).0 == service@ implies j
        == i by {
        assert(names[j] == service@);
        if j < i {
            assert(name_lt(names[j], names[i]));
        } else if i < j {
            assert(name_lt(names[i], names[j]));
        }
    }
    if entries.contains((service@, Posture::Open)) {
        let j = choose|j: int| 0 <= j < entries.len() && entries[j] == (service@, Posture::Open);
        assert(entries[j].0 == service@);
    }
    if entries.contains((service@, Posture::Gated)) {
        let j = choose|j: int| 0 <= j < entries.len() && entries[j] == (service@, Posture::Gated);
        assert(entries[j].0 == service@);
    }
    assert(entries.contains(entries[i]));
}

/// A proven-only route lets in exactly the keys it knows, over a transport that proves them, unless
/// the key is revoked. No token helps or hinders, and capacity alone refuses a key that qualifies.
pub proof fn a_proven_route_admits_the_keys_it_knows(
    serving: &Serving,
    session: &mut PublicSession,
    peer: SessionPeer,
    facts: Facts,
    service: &str,
    admitted: Result<AdmittedStream, HostRefusal>,
)
    requires
        call_ensures(rule_stream, (serving, session, peer, facts, service), admitted),
        !serving.open_names().contains(service@) && !serving.unsafe_names().contains(service@),
        serving.table().contains_key(service@),
        serving.table()[service@].access == Access::ProvenOnly,
    ensures
        admitted is Ok ==> peer.claim != PeerProof::Announced && facts.vouch.known
            && !facts.vouch.revoked,
        peer.claim != PeerProof::Announced && facts.vouch.known && !facts.vouch.revoked
            && !may_refuse(serving.proven_permits()) ==> admitted is Ok,
        admitted matches Ok(stream) ==> {
            &&& stream.witness.peer_key() == peer.key
            &&& stream.witness.source() == Origin::Proven
            &&& stream.witness.authority() == Admission::Slip
            &&& stream.ruled@.len() == 0
            &&& stream.permit matches Some(permit) && taken_from(permit)
                == serving.proven_permits()
        },
        final(session).held() == old(session).held(),
        admitted matches Err(refusal) ==> {
            &&& refusal == HostRefusal::ProvenAtCapacity ==> facts.vouch.known
                && !facts.vouch.revoked
            &&& refusal is PeerNotProven <==> peer.claim == PeerProof::Announced
            &&& refusal == HostRefusal::UnknownKey ==> !facts.vouch.known
            &&& refusal == HostRefusal::Gate(GateRefusal::Revoked) ==> facts.vouch.revoked
        },
{
}

/// Behind a gate that rules on tokens the ruling alone decides, for a proven peer whose presented
/// slots can be read: the stream is admitted exactly where the ruling admits it, with the standing
/// the ruling gives and no other, and refused with the ruling's own cause. No capacity is asked.
pub proof fn behind_a_gate_the_ruling_decides(
    serving: &Serving,
    session: &mut PublicSession,
    peer: SessionPeer,
    facts: Facts,
    service: &str,
    admitted: Result<AdmittedStream, HostRefusal>,
)
    requires
        call_ensures(rule_stream, (serving, session, peer, facts, service), admitted),
        !serving.open_names().contains(service@) && !serving.unsafe_names().contains(service@),
        serving.table().contains_key(service@) ==> serving.table()[service@].access
            != Access::ProvenOnly,
        serving.base() != Gate::Open,
    ensures
        peer.claim == PeerProof::Announced ==> admitted == Err::<AdmittedStream, _>(
            HostRefusal::PeerNotProven { declared: PeerProof::Announced },
        ),
        peer.claim != PeerProof::Announced && !unreadable_slot(facts) ==> match facts.ruling {
            Ok(standing) => admitted matches Ok(stream) && {
                &&& stream.witness.peer_key() == peer.key
                &&& stream.witness.source() == Origin::Rooted
                &&& stream.witness.authority() == standing
                &&& stream.permit is None
            },
            Err(cause) => admitted == Err::<AdmittedStream, _>(HostRefusal::Gate(cause)),
        },
        peer.claim != PeerProof::Announced && unreadable_slot(facts) ==> admitted == Err::<
            AdmittedStream,
            _,
        >(HostRefusal::MalformedCapability),
        *final(session) == *old(session),
{
}

/// Whether a slot that admission reads holds something it cannot read: the first slot always, and
/// the second only behind a first that is bound to an authority.
pub open spec fn unreadable_slot(facts: Facts) -> bool {
    match facts.capability {
        None => false,
        Some(Err(_)) => true,
        Some(Ok(cap)) => cap.authority_bound && facts.membership matches Some(Err(_)),
    }
}

/// A stream is recorded on what its ruling rested on, in the order it was verified: the presented
/// capability, then the badge an authority-bound one was ruled together with. A badge that nothing
/// asked for is not among them.
pub proof fn a_stream_keeps_what_its_ruling_rested_on(
    serving: &Serving,
    session: &mut PublicSession,
    peer: SessionPeer,
    facts: Facts,
    service: &str,
    admitted: Result<AdmittedStream, HostRefusal>,
)
    requires
        call_ensures(rule_stream, (serving, session, peer, facts, service), admitted),
        !serving.open_names().contains(service@) && !serving.unsafe_names().contains(service@),
        serving.table().contains_key(service@) ==> serving.table()[service@].access
            != Access::ProvenOnly,
        serving.base() != Gate::Open,
        admitted is Ok,
    ensures
        match (facts.capability, facts.membership) {
            (None, _) => admitted->Ok_0.ruled@.len() == 0,
            (Some(Ok(cap)), Some(Ok(badge))) => if cap.authority_bound {
                admitted->Ok_0.ruled@ == seq![cap, badge]
            } else {
                admitted->Ok_0.ruled@ == seq![cap]
            },
            (Some(Ok(cap)), _) => admitted->Ok_0.ruled@ == seq![cap],
            (Some(Err(_)), _) => false,
        },
{
}

/// An open gate lets anyone in without a ruling, and gives nobody any standing; only a slot it cannot
/// read refuses a stream.
pub proof fn an_open_gate_admits_anyone(
    serving: &Serving,
    session: &mut PublicSession,
    peer: SessionPeer,
    facts: Facts,
    service: &str,
    admitted: Result<AdmittedStream, HostRefusal>,
)
    requires
        call_ensures(rule_stream, (serving, session, peer, facts, service), admitted),
        !serving.open_names().contains(service@) && !serving.unsafe_names().contains(service@),
        serving.table().contains_key(service@) ==> serving.table()[service@].access
            != Access::ProvenOnly,
        serving.base() == Gate::Open,
    ensures
        admitted is Ok <==> !unreadable_slot(facts),
        admitted matches Ok(stream) ==> {
            &&& stream.witness.peer_key() == peer.key
            &&& stream.witness.source() == Origin::Open
            &&& stream.witness.authority() == Admission::Slip
            &&& stream.ruled@.len() == 0
            &&& stream.permit is None
        },
        *final(session) == *old(session),
{
}

/// On the wire every cause is "not admitted", except a gate that decided nothing: that one says so,
/// and asks the dialer to try again.
pub proof fn the_wire_tells_one_cause_apart(refusal: HostRefusal, answer: Refusal)
    requires
        call_ensures(wire_refusal, (&refusal,), answer),
    ensures
        refusal == HostRefusal::Gate(GateRefusal::Undecided) <==> answer is Unavailable,
        refusal != HostRefusal::Gate(GateRefusal::Undecided) <==> answer is NotAdmitted,
{
}

/// A node serves what its exposer proved, under the base and the overlays it was proved under.
pub proof fn a_node_serves_what_was_proved(exposer: Exposer, serving: Serving)
    requires
        call_ensures(Serving::arm, (exposer,), serving),
    ensures
        serving.table() == exposer.table(),
        serving.base() == exposer.base(),
        serving.open_names() == exposer.open_names(),
        serving.unsafe_names() == exposer.unsafe_names(),
        made_with(*serving.public_permits().sessions) == 32,
        made_with(*serving.public_permits().streams) == 4,
        made_with(serving.proven_permits()) == 4,
        made_with(serving.open_permits()) == 16,
{
}

/// A badge is asked for only behind a slip that is bound to an authority, and only where the request
/// holds one; any other capability is ruled on alone. A slot that cannot be read ends it.
pub proof fn a_badge_is_asked_for_behind_a_bound_slip(
    wait: AwaitCapability,
    capability: Result<Cap, Malformed>,
    step: AdmitStep,
)
    requires
        call_ensures(AwaitCapability::parsed, (wait, capability), step),
    ensures
        capability matches Ok(cap) ==> {
            &&& step is ParseMembership <==> cap.authority_bound && wait.has_second()
            &&& step is Rule <==> !(cap.authority_bound && wait.has_second())
            &&& step matches AdmitStep::Rule(next) ==> {
                &&& next.key() == wait.key() && next.base() == wait.base()
                &&& next.first() == Some(cap) && next.second() is None
            }
            &&& step matches AdmitStep::ParseMembership(next) ==> {
                &&& next.key() == wait.key() && next.base() == wait.base()
                &&& next.first() == cap
            }
        },
        capability is Err ==> step == AdmitStep::Done(Err(HostRefusal::MalformedCapability)),
{
}

/// A badge is ruled on together with the slip it vouches for.
pub proof fn a_badge_is_ruled_on_with_its_slip(
    wait: AwaitMembership,
    membership: Result<Cap, Malformed>,
    step: AdmitStep,
    foreign: bool,
)
    requires
        call_ensures(AwaitMembership::parsed, (wait, membership), step),
        step is Rule ==> call_ensures(AwaitRuling::is_foreign, (&step->Rule_0,), foreign),
    ensures
        membership matches Ok(badge) ==> (step matches AdmitStep::Rule(next) && {
            &&& next.key() == wait.key() && next.base() == wait.base()
            &&& next.first() == Some(wait.first()) && next.second() == Some(badge)
        }),
        membership is Ok ==> foreign,
        membership is Err ==> step == AdmitStep::Done(Err(HostRefusal::MalformedCapability)),
{
}

/// How a stream's admission begins: an opened name is ruled at once, a proven-only one asks about the
/// key, and any other asks for what the request presents. A peer nobody proved gets no further on a
/// route that would rule on its key.
pub proof fn how_an_admission_begins(
    serving: &Serving,
    session: &mut PublicSession,
    peer: SessionPeer,
    capability: bool,
    membership: bool,
    service: &str,
    step: AdmitStep,
)
    requires
        call_ensures(
            Serving::begin,
            (serving, session, peer, capability, membership, service),
            step,
        ),
    ensures
        ({
            let opened = serving.open_names().contains(service@)
                || serving.unsafe_names().contains(service@);
            let proven = serving.table().contains_key(service@)
                && serving.table()[service@].access == Access::ProvenOnly;
            &&& opened ==> (step matches AdmitStep::Done(admitted) && match admitted {
                Ok(stream) => stream.witness.source() == Origin::Open && stream.witness.peer_key()
                    == peer.key,
                Err(refusal) => refusal is PublicAtCapacity,
            })
            &&& !opened && (proven || serving.base() != Gate::Open) && peer.claim
                == PeerProof::Announced ==> step == AdmitStep::Done(
                Err(HostRefusal::PeerNotProven { declared: peer.claim }),
            )
            &&& !opened && proven && peer.claim != PeerProof::Announced ==> (step matches
                AdmitStep::Vouch(wait) && wait.key() == peer.key)
            &&& !opened && !proven && (serving.base() == Gate::Open || peer.claim
                != PeerProof::Announced) ==> {
                &&& capability ==> (step matches AdmitStep::ParseCapability(wait) && wait.key()
                    == peer.key && wait.base() == serving.base() && wait.has_second()
                    == membership)
                &&& !capability ==> (step matches AdmitStep::Rule(wait) && wait.key() == peer.key
                    && wait.base() == serving.base() && wait.first() is None && wait.second() is None)
            }
            &&& !opened ==> *final(session) == *old(session)
        }),
{
}

/// What a proven-only route's owner says of a key decides: a revoked key and an unknown one are
/// refused as such, and a known one is refused only for capacity.
pub proof fn a_vouch_decides_a_proven_route(
    wait: AwaitVouch,
    vouch: Vouch,
    admitted: Result<AdmittedStream, HostRefusal>,
)
    requires
        call_ensures(AwaitVouch::vouched, (wait, vouch), admitted),
    ensures
        admitted is Ok ==> vouch.known && !vouch.revoked,
        vouch.known && !vouch.revoked && !may_refuse(wait.permits()) ==> admitted is Ok,
        vouch.revoked ==> admitted == Err::<AdmittedStream, _>(
            HostRefusal::Gate(GateRefusal::Revoked),
        ),
        !vouch.revoked && !vouch.known ==> admitted == Err::<AdmittedStream, _>(
            HostRefusal::UnknownKey,
        ),
        admitted matches Ok(stream) ==> stream.witness.peer_key() == wait.key()
            && stream.witness.source() == Origin::Proven,
{
}

/// The ruling asked for is the ruling given: a stream is admitted exactly where its gate says so, and
/// an open gate says so to anyone.
pub proof fn a_ruling_is_given_as_ruled(
    wait: AwaitRuling,
    ruling: Result<Admission, GateRefusal>,
    admitted: Result<AdmittedStream, HostRefusal>,
)
    requires
        call_ensures(AwaitRuling::ruled, (wait, ruling), admitted),
    ensures
        wait.base() == Gate::Open ==> (admitted matches Ok(stream) && stream.witness.source()
            == Origin::Open && stream.witness.authority() == Admission::Slip
            && stream.ruled@.len() == 0),
        wait.base() != Gate::Open ==> match ruling {
            Ok(standing) => admitted matches Ok(stream) && stream.witness.source() == Origin::Rooted
                && stream.witness.authority() == standing,
            Err(cause) => admitted == Err::<AdmittedStream, _>(HostRefusal::Gate(cause)),
        },
        admitted matches Ok(stream) ==> stream.witness.peer_key() == wait.key(),
{
}

} // verus!
