//! Serving one inbound stream: read the request, rule, find the route, keep what the cut needs, and
//! only then answer. Every class of miss is the same payload-free refusal.

use tokio::sync::{OwnedSemaphorePermit, Semaphore};
use vstd::prelude::*;
use vstd::string::*;

use crate::admission::{
    rule_stream, ruled_as_facts_say, unreadable_slot, wire_answer, wire_refusal, AdmittedStream, Facts, HostRefusal,
    Path, Serving,
};
use crate::bridge::BoundHandler;
use crate::cut::{
    expiries, ids_of, is_earliest, lemma_earliest_passed, lemma_ids_of, lemma_roots_of, recorded,
    AdmittedChains, Cap, Chains, Expiry, Unrecorded, MAX_SESSION_CHAIN_IDS,
};
use crate::gate::{Gate, GateRefusal, PeerProof, SessionPeer};
use crate::pool::{may_give, may_refuse, PublicSession};
use crate::services::{listing, Access, ServiceName, Services, Table};
use crate::target::{RawStream, Serves, Target};
use crate::text::texts;
use crate::witness::{Admission, Admitted, Origin, Refusal, RefusalView};

verus! {

/// How long to wait for a connector to send its opening request before dropping the stream, in
/// milliseconds. Bounds the pre-gate work an unauthenticated peer can pin.
pub const REQUEST_READ_TIMEOUT_MILLIS: u64 = 10_000;

/// How long an admitted stream may carry no bytes in either direction before the host drops it, in
/// milliseconds.
pub const FIRST_TRAFFIC_TIMEOUT_MILLIS: u64 = 10_000;

/// How long a proven-only stream may hold its permit, from its admission, in milliseconds.
pub const PROVEN_STREAM_DEADLINE_MILLIS: u64 = 30_000;

/// How long an admitted stream may be answered and served for, if there is a limit, in
/// milliseconds: a proven-only stream gives its permit back by then, refusals included.
pub fn stream_deadline(origin: Origin) -> (millis: Option<u64>)
    ensures
        millis == (if origin == Origin::Proven {
            Some(PROVEN_STREAM_DEADLINE_MILLIS)
        } else {
            None
        }),
{
    match origin {
        Origin::Proven => Some(PROVEN_STREAM_DEADLINE_MILLIS),
        Origin::Rooted | Origin::Open => None,
    }
}

/// How reading a stream's opening request came out.
#[derive(Debug)]
pub enum Opening {
    /// A request for a service, and whether the service-name grammar accepts the name.
    Request {
        /// The name asked for.
        service: String,
        /// Whether it is a service name.
        named: bool,
    },
    /// Bytes this host cannot read. A dialer of another version can be told so; anyone else is told
    /// nothing.
    Unreadable {
        /// What there is to say.
        refusal: Option<Refusal>,
    },
    /// Nothing in time.
    TimedOut,
}

/// What to do about an opening.
#[derive(Debug)]
pub enum Opened {
    /// Rule on the stream for this service.
    Rule(ServiceName),
    /// Answer with this refusal and end the stream.
    Answer(Refusal),
    /// End the stream as failed.
    Fail,
    /// Drop the stream without a word.
    Silent,
}

/// A text as a Rust debug string shows it: in double quotes, with its special characters escaped.
pub uninterp spec fn quoted(text: Seq<char>) -> Seq<char>;

/// Show a text in quotes.
///
/// Formats with `{:?}`, the `Debug` rendering of a `str`: a function of the text alone, which takes
/// more than a few lines to state.
#[verifier::external_body]
fn quote(text: &str) -> (shown: String)
    ensures
        shown@ == quoted(text@),
{
    format!("{:?}", text)
}

/// The answer to a request whose service name, shown as `shown`, is not one.
pub fn invalid_name(shown: &str) -> (refusal: Refusal)
    ensures
        refusal@ == (RefusalView::BadRequest { detail: "invalid service name "@ + shown@ }),
{
    Refusal::BadRequest { detail: String::from_str("invalid service name ").concat(shown) }
}

/// What to do about an opening, before anything is ruled.
pub fn open(opening: Opening) -> (opened: Opened)
    ensures
        match opening {
            Opening::Request { service, named } => {
                if named {
                    opened matches Opened::Rule(name) && name@ == service@
                } else {
                    opened matches Opened::Answer(refusal) && refusal@ == (
                    RefusalView::BadRequest {
                        detail: "invalid service name "@ + quoted(service@),
                    })
                }
            },
            Opening::Unreadable { refusal: Some(said) } => opened == Opened::Answer(said),
            Opening::Unreadable { refusal: None } => opened is Fail,
            Opening::TimedOut => opened is Silent,
        },
{
    match opening {
        Opening::Request { service, named } => {
            if named {
                Opened::Rule(ServiceName::new(service))
            } else {
                Opened::Answer(invalid_name(quote(service.as_str()).as_str()))
            }
        },
        Opening::Unreadable { refusal } => match refusal {
            Some(said) => Opened::Answer(said),
            None => Opened::Fail,
        },
        Opening::TimedOut => Opened::Silent,
    }
}

/// The service a request resolves to: the one it names, unless it names none and the node serves
/// exactly one.
pub open spec fn resolved(table: Table, requested: Seq<char>) -> Seq<char> {
    if table.contains_key(requested) || listing(table).len() != 1 {
        requested
    } else {
        listing(table)[0]
    }
}

/// Resolve the requested service against what is exposed, so a single-service node needs no named
/// service. Done before the node's gate, so a slip for that service still matches.
pub fn resolve_single_service(requested: ServiceName, services: &Services) -> (service:
    ServiceName)
    ensures
        service@ == resolved(services@, requested@),
{
    if services.contains(requested.as_str()) || services.len() != 1 {
        return requested;
    }
    let (only, _) = services.row(0);
    ServiceName::new(only.clone())
}

/// Why an admitted stream still reaches nothing, for the host's own log.
#[derive(Debug, Clone, Copy, PartialEq, Eq, Structural)]
pub enum Miss {
    /// The operator has disabled the service.
    Disabled,
    /// The node does not serve the name.
    Unknown,
    /// The route is member-only and the witness is not a member's.
    MemberOnly,
    /// The route's handler does not accept the witness.
    NotAccepted,
}

/// Why an admitted stream reaches nothing, if it reaches nothing.
pub open spec fn miss_of(table: Table, service: Seq<char>, enabled: bool, witness: Admitted) -> Option<
    Miss,
> {
    if !enabled {
        Some(Miss::Disabled)
    } else if !table.contains_key(service) {
        Some(Miss::Unknown)
    } else if table[service].access == Access::Member && witness.authority() != Admission::Member {
        Some(Miss::MemberOnly)
    } else if table[service].target matches Target::Handler(bound, _)
        && !bound.ceiling.accepts_origin(witness.source()) {
        Some(Miss::NotAccepted)
    } else {
        None
    }
}

/// Where an admitted stream goes.
pub enum Reach<'a> {
    /// Nowhere.
    Missed(Miss),
    /// To a handler.
    Handler(BoundHandler, &'a Serves<String>),
    /// To a raw byte source.
    RawStream(&'a RawStream<String>),
}

/// Find where an admitted stream goes. Everything is checked here, after admission and before any
/// success is written: that the service is enabled, that it is served, its member floor, and that
/// its handler accepts the witness.
pub fn reach<'a>(services: &'a Services, service: &str, enabled: bool, witness: &Admitted) -> (
    reach: Reach<'a>)
    ensures
        match reach {
            Reach::Missed(miss) => miss_of(services@, service@, enabled, *witness) == Some(miss),
            Reach::Handler(bound, serves) => {
                &&& miss_of(services@, service@, enabled, *witness) is None
                &&& services@[service@].target == Target::Handler(bound, serves@)
            },
            Reach::RawStream(stream) => {
                &&& miss_of(services@, service@, enabled, *witness) is None
                &&& services@[service@].target == Target::RawStream(stream@)
            },
        },
{
    if !enabled {
        return Reach::Missed(Miss::Disabled);
    }
    match services.get(service) {
        None => Reach::Missed(Miss::Unknown),
        Some(route) => {
            if matches!(route.access, Access::Member) && !witness.is_member() {
                return Reach::Missed(Miss::MemberOnly);
            }
            match &route.target {
                Target::Handler(bound, serves) => {
                    if !bound.ceiling.accepts(witness.origin()) {
                        return Reach::Missed(Miss::NotAccepted);
                    }
                    Reach::Handler(*bound, serves)
                },
                Target::RawStream(stream) => Reach::RawStream(stream),
            }
        },
    }
}

/// Whether keeping a stream's chains came out as the record demands: a proven stream keeps its key
/// and nothing else; any other keeps all its chains, or nothing and refuses the stream.
pub open spec fn kept_as_recorded(
    kept: Result<(), Unrecorded>,
    before: Chains,
    stream: AdmittedStream,
    after: Chains,
) -> bool {
    if stream.witness.source() == Origin::Proven {
        &&& kept is Ok
        &&& after == Chains { peer: Some(stream.witness.peer_key()), ..before }
    } else {
        match kept {
            Ok(()) => {
                &&& before.ids.union(ids_of(stream.ruled@)).len() <= MAX_SESSION_CHAIN_IDS
                &&& exists|until: Option<i128>|
                    {
                        &&& #[trigger] is_earliest(expiries(stream.ruled@), until)
                        &&& after == recorded(
                            before,
                            stream.witness.peer_key(),
                            stream.ruled@,
                            until,
                        )
                    }
            },
            Err(Unrecorded::UnreadableExpiry) => {
                &&& expiries(stream.ruled@).contains(Expiry::Unreadable)
                &&& after == before
            },
            Err(Unrecorded::Full) => {
                &&& !expiries(stream.ruled@).contains(Expiry::Unreadable)
                &&& before.ids.union(ids_of(stream.ruled@)).len() > MAX_SESSION_CHAIN_IDS
                &&& after == before
            },
        }
    }
}

/// Keep what the live cut will need of an admitted stream. Called once the stream is really about
/// to be served, so a stream refused earlier leaves no trace in the record.
pub fn keep(chains: &mut AdmittedChains, stream: &AdmittedStream) -> (kept: Result<(), Unrecorded>)
    ensures
        kept_as_recorded(kept, old(chains)@, *stream, final(chains)@),
        kept is Err ==> final(chains)@ == old(chains)@,
{
    match stream.witness.origin() {
        Origin::Proven => {
            chains.record_proven(stream.witness.peer());
            Ok(())
        },
        _ => chains.record_all(stream.witness.peer(), &stream.ruled),
    }
}

/// The text of the refusal for a node with every raw-stream open in flight.
pub open spec fn too_many_opens() -> Seq<char> {
    "the host is opening too many raw streams right now; try again shortly"@
}

/// The refusal for a node with every raw-stream open in flight.
pub fn open_cap_refusal() -> (refusal: Refusal)
    ensures
        refusal@ == (RefusalView::Unavailable { detail: too_many_opens() }),
{
    Refusal::Unavailable {
        detail: "the host is opening too many raw streams right now; try again shortly".to_owned(),
    }
}

/// What was found out about one stream. Each fact counts only where serving asks for it.
pub struct StreamFacts {
    /// How reading the request came out.
    pub opening: Opening,
    /// What admission was answered.
    pub admission: Facts,
    /// Whether the operator has the resolved service enabled.
    pub enabled: bool,
    /// How opening the raw source came out, with what to say where it failed.
    pub source: Result<(), String>,
}

/// What one stream gets.
pub enum Answer {
    /// Nothing: it is dropped without a word.
    Silent,
    /// Nothing: it ends as failed.
    Failed,
    /// A refusal.
    Refused(Refusal),
    /// Service: the success answer, then the route's target.
    Serve {
        /// The resolved service.
        service: ServiceName,
        /// The admitted stream.
        stream: AdmittedStream,
    },
}

/// Whether an answer is this refusal.
pub open spec fn refuses(answer: Answer, refusal: RefusalView) -> bool {
    answer matches Answer::Refused(said) && said@ == refusal
}

/// Whether an admitted stream is answered as its facts say, `permitted` saying whether a raw source
/// could be opened under the node-wide cap.
pub open spec fn settled(
    answer: Answer,
    table: Table,
    service: Seq<char>,
    stream: AdmittedStream,
    enabled: bool,
    permitted: bool,
    source: Result<(), String>,
    wired: bool,
    before: Chains,
    after: Chains,
) -> bool {
    let raw = table[service].target is RawStream;
    if miss_of(table, service, enabled, stream.witness) is Some {
        refuses(answer, RefusalView::NotAdmitted) && after == before
    } else if raw && !permitted {
        refuses(answer, RefusalView::Unavailable { detail: too_many_opens() }) && after == before
    } else if raw && source is Err {
        refuses(answer, RefusalView::Unavailable { detail: source->Err_0@ }) && after == before
    } else {
        match answer {
            Answer::Serve { service: name, stream: given } => {
                &&& name@ == service
                &&& given == stream
                &&& if wired {
                    kept_as_recorded(Ok(()), before, stream, after)
                } else {
                    after == before
                }
            },
            _ => {
                &&& wired
                &&& refuses(answer, RefusalView::NotAdmitted)
                &&& exists|why: Unrecorded| #[trigger]
                    kept_as_recorded(Err(why), before, stream, after)
            },
        }
    }
}

/// Answer an admitted stream. `permit` is what the cap on raw-stream opens gave, and `source` how
/// the open made under it came out; only a raw stream's route reads either. `wired` says whether a
/// live cut is wired at all; where none is, nothing is kept. A raw source is opened before anything
/// is recorded or any success written, so a peer learns "refused" and the record keeps no trace of
/// a stream never served.
pub fn settle(
    services: &Services,
    service: ServiceName,
    stream: AdmittedStream,
    enabled: bool,
    permit: Option<OwnedSemaphorePermit>,
    source: Result<(), String>,
    wired: bool,
    chains: &mut AdmittedChains,
) -> (answer: Answer)
    ensures
        settled(
            answer,
            services@,
            service@,
            stream,
            enabled,
            permit is Some,
            source,
            wired,
            old(chains)@,
            final(chains)@,
        ),
        answer !is Serve ==> final(chains)@ == old(chains)@,
{
    match reach(services, service.as_str(), enabled, &stream.witness) {
        Reach::Missed(_) => {
            return Answer::Refused(Refusal::NotAdmitted);
        },
        Reach::Handler(..) => {},
        Reach::RawStream(_) => {
            if permit.is_none() {
                return Answer::Refused(open_cap_refusal());
            }
            match source {
                Ok(()) => {},
                Err(detail) => {
                    return Answer::Refused(Refusal::Unavailable { detail });
                },
            }
        },
    }
    if wired {
        match keep(chains, &stream) {
            Ok(()) => {},
            Err(_) => {
                return Answer::Refused(Refusal::NotAdmitted);
            },
        }
    }
    Answer::Serve { service, stream }
}

/// Whether an admitted stream is answered as its facts say, whatever the pool `opens` of raw-stream
/// opens has left. Only a raw stream that is reached ever meets that pool: it goes on only where the
/// pool gave a permit, and is refused for it only where the pool had none to give.
pub open spec fn dispatched(
    answer: Answer,
    table: Table,
    opens: Semaphore,
    service: Seq<char>,
    stream: AdmittedStream,
    enabled: bool,
    source: Result<(), String>,
    wired: bool,
    before: Chains,
    after: Chains,
) -> bool {
    ||| {
        &&& miss_of(table, service, enabled, stream.witness) is None
            && table[service].target is RawStream ==> may_give(opens)
        &&& settled(answer, table, service, stream, enabled, true, source, wired, before, after)
    }
    ||| {
        &&& table[service].target is RawStream
        &&& may_refuse(opens)
        &&& settled(answer, table, service, stream, enabled, false, source, wired, before, after)
    }
}

/// Answer an admitted stream under the node's cap on raw-stream opens.
pub fn dispatch(
    serving: &Serving,
    service: ServiceName,
    stream: AdmittedStream,
    enabled: bool,
    source: Result<(), String>,
    wired: bool,
    chains: &mut AdmittedChains,
) -> (answer: Answer)
    ensures
        dispatched(
            answer,
            serving.table(),
            serving.open_permits(),
            service@,
            stream,
            enabled,
            source,
            wired,
            old(chains)@,
            final(chains)@,
        ),
        answer !is Serve ==> final(chains)@ == old(chains)@,
{
    let permit: Option<OwnedSemaphorePermit> = match reach(
        serving.services(),
        service.as_str(),
        enabled,
        &stream.witness,
    ) {
        Reach::RawStream(_) => serving.take_open_permit(),
        _ => None,
    };
    settle(serving.services(), service, stream, enabled, permit, source, wired, chains)
}

/// Whether a stream is answered as its facts say, from its first byte to its answer.
pub open spec fn answered_as_facts_say(
    answer: Answer,
    serving: Serving,
    peer: SessionPeer,
    facts: StreamFacts,
    wired: bool,
    session_before: PublicSession,
    session_after: PublicSession,
    chains_before: Chains,
    chains_after: Chains,
) -> bool {
    match facts.opening {
        Opening::TimedOut => {
            &&& answer is Silent
            &&& session_after == session_before && chains_after == chains_before
        },
        Opening::Unreadable { refusal } => {
            &&& match refusal {
                Some(said) => answer == Answer::Refused(said),
                None => answer is Failed,
            }
            &&& session_after == session_before && chains_after == chains_before
        },
        Opening::Request { service, named } => {
            if !named {
                &&& refuses(
                    answer,
                    RefusalView::BadRequest {
                        detail: "invalid service name "@ + quoted(service@),
                    },
                )
                &&& session_after == session_before && chains_after == chains_before
            } else {
                let name = resolved(serving.table(), service@);
                exists|admitted: Result<AdmittedStream, HostRefusal>|
                    {
                        &&& #[trigger] ruled_as_facts_say(
                            admitted,
                            serving,
                            name,
                            peer,
                            facts.admission,
                            session_before,
                            session_after,
                        )
                        &&& match admitted {
                            Err(refusal) => {
                                &&& refuses(answer, wire_answer(refusal))
                                &&& chains_after == chains_before
                            },
                            Ok(stream) => dispatched(
                                answer,
                                serving.table(),
                                serving.open_permits(),
                                name,
                                stream,
                                facts.enabled,
                                facts.source,
                                wired,
                                chains_before,
                                chains_after,
                            ),
                        }
                    }
            }
        },
    }
}

/// Serve one inbound stream whose facts are all at hand: read, resolve, rule, find the route, keep,
/// answer.
pub fn serve_request(
    serving: &Serving,
    session: &mut PublicSession,
    chains: &mut AdmittedChains,
    wired: bool,
    peer: SessionPeer,
    facts: StreamFacts,
) -> (answer: Answer)
    ensures
        answered_as_facts_say(
            answer,
            *serving,
            peer,
            facts,
            wired,
            *old(session),
            *final(session),
            old(chains)@,
            final(chains)@,
        ),
        answer !is Serve ==> final(chains)@ == old(chains)@,
{
    let StreamFacts { opening, admission, enabled, source } = facts;
    match open(opening) {
        Opened::Silent => Answer::Silent,
        Opened::Fail => Answer::Failed,
        Opened::Answer(refusal) => Answer::Refused(refusal),
        Opened::Rule(requested) => {
            let service = resolve_single_service(requested, serving.services());
            match rule_stream(serving, session, peer, admission, service.as_str()) {
                Err(refusal) => Answer::Refused(wire_refusal(&refusal)),
                Ok(stream) => dispatch(
                    serving,
                    service,
                    stream,
                    enabled,
                    source,
                    wired,
                    chains,
                ),
            }
        },
    }
}

/// Whether an answer is the one of a gate that decided nothing: the stream faced the base gate, and
/// the ruling ran out of time.
pub open spec fn undecided(
    answer: Answer,
    serving: Serving,
    peer: SessionPeer,
    facts: StreamFacts,
) -> bool {
    &&& facts.opening matches Opening::Request { service, .. } && serving.path(
        resolved(serving.table(), service@),
    ) == Path::Gated
    &&& serving.base().rules_on_tokens()
    &&& peer.claim.proves()
    &&& facts.admission.ruling == Err::<Admission, _>(GateRefusal::Undecided)
    &&& refuses(answer, wire_answer(HostRefusal::Gate(GateRefusal::Undecided)))
}

/// Whether an answer is that of a raw source that could not be opened: the service is enabled and
/// served, its target is a raw source, and either the node had no open to spare or the open failed.
pub open spec fn open_failed(answer: Answer, serving: Serving, facts: StreamFacts) -> bool {
    &&& facts.enabled
    &&& facts.opening matches Opening::Request { service, .. } && {
        let name = resolved(serving.table(), service@);
        serving.table().contains_key(name) && serving.table()[name].target is RawStream
    }
    &&& {
        ||| {
            &&& may_refuse(serving.open_permits())
            &&& refuses(answer, RefusalView::Unavailable { detail: too_many_opens() })
        }
        ||| {
            &&& may_give(serving.open_permits())
            &&& facts.source matches Err(detail) && refuses(
                answer,
                RefusalView::Unavailable { detail: detail@ },
            )
        }
    }
}

/// A refused dialer learns one thing only. Whoever asks a readable request for a well-formed name,
/// and is refused, is told exactly "not admitted": a stranger, a revoked holder, a wrong service, an
/// absent one, a disabled one, a member-only one and a full pool all read alike. There are two
/// exceptions, and neither rules on the dialer's authority: a gate that decided nothing at all, and
/// an admitted stream to a raw source that could not be opened.
pub proof fn a_refused_dialer_is_told_one_thing(
    answer: Answer,
    serving: Serving,
    peer: SessionPeer,
    facts: StreamFacts,
    wired: bool,
    session_before: PublicSession,
    session_after: PublicSession,
    chains_before: Chains,
    chains_after: Chains,
)
    requires
        answered_as_facts_say(
            answer,
            serving,
            peer,
            facts,
            wired,
            session_before,
            session_after,
            chains_before,
            chains_after,
        ),
        facts.opening matches Opening::Request { named, .. } && named,
        answer is Refused,
    ensures
        refuses(answer, RefusalView::NotAdmitted) || undecided(answer, serving, peer, facts)
            || open_failed(answer, serving, facts),
{
}

/// Whatever is served may be: an enabled, served name; a member-only route only for a member; a
/// handler only with a witness its marker accepts; a raw source only where it was opened under a
/// permit of the node's cap; and a proven-only route only for a key the transport proved, the route
/// knows and nobody revoked.
pub proof fn what_is_served_may_be_served(
    answer: Answer,
    serving: Serving,
    peer: SessionPeer,
    facts: StreamFacts,
    wired: bool,
    session_before: PublicSession,
    session_after: PublicSession,
    chains_before: Chains,
    chains_after: Chains,
)
    requires
        answered_as_facts_say(
            answer,
            serving,
            peer,
            facts,
            wired,
            session_before,
            session_after,
            chains_before,
            chains_after,
        ),
        answer is Serve,
    ensures
        facts.enabled,
        serving.table().contains_key(answer->service@),
        answer->stream.witness.peer_key() == peer.key,
        serving.table()[answer->service@].access == Access::Member
            ==> answer->stream.witness.authority() == Admission::Member
            && answer->stream.witness.source() == Origin::Rooted,
        serving.table()[answer->service@].target matches Target::Handler(bound, _)
            ==> bound.ceiling.accepts_origin(answer->stream.witness.source()),
        serving.table()[answer->service@].target is RawStream ==> facts.source is Ok && may_give(
            serving.open_permits(),
        ),
        serving.path(answer->service@) == Path::Proven ==> peer.claim.proves()
            && facts.admission.vouch.known && !facts.admission.vouch.revoked,
{
}

/// An admitted stream reaches its route exactly where the route lets it: the name is enabled and
/// served, a member floor is met by a member, and a handler accepts where the witness came from. A
/// raw source asks nothing more, of a member or of anyone. And what is reached is what is bound.
pub proof fn an_admitted_stream_reaches_its_route<'a>(
    services: &'a Services,
    service: &str,
    enabled: bool,
    witness: &Admitted,
    reached: Reach<'a>,
)
    requires
        call_ensures(reach, (services, service, enabled, witness), reached),
    ensures
        reached !is Missed <==> {
            &&& enabled
            &&& services@.contains_key(service@)
            &&& services@[service@].access == Access::Member ==> witness.authority()
                == Admission::Member
            &&& services@[service@].target matches Target::Handler(bound, _) ==> match witness.source() {
                Origin::Rooted => bound.ceiling.accepts_rooted,
                Origin::Open => bound.ceiling.accepts_open,
                Origin::Proven => bound.ceiling.accepts_proven,
            }
        },
        reached matches Reach::Handler(bound, serves) ==> services@[service@].target
            == Target::Handler(bound, serves@),
        reached matches Reach::RawStream(stream) ==> services@[service@].target
            == Target::RawStream(stream@),
        reached matches Reach::Missed(miss) ==> match miss {
            Miss::Disabled => !enabled,
            Miss::Unknown => !services@.contains_key(service@),
            Miss::MemberOnly => services@[service@].access == Access::Member && witness.authority()
                != Admission::Member,
            Miss::NotAccepted => services@[service@].target is Handler,
        },
{
}

/// Whether a stream's chains can be kept: every expiry can be read, and its ids fit beside those the
/// session keeps. A proven stream has none to keep.
pub open spec fn can_be_kept(before: Chains, stream: AdmittedStream) -> bool {
    stream.witness.source() == Origin::Proven || {
        &&& forall|i: int|
            0 <= i < stream.ruled@.len() ==> (#[trigger] stream.ruled@[i]).expiry
                != Expiry::Unreadable
        &&& before.ids.union(ids_of(stream.ruled@)).len() <= 1024
    }
}

/// An admitted stream that may reach its route is served. A disabled or absent name, a floor that is
/// not met and a handler that does not accept are what keeps a stream from its route; a raw source
/// must also open, under a permit; and where a cut is wired, the stream's chains must be kept.
/// Nothing else refuses it, and no stream is served without them.
pub proof fn an_admitted_stream_is_served(
    services: &Services,
    service: ServiceName,
    stream: AdmittedStream,
    enabled: bool,
    permit: Option<OwnedSemaphorePermit>,
    source: Result<(), String>,
    wired: bool,
    chains: &mut AdmittedChains,
    answer: Answer,
)
    requires
        call_ensures(
            settle,
            (services, service, stream, enabled, permit, source, wired, chains),
            answer,
        ),
    ensures
        answer is Serve <==> {
            &&& enabled
            &&& services@.contains_key(service@)
            &&& services@[service@].access == Access::Member ==> stream.witness.authority()
                == Admission::Member
            &&& match services@[service@].target {
                Target::Handler(bound, _) => match stream.witness.source() {
                    Origin::Rooted => bound.ceiling.accepts_rooted,
                    Origin::Open => bound.ceiling.accepts_open,
                    Origin::Proven => bound.ceiling.accepts_proven,
                },
                Target::RawStream(_) => permit is Some && source is Ok,
            }
            &&& wired ==> can_be_kept(old(chains)@, stream)
        },
        answer matches Answer::Serve { service: name, stream: given } ==> name@ == service@
            && given == stream,
        answer is Serve || answer is Refused,
{
    lemma_kept(old(chains)@, stream, final(chains)@);
}

proof fn lemma_kept(before: Chains, stream: AdmittedStream, after: Chains)
    ensures
        kept_as_recorded(Ok(()), before, stream, after) ==> can_be_kept(before, stream),
        (exists|why: Unrecorded| #[trigger] kept_as_recorded(Err(why), before, stream, after))
            ==> !can_be_kept(before, stream),
{
    let reads = expiries(stream.ruled@);
    if stream.witness.source() != Origin::Proven {
        if kept_as_recorded(Ok(()), before, stream, after) {
            let until = choose|until: Option<i128>| #[trigger] is_earliest(reads, until);
            assert forall|i: int| 0 <= i < stream.ruled@.len() implies (
            #[trigger] stream.ruled@[i]).expiry != Expiry::Unreadable by {
                assert(reads[i] !is Unreadable);
            }
        }
        if kept_as_recorded(Err(Unrecorded::UnreadableExpiry), before, stream, after) {
            let i = choose|i: int| 0 <= i < reads.len() && reads[i] == Expiry::Unreadable;
            assert(stream.ruled@[i].expiry == Expiry::Unreadable);
        }
    }
}

/// What a served stream leaves in the record of a wired session: all it was ruled on, or, of a proven
/// stream, its key alone. A refused stream leaves nothing, and neither does any stream where no cut
/// is wired.
pub proof fn a_served_stream_is_recorded(
    services: &Services,
    service: ServiceName,
    stream: AdmittedStream,
    enabled: bool,
    permit: Option<OwnedSemaphorePermit>,
    source: Result<(), String>,
    wired: bool,
    chains: &mut AdmittedChains,
    answer: Answer,
    now: i128,
)
    requires
        call_ensures(
            settle,
            (services, service, stream, enabled, permit, source, wired, chains),
            answer,
        ),
    ensures
        answer !is Serve || !wired ==> final(chains)@ == old(chains)@,
        answer is Serve && wired && stream.witness.source() == Origin::Proven ==> {
            &&& final(chains)@.peer == Some(stream.witness.peer_key())
            &&& final(chains)@.ids == old(chains)@.ids
            &&& final(chains)@.roots == old(chains)@.roots
            &&& final(chains)@.anchors == old(chains)@.anchors
            &&& final(chains)@.lease == old(chains)@.lease
        },
        answer is Serve && wired && stream.witness.source() != Origin::Proven
            && stream.ruled@.len() > 0 ==> {
            &&& final(chains)@.peer == Some(stream.witness.peer_key())
            &&& forall|i: int|
                0 <= i < stream.ruled@.len() ==> final(chains)@.roots.contains(
                    (#[trigger] stream.ruled@[i]).root@,
                )
            &&& forall|i: int, j: int|
                0 <= i < stream.ruled@.len() && 0 <= j < stream.ruled@[i].ids@.len()
                    ==> final(chains)@.ids.contains(#[trigger] stream.ruled@[i].ids@[j]@)
            &&& final(chains)@.anchors.contains(stream.ruled@[0].root@)
            &&& old(chains)@.ids.subset_of(final(chains)@.ids)
            &&& final(chains)@.lease.over(now) <==> old(chains)@.lease.over(now) || exists|i: int|
                0 <= i < stream.ruled@.len() && ((#[trigger] stream.ruled@[i]).expiry matches
                    Expiry::At(instant) && now > instant)
        },
{
    if answer is Serve && wired && stream.witness.source() != Origin::Proven
        && stream.ruled@.len() > 0 {
        let until = choose|until: Option<i128>|
            {
                &&& #[trigger] is_earliest(expiries(stream.ruled@), until)
                &&& final(chains)@ == recorded(
                    old(chains)@,
                    stream.witness.peer_key(),
                    stream.ruled@,
                    until,
                )
            };
        lemma_earliest_passed(stream.ruled@, until, now);
        assert forall|i: int| 0 <= i < stream.ruled@.len() implies final(chains)@.roots.contains(
            (#[trigger] stream.ruled@[i]).root@,
        ) by {
            lemma_roots_of(stream.ruled@, stream.ruled@[i].root@);
        }
        let after = final(chains)@;
        assert forall|i: int, j: int|
            0 <= i < stream.ruled@.len() && 0 <= j < stream.ruled@[i].ids@.len() implies after.ids.contains(
            #[trigger] stream.ruled@[i].ids@[j]@,
        ) by {
            lemma_ids_of(stream.ruled@, stream.ruled@[i].ids@[j]@);
        }
    }
}

/// A request names its service; only a node that serves a single service answers, under that one, a
/// request for a name it does not serve.
pub proof fn a_request_is_for_the_service_it_names(
    requested: ServiceName,
    services: &Services,
    service: ServiceName,
    names: Vec<String>,
)
    requires
        call_ensures(resolve_single_service, (requested, services), service),
        call_ensures(Services::names, (services,), names),
    ensures
        services@.contains_key(requested@) ==> service@ == requested@,
        names@.len() != 1 ==> service@ == requested@,
        names@.len() == 1 ==> service@ == names@[0]@,
        names@.len() == 1 ==> services@.contains_key(service@),
{
    let all = texts(names@);
    if names@.len() == 1 {
        assert(all[0] == names@[0]@);
        assert(all.contains(all[0]));
        if services@.contains_key(requested@) {
            assert(all.contains(requested@));
            let i = choose|i: int| 0 <= i < all.len() && all[i] == requested@;
        }
    }
}

/// A request that can be read for a name that is one goes on to be ruled on, for that name; nothing
/// else does. What cannot be read is answered only where there is something to say, and silence gets
/// silence.
pub proof fn only_a_well_named_request_is_ruled_on(opening: Opening, opened: Opened)
    requires
        call_ensures(open, (opening,), opened),
    ensures
        opened is Rule <==> (opening matches Opening::Request { named, .. } && named),
        opened matches Opened::Rule(name) ==> (opening matches Opening::Request { service, .. }
            && name@ == service@),
        opening is TimedOut <==> opened is Silent,
        opened matches Opened::Answer(refusal) ==> match opening {
            Opening::Request { named, .. } => !named && refusal is BadRequest,
            Opening::Unreadable { refusal: said } => said == Some(refusal),
            Opening::TimedOut => false,
        },
{
}

/// The capabilities a request presents that a ruling could rest on.
pub open spec fn presented_caps(facts: Facts) -> Seq<Cap> {
    match (facts.capability, facts.membership) {
        (Some(Ok(cap)), Some(Ok(badge))) => if cap.authority_bound {
            seq![cap, badge]
        } else {
            seq![cap]
        },
        (Some(Ok(cap)), _) => seq![cap],
        _ => Seq::empty(),
    }
}

/// Whoever qualifies is served, end to end. A request for a served, enabled name is served where the
/// path of the name lets its dialer in, no pool refuses, the route's floor and handler take the
/// witness, a raw source opens, and a wired record takes the chains.
pub proof fn whoever_qualifies_is_served(
    serving: &Serving,
    session: &mut PublicSession,
    chains: &mut AdmittedChains,
    wired: bool,
    peer: SessionPeer,
    facts: StreamFacts,
    answer: Answer,
    name: Seq<char>,
)
    requires
        call_ensures(serve_request, (serving, session, chains, wired, peer, facts), answer),
        facts.opening matches Opening::Request { service, named } && named && service@ == name,
        serving.table().contains_key(name),
        facts.enabled,
        // Nobody is turned away for capacity.
        !may_refuse(*serving.public_permits().streams),
        !may_refuse(*serving.public_permits().sessions),
        !may_refuse(serving.proven_permits()),
        !may_refuse(serving.open_permits()),
        // A raw source opens, and a wired record has room for what is readable.
        serving.table()[name].target is RawStream ==> facts.source is Ok,
        old(chains)@.ids.len() <= 1024,
        wired ==> (forall|i: int|
            0 <= i < presented_caps(facts.admission).len() ==> (#[trigger] presented_caps(
                facts.admission,
            )[i]).expiry != Expiry::Unreadable),
        wired ==> old(chains)@.ids.union(ids_of(presented_caps(facts.admission))).len() <= 1024,
    ensures
        // On an opened name: anyone, where no floor is declared and a handler takes strangers.
        ({
            &&& serving.open_names().contains(name) || serving.unsafe_names().contains(name)
            &&& serving.table()[name].access != Access::Member
            &&& serving.table()[name].target matches Target::Handler(bound, _)
                ==> bound.ceiling.accepts_open
        }) ==> answer is Serve,
        // On a gated name: whom the ruling admits, and a member-only one for a member.
        ({
            &&& !serving.open_names().contains(name) && !serving.unsafe_names().contains(name)
            &&& serving.base() != Gate::Open
            &&& serving.table()[name].access != Access::ProvenOnly
            &&& peer.claim != PeerProof::Announced
            &&& !unreadable_slot(facts.admission)
            &&& facts.admission.ruling is Ok
            &&& serving.table()[name].access == Access::Member ==> facts.admission.ruling == Ok::<
                _,
                GateRefusal,
            >(Admission::Member)
            &&& serving.table()[name].target matches Target::Handler(bound, _)
                ==> bound.ceiling.accepts_rooted
        }) ==> answer is Serve,
        // On a proven-only name: a proven key the route knows and nobody revoked.
        ({
            &&& !serving.open_names().contains(name) && !serving.unsafe_names().contains(name)
            &&& serving.table()[name].access == Access::ProvenOnly
            &&& peer.claim != PeerProof::Announced
            &&& facts.admission.vouch.known && !facts.admission.vouch.revoked
            &&& serving.table()[name].target matches Target::Handler(bound, _)
                ==> bound.ceiling.accepts_proven
        }) ==> answer is Serve,
        answer matches Answer::Serve { service: served, stream } ==> served@ == name
            && stream.witness.peer_key() == peer.key,
{
    lemma_keeping(old(chains)@, final(chains)@);
    assert(old(chains)@.ids.union(ids_of(Seq::empty())) =~= old(chains)@.ids);
}

proof fn lemma_keeping(before: Chains, after: Chains)
    ensures
        forall|stream: AdmittedStream, why: Unrecorded|
            #![trigger kept_as_recorded(Err(why), before, stream, after)]
            kept_as_recorded(Err(why), before, stream, after) ==> !can_be_kept(before, stream),
{
    assert forall|stream: AdmittedStream, why: Unrecorded|
        #![trigger kept_as_recorded(Err(why), before, stream, after)]
        kept_as_recorded(Err(why), before, stream, after) implies !can_be_kept(before, stream) by {
        lemma_kept(before, stream, after);
    }
}

/// Nobody is served who does not qualify, end to end: what is served is an enabled, served name, to a
/// dialer whom the path of the name let in, over the floor of its route, by a handler that takes the
/// witness or from a source that opened under a permit.
pub proof fn whoever_is_served_qualified(
    serving: &Serving,
    session: &mut PublicSession,
    chains: &mut AdmittedChains,
    wired: bool,
    peer: SessionPeer,
    facts: StreamFacts,
    answer: Answer,
)
    requires
        call_ensures(serve_request, (serving, session, chains, wired, peer, facts), answer),
        answer is Serve,
    ensures
        ({
            let name = answer->service@;
            let route = serving.table()[name];
            let stream = answer->stream;
            let opened = serving.open_names().contains(name) || serving.unsafe_names().contains(
                name,
            );
            &&& facts.opening matches Opening::Request { named, .. } && named
            &&& facts.enabled
            &&& serving.table().contains_key(name)
            &&& stream.witness.peer_key() == peer.key
            &&& route.access == Access::Member ==> stream.witness.authority() == Admission::Member
                && !opened && facts.admission.ruling == Ok::<_, GateRefusal>(Admission::Member)
            &&& route.target matches Target::Handler(bound, _) ==> match stream.witness.source() {
                Origin::Rooted => bound.ceiling.accepts_rooted,
                Origin::Open => bound.ceiling.accepts_open,
                Origin::Proven => bound.ceiling.accepts_proven,
            }
            &&& route.target is RawStream ==> facts.source is Ok && may_give(
                serving.open_permits(),
            )
            &&& stream.witness.source() == Origin::Open <==> opened || (route.access
                != Access::ProvenOnly && serving.base() == Gate::Open)
            &&& !opened && route.access == Access::ProvenOnly ==> peer.claim
                != PeerProof::Announced && facts.admission.vouch.known
                && !facts.admission.vouch.revoked && stream.witness.source() == Origin::Proven
            &&& !opened && route.access != Access::ProvenOnly && serving.base() != Gate::Open ==> {
                &&& peer.claim != PeerProof::Announced
                &&& facts.admission.ruling == Ok::<_, GateRefusal>(stream.witness.authority())
                &&& stream.witness.source() == Origin::Rooted
            }
        }),
{
}

/// On an open node anyone is served who asks for an enabled name, where a handler takes strangers and
/// no slot of the request is unreadable.
pub proof fn an_open_node_serves_anyone(
    serving: &Serving,
    session: &mut PublicSession,
    chains: &mut AdmittedChains,
    peer: SessionPeer,
    facts: StreamFacts,
    answer: Answer,
    name: Seq<char>,
)
    requires
        call_ensures(serve_request, (serving, session, chains, false, peer, facts), answer),
        facts.opening matches Opening::Request { service, named } && named && service@ == name,
        serving.base() == Gate::Open,
        !serving.open_names().contains(name) && !serving.unsafe_names().contains(name),
        serving.table().contains_key(name),
        serving.table()[name].access == Access::Family,
        serving.table()[name].target matches Target::Handler(bound, _)
            && bound.ceiling.accepts_open,
        facts.enabled,
        !unreadable_slot(facts.admission),
    ensures
        answer is Serve,
{
}

/// Only a proven stream has a deadline, and it is half a minute.
pub proof fn only_a_proven_stream_has_a_deadline(origin: Origin, millis: Option<u64>)
    requires
        call_ensures(stream_deadline, (origin,), millis),
    ensures
        millis is Some <==> origin == Origin::Proven,
        millis matches Some(limit) ==> limit == 30_000,
{
}

/// A raw source is opened under the node's cap: where a stream reaches one it goes on only with a
/// permit the pool may give, and it is told to try again only where the pool may refuse; no other
/// stream is ever told so.
pub proof fn a_raw_open_is_made_under_the_cap(
    serving: &Serving,
    service: ServiceName,
    stream: AdmittedStream,
    enabled: bool,
    source: Result<(), String>,
    wired: bool,
    chains: &mut AdmittedChains,
    answer: Answer,
)
    requires
        call_ensures(dispatch, (serving, service, stream, enabled, source, wired, chains), answer),
    ensures
        answer is Serve && serving.table()[service@].target is RawStream ==> source is Ok
            && may_give(serving.open_permits()),
        answer matches Answer::Refused(said) && said is Unavailable && source is Ok ==> may_refuse(
            serving.open_permits(),
        ) && serving.table()[service@].target is RawStream,
        serving.table()[service@].target is Handler ==> (answer is Serve || (answer matches
            Answer::Refused(said) && said is NotAdmitted)),
        answer !is Serve ==> final(chains)@ == old(chains)@,
{
}

/// What a refused stream is told. Every stream that does not reach its route is told the same; only a
/// raw source that is reached tells more, that there are too many opens or what went wrong with this
/// one.
pub proof fn what_a_refused_stream_is_told<'a>(
    services: &'a Services,
    service: ServiceName,
    stream: AdmittedStream,
    enabled: bool,
    permit: Option<OwnedSemaphorePermit>,
    source: Result<(), String>,
    wired: bool,
    chains: &mut AdmittedChains,
    answer: Answer,
    name: &str,
    reached: Reach<'a>,
    full: Refusal,
)
    requires
        call_ensures(
            settle,
            (services, service, stream, enabled, permit, source, wired, chains),
            answer,
        ),
        name@ == service@,
        call_ensures(reach, (services, name, enabled, &stream.witness), reached),
        call_ensures(open_cap_refusal, (), full),
    ensures
        reached is Missed ==> (answer matches Answer::Refused(said) && said is NotAdmitted),
        reached is Handler ==> answer is Serve || (answer matches Answer::Refused(said)
            && said is NotAdmitted),
        reached is RawStream && permit is None ==> (answer matches Answer::Refused(said) && said@
            == full@),
        reached is RawStream && permit is Some && source is Err ==> (answer matches Answer::Refused(
            said,
        ) && said@ == (RefusalView::Unavailable { detail: source->Err_0@ })),
        full is Unavailable,
{
}

/// A request for a name that is none is answered with the name as it was shown.
pub proof fn an_invalid_name_is_shown_back(shown: &str, refusal: Refusal)
    requires
        call_ensures(invalid_name, (shown,), refusal),
    ensures
        refusal matches Refusal::BadRequest { detail } && exists|before: Seq<char>| detail@
            == #[trigger] (before + shown@),
{
    assert(refusal->BadRequest_detail@ == "invalid service name "@ + shown@);
}

} // verus!
