//! The connector: reaching a service another node exposes, and the admitted stream that comes back.

use vstd::prelude::*;

use crate::gate::PeerProof;
use crate::protocol::{Request, RequestView, Response, TransportInsecure};
use crate::services::ServiceName;
use crate::witness::{NodeId, Refusal};

verus! {

/// A capability link: the node it leads to, and the token as text.
#[derive(Debug, Clone, PartialEq, Eq)]
pub struct Link {
    /// The node the link's root names.
    pub root: NodeId,
    /// The link as it is written.
    pub text: String,
}

/// A dial that reached the peer and was refused.
#[derive(Debug, PartialEq, Eq)]
pub struct DialRefused {
    /// The peer that refused the dial.
    pub dial: NodeId,
    /// The peer's classification.
    pub refusal: Refusal,
}

impl DialRefused {
    /// The one line that is the whole story, with the peer as `shown` writes it.
    pub open spec fn text(self, shown: Seq<char>) -> Seq<char> {
        "reached "@ + shown + ", but refused: "@ + self.refusal.text()
    }

    /// The one line that is the whole story. How a node is written is its overlay's to say, so the
    /// caller hands in the peer as it is shown.
    pub fn message(&self, shown: &str) -> (message: String)
        ensures
            message@ == self.text(shown@),
    {
        String::from_str("reached ").concat(shown).concat(", but refused: ").concat(
            self.refusal.message().as_str(),
        )
    }
}

/// A resolved connect: the node to dial, the service to ask for, and any token to present.
#[derive(Debug, PartialEq, Eq)]
pub struct Connector {
    dial: NodeId,
    service: ServiceName,
    capability: Option<Link>,
    membership: Option<Link>,
}

/// An optional link by its text.
pub open spec fn link_text(link: Option<Link>) -> Option<Seq<char>> {
    match link {
        Some(link) => Some(link.text@),
        None => None,
    }
}

impl Connector {
    /// The node it dials.
    pub closed spec fn target(self) -> NodeId {
        self.dial
    }

    /// The service it asks for.
    pub closed spec fn asks_for(self) -> Seq<char> {
        self.service@
    }

    /// What it presents in the first slot.
    pub closed spec fn first(self) -> Option<Seq<char>> {
        link_text(self.capability)
    }

    /// What it presents in the second slot.
    pub closed spec fn second(self) -> Option<Seq<char>> {
        link_text(self.membership)
    }

    /// Connect to a raw node id, presenting a token if one is given.
    pub fn to_node(dial: NodeId, service: ServiceName, present: Option<Link>) -> (connector:
        Connector)
        ensures
            connector.target() == dial,
            connector.asks_for() == service@,
            connector.first() == link_text(present),
            connector.second() is None,
    {
        Connector { dial, service, capability: present, membership: None }
    }

    /// Connect via a capability link, which supplies the node to dial and carries the token.
    pub fn from_link(link: &Link, service: ServiceName) -> (connector: Connector)
        ensures
            connector.target() == link.root,
            connector.asks_for() == service@,
            connector.first() == Some(link.text@),
            connector.second() is None,
    {
        Connector {
            dial: link.root,
            service,
            capability: Some(Link { root: link.root, text: link.text.clone() }),
            membership: None,
        }
    }

    /// Also present `badge` in the second slot: a badge under the authority the capability names.
    #[must_use]
    pub fn with_membership(self, badge: Link) -> (connector: Connector)
        ensures
            connector.target() == self.target(),
            connector.asks_for() == self.asks_for(),
            connector.first() == self.first(),
            connector.second() == Some(badge.text@),
    {
        Connector {
            dial: self.dial,
            service: self.service,
            capability: self.capability,
            membership: Some(badge),
        }
    }

    /// The node this connector dials.
    pub fn dial(&self) -> (dial: NodeId)
        ensures
            dial == self.target(),
    {
        self.dial
    }

    /// The service this connector requests.
    pub fn service(&self) -> (service: &ServiceName)
        ensures
            service@ == self.asks_for(),
    {
        &self.service
    }

    /// The opening request this connector sends on each stream: the one place its slots become the
    /// wire's raw text.
    pub fn request(&self) -> (request: Request)
        ensures
            request@ == (RequestView {
                service: self.asks_for(),
                capability: self.first(),
                membership: self.second(),
            }),
            request.presents() == (self.first() is Some || self.second() is Some),
    {
        let capability: Option<String> = match &self.capability {
            Some(link) => Some(link.text.clone()),
            None => None,
        };
        let membership: Option<String> = match &self.membership {
            Some(link) => Some(link.text.clone()),
            None => None,
        };
        Request { service: self.service.text.clone(), capability, membership }
    }

    /// What a preflight probe's answer means: readiness is announced only once the node's gate
    /// admitted it.
    pub fn preflighted(&self, response: Response) -> (admitted: Result<(), DialRefused>)
        ensures
            match response {
                Response::Accepted => admitted is Ok,
                Response::Refused(refusal) => admitted == Err::<(), _>(
                    DialRefused { dial: self.target(), refusal },
                ),
            },
    {
        match response {
            Response::Accepted => Ok(()),
            Response::Refused(refusal) => Err(DialRefused { dial: self.dial, refusal }),
        }
    }

    /// The view a reached session serves its streams through.
    pub fn open_service<S>(&self, session: S) -> (service: ServiceSession<S>)
        ensures
            service.inner() == session,
            service.asks()@ == (RequestView {
                service: self.asks_for(),
                capability: self.first(),
                membership: self.second(),
            }),
    {
        ServiceSession { session, request: self.request() }
    }
}

/// A dial that always presents a credential: its slots are fixed at construction, so the type
/// cannot exist without one.
#[derive(Debug, PartialEq, Eq)]
pub struct PresentingConnector {
    connector: Connector,
}

impl PresentingConnector {
    #[verifier::type_invariant]
    spec fn presents(self) -> bool {
        self.connector.first() is Some
    }

    /// The dial it vouches for.
    pub closed spec fn wrapped(self) -> Connector {
        self.connector
    }

    /// Dial a raw node id, presenting `present`.
    pub fn to_node(dial: NodeId, service: ServiceName, present: Link) -> (connector:
        PresentingConnector)
        ensures
            connector.wrapped().target() == dial,
            connector.wrapped().asks_for() == service@,
            connector.wrapped().first() == Some(present.text@),
            connector.wrapped().second() is None,
    {
        PresentingConnector { connector: Connector::to_node(dial, service, Some(present)) }
    }

    /// Dial the node a link names, presenting the link.
    pub fn from_link(link: &Link, service: ServiceName) -> (connector: PresentingConnector)
        ensures
            connector.wrapped().target() == link.root,
            connector.wrapped().asks_for() == service@,
            connector.wrapped().first() == Some(link.text@),
            connector.wrapped().second() is None,
    {
        PresentingConnector { connector: Connector::from_link(link, service) }
    }

    /// Also present `badge` in the second slot.
    #[must_use]
    pub fn with_membership(self, badge: Link) -> (connector: PresentingConnector)
        ensures
            connector.wrapped().target() == self.wrapped().target(),
            connector.wrapped().asks_for() == self.wrapped().asks_for(),
            connector.wrapped().first() == self.wrapped().first(),
            connector.wrapped().second() == Some(badge.text@),
    {
        proof {
            use_type_invariant(&self);
        }
        PresentingConnector { connector: self.connector.with_membership(badge) }
    }

    /// The node this connector dials.
    pub fn dial(&self) -> (dial: NodeId)
        ensures
            dial == self.wrapped().target(),
    {
        self.connector.dial()
    }

    /// The service this connector requests.
    pub fn service(&self) -> (service: &ServiceName)
        ensures
            service@ == self.wrapped().asks_for(),
    {
        self.connector.service()
    }

    /// The opening request this connector sends on each stream. It always presents a credential, so
    /// no transport that does not prove the peer ever carries it.
    pub fn request(&self) -> (request: Request)
        ensures
            request@ == (RequestView {
                service: self.wrapped().asks_for(),
                capability: self.wrapped().first(),
                membership: self.wrapped().second(),
            }),
            request.presents(),
    {
        proof {
            use_type_invariant(self);
        }
        self.connector.request()
    }

    /// What a preflight probe's answer means.
    pub fn preflighted(&self, response: Response) -> (admitted: Result<(), DialRefused>)
        ensures
            match response {
                Response::Accepted => admitted is Ok,
                Response::Refused(refusal) => admitted == Err::<(), _>(
                    DialRefused { dial: self.wrapped().target(), refusal },
                ),
            },
    {
        self.connector.preflighted(response)
    }

    /// The view a reached session serves its streams through.
    pub fn open_service<S>(&self, session: S) -> (service: ServiceSession<S>)
        ensures
            service.inner() == session,
            service.asks()@ == (RequestView {
                service: self.wrapped().asks_for(),
                capability: self.wrapped().first(),
                membership: self.wrapped().second(),
            }),
    {
        self.connector.open_service(session)
    }
}

/// Why a service-scoped session gave no stream.
#[derive(Debug, PartialEq, Eq)]
pub enum SessionError {
    /// The host refused the stream.
    Refused(Refusal),
    /// The transport does not prove the peer a credential would go to.
    Insecure(TransportInsecure),
    /// A service client never accepts peer-opened streams.
    NoInbound,
}

impl SessionError {
    /// The sentence for a stream a service client was asked to accept.
    pub fn no_inbound_text() -> (text: &'static str)
        ensures
            text@ == "a service-scoped session does not accept inbound streams"@,
    {
        "a service-scoped session does not accept inbound streams"
    }
}

/// A view of a session that gates every stream it opens through one fixed service request.
#[derive(Debug)]
pub struct ServiceSession<S> {
    session: S,
    request: Request,
}

impl<S> ServiceSession<S> {
    /// The session it wraps.
    pub closed spec fn inner(self) -> S {
        self.session
    }

    /// The request it sends on every stream.
    pub closed spec fn asks(self) -> Request {
        self.request
    }

    /// The session it wraps, for what is delegated to it.
    pub fn session(&self) -> (session: &S)
        ensures
            *session == self.inner(),
    {
        &self.session
    }

    /// The request to write on a freshly opened stream, refused before its first byte where it
    /// would hand a credential to a peer the transport does not prove.
    pub fn opening(&self, claim: PeerProof) -> (request: Result<&Request, SessionError>)
        ensures
            match request {
                Ok(request) => {
                    &&& *request == self.asks()
                    &&& self.asks().presents() ==> claim.proves()
                },
                Err(error) => {
                    &&& self.asks().presents()
                    &&& !claim.proves()
                    &&& error == SessionError::Insecure(TransportInsecure { declared: claim })
                },
            },
    {
        match self.request.check(claim) {
            Ok(()) => Ok(&self.request),
            Err(insecure) => Err(SessionError::Insecure(insecure)),
        }
    }

    /// What the host's answer on a stream means: its halves are handed on only where it accepted.
    pub fn answered(&self, response: Response) -> (opened: Result<(), SessionError>)
        ensures
            match response {
                Response::Accepted => opened is Ok,
                Response::Refused(refusal) => opened == Err::<(), _>(
                    SessionError::Refused(refusal),
                ),
            },
    {
        match response {
            Response::Accepted => Ok(()),
            Response::Refused(refusal) => Err(SessionError::Refused(refusal)),
        }
    }

    /// The answer to a peer-opened stream.
    pub fn inbound(&self) -> (accepted: Result<(), SessionError>)
        ensures
            accepted == Err::<(), _>(SessionError::NoInbound),
    {
        Err(SessionError::NoInbound)
    }
}

/// The most local connections a forward holds at once, carried or waiting for a stream.
pub const MAX_PIPES: usize = 256;

/// How long a forward waits after a failed local accept before it tries again, in milliseconds.
pub const ACCEPT_BACKOFF_MILLIS: u64 = 100;

/// A reached, admitted port forward: the request each of its streams opens with, and how many local
/// connections it holds.
#[derive(Debug)]
pub struct PortForward {
    request: Request,
    pipes: usize,
    max_pipes: usize,
}

/// What happened to a forward.
#[derive(Debug, Clone, Copy, PartialEq, Eq, Structural)]
pub enum ForwardEvent {
    /// A local connection was accepted.
    Accepted,
    /// Accepting a local connection failed.
    AcceptFailed,
    /// A held connection ended: it was carried to its end, refused, or got no stream.
    PipeEnded,
}

/// What a forward does about it.
#[derive(Debug, Clone, Copy, PartialEq, Eq, Structural)]
pub enum ForwardAction {
    /// Hold the connection: open it a stream beside the others, never ahead of them.
    Carry,
    /// Leave the listener alone for [`ACCEPT_BACKOFF_MILLIS`], then listen again.
    BackOff,
    /// Nothing; go on.
    Continue,
}

impl PortForward {
    #[verifier::type_invariant]
    spec fn bounded(self) -> bool {
        self.pipes <= self.max_pipes
    }

    /// How many local connections it holds.
    pub closed spec fn held(self) -> nat {
        self.pipes as nat
    }

    /// How many it may hold.
    pub closed spec fn limit(self) -> nat {
        self.max_pipes as nat
    }

    /// The request each of its streams opens with.
    pub closed spec fn asks(self) -> Request {
        self.request
    }

    /// A forward that holds at most `max_pipes` connections, and none yet.
    pub fn new(request: Request, max_pipes: usize) -> (forward: PortForward)
        ensures
            forward.held() == 0,
            forward.limit() == max_pipes,
            forward.asks() == request,
    {
        PortForward { request, pipes: 0, max_pipes }
    }

    /// The request each stream opens with.
    pub fn request(&self) -> (request: &Request)
        ensures
            *request == self.asks(),
    {
        &self.request
    }

    /// Whether to accept another local connection: at the limit, further ones wait in the backlog.
    pub fn may_accept(&self) -> (may: bool)
        ensures
            may == (self.held() < self.limit()),
    {
        self.pipes < self.max_pipes
    }

    /// Whether an event can happen.
    pub open spec fn can(self, event: ForwardEvent) -> bool {
        match event {
            ForwardEvent::Accepted | ForwardEvent::AcceptFailed => self.held() < self.limit(),
            ForwardEvent::PipeEnded => self.held() > 0,
        }
    }

    /// Take one event. A failed accept drops none of the connections already held.
    pub fn step(self, event: ForwardEvent) -> (next: (PortForward, ForwardAction))
        requires
            self.can(event),
        ensures
            match event {
                ForwardEvent::Accepted => {
                    &&& next.1 == ForwardAction::Carry
                    &&& next.0.held() == self.held() + 1
                },
                ForwardEvent::AcceptFailed => {
                    &&& next.1 == ForwardAction::BackOff
                    &&& next.0.held() == self.held()
                },
                ForwardEvent::PipeEnded => {
                    &&& next.1 == ForwardAction::Continue
                    &&& next.0.held() == self.held() - 1
                },
            },
            next.0.limit() == self.limit(),
            next.0.asks() == self.asks(),
            next.0.held() <= next.0.limit(),
    {
        proof {
            use_type_invariant(&self);
        }
        let PortForward { request, pipes, max_pipes } = self;
        match event {
            ForwardEvent::Accepted => (
                PortForward { request, pipes: pipes + 1, max_pipes },
                ForwardAction::Carry,
            ),
            ForwardEvent::AcceptFailed => (
                PortForward { request, pipes, max_pipes },
                ForwardAction::BackOff,
            ),
            ForwardEvent::PipeEnded => (
                PortForward { request, pipes: pipes - 1, max_pipes },
                ForwardAction::Continue,
            ),
        }
    }
}

/// A dial asks for the service it was made for, on the node it was made for, with the token it was
/// given and no other.
pub proof fn a_dial_asks_what_it_was_made_for(
    dial: NodeId,
    service: ServiceName,
    present: Option<Link>,
    connector: Connector,
    request: Request,
    dialled: NodeId,
)
    requires
        call_ensures(Connector::to_node, (dial, service, present), connector),
        call_ensures(Connector::request, (&connector,), request),
        call_ensures(Connector::dial, (&connector,), dialled),
    ensures
        dialled == dial,
        request.service@ == service@,
        present matches Some(link) ==> (request.capability matches Some(text) && text@
            == link.text@),
        present is None ==> request.capability is None,
        request.membership is None,
{
}

/// A link is dialled at the node it names, and presented there.
pub proof fn a_link_is_dialled_where_it_leads(
    link: &Link,
    service: ServiceName,
    connector: Connector,
    presenting: PresentingConnector,
    request: Request,
    presented: Request,
    dialled: NodeId,
)
    requires
        call_ensures(Connector::from_link, (link, service), connector),
        call_ensures(PresentingConnector::from_link, (link, service), presenting),
        call_ensures(Connector::request, (&connector,), request),
        call_ensures(PresentingConnector::request, (&presenting,), presented),
        call_ensures(Connector::dial, (&connector,), dialled),
    ensures
        dialled == link.root,
        request@.service == service@,
        request@.capability == Some(link.text@),
        request@.membership is None,
        presented@ == request@,
{
}

/// A badge goes into the second slot, and moves nothing else.
pub proof fn a_badge_goes_into_the_second_slot(
    connector: Connector,
    badge: Link,
    with: Connector,
    before: Request,
    after: Request,
)
    requires
        call_ensures(Connector::with_membership, (connector, badge), with),
        call_ensures(Connector::request, (&connector,), before),
        call_ensures(Connector::request, (&with,), after),
    ensures
        after@.membership == Some(badge.text@),
        after@.capability == before@.capability,
        after@.service == before@.service,
        with.target() == connector.target(),
{
}

/// A dial is ready exactly where the host accepted its probe; refused, it says who refused it and
/// with what.
pub proof fn a_dial_is_ready_where_it_was_accepted(
    connector: &Connector,
    response: Response,
    admitted: Result<(), DialRefused>,
)
    requires
        call_ensures(Connector::preflighted, (connector, response), admitted),
    ensures
        admitted is Ok <==> response is Accepted,
        admitted matches Err(refused) ==> refused.dial == connector.target() && response
            == Response::Refused(refused.refusal),
{
}

/// Every stream of a service session opens with the one request it was made with, and only where the
/// transport may carry that request. It is opened where the host accepts it, and the session takes no
/// stream from its peer.
pub proof fn a_service_session_rides_one_request<S>(
    connector: &Connector,
    session: S,
    service: ServiceSession<S>,
    claim: PeerProof,
    opening: Result<&Request, SessionError>,
    response: Response,
    opened: Result<(), SessionError>,
    inbound: Result<(), SessionError>,
    request: Request,
)
    requires
        call_ensures(Connector::open_service::<S>, (connector, session), service),
        call_ensures(Connector::request, (connector,), request),
        call_ensures(ServiceSession::<S>::opening, (&service, claim), opening),
        call_ensures(ServiceSession::<S>::answered, (&service, response), opened),
        call_ensures(ServiceSession::<S>::inbound, (&service,), inbound),
    ensures
        service.inner() == session,
        opening matches Ok(written) ==> written@ == request@,
        opening is Err ==> claim == PeerProof::Announced,
        claim == PeerProof::Announced && opening is Ok ==> request@.capability is None
            && request@.membership is None,
        opened is Ok <==> response is Accepted,
        inbound is Err,
{
}

/// A forward holds what it accepted until it ends. At its limit it accepts no more; a connection that
/// ends makes room for one; a failed accept drops none of those it holds.
pub proof fn a_forward_holds_what_it_accepted(
    request: Request,
    max_pipes: usize,
    fresh: PortForward,
    forward: PortForward,
    may: bool,
    event: ForwardEvent,
    step: (PortForward, ForwardAction),
)
    requires
        call_ensures(PortForward::new, (request, max_pipes), fresh),
        call_ensures(PortForward::may_accept, (&forward,), may),
        forward.can(event),
        call_ensures(PortForward::step, (forward, event), step),
    ensures
        fresh.held() == 0 && fresh.limit() == max_pipes && fresh.asks() == request,
        may <==> forward.held() < forward.limit(),
        event == ForwardEvent::Accepted ==> step.1 == ForwardAction::Carry && step.0.held()
            == forward.held() + 1,
        event == ForwardEvent::AcceptFailed ==> step.1 == ForwardAction::BackOff && step.0.held()
            == forward.held(),
        event == ForwardEvent::PipeEnded ==> step.1 == ForwardAction::Continue && step.0.held() + 1
            == forward.held(),
        step.0.limit() == forward.limit(),
        step.0.asks() == forward.asks(),
{
}

/// A presenting dial always presents: whatever it is made from, its request holds the credential it
/// was made with, and a badge changes only the second slot.
pub proof fn a_presenting_dial_always_presents(
    dial: NodeId,
    service: ServiceName,
    present: Link,
    connector: PresentingConnector,
    request: Request,
    dialled: NodeId,
    badge: Link,
    with: PresentingConnector,
    badged: Request,
)
    requires
        call_ensures(PresentingConnector::to_node, (dial, service, present), connector),
        call_ensures(PresentingConnector::request, (&connector,), request),
        call_ensures(PresentingConnector::dial, (&connector,), dialled),
        call_ensures(PresentingConnector::with_membership, (connector, badge), with),
        call_ensures(PresentingConnector::request, (&with,), badged),
    ensures
        dialled == dial,
        request@.service == service@,
        request@.capability == Some(present.text@),
        request@.membership is None,
        badged@.service == service@,
        badged@.capability == Some(present.text@),
        badged@.membership == Some(badge.text@),
{
}

/// A refused dial says who refused it and what for: the peer as it is shown, then the refusal's own
/// sentence.
pub proof fn a_refused_dial_says_who_and_why(
    refused: DialRefused,
    shown: &str,
    message: String,
    why: String,
)
    requires
        call_ensures(DialRefused::message, (&refused, shown), message),
        call_ensures(Refusal::message, (&refused.refusal,), why),
    ensures
        exists|before: Seq<char>, between: Seq<char>| message@ == #[trigger] (before + shown@
            + between + why@),
{
    assert(message@ == "reached "@ + shown@ + ", but refused: "@ + why@);
}

} // verus!
