//! The dialling side: what a connector presents, what it makes of the answer, and how a forward holds its
//! local connections.

use tightbeam::connector::{
    Connector, DialRefused, ForwardAction, ForwardEvent, Link, PortForward, PresentingConnector,
    SessionError, ACCEPT_BACKOFF_MILLIS, MAX_PIPES,
};
use tightbeam::gate::PeerProof;
use tightbeam::protocol::{Request, Response, TransportInsecure};
use tightbeam::services::ServiceName;
use tightbeam::witness::{NodeId, Refusal};

const HOST: NodeId = NodeId { bytes: [4u8; 32] };

/// How many streams the peer grants at once.
const STREAM_LIMIT: usize = 4;

fn web() -> ServiceName {
    ServiceName::new("web".to_owned())
}

fn link(text: &str) -> Link {
    Link { root: HOST, text: text.to_owned() }
}

fn bare() -> Request {
    Connector::to_node(HOST, web(), None).request()
}

#[test]
fn a_gated_dial_over_an_announced_transport_refuses_before_any_write() {
    let connector = Connector::to_node(HOST, web(), Some(link("badge")));
    let insecure = TransportInsecure { declared: PeerProof::Announced };
    assert_eq!(connector.request().check(PeerProof::Announced), Err(insecure));
    assert_eq!(
        connector.open_service(()).opening(PeerProof::Announced),
        Err(SessionError::Insecure(insecure)),
        "refused before the first byte"
    );
    assert!(insecure.message().contains(PeerProof::Announced.label()));
    // A dial that presents nothing needs no proof of the peer.
    assert_eq!(bare().check(PeerProof::Announced), Ok(()));
    // Nor does the second slot travel unproven.
    let second = Connector::to_node(HOST, web(), None).with_membership(link("fleet"));
    assert_eq!(second.request().check(PeerProof::Announced), Err(insecure));
}

#[test]
fn a_sealed_transport_carries_a_gated_dial_unchanged() {
    let connector = Connector::to_node(HOST, web(), Some(link("badge")));
    let request = connector.request();
    assert_eq!(request.service, "web");
    assert_eq!(request.capability.as_deref(), Some("badge"));
    assert_eq!(request.membership, None);
    assert_eq!(request.check(PeerProof::Proven), Ok(()));
    assert_eq!(connector.preflighted(Response::Accepted), Ok(()));
    assert_eq!(connector.dial(), HOST);
    assert_eq!(connector.service().as_str(), "web");
}

#[test]
fn a_presenting_connector_dials_a_gated_service_over_a_proven_profile() {
    let typed = PresentingConnector::to_node(HOST, web(), link("badge"));
    let plain = Connector::to_node(HOST, web(), Some(link("badge")));
    assert_eq!(typed.request(), plain.request());
    assert_eq!(typed.request().check(PeerProof::InProcess), Ok(()));
    let paired = PresentingConnector::from_link(&link("slip"), web()).with_membership(link("fleet"));
    assert_eq!(
        paired.request(),
        Request {
            service: "web".to_owned(),
            capability: Some("slip".to_owned()),
            membership: Some("fleet".to_owned()),
        }
    );
    assert_eq!(paired.dial(), HOST);
    assert_eq!(paired.service().as_str(), "web");
    assert_eq!(paired.preflighted(Response::Accepted), Ok(()));
    assert_eq!(paired.open_service(7u8).session(), &7u8);
}

#[test]
fn a_link_names_the_node_it_dials() {
    let dialled = Connector::from_link(&link("slip"), web());
    assert_eq!(dialled.dial(), HOST);
    assert_eq!(dialled.request().capability.as_deref(), Some("slip"));
}

#[test]
fn a_refused_probe_names_the_node_and_the_refusal() {
    let connector = Connector::to_node(HOST, web(), None);
    assert_eq!(
        connector.preflighted(Response::Refused(Refusal::NotAdmitted)),
        Err(DialRefused { dial: HOST, refusal: Refusal::NotAdmitted })
    );
    let refused = DialRefused {
        dial: HOST,
        refusal: Refusal::Unavailable { detail: "retry".to_owned() },
    };
    assert_eq!(refused.message("node4"), "reached node4, but refused: unavailable: retry");
}

#[test]
fn a_service_session_opens_each_stream_with_its_one_request_and_takes_none() {
    let session = Connector::to_node(HOST, web(), Some(link("badge"))).open_service("inner");
    assert_eq!(session.session(), &"inner");
    let opened = session.opening(PeerProof::Proven).expect("a proven transport carries it");
    assert_eq!(opened.capability.as_deref(), Some("badge"));
    assert_eq!(session.answered(Response::Accepted), Ok(()));
    assert_eq!(
        session.answered(Response::Refused(Refusal::NotAdmitted)),
        Err(SessionError::Refused(Refusal::NotAdmitted))
    );
    assert_eq!(session.inbound(), Err(SessionError::NoInbound));
}

/// Hold as many connections as the forward takes, up to `count`.
fn hold(forward: PortForward, count: usize) -> (PortForward, usize) {
    let mut forward = forward;
    let mut held = 0;
    while held < count && forward.may_accept() {
        let (next, action) = forward.step(ForwardEvent::Accepted);
        assert_eq!(action, ForwardAction::Carry);
        forward = next;
        held += 1;
    }
    (forward, held)
}

#[test]
fn a_local_connection_past_the_stream_limit_does_not_stall_the_forward() {
    // One more connection than the peer grants streams: it is held and waits, beside the others.
    let (forward, held) = hold(PortForward::new(bare(), MAX_PIPES), STREAM_LIMIT + 1);
    assert_eq!(held, STREAM_LIMIT + 1);
    assert!(forward.may_accept(), "a waiting connection stalls nothing");
    let (forward, action) = forward.step(ForwardEvent::PipeEnded);
    assert_eq!(action, ForwardAction::Continue);
    assert!(forward.may_accept());
}

#[test]
fn connections_waiting_for_a_stream_stay_within_the_cap() {
    // Room for two connections to wait for a stream beyond the ones carried.
    const CAP: usize = STREAM_LIMIT + 2;
    const EXTRA: usize = 10;
    let (forward, held) = hold(PortForward::new(bare(), CAP), STREAM_LIMIT + EXTRA);
    assert_eq!(held - STREAM_LIMIT, CAP - STREAM_LIMIT, "more waiting than the cap allows");
    assert!(!forward.may_accept());
    // As streams free, the connections left in the backlog are taken in.
    let (forward, _) = forward.step(ForwardEvent::PipeEnded);
    let (forward, held) = hold(forward, EXTRA);
    assert_eq!(held, 1);
    assert_eq!(forward.request(), &bare());
}

#[test]
fn a_forward_out_of_descriptors_backs_off() {
    let (forward, action) = PortForward::new(bare(), MAX_PIPES).step(ForwardEvent::AcceptFailed);
    assert_eq!(action, ForwardAction::BackOff);
    assert!(forward.may_accept());
    // About ten tries in a second, never a spin.
    assert!(1000 / ACCEPT_BACKOFF_MILLIS > 0 && 1000 / ACCEPT_BACKOFF_MILLIS <= 15);
}
