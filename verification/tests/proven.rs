//! Proven-only routes: a peer whose key the transport proved, and which the route knows, reaches the
//! route with no token; nothing else does, and nothing on it reaches another route. The node's proven
//! pool holds only known keys.

use std::sync::Arc;

use tokio::sync::Semaphore;

use tightbeam::admission::{
    rule_stream, AdmitStep, AdmittedStream, Facts, HostRefusal, Path, Serving, Vouch,
};
use tightbeam::contract::Handler;
use tightbeam::cut::AdmittedChains;
use tightbeam::exposer::Exposer;
use tightbeam::gate::{Gate, GateRefusal, PeerProof, SessionPeer};
use tightbeam::live_cuts::{cuts, Cut, LiveCuts};
use tightbeam::open_policy::{Never, ProvenOnly};
use tightbeam::pool::{PublicPool, PublicSession, PROVEN_STREAM_PERMITS, RAW_STREAM_OPEN_PERMITS};
use tightbeam::router::Router;
use tightbeam::serve::{reach, serve_request, Answer, Miss, Opening, Reach, StreamFacts};
use tightbeam::services::ServiceName;
use tightbeam::witness::{Origin, Refusal, VerifyKey};

/// The proven-only route every test serves.
const PICKUP: &str = "pickup";

/// The key a rooted gate roots at in these tests.
const SIGNET: VerifyKey = VerifyKey { bytes: [41u8; 32] };

struct Hold;
impl Handler for Hold {
    type Exposure = ProvenOnly;
}

struct GatedNoop;
impl Handler for GatedNoop {
    type Exposure = Never;
}

fn svc(name: &str) -> ServiceName {
    ServiceName::new(name.to_owned())
}

/// `pickup` is proven-only, `ping` an echo on a family route and `locked` a member route.
fn router() -> Router {
    Router::new(Gate::Rooted { root: SIGNET })
        .proven_service(svc(PICKUP), &Hold)
        .expect("`pickup` binds")
        .echo(svc("ping"))
        .expect("`ping` binds")
        .member_service(svc("locked"), &GatedNoop)
        .expect("`locked` binds")
}

fn exposer() -> Exposer {
    router().expose(Vec::new()).ok().expect("assembles")
}

fn serving_over(pool: &Arc<Semaphore>) -> Serving {
    Serving::arm_with(
        exposer(),
        PublicPool::new(),
        Arc::clone(pool),
        Arc::new(Semaphore::new(RAW_STREAM_OPEN_PERMITS)),
    )
}

fn peer(seed: u8, claim: PeerProof) -> SessionPeer {
    SessionPeer { key: VerifyKey { bytes: [seed; 32] }, claim }
}

/// A tokenless dial by a key the route knows or not.
fn tokenless(known: bool) -> Facts {
    Facts {
        capability: None,
        membership: None,
        ruling: Err(GateRefusal::Missing),
        vouch: Vouch { revoked: false, known },
    }
}

fn rule(
    serving: &Serving,
    peer: SessionPeer,
    facts: Facts,
    name: &str,
) -> Result<AdmittedStream, HostRefusal> {
    rule_stream(serving, &mut PublicSession::new(), peer, facts, name)
}

fn dial(
    serving: &Serving,
    chains: &mut AdmittedChains,
    peer: SessionPeer,
    admission: Facts,
    name: &str,
) -> Answer {
    let facts = StreamFacts {
        opening: Opening::Request { service: name.to_owned(), named: true },
        admission,
        enabled: true,
        source: Ok(()),
    };
    serve_request(serving, &mut PublicSession::new(), chains, true, peer, facts)
}

fn refusal(answer: Answer) -> Refusal {
    match answer {
        Answer::Refused(refusal) => refusal,
        _ => panic!("the dial must be refused"),
    }
}

#[test]
fn proven_only_route_refuses_an_announced_peer() {
    let serving = Serving::arm(exposer());
    let announced = peer(43, PeerProof::Announced);
    assert_eq!(
        refusal(dial(&serving, &mut AdmittedChains::new(), announced, tokenless(true), PICKUP)),
        Refusal::NotAdmitted,
        "an announced key never reaches a proven-only route"
    );
    // The same ruling, read at the core: the transport's claim is what refused it.
    assert!(matches!(
        rule(&serving, announced, tokenless(true), PICKUP),
        Err(HostRefusal::PeerNotProven { declared: PeerProof::Announced })
    ));
    assert_eq!(serving.path_for(PICKUP), Path::Proven);
}

#[test]
fn a_proven_witness_reaches_no_family_or_member_route() {
    let serving = Serving::arm(exposer());
    let proven = peer(44, PeerProof::Proven);
    let pickup = rule(&serving, proven, tokenless(true), PICKUP)
        .ok()
        .expect("a known proven key reaches the proven-only route");
    assert_eq!(pickup.witness.origin(), Origin::Proven);
    for name in ["ping", "locked"] {
        assert!(
            matches!(
                rule(&serving, proven, tokenless(true), name),
                Err(HostRefusal::Gate(GateRefusal::Missing))
            ),
            "`{name}` takes the family path, where a peer with no token is missing one"
        );
    }
    // And the witness itself opens no other route.
    let services = serving.services();
    assert!(matches!(
        reach(services, "ping", true, &pickup.witness),
        Reach::Missed(Miss::NotAccepted)
    ));
    assert!(matches!(
        reach(services, "locked", true, &pickup.witness),
        Reach::Missed(Miss::MemberOnly)
    ));
    assert!(matches!(reach(services, PICKUP, true, &pickup.witness), Reach::Handler(..)));
}

#[test]
fn proven_only_route_cannot_be_made_public() {
    let public = router().public(vec![svc(PICKUP)]).expose(Vec::new()).err();
    let public = public.expect("a proven-only route named public must be refused").message();
    assert!(
        public.contains("proven-only"),
        "the refusal names the proven-only route: {public}"
    );

    let open = Router::new(Gate::Open)
        .proven_service(svc(PICKUP), &Hold)
        .expect("`pickup` binds")
        .expose(Vec::new())
        .err()
        .expect("a proven-only route under an open base must be refused")
        .message();
    assert!(
        open.contains("proven-only"),
        "the refusal names the proven-only route: {open}"
    );

    let bound = Router::new(Gate::Rooted { root: SIGNET })
        .service(svc(PICKUP), &Hold)
        .err()
        .expect("a proven-only handler must not bind on a family route")
        .message();
    assert!(bound.contains("proven-only"), "the refusal names the handler: {bound}");
}

#[test]
fn a_stranger_flood_does_not_hold_a_proven_permit() {
    let pool = Arc::new(Semaphore::new(PROVEN_STREAM_PERMITS));
    let serving = serving_over(&pool);
    let mut chains = AdmittedChains::new();
    let stranger = peer(47, PeerProof::Proven);
    for _ in 0..PROVEN_STREAM_PERMITS * 2 {
        assert_eq!(
            refusal(dial(&serving, &mut chains, stranger, tokenless(false), PICKUP)),
            Refusal::NotAdmitted,
            "a key the route does not know is refused every time"
        );
    }
    assert_eq!(pool.available_permits(), PROVEN_STREAM_PERMITS);
    let member = peer(48, PeerProof::Proven);
    let mut held = Vec::new();
    for _ in 0..PROVEN_STREAM_PERMITS {
        held.push(rule(&serving, member, tokenless(true), PICKUP).ok().expect("admitted"));
    }
    assert_eq!(held.len(), PROVEN_STREAM_PERMITS, "the whole pool is the known key's");
}

#[test]
fn a_full_proven_pool_answers_like_a_miss() {
    let serving = Serving::arm(exposer());
    let member = peer(48, PeerProof::Proven);
    let mut held = Vec::new();
    for _ in 0..PROVEN_STREAM_PERMITS {
        held.push(rule(&serving, member, tokenless(true), PICKUP).ok().expect("admitted"));
    }
    assert!(matches!(
        rule(&serving, member, tokenless(true), PICKUP),
        Err(HostRefusal::ProvenAtCapacity)
    ));
    let mut chains = AdmittedChains::new();
    let full = refusal(dial(&serving, &mut chains, member, tokenless(true), PICKUP));
    let stranger = peer(47, PeerProof::Proven);
    let miss = refusal(dial(&serving, &mut chains, stranger, tokenless(false), PICKUP));
    assert_eq!(full, miss, "a full pool reads exactly like a miss");
}

struct Keys(VerifyKey);
impl LiveCuts for Keys {
    fn cuts(&self, _chains: &AdmittedChains) -> bool {
        false
    }

    fn revoked_peer(&self, peer: &VerifyKey) -> bool {
        *peer == self.0
    }
}

#[test]
fn a_revoked_proven_peer_is_cut_mid_stream() {
    let serving = Serving::arm(exposer());
    let member = peer(48, PeerProof::Proven);
    let mut chains = AdmittedChains::new();
    assert!(matches!(
        dial(&serving, &mut chains, member, tokenless(true), PICKUP),
        Answer::Serve { .. }
    ));
    assert_eq!(cuts(&Keys(VerifyKey { bytes: [1; 32] }), &chains, 0), None);
    assert_eq!(cuts(&Keys(member.key), &chains, 0), Some(Cut::PeerRevoked));
    // The same key dialling again is refused before it takes a slot.
    let revoked = Facts { vouch: Vouch { revoked: true, known: true }, ..tokenless(true) };
    assert!(matches!(
        rule(&serving, member, revoked, PICKUP),
        Err(HostRefusal::Gate(GateRefusal::Revoked))
    ));
}

#[test]
fn record_proven_keeps_the_key_and_nothing_else() {
    let key = VerifyKey { bytes: [45u8; 32] };
    let mut chains = AdmittedChains::new();
    chains.record_proven(key);
    assert_eq!(chains.peer(), Some(key));
    assert_eq!(chains.ids().len(), 0);
    assert_eq!(chains.roots().len(), 0);
    assert_eq!(chains.anchors().len(), 0);
    assert!(!chains.lapsed(i128::MAX));
}

#[test]
fn a_proven_key_is_checked_before_a_slot_is_taken() {
    let pool = Arc::new(Semaphore::new(PROVEN_STREAM_PERMITS));
    let serving = serving_over(&pool);
    let mut session = PublicSession::new();
    let AdmitStep::Vouch(wait) =
        serving.begin(&mut session, peer(46, PeerProof::Proven), false, false, PICKUP)
    else {
        panic!("a proven-only route asks about the key");
    };
    assert_eq!(
        pool.available_permits(),
        PROVEN_STREAM_PERMITS,
        "the key is asked about while every slot is free"
    );
    let admitted = wait
        .vouched(Vouch { revoked: false, known: true })
        .ok()
        .expect("a known proven key is admitted");
    assert_eq!(pool.available_permits(), PROVEN_STREAM_PERMITS - 1);
    drop(admitted);
    assert_eq!(pool.available_permits(), PROVEN_STREAM_PERMITS);
}
