//! Serving one stream: the opening, the service it resolves to, the path it is admitted by, the permits
//! it takes, the floor and ceiling of its route, and the one answer every refused dialer gets.

use std::sync::Arc;

use tokio::sync::Semaphore;

use tightbeam::admission::{
    rule_stream, wire_refusal, AdmitStep, AdmittedStream, Facts, HostRefusal, Malformed, Path,
    PublicCap, Serving, Vouch,
};
use tightbeam::bridge::ErasedHandler;
use tightbeam::contract::Handler;
use tightbeam::cut::{AdmittedChains, Cap, Expiry};
use tightbeam::exposer::Exposer;
use tightbeam::gate::{peer_proven, Gate, GateRefusal, PeerProof, SessionPeer};
use tightbeam::open_policy::{Never, OptIn};
use tightbeam::overlay::{PublicRequest, PublicUnsafeRequest, SourceFact, SourceKind};
use tightbeam::pool::{
    PublicPool, PublicSession, PROVEN_STREAM_PERMITS, PUBLIC_SESSION_PERMITS,
    PUBLIC_STREAM_PERMITS, RAW_STREAM_OPEN_PERMITS,
};
use tightbeam::serve::{
    open, reach, resolve_single_service, serve_request, settle, Answer, Miss, Opened, Opening,
    Reach, StreamFacts,
};
use tightbeam::services::{Access, ServeEntry, ServiceName, Services};
use tightbeam::witness::{Admission, Origin, Refusal, RevocationId, VerifyKey};

struct OpenNoop;
impl Handler for OpenNoop {
    type Exposure = OptIn;
}

struct GatedNoop;
impl Handler for GatedNoop {
    type Exposure = Never;
}

const SIGNET: VerifyKey = VerifyKey { bytes: [3u8; 32] };
const PEER: SessionPeer =
    SessionPeer { key: VerifyKey { bytes: [5u8; 32] }, claim: PeerProof::Proven };
const ANNOUNCED: SessionPeer =
    SessionPeer { key: VerifyKey { bytes: [5u8; 32] }, claim: PeerProof::Announced };

fn svc(name: &str) -> ServiceName {
    ServiceName::new(name.to_owned())
}

fn family_gate() -> Gate {
    Gate::Rooted { root: SIGNET }
}

fn services(texts: &[&str]) -> Services {
    let entries: Vec<ServeEntry> = texts
        .iter()
        .map(|text| ServeEntry { text: (*text).to_owned(), named: true })
        .collect();
    Services::parse(&entries, false).expect("entries parse")
}

fn with_handler<H: Handler>(services: Services, name: &str, handler: &H) -> Services {
    services.bind_handler(svc(name), handler, Access::Family).expect("the name binds")
}

fn prove(services: Services, gate: Gate, public: &[&str], public_unsafe: &[&str]) -> Exposer {
    let facts: Vec<SourceFact> = services
        .names()
        .into_iter()
        .map(|name| SourceFact { path: format!("/srv/{name}"), name, kind: SourceKind::Missing })
        .collect();
    let names = |names: &[&str]| names.iter().map(|name| (*name).to_owned()).collect();
    Exposer::prove(
        services,
        gate,
        PublicRequest::new(names(public)),
        PublicUnsafeRequest::new(names(public_unsafe)),
        facts,
    )
    .ok()
    .expect("the table proves")
}

/// Arm an exposer with public pools of these sizes.
fn arm(exposer: Exposer, sessions: usize, streams: usize, opens: usize) -> Serving {
    Serving::arm_with(
        exposer,
        PublicPool {
            sessions: Arc::new(Semaphore::new(sessions)),
            streams: Arc::new(Semaphore::new(streams)),
        },
        Arc::new(Semaphore::new(PROVEN_STREAM_PERMITS)),
        Arc::new(Semaphore::new(opens)),
    )
}

fn cap(root: VerifyKey) -> Cap {
    Cap {
        root,
        ids: vec![RevocationId { bytes: vec![1] }],
        expiry: Expiry::Never,
        authority_bound: false,
    }
}

/// A stranger: nothing presented, so nothing granted.
fn stranger() -> Facts {
    Facts {
        capability: None,
        membership: None,
        ruling: Err(GateRefusal::Missing),
        vouch: Vouch { revoked: false, known: false },
    }
}

/// A holder of a badge or slip the signet signed, and what the ruling on it is.
fn holder(ruling: Result<Admission, GateRefusal>) -> Facts {
    Facts { capability: Some(Ok(cap(SIGNET))), ruling, ..stranger() }
}

fn rule(
    serving: &Serving,
    peer: SessionPeer,
    facts: Facts,
    service: &str,
) -> Result<AdmittedStream, HostRefusal> {
    rule_stream(serving, &mut PublicSession::new(), peer, facts, service)
}

fn request(service: &str, admission: Facts) -> StreamFacts {
    StreamFacts {
        opening: Opening::Request { service: service.to_owned(), named: true },
        admission,
        enabled: true,
        source: Ok(()),
    }
}

/// Dial a service on a session of its own.
fn dial(serving: &Serving, peer: SessionPeer, facts: StreamFacts) -> Answer {
    dial_in(serving, &mut PublicSession::new(), peer, facts)
}

fn dial_in(
    serving: &Serving,
    session: &mut PublicSession,
    peer: SessionPeer,
    facts: StreamFacts,
) -> Answer {
    serve_request(serving, session, &mut AdmittedChains::new(), false, peer, facts)
}

fn refusal(answer: Answer) -> Refusal {
    match answer {
        Answer::Refused(refusal) => refusal,
        _ => panic!("the dial must be refused"),
    }
}

fn served(answer: Answer) -> AdmittedStream {
    match answer {
        Answer::Serve { stream, .. } => stream,
        Answer::Refused(refusal) => panic!("the dial must be served: {}", refusal.message()),
        _ => panic!("the dial must be served"),
    }
}

#[test]
fn a_single_service_node_needs_no_service_name() {
    let one = services(&["a=tcp:127.0.0.1:80"]);
    // A connector defaulting to `default` on a single-service node resolves to that one service.
    assert_eq!(resolve_single_service(svc("default"), &one).as_str(), "a");
    // A request that already names the exposed service is unchanged.
    assert_eq!(resolve_single_service(svc("a"), &one).as_str(), "a");

    let two = services(&["a=tcp:127.0.0.1:80", "b=tcp:127.0.0.1:81"]);
    // With two services, an unmatched request is left as-is (fails later, never guesses).
    assert_eq!(resolve_single_service(svc("default"), &two).as_str(), "default");
}

#[test]
fn an_open_witness_is_refused_before_ok_for_a_never_handler() {
    let locked = with_handler(Services::new(), "locked", &GatedNoop);
    let witness = Gate::Open
        .admit_witnessed(PEER.key, Ok(Admission::Slip))
        .ok()
        .expect("an open gate admits anyone");
    assert!(
        matches!(reach(&locked, "locked", true, &witness), Reach::Missed(Miss::NotAccepted)),
        "the ceiling refuses before any success"
    );
    let answer = settle(
        &locked,
        svc("locked"),
        AdmittedStream { witness, ruled: Vec::new(), permit: None },
        true,
        None,
        Ok(()),
        false,
        &mut AdmittedChains::new(),
    );
    assert_eq!(
        refusal(answer),
        Refusal::NotAdmitted,
        "the ceiling refusal is the uniform payload-free class, written with no success"
    );
    let witness = Gate::Open
        .admit_witnessed(PEER.key, Ok(Admission::Slip))
        .ok()
        .expect("an open gate admits anyone");
    assert!(matches!(GatedNoop.prepare(witness), Err(Refusal::NotAdmitted)));
}

#[test]
fn a_saturated_public_pool_never_starves_a_gated_member() {
    let table =
        with_handler(with_handler(Services::new(), "open", &OpenNoop), "web", &OpenNoop);
    let serving =
        arm(prove(table, family_gate(), &["open"], &[]), 1, 4, RAW_STREAM_OPEN_PERMITS);

    // One public session reaches `open` and stays alive, holding the single public-session permit.
    let mut holder_session = PublicSession::new();
    served(dial_in(&serving, &mut holder_session, PEER, request("open", stranger())));
    assert!(holder_session.is_public());

    // The pool is full: a second public session is refused, with the uniform wire class.
    assert_eq!(
        refusal(dial(&serving, PEER, request("open", stranger()))),
        Refusal::NotAdmitted,
        "a public dial over the session cap is refused with the uniform refusal"
    );

    // A gated member dials its own session and is served while the public pool is full.
    let mut member_session = PublicSession::new();
    served(dial_in(
        &serving,
        &mut member_session,
        PEER,
        request("web", holder(Ok(Admission::Member))),
    ));
    assert!(!member_session.is_public(), "a gated dial never touches the public pool");

    // Close the public session: its permit returns to the pool.
    drop(holder_session);
    served(dial(&serving, PEER, request("open", stranger())));
}

#[test]
fn a_public_stream_over_the_cap_is_refused_and_released_when_it_ends() {
    let table = with_handler(Services::new(), "open", &OpenNoop);
    let serving =
        arm(prove(table, family_gate(), &["open"], &[]), 4, 1, RAW_STREAM_OPEN_PERMITS);
    let mut session = PublicSession::new();
    let first = served(dial_in(&serving, &mut session, PEER, request("open", stranger())));
    assert!(first.permit.is_some());
    assert_eq!(
        refusal(dial_in(&serving, &mut session, PEER, request("open", stranger()))),
        Refusal::NotAdmitted,
        "a second public stream on the same session is over the cap"
    );
    drop(first);
    served(dial_in(&serving, &mut session, PEER, request("open", stranger())));
}

#[test]
fn four_public_streams_hold_the_node_wide_pool_and_the_fifth_is_refused() {
    let table = with_handler(with_handler(Services::new(), "a", &OpenNoop), "b", &OpenNoop);
    // The PRODUCTION pool.
    let serving = Serving::arm(prove(table, Gate::Open, &["a", "b"], &[]));

    let mut session = PublicSession::new();
    let mut held = Vec::new();
    for _ in 0..PUBLIC_STREAM_PERMITS {
        held.push(served(dial_in(&serving, &mut session, PEER, request("a", stranger()))));
    }
    assert_eq!(held.len(), 4);
    // Service-blind: the fifth stream, aimed at the OTHER public service, is refused.
    assert_eq!(
        refusal(dial_in(&serving, &mut session, PEER, request("b", stranger()))),
        Refusal::NotAdmitted
    );
    assert!(matches!(
        rule_stream(&serving, &mut session, PEER, stranger(), "b"),
        Err(HostRefusal::PublicAtCapacity { cap: PublicCap::Streams })
    ));
    held.clear();
    served(dial_in(&serving, &mut session, PEER, request("b", stranger())));
}

#[test]
fn a_full_public_pool_answers_exactly_like_an_absent_service() {
    let table = with_handler(services(&["cam=stdin:+lossy"]), "vault", &GatedNoop);
    let serving = Serving::arm(prove(table, family_gate(), &[], &["cam"]));
    let mut viewers = Vec::new();
    for _ in 0..PUBLIC_STREAM_PERMITS {
        viewers.push(served(dial(&serving, PEER, request("cam", stranger()))));
    }
    let full = refusal(dial(&serving, PEER, request("cam", stranger())));
    assert_eq!(full, refusal(dial(&serving, PEER, request("nothing-here", stranger()))));
    assert_eq!(full, refusal(dial(&serving, PEER, request("vault", stranger()))));
    assert_eq!(full, Refusal::NotAdmitted);
}

#[test]
fn a_viewer_that_disconnects_gives_its_slot_to_the_next_stranger() {
    let table = with_handler(services(&["cam=stdin:+lossy"]), "vault", &GatedNoop);
    let serving = Serving::arm(prove(table, family_gate(), &[], &["cam"]));
    let mut viewers = Vec::new();
    for _ in 0..PUBLIC_STREAM_PERMITS {
        viewers.push(served(dial(&serving, PEER, request("cam", stranger()))));
    }
    refusal(dial(&serving, PEER, request("cam", stranger())));
    viewers.pop();
    served(dial(&serving, PEER, request("cam", stranger())));
}

#[test]
fn the_public_session_pool_holds_its_production_count() {
    let table = with_handler(Services::new(), "open", &OpenNoop);
    let serving = Serving::arm(prove(table, family_gate(), &["open"], &[]));
    let mut sessions = Vec::new();
    for _ in 0..PUBLIC_SESSION_PERMITS {
        let mut session = PublicSession::new();
        served(dial_in(&serving, &mut session, PEER, request("open", stranger())));
        sessions.push(session);
    }
    assert_eq!(sessions.len(), 32);
    assert!(matches!(
        rule(&serving, PEER, stranger(), "open"),
        Err(HostRefusal::PublicAtCapacity { cap: PublicCap::Sessions })
    ));
    // A session that already holds its permit is not asked for a second.
    served(dial_in(&serving, &mut sessions[0], PEER, request("open", stranger())));
}

#[test]
fn a_flood_of_fifo_opens_cannot_exceed_the_cap() {
    const CAP: usize = 3;
    const OVER: usize = 4;
    let table = services(&["pipe=fifo:/tmp/never-written"]);
    let serving = arm(prove(table, family_gate(), &[], &["pipe"]), 8, 8, CAP);
    let mut parked = Vec::new();
    for _ in 0..CAP {
        parked.push(serving.take_open_permit().expect("an open under the cap parks"));
    }
    for _ in 0..OVER {
        match refusal(dial(&serving, PEER, request("pipe", stranger()))) {
            Refusal::Unavailable { detail } => assert!(
                detail.contains("too many raw streams"),
                "the over-cap refusal must name the cap: {detail}"
            ),
            other => panic!("an over-cap open must be refused with a detail, got: {other:?}"),
        }
    }
    parked.clear();
    served(dial(&serving, PEER, request("pipe", stranger())));
}

#[test]
fn a_single_raw_stream_open_is_unaffected_by_the_cap() {
    let table = services(&["doc=file:/tmp/tightbeam-cap-ok"]);
    let serving = arm(prove(table, family_gate(), &[], &["doc"]), 4, 4, RAW_STREAM_OPEN_PERMITS);
    served(dial(&serving, PEER, request("doc", stranger())));
    let failed = StreamFacts {
        source: Err("is a directory".to_owned()),
        ..request("doc", stranger())
    };
    assert_eq!(
        refusal(dial(&serving, PEER, failed)),
        Refusal::Unavailable { detail: "is a directory".to_owned() }
    );
}

#[test]
fn a_disabled_service_is_refused_then_restored_live_on_re_enable() {
    let serving = Serving::arm(prove(services(&["doc=tcp:127.0.0.1:80"]), Gate::Open, &[], &[]));
    let disabled = StreamFacts { enabled: false, ..request("doc", stranger()) };
    assert_eq!(
        refusal(dial(&serving, PEER, disabled)),
        Refusal::NotAdmitted,
        "a disabled service gets the refusal a miss gives"
    );
    served(dial(&serving, PEER, request("doc", stranger())));
}

#[test]
fn a_disabled_service_is_refused_after_admission_not_before_the_gate() {
    let rooted =
        Serving::arm(prove(services(&["doc=tcp:127.0.0.1:80"]), family_gate(), &[], &[]));
    // Admission rules first, whatever the operator has disabled.
    assert!(matches!(
        rule(&rooted, PEER, stranger(), "doc"),
        Err(HostRefusal::Gate(GateRefusal::Missing))
    ));
    let disabled = || StreamFacts { enabled: false, ..request("doc", stranger()) };
    assert_eq!(refusal(dial(&rooted, PEER, disabled())), Refusal::NotAdmitted);

    // An admitted dialer reaches the check and is refused with the same uniform class.
    let open = Serving::arm(prove(services(&["doc=tcp:127.0.0.1:80"]), Gate::Open, &[], &[]));
    let admitted = rule(&open, PEER, stranger(), "doc").ok().expect("an open gate admits");
    assert!(matches!(
        reach(open.services(), "doc", false, &admitted.witness),
        Reach::Missed(Miss::Disabled)
    ));
    assert_eq!(refusal(dial(&open, PEER, disabled())), Refusal::NotAdmitted);
}

#[test]
fn a_public_member_admits_a_stranger_and_every_miss_takes_the_family_path() {
    let table = with_handler(
        with_handler(services(&["logs=file:/srv/logs"]), "speed", &OpenNoop),
        "control.stop",
        &GatedNoop,
    );
    let serving = Serving::arm(prove(table, family_gate(), &["speed"], &["logs"]));

    let admitted =
        rule(&serving, PEER, stranger(), "speed").ok().expect("an opened service admits a stranger");
    assert!(
        !admitted.witness.is_member(),
        "an opened service admits as a Slip, never a whole-node member"
    );
    assert_eq!(admitted.witness.origin(), Origin::Open);

    let unsafe_admitted = rule(&serving, PEER, stranger(), "logs")
        .ok()
        .expect("an unsafe-open raw stream admits a stranger");
    assert!(
        !unsafe_admitted.witness.is_member(),
        "an unsafe-open raw stream admits as a Slip, never a whole-node member"
    );

    assert!(
        rule(&serving, PEER, stranger(), "control.stop").is_err(),
        "a served-but-gated service is refused for a stranger (family path)"
    );
    assert!(
        rule(&serving, PEER, stranger(), "nope").is_err(),
        "an absent service is refused for a stranger, on the same family path"
    );
    assert_eq!(serving.path_for("speed"), Path::Open);
    assert_eq!(serving.path_for("logs"), Path::Open);
    assert_eq!(serving.path_for("control.stop"), Path::Gated);
    assert_eq!(serving.path_for("nope"), Path::Gated);
}

#[test]
fn a_member_dial_ignores_a_second_slot_when_slot_one_is_not_signet_bound() {
    let serving =
        Serving::arm(prove(services(&["web=tcp:127.0.0.1:80"]), family_gate(), &[], &[]));
    let facts = || Facts { membership: Some(Err(Malformed)), ..holder(Ok(Admission::Member)) };
    let admitted = rule(&serving, PEER, facts(), "web")
        .ok()
        .expect("a member badge admits on slot 1 alone; garbage in slot 2 is ignored");
    assert!(
        admitted.witness.is_member(),
        "a whole-node member badge admits as Member regardless of slot 2"
    );
    assert_eq!(admitted.ruled.len(), 1);

    // Where slot 1 does ask for an authority's badge, slot 2 is read.
    let bound = Facts {
        capability: Some(Ok(Cap { authority_bound: true, ..cap(SIGNET) })),
        ..facts()
    };
    assert!(matches!(
        rule(&serving, PEER, bound, "web"),
        Err(HostRefusal::MalformedCapability)
    ));
    let foreign = VerifyKey { bytes: [8u8; 32] };
    let both = Facts {
        capability: Some(Ok(Cap { authority_bound: true, ..cap(SIGNET) })),
        membership: Some(Ok(cap(foreign))),
        ..holder(Ok(Admission::Slip))
    };
    let admitted = rule(&serving, PEER, both, "web").ok().expect("both tokens verify");
    let roots: Vec<VerifyKey> = admitted.ruled.iter().map(|cap| cap.root).collect();
    assert_eq!(roots, [SIGNET, foreign], "both tokens are kept, the presented one first");
}

#[test]
fn an_announced_session_cannot_root_admit_a_valid_badge() {
    let serving =
        Serving::arm(prove(services(&["web=tcp:127.0.0.1:80"]), family_gate(), &[], &[]));
    assert!(
        rule(&serving, PEER, holder(Ok(Admission::Member)), "web").is_ok(),
        "a valid member badge is admitted over a proven session"
    );
    let refused = rule(&serving, ANNOUNCED, holder(Ok(Admission::Member)), "web")
        .err()
        .expect("an announced session cannot be admitted by a root, even with a valid badge");
    assert!(
        matches!(refused, HostRefusal::PeerNotProven { declared: PeerProof::Announced }),
        "the local cause names the declared profile: {refused:?}"
    );
    assert!(!peer_proven(PeerProof::Announced) && peer_proven(PeerProof::InProcess));
}

#[test]
fn an_anchored_base_refuses_an_unproven_peer() {
    let own = VerifyKey { bytes: [23u8; 32] };
    let serving = Serving::arm(prove(
        services(&["web=tcp:127.0.0.1:80"]),
        Gate::Anchored { own },
        &[],
        &[],
    ));
    let slip = || Facts { capability: Some(Ok(cap(own))), ..holder(Ok(Admission::Slip)) };
    let admitted = rule(&serving, PEER, slip(), "web")
        .ok()
        .expect("the slip is admitted over a proven session");
    assert_eq!(
        admitted.ruled.first().map(|cap| cap.root),
        Some(own),
        "and the slip is kept for the live cut"
    );
    let refused = rule(&serving, ANNOUNCED, slip(), "web")
        .err()
        .expect("an announced session cannot be admitted by an anchored gate");
    assert!(
        matches!(refused, HostRefusal::PeerNotProven { declared: PeerProof::Announced }),
        "the local cause names the declared profile: {refused:?}"
    );
}

#[test]
fn an_announced_session_is_refused_at_admission_with_the_uniform_answer() {
    let serving =
        Serving::arm(prove(services(&["web=tcp:127.0.0.1:80"]), family_gate(), &[], &[]));
    assert_eq!(
        refusal(dial(&serving, ANNOUNCED, request("web", holder(Ok(Admission::Member))))),
        Refusal::NotAdmitted,
        "an announced session gets the same payload-free refusal a miss gives"
    );
}

#[test]
fn a_stranger_is_admitted_to_an_opened_service_and_uniformly_refused_for_the_rest() {
    let table = with_handler(
        with_handler(with_handler(Services::new(), "open", &OpenNoop), "locked", &GatedNoop),
        "control.stop",
        &GatedNoop,
    );
    let serving = Serving::arm(prove(table, family_gate(), &["open"], &[]));
    served(dial(&serving, PEER, request("open", stranger())));
    let gated = refusal(dial(&serving, PEER, request("locked", stranger())));
    let control = refusal(dial(&serving, PEER, request("control.stop", stranger())));
    assert_eq!(gated, control, "both refuse identically (no oracle)");
    assert_eq!(gated, Refusal::NotAdmitted, "the refusal is the payload-free uniform class");
}

#[test]
fn a_member_only_route_serves_a_member_and_uniformly_refuses_a_slip_and_a_stranger() {
    let table = with_handler(services(&["reflect=echo:"]), "locked", &GatedNoop)
        .member_only("locked")
        .expect("`locked` is served")
        .member_only("reflect")
        .expect("`reflect` is served");
    let serving = Serving::arm(prove(table, family_gate(), &[], &[]));
    for name in ["locked", "reflect"] {
        let stream =
            served(dial(&serving, PEER, request(name, holder(Ok(Admission::Member)))));
        assert!(stream.witness.is_member(), "a member badge passes the member floor");
    }
    let slip_refused =
        refusal(dial(&serving, PEER, request("locked", holder(Ok(Admission::Slip)))));
    assert_eq!(
        slip_refused,
        Refusal::NotAdmitted,
        "the floor refuses with the uniform payload-free class"
    );
    let stranger_refused = refusal(dial(&serving, PEER, request("locked", stranger())));
    assert_eq!(
        stranger_refused, slip_refused,
        "a slip refusal is wire-identical to a miss (no member-only oracle)"
    );
}

#[test]
fn a_not_admitted_refusal_renders_descriptively_never_doubled() {
    let rendered = Refusal::NotAdmitted.message();
    assert!(
        rendered.contains("not admitted"),
        "the uniform refusal renders as a reason a person can act on: {rendered:?}"
    );
    assert!(
        !rendered.contains("refused: refused"),
        "the refusal render must never double the bare word: {rendered:?}"
    );
}

#[test]
fn an_undecided_gate_is_not_the_refusal_that_rules_on_the_dialer() {
    let undecided = wire_refusal(&HostRefusal::Gate(GateRefusal::Undecided));
    assert!(
        !undecided.message().contains("not admitted"),
        "never the refusal that tells a dialer they lack authority: {}",
        undecided.message()
    );
    assert!(
        matches!(undecided, Refusal::Unavailable { .. }),
        "an answer about this host goes on the refusal that is about this host"
    );
    for uniform in [GateRefusal::Missing, GateRefusal::NotGranted, GateRefusal::Revoked] {
        let rendered = wire_refusal(&HostRefusal::Gate(uniform));
        assert!(
            matches!(rendered, Refusal::NotAdmitted),
            "a stranger's missing token, a revoked holder's, and a non-granting one stay \
             indistinguishable: {}",
            rendered.message()
        );
    }
}

#[test]
fn an_unadmitted_dialer_gets_one_uniform_refusal_no_reason_no_menu() {
    let serving = Serving::arm(prove(
        services(&["ssh=stdin:", "web=file:/srv/secret"]),
        Gate::Rooted { root: VerifyKey { bytes: [7u8; 32] } },
        &[],
        &[],
    ));
    let say = |service: &str, facts: Facts| refusal(dial(&serving, PEER, request(service, facts)));
    let lone = say("ssh", stranger());
    let revoked = say("ssh", holder(Err(GateRefusal::Revoked)));
    let unknown = say("admin", stranger());
    let not_granted = say("ssh", holder(Err(GateRefusal::NotGranted)));
    let malformed = say("ssh", Facts { capability: Some(Err(Malformed)), ..stranger() });
    assert_eq!(lone, revoked, "no revocation oracle");
    assert_eq!(lone, unknown, "an unknown-service probe is indistinguishable");
    assert_eq!(lone, not_granted, "no capability oracle");
    assert_eq!(lone, malformed, "a token that does not parse says nothing either");
    let rendered = lone.message();
    for leaked in ["revoked", "requires", "grant", "exposes", "unknown", "ssh", "web", "admin"] {
        assert!(
            !rendered.contains(leaked),
            "the uniform refusal must not leak {leaked:?}: {rendered:?}"
        );
    }
}

#[test]
fn an_unknown_service_probe_never_gets_the_menu_even_when_admitted() {
    let serving = Serving::arm(prove(
        services(&["cam=stdin:", "mic=file:/srv/mic"]),
        family_gate(),
        &[],
        &[],
    ));
    let rendered =
        refusal(dial(&serving, PEER, request("nope", holder(Ok(Admission::Member))))).message();
    for leaked in ["cam", "mic", "exposes", "unknown"] {
        assert!(
            !rendered.contains(leaked),
            "an admitted unknown-service probe must not learn the menu; leaked {leaked:?}: {rendered:?}"
        );
    }
}

#[test]
fn an_opening_is_ruled_on_answered_failed_or_dropped() {
    assert!(matches!(open(Opening::TimedOut), Opened::Silent));
    assert!(matches!(open(Opening::Unreadable { refusal: None }), Opened::Fail));
    let skew = Refusal::BadRequest { detail: "speaks TB05; this host speaks TB04".to_owned() };
    assert!(matches!(
        open(Opening::Unreadable { refusal: Some(skew.copied()) }),
        Opened::Answer(said) if said == skew
    ));
    assert!(matches!(
        open(Opening::Request { service: "web".to_owned(), named: true }),
        Opened::Rule(service) if service.as_str() == "web"
    ));
    // A name that is none is shown back escaped, so a control byte cannot reach a terminal.
    let shown = open(Opening::Request { service: "we\nb\"".to_owned(), named: false });
    assert!(matches!(
        shown,
        Opened::Answer(Refusal::BadRequest { detail })
            if detail == "invalid service name \"we\\nb\\\"\""
    ));

    let serving = Serving::arm(prove(services(&["a=echo:"]), Gate::Open, &[], &[]));
    let facts = |opening: Opening| StreamFacts { opening, ..request("a", stranger()) };
    assert!(matches!(dial(&serving, PEER, facts(Opening::TimedOut)), Answer::Silent));
    assert!(matches!(
        dial(&serving, PEER, facts(Opening::Unreadable { refusal: None })),
        Answer::Failed
    ));
    assert_eq!(
        refusal(dial(
            &serving,
            PEER,
            facts(Opening::Unreadable { refusal: Some(skew.copied()) })
        )),
        skew
    );
}

#[test]
fn admission_asks_for_what_it_needs_in_turn() {
    let serving =
        Serving::arm(prove(services(&["web=tcp:127.0.0.1:80"]), family_gate(), &[], &[]));
    let mut session = PublicSession::new();
    let AdmitStep::ParseCapability(wait) = serving.begin(&mut session, PEER, true, true, "web")
    else {
        panic!("a filled first slot is parsed first");
    };
    let bound = Cap { authority_bound: true, ..cap(SIGNET) };
    let AdmitStep::ParseMembership(wait) = wait.parsed(Ok(bound)) else {
        panic!("an authority-bound slip asks for the second slot");
    };
    let AdmitStep::Rule(wait) = wait.parsed(Ok(cap(SIGNET))) else {
        panic!("two parsed tokens face the ruling");
    };
    assert!(wait.is_foreign(), "a two-token dial is ruled on as one");
    let admitted = wait.ruled(Ok(Admission::Slip)).ok().expect("as ruled");
    assert_eq!(admitted.ruled.len(), 2);
    let AdmitStep::Rule(wait) = serving.begin(&mut session, PEER, false, true, "web") else {
        panic!("an empty first slot faces the ruling at once");
    };
    assert!(!wait.is_foreign());
    assert!(matches!(
        wait.ruled(Err(GateRefusal::Undecided)),
        Err(HostRefusal::Gate(GateRefusal::Undecided))
    ));
}

#[test]
fn every_host_cause_has_its_line_and_one_wire_answer() {
    let rows = [
        HostRefusal::MalformedCapability,
        HostRefusal::PeerNotProven { declared: PeerProof::Announced },
        HostRefusal::Gate(GateRefusal::Missing),
        HostRefusal::Gate(GateRefusal::NotGranted),
        HostRefusal::Gate(GateRefusal::Revoked),
        HostRefusal::UnknownKey,
        HostRefusal::PublicAtCapacity { cap: PublicCap::Sessions },
        HostRefusal::PublicAtCapacity { cap: PublicCap::Streams },
        HostRefusal::ProvenAtCapacity,
    ];
    for (index, cause) in rows.iter().enumerate() {
        assert_eq!(wire_refusal(cause), Refusal::NotAdmitted);
        for other in &rows[index + 1..] {
            assert_ne!(cause.message(), other.message(), "a host log tells causes apart");
        }
    }
}
