//! The live cut: what a session keeps of the grants it was admitted on, how long they hold it open, and
//! when an oracle ends it.

use std::sync::Arc;

use tightbeam::admission::{rule_stream, Facts, Serving, Vouch};
use tightbeam::cut::{
    AdmittedChains, Cap, Expiry, Lease, Unrecorded, UnreadableExpiry, CUT_SWEEP_MILLIS,
    MAX_SESSION_CHAIN_IDS,
};
use tightbeam::exposer::Exposer;
use tightbeam::gate::{Gate, GateRefusal, PeerProof, SessionPeer};
use tightbeam::live_cuts::{cuts, verdict, Cut, Denylist, Latch, LiveCuts};
use tightbeam::overlay::{PublicRequest, PublicUnsafeRequest};
use tightbeam::pool::PublicSession;
use tightbeam::serve::{keep, serve_request, Answer, Opening, StreamFacts};
use tightbeam::services::{ServeEntry, Services};
use tightbeam::witness::{Admission, Refusal, RevocationId, VerifyKey};

const SIGNET: VerifyKey = VerifyKey { bytes: [3u8; 32] };
const DIALER: VerifyKey = VerifyKey { bytes: [9u8; 32] };
const PEER: SessionPeer = SessionPeer { key: DIALER, claim: PeerProof::Proven };

/// A whole second far in the future, in nanoseconds.
fn at(secs: i128) -> i128 {
    (4_000_000_000 + secs) * 1_000_000_000
}

fn id(number: u64) -> RevocationId {
    RevocationId { bytes: number.to_be_bytes().to_vec() }
}

fn cap(root: VerifyKey, number: u64, expiry: Expiry) -> Cap {
    Cap { root, ids: vec![id(number)], expiry, authority_bound: false }
}

fn record(chains: &mut AdmittedChains, cap: Cap) {
    chains.record_all(DIALER, &vec![cap]).expect("under the ceiling");
}

fn services(texts: &[&str]) -> Services {
    let entries: Vec<ServeEntry> = texts
        .iter()
        .map(|text| ServeEntry { text: (*text).to_owned(), named: true })
        .collect();
    Services::parse(&entries, false).expect("entries parse")
}

fn serving(texts: &[&str]) -> Serving {
    Serving::arm(
        Exposer::prove(
            services(texts),
            Gate::Rooted { root: SIGNET },
            PublicRequest::none(),
            PublicUnsafeRequest::none(),
            Vec::new(),
        )
        .ok()
        .expect("the table proves"),
    )
}

fn admission(cap: Cap, kind: Admission) -> Facts {
    Facts {
        capability: Some(Ok(cap)),
        membership: None,
        ruling: Ok(kind),
        vouch: Vouch { revoked: false, known: false },
    }
}

fn dial(
    serving: &Serving,
    chains: &mut AdmittedChains,
    service: &str,
    admission: Facts,
    source: Result<(), String>,
) -> Answer {
    let facts = StreamFacts {
        opening: Opening::Request { service: service.to_owned(), named: true },
        admission,
        enabled: true,
        source,
    };
    serve_request(serving, &mut PublicSession::new(), chains, true, PEER, facts)
}

#[test]
fn a_stream_reads_its_earliest_expiry_and_fails_closed_on_an_unreadable_one() {
    // None: a stream ruled on no cap, or on caps that never expire, has no bound.
    assert_eq!(Lease::earliest(&Vec::new()).ok(), Some(None));
    assert_eq!(Lease::earliest(&vec![Expiry::Never, Expiry::Never]).ok(), Some(None));
    // Many: the earliest bound any cap sets, whatever the order.
    assert_eq!(
        Lease::earliest(&vec![Expiry::At(at(30)), Expiry::Never, Expiry::At(at(10))]).ok(),
        Some(Some(at(10)))
    );
    // Error: one unreadable expiry fails the whole stream.
    for reads in [
        vec![Expiry::At(at(10)), Expiry::Unreadable],
        vec![Expiry::Unreadable, Expiry::Never],
    ] {
        assert!(
            matches!(Lease::earliest(&reads), Err(UnreadableExpiry)),
            "an unreadable expiry is treated as expired"
        );
    }
}

#[test]
fn a_lease_lapses_at_the_first_grant_of_any_stream() {
    // None: a session no stream was admitted on a grant never lapses.
    assert!(!AdmittedChains::new().lapsed(at(1_000_000)));

    // One: good through its expiry instant, lapsed strictly after.
    let mut one = AdmittedChains::new();
    record(&mut one, cap(SIGNET, 1, Expiry::At(at(10))));
    assert!(!one.lapsed(at(10)), "a grant is good through its expiry");
    assert!(one.lapsed(at(11)), "and lapsed after it");
    one.record_all(DIALER, &Vec::new()).expect("an open stream keeps nothing");
    assert!(one.lapsed(at(11)), "an open stream, ruled on nothing, holds no session open");

    // Many streams: the session ends at the FIRST grant to run out, in whichever order they came.
    let mut many = AdmittedChains::new();
    for secs in [20, 30, 10] {
        record(&mut many, cap(SIGNET, secs as u64, Expiry::At(at(secs))));
    }
    assert!(!many.lapsed(at(10)), "held through the earliest grant");
    assert!(many.lapsed(at(11)), "lapsed once any grant has");

    // A grant that never expires bounds nothing.
    let never = Lease::Unruled.extend(None);
    assert_eq!(never, Lease::Unbounded, "one unbounded grant bounds nothing");
    assert_eq!(never.extend(None), Lease::Unbounded, "nor do two");
    assert_eq!(never.extend(Some(at(10))), Lease::Until(at(10)));
    assert_eq!(Lease::Unruled.extend(Some(at(10))).extend(None), Lease::Until(at(10)));

    // One stream ruled on two caps needed both, so its grant ends at the EARLIER.
    let foreign = VerifyKey { bytes: [11u8; 32] };
    let slip = cap(SIGNET, 1, Expiry::At(at(40)));
    let badge = cap(foreign, 2, Expiry::At(at(15)));
    let mut paired = AdmittedChains::new();
    paired.record_all(DIALER, &vec![slip, badge]).expect("under the ceiling");
    assert!(!paired.lapsed(at(15)), "held while both caps hold");
    assert!(
        paired.lapsed(at(16)),
        "a stream that needed both caps ends with the first to expire"
    );
}

#[test]
fn a_refused_record_keeps_nothing() {
    let mut chains = AdmittedChains::new();
    for number in 0..MAX_SESSION_CHAIN_IDS as u64 {
        record(&mut chains, cap(SIGNET, number, Expiry::Never));
    }
    let over = vec![cap(SIGNET, MAX_SESSION_CHAIN_IDS as u64, Expiry::Never)];
    assert!(
        matches!(chains.record_all(DIALER, &over), Err(Unrecorded::Full)),
        "one past the ceiling is refused"
    );
    assert_eq!(chains.len(), MAX_SESSION_CHAIN_IDS, "and keeps nothing of it");
    assert!(
        chains.record_all(DIALER, &vec![cap(SIGNET, 0, Expiry::Never)]).is_ok(),
        "a grant already kept adds nothing and is accepted"
    );
    let unreadable = vec![cap(SIGNET, 0, Expiry::Unreadable)];
    assert!(matches!(
        chains.record_all(DIALER, &unreadable),
        Err(Unrecorded::UnreadableExpiry)
    ));
    assert_ne!(Unrecorded::Full.message(), Unrecorded::UnreadableExpiry.message());
}

#[test]
fn a_session_is_refused_streams_past_its_chain_ceiling() {
    // Eight fresh ids per stream, so the ceiling is reached in 128 streams.
    let serving = serving(&["demo=echo:"]);
    let mut chains = AdmittedChains::new();
    let copy = |number: u64| Cap {
        root: SIGNET,
        ids: (0..8).map(|block| id(number * 8 + block)).collect(),
        expiry: Expiry::Never,
        authority_bound: false,
    };
    let mut admitted = 0usize;
    let mut refused = None;
    for stream in 0..2 * MAX_SESSION_CHAIN_IDS / 8 {
        let facts = admission(copy(stream as u64), Admission::Member);
        match dial(&serving, &mut chains, "demo", facts, Ok(())) {
            Answer::Serve { .. } => admitted += 1,
            Answer::Refused(refusal) => {
                refused = Some((stream, refusal));
                break;
            }
            _ => panic!("a readable dial is answered"),
        }
    }
    let (at, refusal) = refused.expect("a session past its ceiling must be refused, not grown");
    assert_eq!(refusal, Refusal::NotAdmitted, "the uniform refusal");
    assert!(
        admitted * 8 <= MAX_SESSION_CHAIN_IDS && at == admitted,
        "refused at the ceiling, not before it: {admitted} admitted"
    );
    assert_eq!(admitted, 128);
    assert!(
        matches!(
            dial(&serving, &mut chains, "demo", admission(copy(0), Admission::Member), Ok(())),
            Answer::Serve { .. }
        ),
        "a cap the session already keeps adds nothing and still admits"
    );
}

#[test]
fn a_stream_on_a_cap_whose_expiry_cannot_be_read_is_refused() {
    let serving = serving(&["demo=echo:"]);
    let mut chains = AdmittedChains::new();
    let facts = admission(cap(SIGNET, 1, Expiry::Unreadable), Admission::Slip);
    assert!(matches!(
        dial(&serving, &mut chains, "demo", facts, Ok(())),
        Answer::Refused(Refusal::NotAdmitted)
    ));
    assert_eq!(chains.len(), 0);
    assert_eq!(chains.peer(), None);
}

#[test]
fn a_stream_refused_after_the_gate_does_not_hold_a_session_open() {
    let serving = serving(&["demo=echo:", "other=echo:"]);
    let mut chains = AdmittedChains::new();
    let short = admission(cap(SIGNET, 1, Expiry::At(at(1))), Admission::Slip);
    assert!(matches!(
        dial(&serving, &mut chains, "demo", short, Ok(())),
        Answer::Serve { .. }
    ));
    let lasting = admission(cap(SIGNET, 2, Expiry::At(at(3600))), Admission::Member);
    assert!(matches!(
        dial(&serving, &mut chains, "absent", lasting, Ok(())),
        Answer::Refused(Refusal::NotAdmitted)
    ));
    assert!(chains.lapsed(at(2)), "a refused stream's grant must not hold the session open");
}

#[test]
fn a_stream_refused_after_the_gate_leaves_the_session_lease_untouched() {
    let serving = serving(&["demo=echo:", "other=echo:"]);
    let mut chains = AdmittedChains::new();
    let lasting = admission(cap(SIGNET, 1, Expiry::At(at(3600))), Admission::Slip);
    assert!(matches!(
        dial(&serving, &mut chains, "demo", lasting, Ok(())),
        Answer::Serve { .. }
    ));
    let brief = admission(cap(SIGNET, 2, Expiry::At(at(1))), Admission::Member);
    assert!(matches!(
        dial(&serving, &mut chains, "absent", brief, Ok(())),
        Answer::Refused(Refusal::NotAdmitted)
    ));
    assert!(!chains.lapsed(at(3600)), "a refused stream's grant must not bound the session");
    assert_eq!(chains.len(), 1);
}

#[test]
fn a_raw_stream_whose_open_is_refused_leaves_the_session_lease_untouched() {
    let serving = serving(&["demo=echo:", "dir=file:/tmp"]);
    let mut chains = AdmittedChains::new();
    let lasting = admission(cap(SIGNET, 1, Expiry::At(at(3600))), Admission::Slip);
    assert!(matches!(
        dial(&serving, &mut chains, "demo", lasting, Ok(())),
        Answer::Serve { .. }
    ));
    let brief = admission(cap(SIGNET, 2, Expiry::At(at(1))), Admission::Slip);
    assert!(
        matches!(
            dial(&serving, &mut chains, "dir", brief, Err("`/tmp` is a directory".to_owned())),
            Answer::Refused(Refusal::Unavailable { .. })
        ),
        "a directory is admitted and refused at the open"
    );
    assert!(!chains.lapsed(at(3600)), "a stream refused at its open must not bound the session");
    assert_eq!(chains.len(), 1);
}

#[test]
fn a_session_ends_when_the_first_grant_it_was_admitted_on_runs_out() {
    let oracle = Denylist { revoked: Vec::new() };
    let mut chains = AdmittedChains::new();
    record(&mut chains, cap(SIGNET, 1, Expiry::At(at(10))));
    record(&mut chains, cap(SIGNET, 2, Expiry::At(at(3600))));
    assert_eq!(cuts(&oracle, &chains, at(10)), None);
    assert_eq!(cuts(&oracle, &chains, at(11)), Some(Cut::Expired));
    assert_eq!(CUT_SWEEP_MILLIS, 1000);
}

#[test]
fn a_session_is_cut_when_a_cap_it_was_admitted_on_is_revoked() {
    let mut chains = AdmittedChains::new();
    record(&mut chains, cap(SIGNET, 1, Expiry::Never));
    assert_eq!(cuts(&Denylist { revoked: vec![id(2)] }, &chains, at(0)), None);
    assert_eq!(
        cuts(&Denylist { revoked: vec![id(2), id(1)] }, &chains, at(0)),
        Some(Cut::Recalled)
    );
}

#[test]
fn a_session_admitted_through_a_foreign_badge_is_cut_when_that_root_is_disabled() {
    let foreign = VerifyKey { bytes: [11u8; 32] };
    let mut chains = AdmittedChains::new();
    chains
        .record_all(
            DIALER,
            &vec![cap(SIGNET, 1, Expiry::Never), cap(foreign, 2, Expiry::Never)],
        )
        .expect("under the ceiling");
    let latch = |disabled| Latch { disabled, inner: Denylist { revoked: Vec::new() } };
    assert_eq!(cuts(&latch(Vec::new()), &chains, at(0)), None);
    assert_eq!(cuts(&latch(vec![foreign]), &chains, at(0)), Some(Cut::Recalled));
}

#[test]
fn the_latch_cuts_on_a_kept_root_or_a_kept_id_and_nothing_else() {
    let foreign = VerifyKey { bytes: [12u8; 32] };
    let kept = |cap: Cap| {
        let mut chains = AdmittedChains::new();
        record(&mut chains, cap);
        chains
    };
    let clean = || kept(cap(SIGNET, 1, Expiry::Never));
    let revoked = kept(cap(SIGNET, 2, Expiry::Never));
    let foreign_cap = kept(cap(foreign, 3, Expiry::Never));

    let idle = Latch { disabled: Vec::new(), inner: Denylist { revoked: Vec::new() } };
    assert!(!idle.cuts(&AdmittedChains::new()), "nothing kept, nothing cut");
    assert!(!idle.cuts(&clean()), "a clean chain is not cut");

    let store = Latch { disabled: vec![foreign], inner: Denylist { revoked: vec![id(2)] } };
    assert!(store.cuts(&revoked), "a kept revoked id is cut");
    assert!(store.cuts(&foreign_cap), "a kept disabled root is cut");
    assert!(!store.cuts(&clean()), "the clean chain still is not");
}

/// The oracle a caller whose pin moves wires: it trusts the pin as it stands and its own key.
struct PinnedCut {
    pin: VerifyKey,
    own: VerifyKey,
    revoked_ids: Vec<RevocationId>,
    revoked_keys: Vec<VerifyKey>,
}

impl LiveCuts for PinnedCut {
    fn cuts(&self, chains: &AdmittedChains) -> bool {
        chains.ids().iter().any(|id| self.revoked_ids.contains(id))
    }

    fn trusts(&self, anchor: &VerifyKey) -> bool {
        *anchor == self.pin || *anchor == self.own
    }

    fn revoked_peer(&self, peer: &VerifyKey) -> bool {
        self.revoked_keys.contains(peer)
    }
}

const OLD_ROOT: VerifyKey = VerifyKey { bytes: [21u8; 32] };
const NEW_ROOT: VerifyKey = VerifyKey { bytes: [22u8; 32] };
const OWN: VerifyKey = VerifyKey { bytes: [23u8; 32] };

fn pinned(pin: VerifyKey) -> PinnedCut {
    PinnedCut { pin, own: OWN, revoked_ids: Vec::new(), revoked_keys: Vec::new() }
}

#[test]
fn revoking_a_self_anchored_slip_cuts_its_live_session() {
    let mut chains = AdmittedChains::new();
    record(&mut chains, cap(OWN, 1, Expiry::Never));
    assert_eq!(cuts(&pinned(OLD_ROOT), &chains, at(0)), None);
    let oracle = PinnedCut { revoked_ids: vec![id(1)], ..pinned(OLD_ROOT) };
    assert_eq!(cuts(&oracle, &chains, at(0)), Some(Cut::Recalled));
}

#[test]
fn a_pin_change_cuts_sessions_of_the_old_root() {
    let mut chains = AdmittedChains::new();
    record(&mut chains, cap(OLD_ROOT, 1, Expiry::Never));
    assert_eq!(cuts(&pinned(OLD_ROOT), &chains, at(0)), None);
    assert_eq!(cuts(&pinned(NEW_ROOT), &chains, at(0)), Some(Cut::Untrusted));
}

#[test]
fn a_fleet_grant_session_survives_the_sweep() {
    // The fleet root is never the pin, so were the badge taken for an anchor the sweep would cut.
    let fleet = VerifyKey { bytes: [24u8; 32] };
    let mut chains = AdmittedChains::new();
    chains
        .record_all(
            DIALER,
            &vec![cap(OLD_ROOT, 1, Expiry::Never), cap(fleet, 2, Expiry::Never)],
        )
        .expect("under the ceiling");
    assert_eq!(chains.anchors(), &vec![OLD_ROOT]);
    assert_eq!(chains.roots().len(), 2);
    assert_eq!(cuts(&pinned(OLD_ROOT), &chains, at(0)), None);
}

#[test]
fn a_session_mixing_an_old_pin_stream_and_a_self_slip_is_cut_on_pin_change() {
    let mut chains = AdmittedChains::new();
    record(&mut chains, cap(OLD_ROOT, 1, Expiry::Never));
    record(&mut chains, cap(OWN, 2, Expiry::Never));
    assert_eq!(cuts(&pinned(OLD_ROOT), &chains, at(0)), None);
    assert_eq!(
        cuts(&pinned(NEW_ROOT), &chains, at(0)),
        Some(Cut::Untrusted),
        "a still-trusted anchor does not carry a session whose other anchor lost its trust"
    );
}

#[test]
fn a_revoked_peer_key_cuts_its_open_session() {
    let mut chains = AdmittedChains::new();
    record(&mut chains, cap(OLD_ROOT, 1, Expiry::Never));
    let oracle = PinnedCut { revoked_keys: vec![DIALER], ..pinned(OLD_ROOT) };
    assert_eq!(cuts(&oracle, &chains, at(0)), Some(Cut::PeerRevoked));
}

#[test]
fn the_default_oracle_trusts_every_anchor() {
    let store = Latch { disabled: Vec::new(), inner: Denylist { revoked: Vec::new() } };
    for key in [SIGNET, OLD_ROOT, OWN] {
        assert!(store.trusts(&key), "the default trusts every anchor");
        assert!(!store.revoked_peer(&key), "and revokes no peer");
    }
    let mut chains = AdmittedChains::new();
    record(&mut chains, cap(SIGNET, 1, Expiry::Never));
    assert_eq!(cuts(&store, &chains, at(1_000_000)), None);
}

/// An oracle with fixed answers, for proving what a wrapper around it forwards.
struct Fixed {
    trusts: bool,
    revoked_peer: bool,
}

impl LiveCuts for Fixed {
    fn cuts(&self, _chains: &AdmittedChains) -> bool {
        false
    }

    fn trusts(&self, _anchor: &VerifyKey) -> bool {
        self.trusts
    }

    fn revoked_peer(&self, _peer: &VerifyKey) -> bool {
        self.revoked_peer
    }
}

/// Whether a member session is cut by a shared oracle, and by a latch over one.
fn over(oracle: Fixed) -> bool {
    let mut chains = AdmittedChains::new();
    record(&mut chains, cap(OLD_ROOT, 1, Expiry::Never));
    let shared = Arc::new(oracle);
    let latched = Latch { disabled: Vec::new(), inner: Arc::clone(&shared) };
    let cut = cuts(&shared, &chains, at(0)).is_some();
    assert_eq!(cuts(&latched, &chains, at(0)).is_some(), cut, "a latch forwards alike");
    cut
}

#[test]
fn arc_live_cuts_forwards_trusts() {
    assert!(
        over(Fixed { trusts: false, revoked_peer: false }),
        "an Arc over an oracle that trusts no anchor cuts as the oracle does"
    );
    assert!(!over(Fixed { trusts: true, revoked_peer: false }));
}

#[test]
fn arc_live_cuts_forwards_revoked_peer() {
    assert!(
        over(Fixed { trusts: true, revoked_peer: true }),
        "an Arc over an oracle that revokes the peer cuts as the oracle does"
    );
}

#[test]
fn a_verdict_names_the_first_cause() {
    assert_eq!(verdict(false, false, false, false), None);
    assert_eq!(verdict(true, true, true, true), Some(Cut::Recalled));
    assert_eq!(verdict(false, true, true, true), Some(Cut::Untrusted));
    assert_eq!(verdict(false, false, true, true), Some(Cut::PeerRevoked));
    assert_eq!(verdict(false, false, false, true), Some(Cut::Expired));
    let lines = [Cut::Recalled, Cut::Untrusted, Cut::PeerRevoked, Cut::Expired]
        .map(|cut| cut.message());
    for (index, line) in lines.iter().enumerate() {
        assert!(!lines[index + 1..].contains(line));
    }
}

#[test]
fn the_order_of_grants_does_not_matter() {
    let grants = [Some(at(30)), None, Some(at(10)), None, Some(at(20))];
    let forward = grants.iter().fold(Lease::Unruled, |lease, grant| lease.extend(*grant));
    let backward = grants.iter().rev().fold(Lease::Unruled, |lease, grant| lease.extend(*grant));
    assert_eq!(forward, backward);
    assert_eq!(forward, Lease::Until(at(10)));
    assert!(!forward.lapsed(at(10)) && forward.lapsed(at(10) + 1));
    assert!(!Lease::Unbounded.lapsed(i128::MAX));
    assert_eq!(Lease::of_stream(&vec![cap(SIGNET, 1, Expiry::At(5))]), Ok(Some(5)));
}

#[test]
fn a_key_is_kept_once_however_many_streams_ride_it() {
    let mut chains = AdmittedChains::new();
    for number in 0..5 {
        let badge = cap(OWN, 100 + number, Expiry::Never);
        let ruled = vec![cap(SIGNET, number, Expiry::Never), badge];
        chains.record_all(DIALER, &ruled).expect("under the ceiling");
    }
    assert_eq!(chains.roots(), &vec![SIGNET, OWN]);
    assert_eq!(chains.anchors(), &vec![SIGNET]);
    assert_eq!(chains.len(), 10);
}

#[test]
fn recording_again_adds_nothing() {
    let mut chains = AdmittedChains::new();
    for _ in 0..3 {
        record(&mut chains, cap(SIGNET, 1, Expiry::Never));
    }
    assert_eq!(chains.len(), 1);
    assert_eq!(chains.roots(), &vec![SIGNET]);
    assert_eq!(chains.anchors(), &vec![SIGNET]);
    assert_eq!(chains.peer(), Some(DIALER));
}

#[test]
fn a_later_grant_carries_no_session_past_an_earlier_recall() {
    let mut chains = AdmittedChains::new();
    record(&mut chains, cap(SIGNET, 1, Expiry::At(at(10))));
    record(&mut chains, cap(OWN, 2, Expiry::Never));
    chains.record_proven(DIALER);
    assert_eq!(chains.roots(), &vec![SIGNET, OWN]);
    assert_eq!(chains.anchors(), &vec![SIGNET, OWN]);
    assert_eq!(cuts(&Denylist { revoked: vec![id(1)] }, &chains, at(0)), Some(Cut::Recalled));
    assert_eq!(cuts(&Denylist { revoked: Vec::new() }, &chains, at(11)), Some(Cut::Expired));
}

#[test]
fn an_unwired_cut_keeps_nothing() {
    let serving = serving(&["demo=echo:"]);
    let mut chains = AdmittedChains::new();
    let facts = StreamFacts {
        opening: Opening::Request { service: "demo".to_owned(), named: true },
        admission: admission(cap(SIGNET, 1, Expiry::Unreadable), Admission::Slip),
        enabled: true,
        source: Ok(()),
    };
    let answer =
        serve_request(&serving, &mut PublicSession::new(), &mut chains, false, PEER, facts);
    assert!(matches!(answer, Answer::Serve { .. }));
    assert_eq!(chains.len(), 0);
    // What is kept of an admitted stream once a cut is wired.
    let stream = rule_stream(
        &serving,
        &mut PublicSession::new(),
        PEER,
        admission(cap(SIGNET, 7, Expiry::Never), Admission::Slip),
        "demo",
    )
    .ok()
    .expect("admitted");
    assert!(keep(&mut chains, &stream).is_ok());
    assert_eq!(chains.ids(), &vec![id(7)]);
    let refused = Facts {
        ruling: Err(GateRefusal::Revoked),
        ..admission(cap(SIGNET, 7, Expiry::Never), Admission::Slip)
    };
    assert!(rule_stream(&serving, &mut PublicSession::new(), PEER, refused, "demo").is_err());
}
