//! The serving-proof wall, the open-safety markers, and the typed door: minting refuses an open witness
//! for a `Never` handler, delegation preserves the witness and the ceiling, narrowing is the one way to a
//! rooted token, and the sealed ceiling forwards through the adapter unchanged.

use core::marker::PhantomData;
use std::sync::Arc;

use tightbeam::bridge::ErasedHandler;
use tightbeam::builtins::{Echo, Forward};
use tightbeam::contract::{Handler, Metering, RootedAdmitted, ServeError, Served};
use tightbeam::gate::{Gate, GateRefusal};
use tightbeam::open_policy::{accepts, Never, OptIn, ProvenOnly, PublicUse};
use tightbeam::service::{preamble_failed, read_preamble, Serve, Service};
use tightbeam::wire::{Frame, WireError};
use tightbeam::witness::{Admission, Admitted, Origin, Refusal, VerifyKey};

struct GatedNoop;
impl Handler for GatedNoop {
    type Exposure = Never;
}

struct OpenNoop;
impl Handler for OpenNoop {
    type Exposure = OptIn;
}

const PEER: VerifyKey = VerifyKey { bytes: [9u8; 32] };

/// Mint a witness through the only mint there is: a gate's own admission. `rooted` picks a rooted gate with a member
/// badge against an open gate.
fn witness(rooted: bool) -> Admitted {
    if rooted {
        Gate::Rooted { root: VerifyKey { bytes: [7u8; 32] } }
            .admit_witnessed(PEER, Ok(Admission::Member))
            .ok()
            .expect("a member badge admits")
    } else {
        Gate::Open
            .admit_witnessed(PEER, Ok(Admission::Slip))
            .ok()
            .expect("an open gate admits anyone")
    }
}

fn mint<H: Handler>(handler: &H, admitted: Admitted) -> Result<Served<H>, Refusal> {
    handler.prepare(admitted).map(|prepared| prepared.serve())
}

#[test]
fn a_rooted_witness_mints_a_never_proof_and_an_open_one_does_not() {
    assert!(
        mint(&GatedNoop, witness(true)).is_ok(),
        "a rooted witness mints a Never handler's proof"
    );
    assert!(
        mint(&GatedNoop, witness(false)).is_err(),
        "an open witness cannot mint a Never handler's proof (fail-closed)"
    );
    assert!(
        mint(&OpenNoop, witness(false)).is_ok(),
        "an open witness mints an OptIn handler's proof"
    );
}

#[test]
fn delegation_preserves_the_witness_and_the_ceiling() {
    let rooted = mint(&GatedNoop, witness(true)).ok().expect("rooted mints");
    assert!(
        rooted.delegate::<GatedNoop>().is_ok(),
        "a rooted Never proof delegates to a Never inner (reflexive)"
    );
    let rooted = mint(&GatedNoop, witness(true)).ok().expect("rooted mints");
    let widened = rooted.delegate::<OpenNoop>();
    assert!(
        widened.is_ok(),
        "a rooted Never proof delegates to an OptIn inner (widening)"
    );
    let widened = widened.ok().expect("delegated");
    assert_eq!(widened.peer(), PEER);
    assert_eq!(widened.origin(), Origin::Rooted);
    assert!(widened.is_member());
    let open = mint(&OpenNoop, witness(false)).ok().expect("open mints");
    assert!(
        open.delegate::<OpenNoop>().is_ok(),
        "an open OptIn proof delegates to an OptIn inner"
    );
}

#[test]
fn a_serve_error_says_what_its_cause_says() {
    assert_eq!(ServeError::OpenAdmission.message(), "this service requires a rooted admission");
    let refusal = Refusal::BadRequest { detail: "no such method".to_owned() };
    assert_eq!(ServeError::Refused(refusal).message(), "bad request: no such method");
    assert_eq!(ServeError::Io { detail: "early eof".to_owned() }.message(), "early eof");
}

#[test]
fn into_rooted_narrows_a_rooted_proof_and_refuses_an_open_one() {
    let rooted: RootedAdmitted = mint(&GatedNoop, witness(true))
        .ok()
        .expect("rooted mints")
        .into_rooted()
        .ok()
        .expect("a rooted witness narrows");
    assert_eq!(rooted.peer(), PEER);
    assert_eq!(rooted.kind(), Admission::Member);
    assert!(rooted.is_member());
    let open = mint(&OpenNoop, witness(false)).ok().expect("open mints").into_rooted();
    assert!(
        matches!(open, Err(ServeError::OpenAdmission)),
        "an open witness cannot narrow to a rooted token"
    );
    let admitted = mint(&GatedNoop, witness(true))
        .ok()
        .expect("rooted mints")
        .into_rooted()
        .ok()
        .expect("a rooted witness narrows")
        .into_admitted();
    assert_eq!(
        admitted.peer(),
        PEER,
        "the conversion preserves the admitted peer"
    );
}

fn open_safe<P: PublicUse>() -> bool {
    P::OPEN_SAFE
}

#[test]
fn never_is_not_open_safe_and_optin_is() {
    assert!(!open_safe::<Never>());
    assert!(open_safe::<OptIn>());
    assert!(!open_safe::<ProvenOnly>());
}

#[test]
fn a_public_use_marker_rides_in_a_send_wrapper() {
    fn ride<P: PublicUse>() {
        struct Wrapper<P: PublicUse>(PhantomData<P>);
        fn assert_send_sync_static<T: Send + Sync + 'static>() {}
        assert_send_sync_static::<Wrapper<P>>();
    }
    ride::<Never>();
    ride::<OptIn>();
    ride::<ProvenOnly>();
}

#[test]
fn each_marker_takes_its_own_origins() {
    let rows = [
        (Origin::Rooted, true, true, false),
        (Origin::Open, false, true, false),
        (Origin::Proven, false, false, true),
    ];
    for (origin, never, optin, proven) in rows {
        assert_eq!(accepts::<Never>(origin), never, "{origin:?}");
        assert_eq!(accepts::<OptIn>(origin), optin, "{origin:?}");
        assert_eq!(accepts::<ProvenOnly>(origin), proven, "{origin:?}");
    }
}

/// The smallest honest control preamble: four magic bytes and a one-byte selector, fixed width, so the
/// head IS the whole frame.
#[derive(Debug, PartialEq, Eq)]
struct Open(u8);

impl Frame for Open {
    const MAX: usize = 5;
    const HEAD: usize = 5;

    fn rest(_head: &[u8]) -> usize {
        0
    }

    fn encode(&self, out: &mut Vec<u8>) {
        out.extend_from_slice(b"TYP1");
        out.push(self.0);
    }

    fn decode(bytes: &[u8]) -> Result<Self, WireError> {
        if bytes[..4] != *b"TYP1" {
            return Err(WireError::malformed(format!("unknown selector {:#04x}", bytes[0])));
        }
        Ok(Self(bytes[4]))
    }
}

/// A typed service with a legitimate public use.
struct OpenTyped;
impl Service for OpenTyped {
    type Exposure = OptIn;
    type Request = Open;

    fn metering(&self) -> Metering {
        Metering::Metered
    }
}

/// A typed service with NO legitimate public use: the ceiling an adapter must not soften.
struct GatedTyped;
impl Service for GatedTyped {
    type Exposure = Never;
    type Request = Open;
}

/// A RAW handler: no frame of its own.
struct RawSplice;
impl Handler for RawSplice {
    type Exposure = Never;
}

const _: () = assert!(<<Serve<OpenTyped> as Handler>::Exposure as PublicUse>::OPEN_SAFE);
const _: () = assert!(!<<Serve<GatedTyped> as Handler>::Exposure as PublicUse>::OPEN_SAFE);
const _: () = assert!(!<<RawSplice as Handler>::Exposure as PublicUse>::OPEN_SAFE);

#[test]
fn a_typed_service_and_a_raw_handler_share_one_erased_store() {
    let store: Vec<Arc<dyn ErasedHandler>> = vec![
        Arc::new(Serve(OpenTyped)),
        Arc::new(Serve(GatedTyped)),
        Arc::new(RawSplice),
    ];

    assert!(store[0].open_safe(), "the typed OptIn service is openable");
    assert!(!store[1].open_safe(), "the typed Never service is not");
    assert!(!store[2].open_safe(), "and neither is the raw handler");
    assert_eq!(store[0].metering(), Metering::Metered);
    assert_eq!(
        store[1].metering(),
        Metering::Unmetered,
        "the trait default rides through the adapter, fail-loud"
    );
}

#[test]
fn the_sealed_ceiling_forwards_through_the_adapter() {
    let gated = Serve(GatedTyped);
    assert!(
        matches!(gated.prepare(witness(false)), Err(Refusal::NotAdmitted)),
        "an open witness is refused for a typed Never service, before any success"
    );
    assert!(
        gated.prepare(witness(true)).is_ok(),
        "a rooted witness mints the typed Never service's proof"
    );
    assert!(
        Serve(OpenTyped).prepare(witness(false)).is_ok(),
        "an open witness mints a typed OptIn service's proof"
    );
    assert!(
        matches!(RawSplice.prepare(witness(false)), Err(Refusal::NotAdmitted)),
        "the raw handler's ceiling is refused the same way"
    );
}

#[test]
fn the_service_receives_the_decoded_request_and_the_raw_halves() {
    const PAYLOAD: &[u8] = b"the body this service would splice";
    let mut stream = Vec::new();
    Open(9).encode(&mut stream);
    stream.extend_from_slice(PAYLOAD);

    assert!(
        Serve(OpenTyped).prepare(witness(false)).is_ok(),
        "an open witness mints an OptIn proof"
    );
    let mut reader = stream.as_slice();
    let request = read_preamble::<OpenTyped>(&mut reader)
        .ok()
        .expect("the typed service serves the stream");
    assert_eq!(request, Open(9), "the service received its request DECODED, not as bytes");
    assert_eq!(
        reader, PAYLOAD,
        "and the raw reader was positioned at the payload's first byte"
    );
}

#[test]
fn an_unreadable_preamble_never_reaches_the_service() {
    let stream = b"XXXX\x09".to_vec();
    let served = read_preamble::<OpenTyped>(&mut stream.as_slice());
    assert!(
        matches!(&served, Err(ServeError::Io { detail }) if detail == "unknown selector 0x58"),
        "a foreign preamble fails the stream"
    );
    let cut = read_preamble::<OpenTyped>(&mut &b"TYP"[..]);
    assert!(matches!(cut, Err(ServeError::Io { .. })), "and so does a cut one");
    assert!(matches!(
        preamble_failed(&WireError::TooLong { declared: 6, max: 5 }),
        ServeError::Io { detail } if detail == "frame is 6 bytes, over this wire's 5 byte cap"
    ));
}

#[test]
fn the_builtins_declare_their_ceiling_and_their_metering() {
    let echo = Echo.freeze();
    assert!(echo.ceiling.open_safe);
    assert_eq!(echo.metering, Metering::Metered);
    let forward = Forward { addr: "127.0.0.1:80".to_owned() }.freeze();
    assert!(forward.ceiling.open_safe);
    assert_eq!(forward.metering, Metering::Unmetered);
    assert!(GatedNoop.accepts(Origin::Rooted));
    assert!(!GatedNoop.accepts(Origin::Open));
}

#[test]
fn an_open_gate_admits_anyone_and_any_other_as_ruled() {
    let open = Gate::Open.admit_witnessed(PEER, Err(GateRefusal::Missing)).ok().expect("open");
    assert_eq!(open.origin(), Origin::Open);
    assert_eq!(open.kind(), Admission::Slip);
    assert!(!open.is_member());
    let gate = Gate::Rooted { root: VerifyKey { bytes: [7u8; 32] } };
    assert!(matches!(
        gate.admit_witnessed(PEER, Err(GateRefusal::Missing)),
        Err(GateRefusal::Missing)
    ));
    let slip = gate.admit_witnessed(PEER, Ok(Admission::Slip)).ok().expect("a slip");
    assert_eq!(slip.origin(), Origin::Rooted);
    assert!(!slip.is_member());
}
