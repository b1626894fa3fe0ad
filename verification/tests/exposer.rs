//! The exposer: the door interlocks, the banner manifest it renders, and the transport it may be armed
//! over.

use tightbeam::catalog::Posture;
use tightbeam::contract::{Handler, Metering};
use tightbeam::exposer::{Exposer, NotProvable};
use tightbeam::gate::{resolve_gate, Gate, NoSignet, PeerProof};
use tightbeam::open_policy::{Never, OptIn, ProvenOnly};
use tightbeam::overlay::{
    ExposeError, PublicRequest, PublicUnsafeRequest, SourceFact, SourceKind,
};
use tightbeam::services::{Access, ServeEntry, ServiceName, Services};
use tightbeam::target::{RawSource, RawStream, Target, TargetKind};
use tightbeam::witness::VerifyKey;

struct OpenNoop;
impl Handler for OpenNoop {
    type Exposure = OptIn;
}

struct GatedNoop;
impl Handler for GatedNoop {
    type Exposure = Never;
}

struct ProvenNoop;
impl Handler for ProvenNoop {
    type Exposure = ProvenOnly;
}

/// A legitimately-public responder that also declares itself unmetered.
struct AmplifierNoop;
impl Handler for AmplifierNoop {
    type Exposure = OptIn;
    fn metering(&self) -> Metering {
        Metering::Unmetered
    }
}

/// A handler that declares itself metered.
struct MeteredNoop;
impl Handler for MeteredNoop {
    type Exposure = OptIn;
    fn metering(&self) -> Metering {
        Metering::Metered
    }
}

fn family_gate() -> Gate {
    Gate::Rooted { root: VerifyKey { bytes: [7u8; 32] } }
}

fn services(texts: &[&str]) -> Services {
    let entries: Vec<ServeEntry> = texts
        .iter()
        .map(|text| ServeEntry { text: (*text).to_owned(), named: true })
        .collect();
    Services::parse(&entries, false).expect("entries parse")
}

fn with_handler<H: Handler>(services: Services, name: &str, handler: &H) -> Services {
    services
        .bind_handler(ServiceName::new(name.to_owned()), handler, Access::Family)
        .expect("the name binds")
}

fn public(names: &[&str]) -> PublicRequest {
    PublicRequest::new(names.iter().map(|name| (*name).to_owned()).collect())
}

fn public_unsafe(names: &[&str]) -> PublicUnsafeRequest {
    PublicUnsafeRequest::new(names.iter().map(|name| (*name).to_owned()).collect())
}

fn facts(rows: &[(&str, SourceKind)]) -> Vec<SourceFact> {
    rows.iter()
        .map(|(name, kind)| SourceFact {
            name: (*name).to_owned(),
            kind: *kind,
            path: format!("/work/{name}"),
        })
        .collect()
}

/// The path of the raw stream a name serves, made absolute.
fn absolute(services: &Services, name: &str) -> String {
    let route = services.get(name).expect("the name is served");
    match &route.target {
        Target::RawStream(RawStream::File { path } | RawStream::Fifo { path, .. }) => {
            std::path::absolute(path).expect("the path is not empty").display().to_string()
        }
        _ => String::new(),
    }
}

/// Prove with nothing standing at any raw stream's path yet.
fn prove(
    services: Services,
    gate: Gate,
    public: PublicRequest,
    public_unsafe: PublicUnsafeRequest,
) -> Result<Exposer, ExposeError<String>> {
    let missing: Vec<SourceFact> = services
        .names()
        .into_iter()
        .map(|name| SourceFact {
            path: absolute(&services, &name),
            name,
            kind: SourceKind::Missing,
        })
        .collect();
    Exposer::prove(services, gate, public, public_unsafe, missing)
}

fn refused(proven: Result<Exposer, ExposeError<String>>) -> ExposeError<String> {
    match proven {
        Ok(_) => panic!("the table must be refused"),
        Err(error) => error,
    }
}

#[test]
fn the_manifest_declares_posture_kind_and_metering() {
    let services = with_handler(
        with_handler(services(&["web=tcp:127.0.0.1:80"]), "fast", &AmplifierNoop),
        "quiet",
        &MeteredNoop,
    );
    let exposer = prove(services, family_gate(), public(&["fast"]), PublicUnsafeRequest::none())
        .ok()
        .expect("assembles");

    let manifest = exposer.manifest();
    let names: Vec<&str> = manifest.iter().map(|entry| entry.name.as_str()).collect();
    assert_eq!(names, ["fast", "quiet", "web"], "manifest is name-sorted");

    let fast = &manifest[0];
    assert_eq!(fast.posture, Posture::Open, "`fast` was opened per-service");
    assert_eq!(fast.kind, TargetKind::Handler);
    assert_eq!(
        fast.metering,
        Some(Metering::Unmetered),
        "the opened unmetered responder declares its caveat"
    );

    let quiet = &manifest[1];
    assert_eq!(quiet.posture, Posture::Gated, "`quiet` stays gated");
    assert_eq!(
        quiet.metering,
        Some(Metering::Metered),
        "the caveat is the handler's, shown independent of posture"
    );

    let web = &manifest[2];
    assert_eq!(web.kind, TargetKind::Handler);
    assert_eq!(web.posture, Posture::Gated);
    assert!(web.raw_source.is_none(), "a forward has no raw source to warn about");
}

#[test]
fn metering_defaults_to_unmetered_and_reads_the_override() {
    let services = with_handler(
        with_handler(services(&["web=tcp:127.0.0.1:80"]), "plain", &OpenNoop),
        "bounded",
        &MeteredNoop,
    );
    let exposer = prove(
        services,
        Gate::Open,
        public(&["plain", "bounded"]),
        PublicUnsafeRequest::none(),
    )
    .ok()
    .expect("both are OptIn, so an open gate builds");

    let manifest = exposer.manifest();
    let plain = manifest
        .iter()
        .find(|entry| entry.name == "plain")
        .expect("`plain` is in the manifest");
    assert_eq!(
        plain.metering,
        Some(Metering::Unmetered),
        "the trait default is the fail-loud Unmetered"
    );
    let bounded = manifest
        .iter()
        .find(|entry| entry.name == "bounded")
        .expect("`bounded` is in the manifest");
    assert_eq!(bounded.metering, Some(Metering::Metered));
}

#[test]
fn a_public_gate_over_a_lossy_source_is_refused_at_the_same_door() {
    let lossy = services(&["cam=stdin:+lossy"]);
    assert!(
        prove(lossy, Gate::Open, PublicRequest::none(), PublicUnsafeRequest::none()).is_err(),
        "an open gate over a `+lossy` raw-stream source must be refused"
    );
}

#[test]
fn an_exposer_refuses_an_open_gate_over_a_gated_only_handler() {
    let gated = with_handler(Services::new(), "a", &GatedNoop);
    assert!(
        prove(gated, Gate::Open, PublicRequest::none(), PublicUnsafeRequest::none()).is_err(),
        "an open gate over a gated-only handler must be refused"
    );
    let web = services(&["web=tcp:127.0.0.1:80"]);
    assert!(
        prove(web, Gate::Open, PublicRequest::none(), PublicUnsafeRequest::none()).is_ok(),
        "an open gate over a plain forward is allowed"
    );
}

#[test]
fn a_member_only_route_under_an_open_gate_is_refused_at_construction() {
    let services =
        services(&["web=tcp:127.0.0.1:80"]).member_only("web").expect("`web` is served");
    let error =
        refused(prove(services, Gate::Open, PublicRequest::none(), PublicUnsafeRequest::none()));
    let message = error.message();
    assert!(
        message.contains("member-only") && message.contains("web"),
        "the refusal names the route and the contradiction: {message:?}"
    );
}

#[test]
fn a_member_only_route_named_public_is_refused_at_construction() {
    let services =
        services(&["web=tcp:127.0.0.1:80"]).member_only("web").expect("`web` is served");
    let error =
        refused(prove(services, family_gate(), public(&["web"]), PublicUnsafeRequest::none()));
    let message = error.message();
    assert!(
        message.contains("member-only") && message.contains("web"),
        "the refusal names the route and the contradiction: {message:?}"
    );
}

#[test]
fn a_member_only_raw_stream_named_public_unsafe_is_refused_at_construction() {
    let services = services(&["logs=file:/tmp/tb-member-unsafe"])
        .member_only("logs")
        .expect("`logs` is served");
    let error =
        refused(prove(services, family_gate(), PublicRequest::none(), public_unsafe(&["logs"])));
    let message = error.message();
    assert!(
        message.contains("member-only") && message.contains("logs"),
        "the refusal names the route and the contradiction: {message:?}"
    );
}

#[test]
fn an_exposer_refuses_a_public_raw_stream() {
    let secret = services(&["leak=file:/etc/hosts"]);
    assert!(
        prove(secret, Gate::Open, PublicRequest::none(), PublicUnsafeRequest::none()).is_err(),
        "an open gate over a file:/fifo: source with no unsafe opt-in must be refused"
    );
    let web = services(&["web=tcp:127.0.0.1:80"]);
    assert!(
        prove(web, Gate::Open, PublicRequest::none(), PublicUnsafeRequest::none()).is_ok(),
        "an open gate over a host:port forward is still allowed"
    );
}

#[test]
fn an_exposer_admits_a_public_raw_stream_named_in_public_unsafe() {
    let exposer = prove(
        services(&["logs=file:/tmp/tb-public-unsafe-admits"]),
        Gate::Open,
        PublicRequest::none(),
        public_unsafe(&["logs"]),
    )
    .ok()
    .expect("a raw stream named in the unsafe set builds under an open gate");

    let manifest = exposer.manifest();
    let logs = manifest
        .iter()
        .find(|entry| entry.name == "logs")
        .expect("`logs` is in the manifest");
    assert_eq!(logs.posture, Posture::Open, "the unsafe-open raw stream reads Open");
    assert_eq!(logs.kind, TargetKind::RawStream, "it is a raw stream");
    let Some(RawSource::Path(named)) = &logs.raw_source else {
        panic!("a file: raw stream declares its path");
    };
    assert!(
        std::path::Path::new(named).is_absolute(),
        "the banner source is an absolute path, got {named:?}"
    );
}

#[test]
fn the_banner_names_a_raw_source_where_it_was_found() {
    let table = || services(&["cam=fifo:run/cam", "logs=file:srv/log", "typed=file:srv/typed"]);
    let source = |exposer: &Exposer, name: &str| {
        let manifest = exposer.manifest();
        let row = manifest.into_iter().find(|entry| entry.name == name).expect("the name is told");
        match row.raw_source {
            Some(RawSource::Path(path)) => path,
            _ => panic!("`{name}` declares its path"),
        }
    };
    let exposer = Exposer::prove(
        table(),
        family_gate(),
        PublicRequest::none(),
        PublicUnsafeRequest::none(),
        facts(&[("logs", SourceKind::File), ("cam", SourceKind::Fifo), ("logs", SourceKind::File)]),
    )
    .ok()
    .expect("a gated table proves");
    assert_eq!(source(&exposer, "logs"), "/work/logs", "not the relative path it was typed as");
    assert_eq!(source(&exposer, "cam"), "/work/cam");
    assert_eq!(source(&exposer, "typed"), "srv/typed", "what nothing was found about stands");

    let resolved = prove(
        services(&["logs=file:srv/log"]),
        family_gate(),
        PublicRequest::none(),
        PublicUnsafeRequest::none(),
    )
    .ok()
    .expect("a gated table proves");
    let named = source(&resolved, "logs");
    assert!(std::path::Path::new(&named).is_absolute() && named.ends_with("/srv/log"), "{named}");
}

#[test]
fn echo_is_admitted_under_plain_public_with_no_unsafe_opt_in() {
    let per_service = prove(
        services(&["demo=echo:"]),
        family_gate(),
        public(&["demo"]),
        PublicUnsafeRequest::none(),
    )
    .ok()
    .expect("echo is safe public, so a plain public gate opens it with no unsafe opt-in");

    let manifest = per_service.manifest();
    let demo = manifest
        .iter()
        .find(|entry| entry.name == "demo")
        .expect("`demo` is in the manifest");
    assert_eq!(demo.posture, Posture::Open, "the opened echo reads Open");
    assert_eq!(demo.kind, TargetKind::Handler, "it is a bound handler");
    assert!(
        demo.raw_source.is_none(),
        "echo exposes no raw source, so there is nothing to warn about"
    );
    assert_eq!(
        demo.metering,
        Some(Metering::Metered),
        "echo reflects the caller's own bytes (symmetric), so it does not carry the unmetered caveat"
    );

    assert!(
        prove(
            services(&["demo=echo:"]),
            Gate::Open,
            PublicRequest::none(),
            PublicUnsafeRequest::none(),
        )
        .is_ok(),
        "a node-wide open gate over an echo reflector builds with no unsafe opt-in"
    );
}

#[test]
fn public_unsafe_over_a_device_or_directory_is_refused_at_serve() {
    let via_device = refused(Exposer::prove(
        services(&["drain=file:/dev/null"]),
        Gate::Open,
        PublicRequest::none(),
        public_unsafe(&["drain"]),
        facts(&[("drain", SourceKind::CharacterDevice)]),
    ));
    assert!(
        via_device.message().contains("character device"),
        "the serve-time refusal names the device type: {}",
        via_device.message()
    );

    let via_dir = refused(Exposer::prove(
        services(&["logs=file:/tmp"]),
        Gate::Open,
        PublicRequest::none(),
        public_unsafe(&["logs"]),
        facts(&[("logs", SourceKind::Directory)]),
    ));
    assert!(
        via_dir.message().contains("directory"),
        "the serve-time refusal names the directory type: {}",
        via_dir.message()
    );
}

#[test]
fn public_unsafe_naming_a_handler_or_forward_is_redirected() {
    let handler = with_handler(Services::new(), "ping", &OpenNoop);
    let via_handler =
        refused(prove(handler, family_gate(), PublicRequest::none(), public_unsafe(&["ping"])))
            .message();
    assert!(
        via_handler.contains("not a raw byte source") && via_handler.contains("public set"),
        "a handler named unsafe is redirected to the public overlay: {via_handler}"
    );

    let forward = services(&["web=tcp:127.0.0.1:80"]);
    let via_forward =
        refused(prove(forward, family_gate(), PublicRequest::none(), public_unsafe(&["web"])))
            .message();
    assert!(
        via_forward.contains("not a raw byte source") && via_forward.contains("public set"),
        "a forward named unsafe is redirected to the public overlay: {via_forward}"
    );
}

#[test]
fn public_unsafe_naming_an_unserved_name_is_a_parse_error() {
    let error = refused(prove(
        services(&["cam=stdin:"]),
        family_gate(),
        PublicRequest::none(),
        public_unsafe(&["nope"]),
    ));
    assert!(
        error.message().contains("no service named"),
        "an unserved unsafe name is refused with the served list: {}",
        error.message()
    );
}

#[test]
fn public_unsafe_alone_builds_and_the_toggle_interlock_stays_a_design_lock() {
    assert!(
        prove(
            services(&["logs=file:/tmp/tb-public-unsafe-designlock"]),
            Gate::Open,
            PublicRequest::none(),
            public_unsafe(&["logs"]),
        )
        .is_ok(),
        "an unsafe raw-stream set alone builds"
    );
}

#[test]
fn an_exposer_refuses_a_public_stdin() {
    let piped = services(&["cam=stdin:"]);
    assert!(
        prove(piped, Gate::Open, PublicRequest::none(), PublicUnsafeRequest::none()).is_err(),
        "an open gate over a stdin: source with no unsafe opt-in must be refused"
    );
}

#[test]
fn the_public_proof_refuses_a_never_handler_a_raw_stream_and_an_unexposed_name() {
    let table = || {
        with_handler(
            with_handler(services(&["logs=file:/etc/hosts"]), "ssh", &GatedNoop),
            "speed",
            &OpenNoop,
        )
    };

    let message =
        refused(prove(table(), family_gate(), public(&["ssh"]), PublicUnsafeRequest::none()))
            .message();
    assert!(
        message.contains("ssh") && message.contains("gated"),
        "the refusal names the service and leads with the fix: {message:?}"
    );
    for marker in ["Never", "OptIn"] {
        assert!(
            !message.contains(marker),
            "the refusal must not leak the marker name {marker:?}: {message:?}"
        );
    }

    let raw_message =
        refused(prove(table(), family_gate(), public(&["logs"]), PublicUnsafeRequest::none()))
            .message();
    assert!(
        raw_message.contains("raw byte source") && raw_message.contains("unsafe raw-stream set"),
        "a raw stream in the safe overlay is redirected to the unsafe raw-stream set: {raw_message:?}"
    );
    assert_ne!(
        raw_message, message,
        "the raw-stream redirect is a distinct message from the Never-handler hard refusal"
    );

    let unknown =
        refused(prove(table(), family_gate(), public(&["nope"]), PublicUnsafeRequest::none()));
    assert!(
        unknown.message().contains("no service named"),
        "an unexposed public name is refused with the served list: {}",
        unknown.message()
    );
}

#[test]
fn every_expose_error_has_its_table() {
    let raw = || services(&["logs=file:/srv/logs"]);
    let member_raw = || raw().member_only("logs").expect("served");
    let proven = || {
        Services::new()
            .bind_handler(
                ServiceName::new("id".to_owned()),
                &ProvenNoop,
                Access::ProvenOnly,
            )
            .expect("binds")
    };
    let none = PublicRequest::none;
    let none_unsafe = PublicUnsafeRequest::none;
    assert!(matches!(
        refused(prove(raw(), Gate::Open, none(), none_unsafe())),
        ExposeError::RawSource { name } if name == "logs"
    ));
    assert!(matches!(
        refused(prove(member_raw(), family_gate(), none(), public_unsafe(&["logs"]))),
        ExposeError::MemberUnsafe { name } if name == "logs"
    ));
    assert!(matches!(
        refused(prove(
            services(&["web=tcp:127.0.0.1:80"]).member_only("web").expect("served"),
            Gate::Open,
            none(),
            none_unsafe()
        )),
        ExposeError::MemberUnderOpen { name } if name == "web"
    ));
    assert!(matches!(
        refused(prove(proven(), Gate::Open, none(), none_unsafe())),
        ExposeError::ProvenOnlyUnderOpen { name } if name == "id"
    ));
    assert!(matches!(
        refused(prove(proven(), family_gate(), public(&["id"]), none_unsafe())),
        ExposeError::ProvenOnlyPublic { name } if name == "id"
    ));
    assert!(matches!(
        refused(Exposer::prove(
            raw(),
            family_gate(),
            none(),
            public_unsafe(&["logs"]),
            facts(&[("logs", SourceKind::Socket)])
        )),
        ExposeError::SourceRefused { kind: SourceKind::Socket, .. }
    ));
    assert!(Exposer::prove(
        raw(),
        family_gate(),
        none(),
        public_unsafe(&["logs"]),
        facts(&[("logs", SourceKind::Fifo)])
    )
    .is_ok());
}

#[test]
fn a_raw_source_nobody_looked_at_is_not_opened() {
    let unseen = refused(Exposer::prove(
        services(&["drain=file:/dev/zero", "logs=file:/srv/logs"]),
        family_gate(),
        PublicRequest::none(),
        public_unsafe(&["drain"]),
        facts(&[("logs", SourceKind::File)]),
    ));
    assert!(matches!(&unseen, ExposeError::SourceUnexamined { name } if name == "drain"));
    assert_eq!(
        unseen.message(),
        "`drain` names a path nobody has looked at, so the unsafe raw-stream set will not open it; \
         find out what stands there first"
    );
    let not_opened = Exposer::prove(
        services(&["drain=file:/dev/zero"]),
        family_gate(),
        PublicRequest::none(),
        PublicUnsafeRequest::none(),
        Vec::new(),
    );
    assert!(not_opened.is_ok(), "a gated source needs no such look");
    let stdin = Exposer::prove(
        services(&["cam=stdin:"]),
        family_gate(),
        PublicRequest::none(),
        public_unsafe(&["cam"]),
        Vec::new(),
    );
    assert!(stdin.is_ok(), "standard input stands at no path");
}

#[test]
fn the_overlays_open_disjoint_names() {
    let table = || with_handler(services(&["logs=file:/srv/logs"]), "speed", &OpenNoop);
    let safe = table().prove_public(public(&["speed"])).ok().expect("proves");
    let raw = table()
        .prove_unsafe(public_unsafe(&["logs"]), &facts(&[("logs", SourceKind::File)]))
        .ok()
        .expect("proves");
    assert!(safe.contains("speed") && !safe.contains("logs"));
    assert!(raw.contains("logs") && !raw.contains("speed"));
}

#[test]
fn the_banner_and_the_catalog_tell_one_posture() {
    let table = || with_handler(services(&["web=tcp:127.0.0.1:80"]), "speed", &OpenNoop);
    let catalog = table().catalog(&family_gate(), &public(&["speed"]), &public_unsafe(&[]));
    let exposer = prove(table(), family_gate(), public(&["speed"]), public_unsafe(&[]))
        .ok()
        .expect("proves");
    let banner: Vec<(String, Posture)> = exposer
        .manifest()
        .into_iter()
        .map(|entry| (entry.name, entry.posture))
        .collect();
    let told: Vec<(String, Posture)> = catalog
        .entries()
        .iter()
        .map(|entry| (entry.name.clone(), entry.posture))
        .collect();
    assert_eq!(banner, told);
}

#[test]
fn a_rooted_gate_over_an_announced_transport_refuses_to_arm() {
    let gated = |gate: Gate| {
        prove(
            services(&["web=tcp:127.0.0.1:80"]),
            gate,
            PublicRequest::none(),
            PublicUnsafeRequest::none(),
        )
        .ok()
        .expect("proves")
    };
    let exposer = gated(family_gate());
    let refused = exposer.prove_security(PeerProof::Announced).expect_err("never provable");
    assert_eq!(refused, NotProvable { declared: PeerProof::Announced });
    assert!(refused.message().contains(PeerProof::Announced.label()), "{}", refused.message());
    assert!(exposer.prove_security(PeerProof::Proven).is_ok());
    assert!(exposer.prove_security(PeerProof::InProcess).is_ok());
    // An anchored gate rules on tokens too; an open one needs no proof of the peer.
    assert!(gated(Gate::Anchored { own: VerifyKey { bytes: [1; 32] } })
        .prove_security(PeerProof::Announced)
        .is_err());
    assert!(gated(Gate::Open).prove_security(PeerProof::Announced).is_ok());
}

#[test]
fn an_unprovisioned_node_resolves_no_gate() {
    let root = VerifyKey { bytes: [3; 32] };
    assert_eq!(resolve_gate(Some(root)), Ok(Gate::Rooted { root }));
    assert_eq!(resolve_gate(None), Err(NoSignet));
    assert!(NoSignet.message().contains("signet"));
}
