//! The route table: the `name=target` grammar, the typed bind verbs, the access floor a route carries,
//! and the catalog the router assembles.

use tightbeam::bridge::ErasedHandler;
use tightbeam::builtins::{Echo, Forward};
use tightbeam::catalog::{Posture, ServiceCatalog};
use tightbeam::contract::Handler;
use tightbeam::gate::Gate;
use tightbeam::open_policy::{Never, OptIn, ProvenOnly};
use tightbeam::overlay::{PublicRequest, PublicUnsafeRequest, SourceFact, SourceKind};
use tightbeam::router::Router;
use tightbeam::services::{entry_name, Access, Route, ServeEntry, ServiceName, Services};
use tightbeam::target::{
    parse_target, validate_forward, RawSource, RawStream, RouteError, Serves, Target, TargetKind,
};
use tightbeam::witness::VerifyKey;

struct OpenNoop;
impl Handler for OpenNoop {
    type Exposure = OptIn;
}

struct GatedNoop;
impl Handler for GatedNoop {
    type Exposure = Never;
}

struct ProvenNoop;
impl Handler for ProvenNoop {
    type Exposure = ProvenOnly;
}

fn svc(name: &str) -> ServiceName {
    ServiceName::new(name.to_owned())
}

fn family_gate() -> Gate {
    Gate::Rooted { root: VerifyKey { bytes: [7u8; 32] } }
}

fn entries(texts: &[&str]) -> Vec<ServeEntry> {
    texts.iter().map(|text| ServeEntry { text: (*text).to_owned(), named: true }).collect()
}

fn parse(texts: &[&str]) -> Result<Services, RouteError<String>> {
    Services::parse(&entries(texts), false)
}

fn services(texts: &[&str]) -> Services {
    parse(texts).expect("entries parse")
}

fn with_handler<H: Handler>(services: Services, name: &str, handler: &H) -> Services {
    services.bind_handler(svc(name), handler, Access::Family).expect("the name binds")
}

#[test]
fn a_bare_service_name_is_rejected_with_a_hint() {
    // Every serve entry must be `name=target`; a bare entry names no service and fails at parse.
    let Err(err) = parse(&["web"]) else {
        panic!("bare `web` should be rejected, not served");
    };
    assert!(
        err.message().contains("name=target"),
        "the error should teach the grammar: {}",
        err.message()
    );
}

#[test]
fn a_bare_scheme_without_a_name_is_rejected() {
    // Bare `ping:` names no service either: only `ping=ping:` is spelled.
    let Err(err) = parse(&["ping:"]) else {
        panic!("bare `ping:` should be rejected, not served");
    };
    assert!(
        err.message().contains("name=target"),
        "the error should teach the grammar: {}",
        err.message()
    );
}

#[test]
fn a_duplicate_service_name_is_refused_by_parse() {
    let Err(err) = parse(&["web=127.0.0.1:80", "web=127.0.0.1:81"]) else {
        panic!("a duplicate name must be refused, never silently overwritten");
    };
    assert!(
        err.message().contains("already defined"),
        "the refusal names the duplicate: {}",
        err.message()
    );
}

#[test]
fn real_targets_parse() {
    for entry in [
        "web=127.0.0.1:8080",
        "db=unix:/run/db.sock",
        "pipe=file:/tmp/beam",
        "named=fifo:/tmp/beam",
        "demo=echo:",
    ] {
        assert!(parse(&[entry]).is_ok(), "{entry} should parse");
    }
}

#[test]
fn a_handler_scheme_entry_is_a_teaching_error() {
    for entry in ["a=handler:", "status=control.status:", "restart=control.restart:"] {
        let Err(err) = parse(&[entry]) else {
            panic!("`{entry}` names a handler scheme and must be refused");
        };
        assert!(
            err.message().contains("handler scheme"),
            "the refusal teaches the binding shape: {}",
            err.message()
        );
    }
}

#[test]
fn raw_stream_schemes_resolve_to_a_raw_stream_target_never_a_bare_forward_or_handler() {
    // `file:`/`fifo:` carry a PATH tail, so they must resolve to the guarded raw stream.
    for entry in ["pipe=file:/tmp/beam", "named=fifo:/tmp/beam"] {
        let parsed = services(&[entry]);
        let (_, route) = parsed.row(0);
        assert!(
            matches!(&route.target, Target::RawStream(_)),
            "{entry} must resolve to Target::RawStream"
        );
    }
    // A bare `file:`/`fifo:` with no path is NOT a handler: it fails loudly at parse.
    assert!(
        parse(&["pipe=file:"]).is_err(),
        "`file:` with no path must be rejected, never treated as a handler scheme"
    );
    assert!(
        parse(&["pipe=fifo:"]).is_err(),
        "`fifo:` with no path must be rejected, never treated as a handler scheme"
    );
}

#[test]
fn a_named_service_pointed_at_a_bogus_addr_is_rejected() {
    assert!(parse(&["web=nonsense"]).is_err());
}

#[test]
fn echo_scheme_resolves_to_the_builtin_reflector() {
    // `echo:` is the zero-arg built-in reflector: parsing it must produce the built-in, never a forward.
    let parsed = services(&["demo=echo:"]);
    let (_, route) = parsed.row(0);
    assert!(
        matches!(&route.target, Target::Handler(_, Serves::Echo)),
        "`echo:` must resolve to a bound handler"
    );
    assert_eq!(route.target.kind(), TargetKind::Handler);
    // `echo:` takes no argument and tolerates no `+lossy`: both are refused at parse.
    assert!(
        parse(&["demo=echo:+lossy"]).is_err(),
        "`echo:+lossy` must be rejected: echo is not a fan-out raw-stream source"
    );
    // The typed verb is sugar: `.echo(name)` is `.service(name, Echo)`.
    let exposer = Router::new(Gate::Open)
        .echo(svc("demo"))
        .expect("echo binds")
        .expose(Vec::new())
        .ok()
        .expect("echo is OptIn, so an open gate serves it with no unsafe opt-in");
    let manifest = exposer.manifest();
    let demo = manifest
        .iter()
        .find(|entry| entry.name == "demo")
        .expect("`demo` is in the manifest");
    assert_eq!(demo.posture, Posture::Open);
    assert_eq!(demo.kind, TargetKind::Handler);
    assert!(
        demo.raw_source.is_none(),
        "echo exposes no raw source, so there is nothing to warn about"
    );
}

#[test]
fn lossy_is_accepted_only_on_stdin_and_fifo_and_rejected_elsewhere() {
    // `+lossy` opts a live single-writer source into fan-out; it is legal ONLY on `stdin:`/`fifo:`.
    for entry in ["cam=stdin:+lossy", "cam=fifo:/tmp/cam+lossy"] {
        let parsed = services(&[entry]);
        let (_, route) = parsed.row(0);
        assert!(
            matches!(&route.target, Target::RawStream(_)),
            "{entry} must resolve to a raw-stream fan-out target"
        );
    }
    // On any OTHER scheme `+lossy` is refused at PARSE with a teaching message.
    for entry in [
        "doc=file:/etc/hosts+lossy",
        "web=127.0.0.1:8080+lossy",
        "db=unix:/run/db.sock+lossy",
        "a=handler:+lossy",
    ] {
        let Err(err) = parse(&[entry]) else {
            panic!("`+lossy` on {entry} must be rejected at parse");
        };
        assert!(
            err.message().contains("`+lossy`"),
            "the refusal must name the modifier: {}",
            err.message()
        );
    }
}

#[test]
fn a_dotted_name_binds_a_handler_for_a_method_on_an_interface() {
    // A method on an interface is one dotted SERVICE NAME, bound directly.
    for name in ["control.status", "control.restart"] {
        let services = with_handler(Services::new(), name, &OpenNoop);
        assert!(
            services.contains(name),
            "the dotted name is preserved verbatim as the route key, got {name:?}"
        );
    }
}

#[test]
fn routes_default_to_family_and_member_only_flips_the_named_route() {
    let parsed = services(&["web=127.0.0.1:80", "locked=127.0.0.1:81"]);
    for index in 0..parsed.len() {
        let (_, route) = parsed.row(index);
        assert!(route.access == Access::Family, "parsed routes default to the admission-only floor");
    }
    let parsed = parsed.member_only("locked").expect("`locked` is served");
    assert!(parsed.get("web").expect("served").access == Access::Family);
    assert!(parsed.get("locked").expect("served").access == Access::Member);
}

#[test]
fn member_only_refuses_a_name_the_node_does_not_serve() {
    let Err(error) = services(&["web=127.0.0.1:80"]).member_only("nope") else {
        panic!("marking an unserved name must be refused");
    };
    assert!(
        error.message().contains("no service named"),
        "the refusal teaches the served list: {}",
        error.message()
    );
}

#[test]
fn stdin_resolves_to_a_raw_stream_target_routed_before_the_bare_scheme_arm() {
    // `stdin:` is a zero-arg raw-stream source: it must resolve to `Target::RawStream`.
    let parsed = services(&["cam=stdin:"]);
    let (_, route) = parsed.row(0);
    assert!(
        matches!(&route.target, Target::RawStream(_)),
        "`stdin:` must resolve to Target::RawStream"
    );
}

#[test]
fn a_router_refuses_a_duplicate_across_bind_verbs() {
    // One add-only table with one duplicate policy. The base case: two `service` binds collide.
    let dup = Router::new(Gate::Open)
        .service(svc("web"), &OpenNoop)
        .expect("first bind")
        .service(svc("web"), &OpenNoop);
    assert!(
        dup.is_err(),
        "a second bind under one name must be refused, never silently overwrite"
    );
    // A parsed `name=target` entry colliding with a bound handler is the same policy.
    let through_parse = Router::new(Gate::Open)
        .service(svc("web"), &OpenNoop)
        .expect("first bind")
        .parse(&entries(&["web=127.0.0.1:80"]), false);
    assert!(through_parse.is_err(), "the parse entry must refuse the duplicate too");
    // And within one `parse`, the duplicate is refused by the same message.
    let Err(error) = Router::new(Gate::Open)
        .parse(&entries(&["web=127.0.0.1:80", "web=127.0.0.1:81"]), false)
    else {
        panic!("a duplicate `name=target` entry must be refused");
    };
    assert!(
        error.message().contains("already defined"),
        "the refusal names the duplicate: {}",
        error.message()
    );
}

#[test]
fn open_safe_is_total_over_target() {
    let optin: Target<String> = Target::Handler(OpenNoop.freeze(), Serves::Bound);
    let never: Target<String> = Target::Handler(GatedNoop.freeze(), Serves::Bound);
    let addr = "127.0.0.1:80".to_owned();
    let forward: Target<String> = Target::Handler(
        Forward { addr: addr.clone() }.freeze(),
        Serves::Forward { addr },
    );
    let echo: Target<String> = Target::Handler(Echo.freeze(), Serves::Echo);
    let raw: Target<String> = Target::RawStream(RawStream::Stdin { lossy: false });

    assert!(forward.open_safe(), "a deliberately stood-up forward is openable");
    assert!(
        echo.open_safe(),
        "an echo reflector exposes no host resource, so it is safe public"
    );
    assert!(optin.open_safe(), "an OptIn handler is openable");
    assert!(!never.open_safe(), "a Never handler is never openable");
    assert!(
        !raw.open_safe(),
        "a raw stream has no auth of its own and opens only through the unsafe overlay"
    );
}

#[test]
fn a_synthetic_shaped_name_is_just_a_bound_name() {
    assert!(
        parse(&["x=fetch_0:"]).is_err(),
        "`fetch_0:` is a handler scheme and must be a teaching error"
    );
    let exposer = Router::new(Gate::Open)
        .service(svc("pub"), &OpenNoop)
        .expect("a bound name")
        .expose(Vec::new())
        .ok()
        .expect("an OptIn handler under an open gate");
    assert!(
        exposer.manifest().iter().any(|entry| entry.name == "pub"),
        "the bound name is served"
    );
}

#[test]
fn a_catalog_reports_public_services_open_and_the_rest_gated() {
    let services = with_handler(
        with_handler(services(&["web=127.0.0.1:80"]), "speed", &OpenNoop),
        "ssh",
        &GatedNoop,
    );
    let catalog = services.catalog(
        &family_gate(),
        &PublicRequest::new(vec!["speed".to_owned()]),
        &PublicUnsafeRequest::none(),
    );
    assert_eq!(catalog.entries().len(), 3);
    for entry in catalog.entries() {
        let expected = if entry.name == "speed" { Posture::Open } else { Posture::Gated };
        assert_eq!(
            entry.posture,
            expected,
            "`{}` should read {:?} with speed in the public set",
            entry.name,
            expected.label()
        );
    }
}

#[test]
fn a_catalog_self_lists_the_row_being_built_gated() {
    let router = Router::new(family_gate())
        .parse(&entries(&["aaa=127.0.0.1:81"]), false)
        .expect("parses");
    let catalog = router.catalog(Some(svc("control.services")));
    let names: Vec<&str> = catalog.entries().iter().map(|entry| entry.name.as_str()).collect();
    assert_eq!(names, ["aaa", "control.services"], "sorted, row included");
    let self_row = catalog
        .entries()
        .iter()
        .find(|entry| entry.name == "control.services")
        .expect("the self-listing row is present");
    assert_eq!(
        self_row.posture,
        Posture::Gated,
        "the row being built is gated by construction"
    );
    assert_eq!(
        ServiceCatalog::decode(&catalog.encode().expect("under the wire bound"))
            .expect("round-trips"),
        catalog
    );
}

#[test]
fn a_routers_catalog_is_in_name_order_whatever_row_is_listed_beside_it() {
    let router = || {
        Router::new(family_gate())
            .parse(&entries(&["c=echo:", "a=echo:", "b=echo:"]), false)
            .expect("parses")
    };
    assert_eq!(router().names(), ["a", "b", "c"]);
    let listed: [(Option<&str>, &[&str]); 5] = [
        (None, &["a", "b", "c"]),
        (Some("0"), &["0", "a", "b", "c"]),
        (Some("aa"), &["a", "aa", "b", "c"]),
        (Some("d"), &["a", "b", "c", "d"]),
        // A name that is bound already: both rows are told.
        (Some("b"), &["a", "b", "b", "c"]),
    ];
    for (row, expected) in listed {
        let catalog = router().catalog(row.map(svc));
        let blob = catalog.encode().expect("under the wire bound");
        let decoded = ServiceCatalog::decode(&blob).expect("round-trips");
        for told in [&catalog, &decoded] {
            let names: Vec<&str> = told.entries().iter().map(|entry| entry.name.as_str()).collect();
            assert_eq!(names, expected, "beside {row:?}");
        }
    }
}

#[test]
fn a_router_binds_every_verb_and_proves_at_expose() {
    let exposer = Router::new(Gate::Open)
        .service(svc("ping"), &OpenNoop)
        .expect("service binds")
        .forward(svc("web"), "127.0.0.1:80")
        .expect("forward binds")
        .echo(svc("demo"))
        .expect("echo binds")
        .parse(&entries(&["db=unix:/run/db.sock"]), false)
        .expect("parse absorbs the target grammar")
        .expose(Vec::new())
        .ok()
        .expect("an open gate over OptIn handlers and forwards proves");
    let manifest = exposer.manifest();
    let names: Vec<&str> = manifest.iter().map(|entry| entry.name.as_str()).collect();
    assert_eq!(names, ["db", "demo", "ping", "web"], "one table, name-sorted");
    assert!(
        manifest
            .iter()
            .all(|entry| entry.posture == Posture::Open && entry.kind == TargetKind::Handler),
        "under the open base every bound route reads Open and Handler"
    );
}

#[test]
fn a_raw_stream_stays_a_native_arm_proven_unsafe() {
    let path = "/tmp/tb-native-raw-stream";
    let exposer = Router::new(family_gate())
        .raw_stream(
            svc("logs"),
            RawStream::file(path, "logs=file:...").expect("the path shapes a raw stream"),
        )
        .expect("raw stream binds")
        .public_unsafe(vec![svc("logs")])
        .expose(vec![SourceFact {
            name: "logs".to_owned(),
            kind: SourceKind::Missing,
            path: path.to_owned(),
        }])
        .ok()
        .expect("a named unsafe raw stream proves");
    let manifest = exposer.manifest();
    let logs = manifest
        .iter()
        .find(|entry| entry.name == "logs")
        .expect("`logs` is in the manifest");
    assert_eq!(logs.posture, Posture::Open);
    assert_eq!(logs.kind, TargetKind::RawStream);
    assert!(
        matches!(&logs.raw_source, Some(RawSource::Path(named)) if named == path),
        "a raw stream declares its source for the banner"
    );
}

#[test]
fn every_parse_error_has_its_input() {
    let fault = |text: &str| parse(&[text]).err().expect("refused");
    assert!(matches!(fault("web"), RouteError::NoName { .. }));
    assert!(matches!(fault("web=file:/x+lossy"), RouteError::NotLossy { .. }));
    assert!(matches!(fault("web=ping:"), RouteError::HandlerScheme { .. }));
    assert!(matches!(fault("web=nonsense"), RouteError::BadForward { .. }));
    assert!(matches!(fault("web=file:"), RouteError::NoPath { .. }));
    assert!(matches!(fault("web=ftp:127.0.0.1:80"), RouteError::UnknownScheme { .. }));
    let unnamed = vec![ServeEntry { text: "we b=127.0.0.1:80".to_owned(), named: false }];
    assert!(matches!(Services::parse(&unnamed, false), Err(RouteError::BadName { .. })));
    let terminal = Services::parse(&entries(&["cam=stdin:"]), true);
    assert!(matches!(terminal, Err(RouteError::TerminalStdin)));
    let proven = Services::new().bind_handler(svc("p"), &ProvenNoop, Access::Family);
    assert!(matches!(proven, Err(RouteError::ProvenOnlyHandler { .. })));
    let family = Services::new().bind_handler(svc("p"), &OpenNoop, Access::ProvenOnly);
    assert!(matches!(family, Err(RouteError::NotProvenHandler { .. })));
    let bound = Services::new().bind_handler(svc("p"), &ProvenNoop, Access::ProvenOnly);
    assert!(bound.is_ok());
}

#[test]
fn a_refused_bind_names_the_service_table_it_was_refused_by() {
    let error = services(&["web=127.0.0.1:80", "db=unix:/run/db.sock"])
        .member_only("nope")
        .err()
        .expect("refused");
    assert!(error.message().contains("db, web"), "{}", error.message());
}

#[test]
fn a_forward_needs_a_host_and_a_port() {
    let forwards =
        ["127.0.0.1:80", "127.0.0.1:8080", "tcp:127.0.0.1:80", "unix:/run/db.sock", "localhost:0"];
    for good in forwards {
        assert!(parse_target(good, good, false).is_ok(), "{good}");
    }
    for bad in ["nonsense", "host:", ":80", "host:65536", "host:-1", "unix:", ""] {
        assert!(parse_target(bad, bad, false).is_err(), "{bad:?}");
    }
    assert!(validate_forward("127.0.0.1:65535").is_ok());
    assert!(validate_forward("127.0.0.1:65536").is_err());
}

#[test]
fn the_schemes_are_a_closed_set() {
    let refused = Router::new(Gate::Open)
        .parse(&entries(&["web=ftp:127.0.0.1:80"]), false)
        .err()
        .expect("`ftp:` is no scheme here");
    let RouteError::UnknownScheme { entry, scheme } = &refused else {
        panic!("an unknown scheme is refused as one: {}", refused.message());
    };
    assert_eq!(entry, "web=ftp:127.0.0.1:80");
    assert_eq!(scheme, "ftp");
    assert_eq!(
        refused.message(),
        "`web=ftp:127.0.0.1:80` names an unknown scheme `ftp:`; the schemes are `tcp:`, `unix:`, \
         `file:`, `fifo:`, `stdin:` and `echo:`"
    );
    for unknown in ["http://example.net:80", "ssh2:host:22", "TCP:127.0.0.1:80"] {
        assert!(
            matches!(
                parse_target(unknown, unknown, false),
                Err(RouteError::UnknownScheme { .. })
            ),
            "{unknown}"
        );
    }
    // One colon is a host and its port, a bracketed address names no scheme, and neither does a
    // host that is written like none.
    for forward in ["ftp:80", "[::1]:80", "tcp:[::1]:80", "127.0.0.1:8080"] {
        assert!(
            matches!(
                parse_target(forward, forward, false),
                Ok(Target::Handler(_, Serves::Forward { .. }))
            ),
            "{forward}"
        );
    }
}

#[test]
fn an_entry_is_named_by_what_stands_before_its_first_equals_sign() {
    assert_eq!(entry_name("web=tcp:127.0.0.1:80"), Some("web"));
    assert_eq!(entry_name("a=b=c"), Some("a"));
    assert_eq!(entry_name("web"), None);
}

#[test]
fn a_table_lists_each_name_once_in_order() {
    let table = services(&["b=echo:", "a=echo:", "c=echo:"]);
    assert_eq!(table.names(), ["a", "b", "c"]);
    assert_eq!(table.served_line(), "a, b, c");
    assert_eq!(table.len(), 3);
    assert!(table.get("d").is_none());
    let table = table
        .bind(
            svc("aa"),
            Route {
                target: Target::RawStream(RawStream::Stdin { lossy: true }),
                access: Access::Member,
            },
        )
        .expect("binds");
    assert_eq!(table.names(), ["a", "aa", "b", "c"]);
}

#[test]
fn a_raw_source_is_told_by_its_path_or_as_stdin() {
    let fifo = RawStream::fifo("/tmp/cam", "cam=fifo:/tmp/cam", true).expect("shapes");
    assert!(matches!(fifo.raw_source(), RawSource::Path(path) if path == "/tmp/cam"));
    let stdin = RawStream::<String>::stdin(false, false).expect("shapes");
    assert!(matches!(stdin.raw_source(), RawSource::Stdin));
    assert!(RawStream::<String>::stdin(false, true).is_err(), "never a terminal");
    assert!(RawStream::file("", "cam=file:").is_err());
}
