//! The catalog: the posture a node publishes per service, and the wire form that snapshot survives a
//! round trip in.

use tightbeam::catalog::{
    CatalogError, CatalogTooLarge, Posture, ServiceCatalog, ServiceEntry, MAX_CATALOG_BLOB,
    MAX_CATALOG_ENTRIES, MAX_SERVICE_NAME_LEN,
};
use tightbeam::contract::Handler;
use tightbeam::gate::Gate;
use tightbeam::open_policy::OptIn;
use tightbeam::overlay::{PublicRequest, PublicUnsafeRequest};
use tightbeam::services::{Access, ServeEntry, ServiceName, Services};
use tightbeam::witness::VerifyKey;

struct OpenNoop;
impl Handler for OpenNoop {
    type Exposure = OptIn;
}

fn services(entries: &[&str]) -> Services {
    let entries: Vec<ServeEntry> = entries
        .iter()
        .map(|text| ServeEntry { text: (*text).to_owned(), named: true })
        .collect();
    Services::parse(&entries, false).expect("entries parse")
}

fn with_handler(services: Services, name: &str) -> Services {
    services
        .bind_handler(ServiceName::new(name.to_owned()), &OpenNoop, Access::Family)
        .expect("the handler binds")
}

#[test]
fn a_gated_catalog_reports_gated_and_round_trips() {
    let services = with_handler(with_handler(services(&["c=tcp:127.0.0.1:80"]), "a"), "b");
    let gate = Gate::Rooted { root: VerifyKey { bytes: [7u8; 32] } };
    let catalog = services.catalog(&gate, &PublicRequest::none(), &PublicUnsafeRequest::none());

    let names: Vec<&str> = catalog.entries().iter().map(|entry| entry.name.as_str()).collect();
    assert_eq!(names, ["a", "b", "c"], "entries are name-sorted");
    assert!(
        catalog.entries().iter().all(|entry| entry.posture == Posture::Gated),
        "a gated node reports every service as gated"
    );

    let blob = catalog.encode().expect("a three-service catalog is under the wire bound");
    let decoded = ServiceCatalog::decode(&blob).expect("catalog decodes");
    assert_eq!(decoded, catalog, "the catalog survives a wire round trip");
}

#[test]
fn an_open_catalog_reports_open() {
    let services = with_handler(services(&["a=tcp:127.0.0.1:80"]), "b");
    let catalog =
        services.catalog(&Gate::Open, &PublicRequest::none(), &PublicUnsafeRequest::none());
    assert!(
        catalog.entries().iter().all(|entry| entry.posture == Posture::Open),
        "an open node reports every service as open"
    );
    assert_eq!(
        ServiceCatalog::decode(&catalog.encode().expect("under the wire bound")).expect("decodes"),
        catalog
    );
}

#[test]
fn an_empty_catalog_round_trips() {
    let catalog = ServiceCatalog(Vec::new());
    let blob = catalog.encode().expect("an empty catalog is under the wire bound");
    let decoded = ServiceCatalog::decode(&blob).expect("empty decodes");
    assert_eq!(decoded, catalog);
    assert_eq!(decoded.entries().iter().count(), 0);
}

#[test]
fn a_malformed_catalog_is_a_clean_error() {
    // A count of 1 but no entry bytes: truncated.
    assert!(ServiceCatalog::decode(&1u32.to_be_bytes()).is_err());

    // One entry with a posture tag of 9 (neither gated nor open).
    let mut bad_tag = Vec::new();
    bad_tag.extend_from_slice(&1u32.to_be_bytes());
    bad_tag.extend_from_slice(&1u16.to_be_bytes());
    bad_tag.push(b'x');
    bad_tag.push(9);
    assert!(ServiceCatalog::decode(&bad_tag).is_err());

    // A well-formed single entry followed by a stray byte: trailing bytes are rejected.
    let good = ServiceCatalog(vec![ServiceEntry {
        name: "a".to_owned(),
        posture: Posture::Gated,
    }]);
    let mut trailing = good.encode().expect("one entry is under the wire bound");
    trailing.push(0);
    assert!(ServiceCatalog::decode(&trailing).is_err());
}

#[test]
fn the_largest_admissible_catalog_is_exactly_the_blob_bound() {
    let entries = (0..MAX_CATALOG_ENTRIES)
        .map(|_| ServiceEntry {
            name: "n".repeat(MAX_SERVICE_NAME_LEN),
            posture: Posture::Gated,
        })
        .collect();
    let full = ServiceCatalog(entries);

    let blob = full.encode().expect("a catalog at both field bounds is admissible");
    assert_eq!(
        blob.len() as u64,
        MAX_CATALOG_BLOB,
        "the reader's cap is derived from these bounds plus the framing; it must be attainable to the byte"
    );
    assert_eq!(
        ServiceCatalog::decode(&blob).expect("and the decoder takes it"),
        full,
        "the largest blob a reader will accept is one the decoder accepts"
    );
}

#[test]
fn a_catalog_past_a_field_bound_refuses_at_the_encoder() {
    let over_count = ServiceCatalog(
        (0..=MAX_CATALOG_ENTRIES)
            .map(|index| ServiceEntry { name: format!("s{index}"), posture: Posture::Gated })
            .collect(),
    );
    let Err(error) = over_count.encode() else {
        panic!("one service past the entry bound must refuse at the encoder");
    };
    assert!(
        matches!(error, CatalogTooLarge::TooManyServices { count, max }
            if count == MAX_CATALOG_ENTRIES + 1 && max == MAX_CATALOG_ENTRIES),
        "the refusal names the count and the bound: {error:?}"
    );

    let over_name = ServiceCatalog(vec![ServiceEntry {
        name: "n".repeat(MAX_SERVICE_NAME_LEN + 1),
        posture: Posture::Gated,
    }]);
    let Err(error) = over_name.encode() else {
        panic!("one byte past the name bound must refuse at the encoder");
    };
    assert!(
        matches!(error, CatalogTooLarge::NameTooLong { len, max, .. }
            if len == MAX_SERVICE_NAME_LEN + 1 && max == MAX_SERVICE_NAME_LEN),
        "the refusal names the length and the bound: {error:?}"
    );

    // The same two shapes on the wire: the decoder refuses each from its count and length prefixes
    // alone, so what the encoder refuses to emit is exactly what a reader refuses to take.
    let mut count_prefix = Vec::new();
    count_prefix.extend_from_slice(&((MAX_CATALOG_ENTRIES as u32) + 1).to_be_bytes());
    assert!(
        ServiceCatalog::decode(&count_prefix).is_err(),
        "the decoder refuses the count the encoder refused to write"
    );

    let mut name_prefix = Vec::new();
    name_prefix.extend_from_slice(&1u32.to_be_bytes());
    name_prefix.extend_from_slice(&((MAX_SERVICE_NAME_LEN as u16) + 1).to_be_bytes());
    assert!(
        ServiceCatalog::decode(&name_prefix).is_err(),
        "the decoder refuses the name length the encoder refused to write"
    );
}

#[test]
fn the_wire_is_laid_out_byte_for_byte() {
    let catalog = ServiceCatalog(vec![
        ServiceEntry { name: "web".to_owned(), posture: Posture::Open },
        ServiceEntry { name: "\u{e9}".to_owned(), posture: Posture::Gated },
    ]);
    let blob = catalog.encode().expect("under the wire bound");
    assert_eq!(
        blob,
        [0, 0, 0, 2, 0, 3, b'w', b'e', b'b', 1, 0, 2, 0xc3, 0xa9, 0],
        "count, then length, name and tag of each entry"
    );
    assert_eq!(ServiceCatalog::decode(&blob).expect("decodes"), catalog);
}

#[test]
fn a_decoded_blob_encodes_back_to_itself() {
    let blob = [0, 0, 0, 1, 0, 2, b'h', b'i', 1];
    let decoded = ServiceCatalog::decode(&blob).expect("decodes");
    assert_eq!(decoded.encode().expect("encodes"), blob);
}

#[test]
fn every_decode_error_has_its_input() {
    assert_eq!(ServiceCatalog::decode(&[0, 0, 0]), Err(CatalogError::Truncated));
    assert_eq!(
        ServiceCatalog::decode(&[0, 0, 4, 1]),
        Err(CatalogError::TooManyServices { count: 1025 })
    );
    assert_eq!(
        ServiceCatalog::decode(&[0, 0, 0, 1, 1, 1]),
        Err(CatalogError::NameTooLong { len: 257 })
    );
    assert_eq!(
        ServiceCatalog::decode(&[0, 0, 0, 1, 0, 3, b'a', b'b']),
        Err(CatalogError::Truncated)
    );
    assert_eq!(
        ServiceCatalog::decode(&[0, 0, 0, 1, 0, 1, 0xff, 0]),
        Err(CatalogError::NotUtf8)
    );
    assert_eq!(
        ServiceCatalog::decode(&[0, 0, 0, 1, 0, 1, b'x', 9]),
        Err(CatalogError::UnknownPosture { tag: 9 })
    );
    assert_eq!(ServiceCatalog::decode(&[0, 0, 0, 0, 7]), Err(CatalogError::TrailingBytes));
}

#[test]
fn the_messages_quote_what_they_measured() {
    assert_eq!(
        CatalogError::UnknownPosture { tag: 9 }.message(),
        "unknown service posture tag 0x09"
    );
    assert_eq!(
        CatalogError::UnknownPosture { tag: 0xfa }.message(),
        "unknown service posture tag 0xfa"
    );
    assert_eq!(
        CatalogError::TooManyServices { count: 1025 }.message(),
        "service catalog names too many services (1025)"
    );
    assert_eq!(
        CatalogTooLarge::NameTooLong { name: "n".to_owned(), len: 300, max: 256 }.message(),
        "service name `n` is 300 bytes, longer than the catalog wire carries (at most 256)"
    );
    assert_eq!(
        CatalogTooLarge::TooManyServices { count: 2000, max: 1024 }.message(),
        "the node serves 2000 services, more than the catalog wire carries (at most 1024)"
    );
}

#[test]
fn postures_carry_their_tag_and_their_word() {
    assert_eq!(Posture::Gated.tag(), 0);
    assert_eq!(Posture::Open.tag(), 1);
    assert_eq!(Posture::from_tag(0), Ok(Posture::Gated));
    assert_eq!(Posture::from_tag(1), Ok(Posture::Open));
    assert_eq!(Posture::from_tag(2), Err(CatalogError::UnknownPosture { tag: 2 }));
    assert_eq!(Posture::Gated.label(), "gated");
    assert_eq!(Posture::Open.label(), "open");
}
