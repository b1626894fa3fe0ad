//! The service catalog: what a node publishes it serves, with the posture a dialer faces, and the
//! self-delimiting wire form the member-only `control.services` read carries it in.
//!
//! The one thing the route table puts on the wire, so its bounds and its decoder live here, apart
//! from the table that fills it: a blob reaching [`ServiceCatalog::decode`] is untrusted.

use vstd::prelude::*;
use vstd::string::*;
use vstd::utf8::*;

use crate::text::{decimal, decimal_text, hex_text, hexadecimal, utf8_text};

verus! {

/// How much a served service costs a stranger to reach: whether the node's gate lets an
/// unauthenticated peer in, or requires a member badge.
///
/// This is the effective posture a dialer would experience today, not the ceiling a handler was
/// written for: a service that could be public still reports [`Posture::Gated`] on a gated node.
#[derive(Debug, Clone, Copy, PartialEq, Eq, Structural)]
pub enum Posture {
    /// Reaching this service requires a member badge the node's gate admits.
    Gated,
    /// Anyone who reaches the node reaches this service, no badge.
    Open,
}

/// The one-byte wire tag of a posture: `0` gated, `1` open.
pub open spec fn posture_tag(posture: Posture) -> u8 {
    match posture {
        Posture::Gated => 0,
        Posture::Open => 1,
    }
}

impl Posture {
    /// The one-byte wire tag.
    pub fn tag(self) -> (tag: u8)
        ensures
            tag == posture_tag(self),
    {
        match self {
            Posture::Gated => 0,
            Posture::Open => 1,
        }
    }

    /// Parse the wire tag back to a posture; an unknown tag is an error, never a silent default.
    pub fn from_tag(tag: u8) -> (posture: Result<Self, CatalogError>)
        ensures
            posture == posture_of_tag(tag),
    {
        if tag == 0 {
            Ok(Posture::Gated)
        } else if tag == 1 {
            Ok(Posture::Open)
        } else {
            Err(CatalogError::UnknownPosture { tag })
        }
    }

    /// The word a table renders for this posture.
    pub fn label(self) -> (word: &'static str)
        ensures
            word@ == match self {
                Posture::Gated => "gated"@,
                Posture::Open => "open"@,
            },
    {
        match self {
            Posture::Gated => "gated",
            Posture::Open => "open",
        }
    }
}

/// One served service in a node's catalog: its name and the [`Posture`] a dialer faces reaching it.
#[derive(Debug, Clone, PartialEq, Eq)]
pub struct ServiceEntry {
    /// The service name the exposer published it under (the name a connector requests).
    pub name: String,
    /// The posture a dialer faces reaching this service.
    pub posture: Posture,
}

impl View for ServiceEntry {
    type V = (Seq<char>, Posture);

    open spec fn view(&self) -> (Seq<char>, Posture) {
        (self.name@, self.posture)
    }
}

/// The services a node serves, each with its reach posture: the answer the gated
/// `control.services` read returns.
///
/// The wire form (all ints big-endian), self-delimiting so a reader needs no out-of-band length:
///
/// ```text
///   count        u32
///   per entry x count:
///     name_len   u16
///     name       [u8; name_len]   (UTF-8)
///     posture    u8               (0 gated, 1 open)
/// ```
///
/// A blob of this wire never exceeds [`MAX_CATALOG_BLOB`], and both ends hold that: the encoder
/// refuses to emit more, and a reader refuses to read more.
#[derive(Debug, Clone, PartialEq, Eq)]
pub struct ServiceCatalog(pub Vec<ServiceEntry>);

impl View for ServiceCatalog {
    type V = Seq<(Seq<char>, Posture)>;

    open spec fn view(&self) -> Seq<(Seq<char>, Posture)> {
        self.0@.map_values(|entry: ServiceEntry| entry@)
    }
}

/// The largest service-name length the catalog wire admits, in bytes.
pub const MAX_SERVICE_NAME_LEN: usize = 256;

/// The largest number of catalog entries the wire admits.
pub const MAX_CATALOG_ENTRIES: usize = 1024;

/// The count the wire opens with: one big-endian `u32`.
pub const COUNT_PREFIX_LEN: usize = 4;

/// The fixed framing each entry carries beside its name: the `u16` name length and the `u8` tag.
pub const ENTRY_OVERHEAD_LEN: usize = 2 + 1;

/// The largest catalog blob this wire admits, in bytes, and not one byte more: the count prefix
/// and [`MAX_CATALOG_ENTRIES`] entries, each a name of [`MAX_SERVICE_NAME_LEN`] bytes beside its
/// framing. A reader bounds its buffer by this before the first byte lands.
pub const MAX_CATALOG_BLOB: u64 = 4 + 1024 * (2 + 1 + 256);

/// Why a catalog could not be put on the wire: it names more than the wire admits.
#[derive(Debug, Clone, PartialEq, Eq)]
pub enum CatalogTooLarge {
    /// More services than the wire's entry bound admits.
    TooManyServices {
        /// How many services the catalog names.
        count: usize,
        /// The entry bound it exceeded.
        max: usize,
    },
    /// One service name longer than the wire's per-name bound, quoted so an operator knows which
    /// service to shorten.
    NameTooLong {
        /// The offending service name.
        name: String,
        /// Its length in bytes.
        len: usize,
        /// The per-name bound it exceeded.
        max: usize,
    },
}

impl CatalogTooLarge {
    /// The sentence an operator reads.
    pub open spec fn text(self) -> Seq<char> {
        match self {
            CatalogTooLarge::TooManyServices { count, max } => {
                "the node serves "@ + decimal_text(count as nat)
                    + " services, more than the catalog wire carries (at most "@
                    + decimal_text(max as nat) + ")"@
            },
            CatalogTooLarge::NameTooLong { name, len, max } => {
                "service name `"@ + name@ + "` is "@ + decimal_text(len as nat)
                    + " bytes, longer than the catalog wire carries (at most "@
                    + decimal_text(max as nat) + ")"@
            },
        }
    }

    /// The sentence an operator reads.
    pub fn message(&self) -> (message: String)
        ensures
            message@ == self.text(),
    {
        match self {
            CatalogTooLarge::TooManyServices { count, max } => {
                String::from_str("the node serves ").concat(decimal(*count as u64).as_str()).concat(
                    " services, more than the catalog wire carries (at most ",
                ).concat(decimal(*max as u64).as_str()).concat(")")
            },
            CatalogTooLarge::NameTooLong { name, len, max } => {
                String::from_str("service name `").concat(name.as_str()).concat("` is ").concat(
                    decimal(*len as u64).as_str(),
                ).concat(" bytes, longer than the catalog wire carries (at most ").concat(
                    decimal(*max as u64).as_str(),
                ).concat(")")
            },
        }
    }
}

impl ServiceCatalog {
    /// The served services, in the catalog's order.
    pub fn entries(&self) -> (entries: &Vec<ServiceEntry>)
        ensures
            *entries == self.0,
            entries@.map_values(|entry: ServiceEntry| entry@) == self@,
    {
        &self.0
    }

    /// Encode the catalog to its self-delimiting wire form.
    ///
    /// Fallible against the same two bounds [`ServiceCatalog::decode`] enforces, checked before a
    /// byte is written, so a catalog that encodes is a catalog that decodes.
    pub fn encode(&self) -> (blob: Result<Vec<u8>, CatalogTooLarge>)
        ensures
            match blob {
                Ok(bytes) => catalog_fits(self@) && bytes@ == catalog_wire(self@),
                Err(CatalogTooLarge::TooManyServices { count, max }) => {
                    &&& self@.len() > MAX_CATALOG_ENTRIES
                    &&& count == self@.len()
                    &&& max == MAX_CATALOG_ENTRIES
                },
                Err(CatalogTooLarge::NameTooLong { name, len, max }) => {
                    &&& self@.len() <= MAX_CATALOG_ENTRIES
                    &&& exists|i: int|
                        {
                            &&& 0 <= i < self@.len()
                            &&& #[trigger] self@[i].0 == name@
                            &&& !name_fits(name@)
                            &&& forall|j: int| 0 <= j < i ==> name_fits((#[trigger] self@[j]).0)
                        }
                    &&& len == encode_utf8(name@).len()
                    &&& max == MAX_SERVICE_NAME_LEN
                },
            },
    {
        let entries = &self.0;
        if entries.len() > MAX_CATALOG_ENTRIES {
            return Err(
                CatalogTooLarge::TooManyServices { count: entries.len(), max: MAX_CATALOG_ENTRIES },
            );
        }
        let mut size: usize = COUNT_PREFIX_LEN;
        let mut checked: usize = 0;
        while checked < entries.len()
            invariant
                checked <= entries.len() <= MAX_CATALOG_ENTRIES,
                entries == self.0,
                size <= COUNT_PREFIX_LEN + checked * 259,
                forall|j: int| 0 <= j < checked ==> name_fits((#[trigger] self@[j]).0),
            decreases entries.len() - checked,
        {
            let entry = &entries[checked];
            let name: &[u8] = entry.name.as_str().as_bytes();
            assert(self@[checked as int].0 == entry.name@);
            if name.len() > MAX_SERVICE_NAME_LEN {
                return Err(
                    CatalogTooLarge::NameTooLong {
                        name: entry.name.clone(),
                        len: name.len(),
                        max: MAX_SERVICE_NAME_LEN,
                    },
                );
            }
            size = size + (ENTRY_OVERHEAD_LEN + name.len());
            checked = checked + 1;
        }

        let mut out: Vec<u8> = Vec::with_capacity(size);
        push_be32(&mut out, entries.len());
        let mut written: usize = 0;
        while written < entries.len()
            invariant
                written <= entries.len() <= MAX_CATALOG_ENTRIES,
                entries == self.0,
                forall|j: int| 0 <= j < self@.len() ==> name_fits((#[trigger] self@[j]).0),
                out@ == be32(self@.len()) + entries_wire(self@.take(written as int)),
            decreases entries.len() - written,
        {
            let entry = &entries[written];
            let name: &[u8] = entry.name.as_str().as_bytes();
            let ghost before = out@;
            proof {
                let k = written as int;
                assert(self@[k] == entry@);
                assert(name_fits(self@[k].0));
                lemma_entries_wire_push(self@.take(k), entry@);
                assert(self@.take(k + 1) =~= self@.take(k).push(entry@));
            }
            push_be16(&mut out, name.len());
            push_bytes(&mut out, name);
            out.push(entry.posture.tag());
            proof {
                assert(out@ =~= before + entry_wire(entry@));
                assert(out@ =~= be32(self@.len()) + (entries_wire(self@.take(written as int))
                    + entry_wire(entry@)));
            }
            written = written + 1;
        }
        assert(self@.take(written as int) =~= self@);
        Ok(out)
    }

    /// Decode a catalog from its wire form, bounds-checked against untrusted input: an over-long
    /// name, an over-large count, an unknown posture tag, or trailing bytes is a clean error. The
    /// whole blob must be consumed.
    pub fn decode(bytes: &[u8]) -> (catalog: Result<Self, CatalogError>)
        ensures
            match catalog {
                Ok(catalog) => read_catalog(bytes@) == Ok::<_, CatalogError>(catalog@),
                Err(error) => read_catalog(bytes@) == Err::<Seq<(Seq<char>, Posture)>, _>(error),
            },
    {
        let mut cursor: usize = 0;
        let count: usize = match take_u32(bytes, &mut cursor) {
            Ok(count) => count,
            Err(error) => {
                return Err(error);
            },
        };
        assert(bytes@.skip(0) =~= bytes@);
        if count > MAX_CATALOG_ENTRIES {
            return Err(CatalogError::TooManyServices { count });
        }
        let mut entries: Vec<ServiceEntry> = Vec::with_capacity(count);
        let ghost whole = read_catalog(bytes@);
        while entries.len() < count
            invariant
                entries.len() <= count,
                cursor <= bytes.len(),
                whole == read_catalog(bytes@),
                whole == match read_entries(
                    bytes@.skip(cursor as int),
                    (count - entries.len()) as nat,
                ) {
                    Ok(rest) => Ok::<_, CatalogError>(
                        entries@.map_values(|entry: ServiceEntry| entry@) + rest,
                    ),
                    Err(error) => Err(error),
                },
            decreases count - entries.len(),
        {
            let ghost before = entries@.map_values(|entry: ServiceEntry| entry@);
            let ghost front = bytes@.skip(cursor as int);
            let ghost left = (count - entries.len()) as nat;
            let name_len: usize = match take_u16(bytes, &mut cursor) {
                Ok(name_len) => name_len,
                Err(error) => {
                    return Err(error);
                },
            };
            if name_len > MAX_SERVICE_NAME_LEN {
                return Err(CatalogError::NameTooLong { len: name_len });
            }
            let raw: &[u8] = match take(bytes, &mut cursor, name_len) {
                Ok(raw) => raw,
                Err(error) => {
                    return Err(error);
                },
            };
            assert(raw@ =~= front.subrange(2, 2 + name_len as int));
            let name: String = match utf8_text(raw) {
                Some(name) => name,
                None => {
                    return Err(CatalogError::NotUtf8);
                },
            };
            let tag: &[u8] = match take(bytes, &mut cursor, 1) {
                Ok(tag) => tag,
                Err(error) => {
                    return Err(error);
                },
            };
            assert(tag@[0] == front[2 + name_len as int]);
            let posture: Posture = match Posture::from_tag(tag[0]) {
                Ok(posture) => posture,
                Err(error) => {
                    return Err(error);
                },
            };
            let entry = ServiceEntry { name, posture };
            proof {
                assert(bytes@.skip(cursor as int) =~= front.skip(2 + name_len as int + 1));
                assert(read_entry(front) == Ok::<_, CatalogError>(
                    (entry@, bytes@.skip(cursor as int)),
                ));
                if let Ok(rest) = read_entries(bytes@.skip(cursor as int), (left - 1) as nat) {
                    assert(before + (seq![entry@] + rest) =~= before.push(entry@) + rest);
                }
            }
            entries.push(entry);
            assert(entries@.map_values(|entry: ServiceEntry| entry@) =~= before.push(entry@));
        }
        let catalog = ServiceCatalog(entries);
        if cursor != bytes.len() {
            assert(bytes@.skip(cursor as int).len() != 0);
            return Err(CatalogError::TrailingBytes);
        }
        assert(catalog@ + Seq::empty() =~= catalog@);
        Ok(catalog)
    }
}

/// Append the bytes of a slice.
fn push_bytes(out: &mut Vec<u8>, bytes: &[u8])
    ensures
        final(out)@ == old(out)@ + bytes@,
{
    let mut i: usize = 0;
    assert(out@ =~= old(out)@ + bytes@.take(0));
    while i < bytes.len()
        invariant
            i <= bytes.len(),
            out@ == old(out)@ + bytes@.take(i as int),
        decreases bytes.len() - i,
    {
        out.push(bytes[i]);
        i = i + 1;
        assert(out@ =~= old(out)@ + bytes@.take(i as int));
    }
    assert(bytes@.take(i as int) =~= bytes@);
}

/// Append a number as a big-endian `u16`.
fn push_be16(out: &mut Vec<u8>, number: usize)
    requires
        number < 65536,
    ensures
        final(out)@ == old(out)@ + be16(number as nat),
{
    out.push((number / 256) as u8);
    out.push((number % 256) as u8);
    assert(out@ =~= old(out)@ + be16(number as nat));
}

/// Append a number as a big-endian `u32`.
fn push_be32(out: &mut Vec<u8>, number: usize)
    requires
        number < 0x1_0000_0000,
    ensures
        final(out)@ == old(out)@ + be32(number as nat),
{
    push_be16(out, number / 65536);
    push_be16(out, number % 65536);
    assert(out@ =~= old(out)@ + be32(number as nat));
}

/// Read `len` bytes at `cursor`, advancing it, or fail if the blob is too short.
fn take<'a>(bytes: &'a [u8], cursor: &mut usize, len: usize) -> (taken: Result<
    &'a [u8],
    CatalogError,
>)
    ensures
        match taken {
            Ok(slice) => {
                &&& *old(cursor) + len <= bytes.len()
                &&& *final(cursor) == *old(cursor) + len
                &&& slice@ == bytes@.subrange(*old(cursor) as int, *old(cursor) + len)
            },
            Err(error) => {
                &&& *old(cursor) + len > bytes.len()
                &&& *final(cursor) == *old(cursor)
                &&& error is Truncated
            },
        },
{
    let start: usize = *cursor;
    if start > bytes.len() || bytes.len() - start < len {
        return Err(CatalogError::Truncated);
    }
    *cursor = start + len;
    Ok(vstd::slice::slice_subrange(bytes, start, start + len))
}

/// Read a big-endian `u16` at `cursor`, advancing it.
fn take_u16(bytes: &[u8], cursor: &mut usize) -> (taken: Result<usize, CatalogError>)
    ensures
        match taken {
            Ok(number) => {
                &&& *old(cursor) + 2 <= bytes.len()
                &&& *final(cursor) == *old(cursor) + 2
                &&& number == of_be16(bytes@.skip(*old(cursor) as int))
            },
            Err(error) => {
                &&& *old(cursor) + 2 > bytes.len()
                &&& *final(cursor) == *old(cursor)
                &&& error is Truncated
            },
        },
{
    match take(bytes, cursor, 2) {
        Ok(pair) => Ok(pair[0] as usize * 256 + pair[1] as usize),
        Err(error) => Err(error),
    }
}

/// Read a big-endian `u32` at `cursor`, advancing it.
fn take_u32(bytes: &[u8], cursor: &mut usize) -> (taken: Result<usize, CatalogError>)
    ensures
        match taken {
            Ok(number) => {
                &&& *old(cursor) + 4 <= bytes.len()
                &&& *final(cursor) == *old(cursor) + 4
                &&& number == of_be32(bytes@.skip(*old(cursor) as int))
            },
            Err(error) => {
                &&& *old(cursor) + 4 > bytes.len()
                &&& *final(cursor) == *old(cursor)
                &&& error is Truncated
            },
        },
{
    match take(bytes, cursor, 4) {
        Ok(word) => {
            proof {
                let tail = bytes@.skip(*old(cursor) as int);
                assert(word@ =~= tail.take(4));
                assert(tail.skip(2)[0] == word@[2]);
                assert(tail.skip(2)[1] == word@[3]);
            }
            let high: usize = word[0] as usize * 256 + word[1] as usize;
            let low: usize = word[2] as usize * 256 + word[3] as usize;
            Ok(high * 65536 + low)
        },
        Err(error) => Err(error),
    }
}

/// Why a blob is not a catalog.
#[derive(Debug, Clone, Copy, PartialEq, Eq, Structural)]
pub enum CatalogError {
    /// The blob ends inside a field.
    Truncated,
    /// The count prefix names more services than the wire admits.
    TooManyServices {
        /// The count it named.
        count: usize,
    },
    /// A length prefix names a longer service name than the wire admits.
    NameTooLong {
        /// The length it named.
        len: usize,
    },
    /// A service name is not UTF-8.
    NotUtf8,
    /// A posture tag is neither gated nor open.
    UnknownPosture {
        /// The tag found.
        tag: u8,
    },
    /// Bytes follow the last entry.
    TrailingBytes,
}

impl CatalogError {
    /// The sentence a reader gets.
    pub open spec fn text(self) -> Seq<char> {
        match self {
            CatalogError::Truncated => "service catalog is truncated"@,
            CatalogError::TooManyServices { count } => {
                "service catalog names too many services ("@ + decimal_text(count as nat) + ")"@
            },
            CatalogError::NameTooLong { len } => {
                "service name too long ("@ + decimal_text(len as nat) + " bytes)"@
            },
            CatalogError::NotUtf8 => "service name is not valid UTF-8"@,
            CatalogError::UnknownPosture { tag } => {
                "unknown service posture tag "@ + hex_text(tag)
            },
            CatalogError::TrailingBytes => "service catalog has trailing bytes"@,
        }
    }

    /// The sentence a reader gets.
    pub fn message(&self) -> (message: String)
        ensures
            message@ == self.text(),
    {
        match self {
            CatalogError::Truncated => String::from_str("service catalog is truncated"),
            CatalogError::TooManyServices { count } => {
                String::from_str("service catalog names too many services (").concat(
                    decimal(*count as u64).as_str(),
                ).concat(")")
            },
            CatalogError::NameTooLong { len } => {
                String::from_str("service name too long (").concat(
                    decimal(*len as u64).as_str(),
                ).concat(" bytes)")
            },
            CatalogError::NotUtf8 => String::from_str("service name is not valid UTF-8"),
            CatalogError::UnknownPosture { tag } => {
                String::from_str("unknown service posture tag ").concat(
                    hexadecimal(*tag).as_str(),
                )
            },
            CatalogError::TrailingBytes => {
                String::from_str("service catalog has trailing bytes")
            },
        }
    }
}

/// The names of a catalog's entries, in the catalog's order.
pub open spec fn entry_names(entries: Seq<(Seq<char>, Posture)>) -> Seq<Seq<char>> {
    entries.map_values(|entry: (Seq<char>, Posture)| entry.0)
}

/// Two bytes, most significant first.
pub open spec fn be16(number: nat) -> Seq<u8> {
    seq![(number / 256) as u8, (number % 256) as u8]
}

/// Four bytes, most significant first.
pub open spec fn be32(number: nat) -> Seq<u8> {
    be16(number / 65536) + be16(number % 65536)
}

/// The number two bytes write, most significant first.
pub open spec fn of_be16(bytes: Seq<u8>) -> nat {
    (bytes[0] * 256 + bytes[1]) as nat
}

/// The number four bytes write, most significant first.
pub open spec fn of_be32(bytes: Seq<u8>) -> nat {
    of_be16(bytes) * 65536 + of_be16(bytes.skip(2))
}

/// One entry on the wire.
pub open spec fn entry_wire(entry: (Seq<char>, Posture)) -> Seq<u8> {
    let name = encode_utf8(entry.0);
    be16(name.len()) + name + seq![posture_tag(entry.1)]
}

/// Entries on the wire, one after another.
pub open spec fn entries_wire(entries: Seq<(Seq<char>, Posture)>) -> Seq<u8>
    decreases entries.len(),
{
    if entries.len() == 0 {
        Seq::empty()
    } else {
        entry_wire(entries[0]) + entries_wire(entries.drop_first())
    }
}

/// A whole catalog on the wire: the count, then the entries.
pub open spec fn catalog_wire(entries: Seq<(Seq<char>, Posture)>) -> Seq<u8> {
    be32(entries.len()) + entries_wire(entries)
}

/// Whether a name is within the wire's per-name bound.
pub open spec fn name_fits(name: Seq<char>) -> bool {
    encode_utf8(name).len() <= MAX_SERVICE_NAME_LEN
}

/// Whether a catalog is within both of the wire's field bounds.
pub open spec fn catalog_fits(entries: Seq<(Seq<char>, Posture)>) -> bool {
    &&& entries.len() <= MAX_CATALOG_ENTRIES
    &&& forall|i: int| 0 <= i < entries.len() ==> name_fits((#[trigger] entries[i]).0)
}

/// The posture a tag names.
pub open spec fn posture_of_tag(tag: u8) -> Result<Posture, CatalogError> {
    if tag == 0 {
        Ok(Posture::Gated)
    } else if tag == 1 {
        Ok(Posture::Open)
    } else {
        Err(CatalogError::UnknownPosture { tag })
    }
}

/// The entry at the front of a blob, and what follows it.
pub open spec fn read_entry(bytes: Seq<u8>) -> Result<
    ((Seq<char>, Posture), Seq<u8>),
    CatalogError,
> {
    if bytes.len() < 2 {
        Err(CatalogError::Truncated)
    } else if of_be16(bytes) > MAX_SERVICE_NAME_LEN {
        Err(CatalogError::NameTooLong { len: of_be16(bytes) as usize })
    } else if bytes.len() < 2 + of_be16(bytes) {
        Err(CatalogError::Truncated)
    } else {
        let end = 2 + of_be16(bytes) as int;
        let name = bytes.subrange(2, end);
        if !valid_utf8(name) {
            Err(CatalogError::NotUtf8)
        } else if bytes.len() <= end {
            Err(CatalogError::Truncated)
        } else {
            match posture_of_tag(bytes[end]) {
                Ok(posture) => Ok(((decode_utf8(name), posture), bytes.skip(end + 1))),
                Err(error) => Err(error),
            }
        }
    }
}

/// The `count` entries that fill a blob.
pub open spec fn read_entries(bytes: Seq<u8>, count: nat) -> Result<
    Seq<(Seq<char>, Posture)>,
    CatalogError,
>
    decreases count,
{
    if count == 0 {
        if bytes.len() == 0 {
            Ok(Seq::empty())
        } else {
            Err(CatalogError::TrailingBytes)
        }
    } else {
        match read_entry(bytes) {
            Err(error) => Err(error),
            Ok((entry, rest)) => match read_entries(rest, (count - 1) as nat) {
                Err(error) => Err(error),
                Ok(entries) => Ok(seq![entry] + entries),
            },
        }
    }
}

/// What a blob reads as: the catalog it is the wire form of, or the first thing wrong with it.
pub open spec fn read_catalog(bytes: Seq<u8>) -> Result<Seq<(Seq<char>, Posture)>, CatalogError> {
    if bytes.len() < COUNT_PREFIX_LEN {
        Err(CatalogError::Truncated)
    } else if of_be32(bytes) > MAX_CATALOG_ENTRIES {
        Err(CatalogError::TooManyServices { count: of_be32(bytes) as usize })
    } else {
        read_entries(bytes.skip(COUNT_PREFIX_LEN as int), of_be32(bytes))
    }
}

proof fn lemma_entries_wire_push(
    entries: Seq<(Seq<char>, Posture)>,
    entry: (Seq<char>, Posture),
)
    ensures
        entries_wire(entries.push(entry)) == entries_wire(entries) + entry_wire(entry),
    decreases entries.len(),
{
    if entries.len() == 0 {
        reveal_with_fuel(entries_wire, 2);
        assert(entries.push(entry).drop_first() =~= Seq::empty());
        assert(entries_wire(entries.push(entry)) =~= entry_wire(entry));
        assert(entries_wire(entries) + entry_wire(entry) =~= entry_wire(entry));
    } else {
        lemma_entries_wire_push(entries.drop_first(), entry);
        assert(entries.push(entry).drop_first() =~= entries.drop_first().push(entry));
        assert(entry_wire(entries[0]) + (entries_wire(entries.drop_first()) + entry_wire(entry))
            =~= (entry_wire(entries[0]) + entries_wire(entries.drop_first())) + entry_wire(entry));
    }
}

/// The length of the wire form of entries that fit.
proof fn lemma_entries_wire_len(entries: Seq<(Seq<char>, Posture)>)
    requires
        forall|i: int| 0 <= i < entries.len() ==> name_fits((#[trigger] entries[i]).0),
    ensures
        entries_wire(entries).len() <= entries.len() * 259,
    decreases entries.len(),
{
    if entries.len() > 0 {
        assert(name_fits(entries[0].0));
        assert forall|i: int| 0 <= i < entries.drop_first().len() implies name_fits(
            (#[trigger] entries.drop_first()[i]).0,
        ) by {
            assert(name_fits(entries[i + 1].0));
        }
        lemma_entries_wire_len(entries.drop_first());
    }
}

/// An entry reads back as itself, whatever follows it.
proof fn lemma_read_entry(entry: (Seq<char>, Posture), rest: Seq<u8>)
    requires
        name_fits(entry.0),
    ensures
        read_entry(entry_wire(entry) + rest) == Ok::<_, CatalogError>((entry, rest)),
{
    let name = encode_utf8(entry.0);
    let bytes = entry_wire(entry) + rest;
    encode_utf8_valid_utf8(entry.0);
    encode_utf8_decode_utf8(entry.0);
    assert(bytes[0] == (name.len() / 256) as u8);
    assert(bytes[1] == (name.len() % 256) as u8);
    assert(of_be16(bytes) == name.len());
    let end = 2 + name.len() as int;
    assert(bytes.subrange(2, end) =~= name);
    assert(bytes[end] == posture_tag(entry.1));
    assert(bytes.skip(end + 1) =~= rest);
}

/// What reads as an entry is that entry's wire form.
proof fn lemma_entry_canonical(bytes: Seq<u8>)
    ensures
        read_entry(bytes) matches Ok((entry, rest)) ==> name_fits(entry.0) && bytes == entry_wire(
            entry,
        ) + rest,
{
    if let Ok((entry, rest)) = read_entry(bytes) {
        let end = 2 + of_be16(bytes) as int;
        let name = bytes.subrange(2, end);
        decode_utf8_encode_utf8(name);
        assert(encode_utf8(entry.0) == name);
        assert(be16(name.len()) =~= bytes.take(2));
        assert(bytes =~= entry_wire(entry) + rest);
    }
}

proof fn lemma_read_entries(entries: Seq<(Seq<char>, Posture)>)
    requires
        forall|i: int| 0 <= i < entries.len() ==> name_fits((#[trigger] entries[i]).0),
    ensures
        read_entries(entries_wire(entries), entries.len()) == Ok::<_, CatalogError>(entries),
    decreases entries.len(),
{
    if entries.len() > 0 {
        assert(name_fits(entries[0].0));
        assert forall|i: int| 0 <= i < entries.drop_first().len() implies name_fits(
            (#[trigger] entries.drop_first()[i]).0,
        ) by {
            assert(name_fits(entries[i + 1].0));
        }
        lemma_read_entries(entries.drop_first());
        lemma_read_entry(entries[0], entries_wire(entries.drop_first()));
        assert(seq![entries[0]] + entries.drop_first() =~= entries);
    } else {
        assert(entries =~= Seq::empty());
    }
}

proof fn lemma_entries_canonical(bytes: Seq<u8>, count: nat)
    ensures
        read_entries(bytes, count) matches Ok(entries) ==> {
            &&& entries.len() == count
            &&& bytes == entries_wire(entries)
            &&& forall|i: int| 0 <= i < entries.len() ==> name_fits((#[trigger] entries[i]).0)
        },
    decreases count,
{
    if count == 0 {
        assert(bytes.len() == 0 ==> bytes =~= Seq::empty());
    } else {
        lemma_entry_canonical(bytes);
        if let Ok((entry, rest)) = read_entry(bytes) {
            lemma_entries_canonical(rest, (count - 1) as nat);
            if let Ok(entries) = read_entries(rest, (count - 1) as nat) {
                let all = seq![entry] + entries;
                assert(all.drop_first() =~= entries);
                assert(all[0] == entry);
                assert forall|i: int| 0 <= i < all.len() implies name_fits(
                    (#[trigger] all[i]).0,
                ) by {
                    if i > 0 {
                        assert(all[i] == entries[i - 1]);
                    }
                }
            }
        }
    }
}

/// A catalog within the field bounds decodes from its wire form to itself.
pub proof fn catalog_round_trips(entries: Seq<(Seq<char>, Posture)>)
    requires
        catalog_fits(entries),
    ensures
        read_catalog(catalog_wire(entries)) == Ok::<_, CatalogError>(entries),
{
    let bytes = catalog_wire(entries);
    let count = entries.len();
    assert(bytes[0] == be16(count / 65536)[0]);
    assert(bytes[1] == be16(count / 65536)[1]);
    assert(bytes.skip(2)[0] == be16(count % 65536)[0]);
    assert(bytes.skip(2)[1] == be16(count % 65536)[1]);
    assert(of_be32(bytes) == count);
    assert(bytes.skip(4) =~= entries_wire(entries));
    lemma_read_entries(entries);
}

/// The wire is canonical: a blob that decodes is the wire form of what it decodes to, and that
/// catalog is within the bounds the encoder enforces. So what the encoder refuses to emit is
/// exactly what a reader refuses to take.
pub proof fn catalog_wire_is_canonical(bytes: Seq<u8>)
    ensures
        read_catalog(bytes) matches Ok(entries) ==> catalog_fits(entries) && bytes == catalog_wire(
            entries,
        ),
{
    if let Ok(entries) = read_catalog(bytes) {
        let count = of_be32(bytes);
        lemma_entries_canonical(bytes.skip(4), count);
        assert(be32(count) =~= bytes.take(4));
        assert(bytes =~= catalog_wire(entries));
    }
}

/// No catalog within the field bounds is longer on the wire than [`MAX_CATALOG_BLOB`], so a reader
/// that stops there never cuts off a catalog that would decode.
pub proof fn catalog_wire_is_bounded(entries: Seq<(Seq<char>, Posture)>)
    requires
        catalog_fits(entries),
    ensures
        catalog_wire(entries).len() <= MAX_CATALOG_BLOB,
{
    lemma_entries_wire_len(entries);
}

proof fn lemma_full_entries(entries: Seq<(Seq<char>, Posture)>)
    requires
        forall|i: int|
            0 <= i < entries.len() ==> encode_utf8((#[trigger] entries[i]).0).len()
                == MAX_SERVICE_NAME_LEN,
    ensures
        entries_wire(entries).len() == entries.len() * 259,
    decreases entries.len(),
{
    if entries.len() > 0 {
        assert(encode_utf8(entries[0].0).len() == MAX_SERVICE_NAME_LEN);
        assert forall|i: int| 0 <= i < entries.drop_first().len() implies encode_utf8(
            (#[trigger] entries.drop_first()[i]).0,
        ).len() == MAX_SERVICE_NAME_LEN by {
            assert(entries.drop_first()[i] == entries[i + 1]);
        }
        lemma_full_entries(entries.drop_first());
    }
}

/// The blob bound is attained to the byte: a catalog with every entry slot filled and every name at
/// the name bound is exactly [`MAX_CATALOG_BLOB`] bytes long.
pub proof fn catalog_bound_is_attained(entries: Seq<(Seq<char>, Posture)>)
    requires
        entries.len() == MAX_CATALOG_ENTRIES,
        forall|i: int|
            0 <= i < entries.len() ==> encode_utf8((#[trigger] entries[i]).0).len()
                == MAX_SERVICE_NAME_LEN,
    ensures
        catalog_wire(entries).len() == MAX_CATALOG_BLOB,
{
    lemma_full_entries(entries);
}

/// A catalog encodes exactly where it is within the bounds: at most 1024 services, none with a name
/// of more than 256 bytes.
pub proof fn a_catalog_within_bounds_encodes(
    catalog: &ServiceCatalog,
    blob: Result<Vec<u8>, CatalogTooLarge>,
)
    requires
        call_ensures(ServiceCatalog::encode, (catalog,), blob),
    ensures
        blob is Ok <==> catalog@.len() <= 1024 && forall|i: int|
            0 <= i < catalog@.len() ==> encode_utf8((#[trigger] catalog@[i]).0).len() <= 256,
{
    if blob is Ok {
        assert forall|i: int| 0 <= i < catalog@.len() implies encode_utf8(
            (#[trigger] catalog@[i]).0,
        ).len() <= 256 by {
            assert(name_fits(catalog@[i].0));
        }
    }
}

/// The layout of the wire: four bytes of count, most significant first; then, entry by entry, two
/// bytes of name length, the name's bytes, and one byte of posture, `0` gated or `1` open. One more
/// entry adds its own bytes at the end and changes none of the others.
pub proof fn the_layout_of_a_catalog(
    catalog: &ServiceCatalog,
    longer: &ServiceCatalog,
    blob: Result<Vec<u8>, CatalogTooLarge>,
    long_blob: Result<Vec<u8>, CatalogTooLarge>,
    name: Seq<char>,
    posture: Posture,
)
    requires
        call_ensures(ServiceCatalog::encode, (catalog,), blob),
        call_ensures(ServiceCatalog::encode, (longer,), long_blob),
        longer@ == catalog@.push((name, posture)),
        blob is Ok && long_blob is Ok,
    ensures
        blob->Ok_0@.len() >= 4,
        ({
            let count = blob->Ok_0@;
            count[0] * 0x100_0000 + count[1] * 0x1_0000 + count[2] * 0x100 + count[3]
                == catalog@.len()
        }),
        catalog@.len() == 0 ==> blob->Ok_0@.len() == 4,
        ({
            let bytes = encode_utf8(name);
            long_blob->Ok_0@.skip(4) == blob->Ok_0@.skip(4) + seq![
                (bytes.len() / 256) as u8,
                (bytes.len() % 256) as u8,
            ] + bytes + seq![
                if posture == Posture::Open {
                    1u8
                } else {
                    0u8
                },
            ]
        }),
{
    let entries = catalog@;
    let n = entries.len();
    let wire = catalog_wire(entries);
    assert(wire.take(4) =~= be32(n));
    assert(wire[0] == be16(n / 65536)[0] && wire[1] == be16(n / 65536)[1]);
    assert(wire[2] == be16(n % 65536)[0] && wire[3] == be16(n % 65536)[1]);
    assert(n <= 1024);
    assert(n / 65536 == 0 && n % 65536 == n);
    lemma_entries_wire_push(entries, (name, posture));
    assert(wire.skip(4) =~= entries_wire(entries));
    assert(catalog_wire(longer@).skip(4) =~= entries_wire(longer@));
    let bytes = encode_utf8(name);
    assert(entries_wire(entries) + entry_wire((name, posture)) =~= entries_wire(entries) + seq![
        (bytes.len() / 256) as u8,
        (bytes.len() % 256) as u8,
    ] + bytes + seq![posture_tag(posture)]);
}

/// What was encoded is what is decoded.
pub proof fn a_catalog_comes_back(
    catalog: &ServiceCatalog,
    blob: Result<Vec<u8>, CatalogTooLarge>,
    bytes: &[u8],
    decoded: Result<ServiceCatalog, CatalogError>,
)
    requires
        call_ensures(ServiceCatalog::encode, (catalog,), blob),
        blob is Ok,
        bytes@ == blob->Ok_0@,
        call_ensures(ServiceCatalog::decode, (bytes,), decoded),
    ensures
        decoded matches Ok(read) && read@ == catalog@,
{
    catalog_round_trips(catalog@);
}

/// What decodes is exactly what encodes to the same bytes: there is one blob for a catalog.
pub proof fn a_blob_is_the_one_of_its_catalog(
    bytes: &[u8],
    decoded: Result<ServiceCatalog, CatalogError>,
    again: Result<Vec<u8>, CatalogTooLarge>,
)
    requires
        call_ensures(ServiceCatalog::decode, (bytes,), decoded),
        decoded is Ok,
        call_ensures(ServiceCatalog::encode, (&decoded->Ok_0, ), again),
    ensures
        again matches Ok(blob) && blob@ == bytes@,
{
    catalog_wire_is_canonical(bytes@);
    let entries = decoded->Ok_0@;
    if let Err(CatalogTooLarge::NameTooLong { name, .. }) = again {
        let i = choose|i: int|
            0 <= i < entries.len() && #[trigger] entries[i].0 == name@ && !name_fits(name@);
        assert(name_fits(entries[i].0));
    }
}

proof fn lemma_entry_cut(entry: (Seq<char>, Posture), k: int)
    requires
        name_fits(entry.0),
        0 <= k < entry_wire(entry).len(),
    ensures
        read_entry(entry_wire(entry).take(k)) == Err::<((Seq<char>, Posture), Seq<u8>), _>(
            CatalogError::Truncated,
        ),
{
    let name = encode_utf8(entry.0);
    let bytes = entry_wire(entry).take(k);
    encode_utf8_valid_utf8(entry.0);
    if k >= 2 {
        assert(bytes[0] == (name.len() / 256) as u8);
        assert(bytes[1] == (name.len() % 256) as u8);
        assert(of_be16(bytes) == name.len());
        if k >= 2 + name.len() {
            assert(bytes.subrange(2, 2 + name.len() as int) =~= name);
        }
    }
}

proof fn lemma_entries_cut(entries: Seq<(Seq<char>, Posture)>, k: int)
    requires
        forall|i: int| 0 <= i < entries.len() ==> name_fits((#[trigger] entries[i]).0),
        0 <= k < entries_wire(entries).len(),
    ensures
        read_entries(entries_wire(entries).take(k), entries.len()) == Err::<
            Seq<(Seq<char>, Posture)>,
            _,
        >(CatalogError::Truncated),
    decreases entries.len(),
{
    if entries.len() > 0 {
        let rest = entries.drop_first();
        let first = entry_wire(entries[0]);
        assert(name_fits(entries[0].0));
        let cut = entries_wire(entries).take(k);
        if k < first.len() {
            lemma_entry_cut(entries[0], k);
            assert(cut =~= first.take(k));
        } else {
            let more = k - first.len();
            assert(cut =~= first + entries_wire(rest).take(more));
            assert forall|i: int| 0 <= i < rest.len() implies name_fits((#[trigger] rest[i]).0) by {
                assert(rest[i] == entries[i + 1]);
            }
            lemma_read_entry(entries[0], entries_wire(rest).take(more));
            lemma_entries_cut(rest, more);
        }
    }
}

proof fn lemma_entries_trail(entries: Seq<(Seq<char>, Posture)>, extra: Seq<u8>)
    requires
        forall|i: int| 0 <= i < entries.len() ==> name_fits((#[trigger] entries[i]).0),
        extra.len() > 0,
    ensures
        read_entries(entries_wire(entries) + extra, entries.len()) == Err::<
            Seq<(Seq<char>, Posture)>,
            _,
        >(CatalogError::TrailingBytes),
    decreases entries.len(),
{
    if entries.len() > 0 {
        let rest = entries.drop_first();
        assert(name_fits(entries[0].0));
        assert forall|i: int| 0 <= i < rest.len() implies name_fits((#[trigger] rest[i]).0) by {
            assert(rest[i] == entries[i + 1]);
        }
        assert(entries_wire(entries) + extra =~= entry_wire(entries[0]) + (entries_wire(rest)
            + extra));
        lemma_read_entry(entries[0], entries_wire(rest) + extra);
        lemma_entries_trail(rest, extra);
    } else {
        assert(entries_wire(entries) + extra =~= extra);
    }
}

/// A blob is taken whole or not at all: one that was cut short anywhere is truncated, and one with
/// anything behind it has trailing bytes.
pub proof fn a_blob_is_taken_whole_or_not_at_all(
    catalog: &ServiceCatalog,
    blob: Result<Vec<u8>, CatalogTooLarge>,
    cut: &[u8],
    trailed: &[u8],
    extra: Seq<u8>,
    of_cut: Result<ServiceCatalog, CatalogError>,
    of_trailed: Result<ServiceCatalog, CatalogError>,
)
    requires
        call_ensures(ServiceCatalog::encode, (catalog,), blob),
        blob is Ok,
        cut@.len() < blob->Ok_0@.len(),
        cut@ == blob->Ok_0@.take(cut@.len() as int),
        extra.len() > 0,
        trailed@ == blob->Ok_0@ + extra,
        call_ensures(ServiceCatalog::decode, (cut,), of_cut),
        call_ensures(ServiceCatalog::decode, (trailed,), of_trailed),
    ensures
        of_cut == Err::<ServiceCatalog, _>(CatalogError::Truncated),
        of_trailed == Err::<ServiceCatalog, _>(CatalogError::TrailingBytes),
{
    let entries = catalog@;
    let n = entries.len();
    let wire = catalog_wire(entries);
    assert(wire[0] == be16(n / 65536)[0] && wire[1] == be16(n / 65536)[1]);
    assert(wire[2] == be16(n % 65536)[0] && wire[3] == be16(n % 65536)[1]);
    assert(of_be32(trailed@) == n);
    assert(trailed@.skip(4) =~= entries_wire(entries) + extra);
    lemma_entries_trail(entries, extra);
    if cut@.len() >= 4 {
        let k = cut@.len() - 4;
        assert(of_be32(cut@) == n);
        assert(cut@.skip(4) =~= entries_wire(entries).take(k));
        lemma_entries_cut(entries, k);
    }
}

/// A reader is never talked into more than the wire carries: a count above 1024 is refused from the
/// first four bytes, whatever follows.
pub proof fn an_over_large_count_is_refused_at_once(
    bytes: &[u8],
    decoded: Result<ServiceCatalog, CatalogError>,
)
    requires
        call_ensures(ServiceCatalog::decode, (bytes,), decoded),
        bytes@.len() >= 4,
        bytes@[0] * 0x100_0000 + bytes@[1] * 0x1_0000 + bytes@[2] * 0x100 + bytes@[3] > 1024,
    ensures
        decoded matches Err(CatalogError::TooManyServices { count }) && count == bytes@[0]
            * 0x100_0000 + bytes@[1] * 0x1_0000 + bytes@[2] * 0x100 + bytes@[3],
{
    assert(bytes@.skip(2)[0] == bytes@[2] && bytes@.skip(2)[1] == bytes@[3]);
}

/// A posture and its tag name each other, and no other tag names any.
pub proof fn a_tag_names_one_posture(
    posture: Posture,
    tag: u8,
    read: Result<Posture, CatalogError>,
    other: u8,
    of_other: Result<Posture, CatalogError>,
)
    requires
        call_ensures(Posture::tag, (posture,), tag),
        call_ensures(Posture::from_tag, (tag,), read),
        call_ensures(Posture::from_tag, (other,), of_other),
    ensures
        read == Ok::<_, CatalogError>(posture),
        tag == if posture == Posture::Open {
            1u8
        } else {
            0u8
        },
        other > 1 ==> of_other == Err::<Posture, _>(CatalogError::UnknownPosture { tag: other }),
{
}

} // verus!
