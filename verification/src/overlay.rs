//! The two open overlays: which served names an operator asked to open, and the proof that turns a
//! request into the set admission consults.
//!
//! The safe overlay opens a legitimate service; the unsafe one serves a raw byte source, which has
//! no auth of its own. The two never fold, so the louder opt-in stays a distinct, deliberate thing.

use vstd::prelude::*;
use vstd::string::*;

use crate::catalog::{entry_names, Posture, ServiceCatalog, ServiceEntry};
use crate::gate::Gate;
use crate::services::{is_listing, listing, Access, Services, Table};
use crate::target::{source_path, RawStream, Target};
use crate::text::{join, name_lt, same, texts};

verus! {

/// The names an operator asked to open to strangers, before each is proven exposed and open-safe.
#[derive(Debug, PartialEq, Eq)]
pub struct PublicRequest {
    names: Vec<String>,
}

/// The raw-stream names an operator asked to serve to strangers unauthenticated, before each is
/// proven a served raw stream.
#[derive(Debug, PartialEq, Eq)]
pub struct PublicUnsafeRequest {
    names: Vec<String>,
}

/// A set of served names that a proof opened. Membership is the only open path at admission.
#[derive(Debug, PartialEq, Eq)]
pub struct PublicServices {
    names: Vec<String>,
}

impl View for PublicRequest {
    type V = Seq<Seq<char>>;

    closed spec fn view(&self) -> Seq<Seq<char>> {
        texts(self.names@)
    }
}

impl View for PublicUnsafeRequest {
    type V = Seq<Seq<char>>;

    closed spec fn view(&self) -> Seq<Seq<char>> {
        texts(self.names@)
    }
}

impl View for PublicServices {
    type V = Set<Seq<char>>;

    closed spec fn view(&self) -> Set<Seq<char>> {
        texts(self.names@).to_set()
    }
}

/// Whether a list holds a name.
fn lists(names: &Vec<String>, name: &str) -> (held: bool)
    ensures
        held == texts(names@).contains(name@),
{
    let ghost all = texts(names@);
    let mut i: usize = 0;
    while i < names.len()
        invariant
            i <= names.len(),
            all == texts(names@),
            forall|j: int| 0 <= j < i ==> all[j] != name@,
        decreases names.len() - i,
    {
        assert(all[i as int] == names@[i as int]@);
        if same(names[i].as_str(), name) {
            return true;
        }
        i = i + 1;
    }
    false
}

impl PublicRequest {
    /// A request that opens nothing.
    pub fn none() -> (request: Self)
        ensures
            request@ == Seq::<Seq<char>>::empty(),
    {
        let request = PublicRequest { names: Vec::new() };
        assert(request@ =~= Seq::empty());
        request
    }

    /// A request for these names, verbatim.
    pub fn new(names: Vec<String>) -> (request: Self)
        ensures
            request@ == texts(names@),
    {
        PublicRequest { names }
    }

    /// Whether a name was requested. A display predicate, never an admission decision.
    pub fn contains(&self, name: &str) -> (requested: bool)
        ensures
            requested == self@.contains(name@),
    {
        lists(&self.names, name)
    }
}

impl PublicUnsafeRequest {
    /// A request that opens nothing.
    pub fn none() -> (request: Self)
        ensures
            request@ == Seq::<Seq<char>>::empty(),
    {
        let request = PublicUnsafeRequest { names: Vec::new() };
        assert(request@ =~= Seq::empty());
        request
    }

    /// A request for these names, verbatim.
    pub fn new(names: Vec<String>) -> (request: Self)
        ensures
            request@ == texts(names@),
    {
        PublicUnsafeRequest { names }
    }

    /// Whether a name was requested. A display predicate, never an admission decision.
    pub fn contains(&self, name: &str) -> (requested: bool)
        ensures
            requested == self@.contains(name@),
    {
        lists(&self.names, name)
    }
}

impl PublicServices {
    /// A set that opens nothing.
    pub fn none() -> (set: Self)
        ensures
            set@ == Set::<Seq<char>>::empty(),
    {
        let set = PublicServices { names: Vec::new() };
        assert(texts(set.names@) =~= Seq::empty());
        assert(set@ =~= Set::empty());
        set
    }

    /// Whether a name is a proven-open member.
    pub fn contains(&self, service: &str) -> (open: bool)
        ensures
            open == self@.contains(service@),
    {
        lists(&self.names, service)
    }
}

/// What stands at the path a raw stream reads, found without following a symlink.
#[derive(Debug, Clone, Copy, PartialEq, Eq, Structural)]
pub enum SourceKind {
    /// Nothing yet.
    Missing,
    /// A regular file.
    File,
    /// A named pipe.
    Fifo,
    /// A character device.
    CharacterDevice,
    /// A block device.
    BlockDevice,
    /// A directory.
    Directory,
    /// A socket.
    Socket,
    /// A symbolic link.
    Symlink,
}

impl SourceKind {
    /// Whether a raw stream may read what stands there: a file, a pipe, or nothing yet.
    pub open spec fn readable(self) -> bool {
        self == SourceKind::Missing || self == SourceKind::File || self == SourceKind::Fifo
    }

    /// Whether a raw stream may read what stands there.
    pub fn is_readable(self) -> (readable: bool)
        ensures
            readable == self.readable(),
    {
        match self {
            SourceKind::Missing | SourceKind::File | SourceKind::Fifo => true,
            SourceKind::CharacterDevice
            | SourceKind::BlockDevice
            | SourceKind::Directory
            | SourceKind::Socket
            | SourceKind::Symlink => false,
        }
    }

    /// The word a message renders for this kind.
    pub open spec fn word(self) -> Seq<char> {
        match self {
            SourceKind::Missing => "missing"@,
            SourceKind::File => "file"@,
            SourceKind::Fifo => "fifo"@,
            SourceKind::CharacterDevice => "character device"@,
            SourceKind::BlockDevice => "block device"@,
            SourceKind::Directory => "directory"@,
            SourceKind::Socket => "socket"@,
            SourceKind::Symlink => "symlink"@,
        }
    }

    /// The word a message renders for this kind.
    pub fn label(self) -> (word: &'static str)
        ensures
            word@ == self.word(),
    {
        match self {
            SourceKind::Missing => "missing",
            SourceKind::File => "file",
            SourceKind::Fifo => "fifo",
            SourceKind::CharacterDevice => "character device",
            SourceKind::BlockDevice => "block device",
            SourceKind::Directory => "directory",
            SourceKind::Socket => "socket",
            SourceKind::Symlink => "symlink",
        }
    }
}

/// What was found at one raw stream's path.
#[derive(Debug, PartialEq, Eq)]
pub struct SourceFact {
    /// The served name.
    pub name: String,
    /// What stands at its path.
    pub kind: SourceKind,
    /// Its path made absolute, which is how a banner names it.
    pub path: String,
}

/// The first fact about a name, if there is one.
pub open spec fn found_fact(facts: Seq<SourceFact>, name: Seq<char>) -> Option<SourceFact>
    decreases facts.len(),
{
    if facts.len() == 0 {
        None
    } else if facts[0].name@ == name {
        Some(facts[0])
    } else {
        found_fact(facts.drop_first(), name)
    }
}

/// What was found at a name's path, if anyone looked.
pub open spec fn found_source(facts: Seq<SourceFact>, name: Seq<char>) -> Option<SourceKind> {
    match found_fact(facts, name) {
        Some(fact) => Some(fact.kind),
        None => None,
    }
}

/// Where a name's path was found, made absolute, if anyone looked.
pub open spec fn found_path(facts: Seq<SourceFact>, name: Seq<char>) -> Option<Seq<char>> {
    match found_fact(facts, name) {
        Some(fact) => Some(fact.path@),
        None => None,
    }
}

/// Look up the first fact about a name.
pub(crate) fn find_fact<'a>(facts: &'a Vec<SourceFact>, name: &str) -> (fact: Option<
    &'a SourceFact,
>)
    ensures
        match fact {
            Some(fact) => found_fact(facts@, name@) == Some(*fact),
            None => found_fact(facts@, name@) is None,
        },
{
    let mut i: usize = 0;
    assert(facts@.skip(0) =~= facts@);
    while i < facts.len()
        invariant
            i <= facts.len(),
            found_fact(facts@, name@) == found_fact(facts@.skip(i as int), name@),
        decreases facts.len() - i,
    {
        assert(facts@.skip(i as int).drop_first() =~= facts@.skip(i + 1));
        if same(facts[i].name.as_str(), name) {
            return Some(&facts[i]);
        }
        i = i + 1;
    }
    None
}

/// Why an assembled table may not be exposed.
#[derive(Debug, Clone, PartialEq, Eq)]
pub enum ExposeError<Text> {
    /// A name asked for that the node does not serve.
    NotServed {
        /// The name.
        name: Text,
        /// What the node serves, in name order.
        served: Text,
    },
    /// A handler asked for in the unsafe raw-stream set.
    NotRawSource {
        /// The name.
        name: Text,
    },
    /// A raw stream whose path nobody looked at.
    SourceUnexamined {
        /// The name.
        name: Text,
    },
    /// A raw stream whose path every dial would refuse.
    SourceRefused {
        /// The name.
        name: Text,
        /// What stands at its path.
        kind: SourceKind,
    },
    /// A raw stream a public gate would serve without a deliberate opt-in.
    RawSource {
        /// The name.
        name: Text,
    },
    /// A handler with no legitimate public use.
    NoPublicUse {
        /// The name.
        name: Text,
    },
    /// A member-only route under an open gate, which no dial could ever reach.
    MemberUnderOpen {
        /// The name.
        name: Text,
    },
    /// A member-only raw stream in the unsafe set.
    MemberUnsafe {
        /// The name.
        name: Text,
    },
    /// A member-only route in the public set.
    MemberPublic {
        /// The name.
        name: Text,
    },
    /// A proven-only route under an open gate.
    ProvenOnlyUnderOpen {
        /// The name.
        name: Text,
    },
    /// A proven-only route in the public set.
    ProvenOnlyPublic {
        /// The name.
        name: Text,
    },
}

impl View for ExposeError<String> {
    type V = ExposeError<Seq<char>>;

    open spec fn view(&self) -> ExposeError<Seq<char>> {
        match self {
            ExposeError::NotServed { name, served } => ExposeError::NotServed {
                name: name@,
                served: served@,
            },
            ExposeError::NotRawSource { name } => ExposeError::NotRawSource { name: name@ },
            ExposeError::SourceUnexamined { name } => ExposeError::SourceUnexamined { name: name@ },
            ExposeError::SourceRefused { name, kind } => ExposeError::SourceRefused {
                name: name@,
                kind: *kind,
            },
            ExposeError::RawSource { name } => ExposeError::RawSource { name: name@ },
            ExposeError::NoPublicUse { name } => ExposeError::NoPublicUse { name: name@ },
            ExposeError::MemberUnderOpen { name } => ExposeError::MemberUnderOpen { name: name@ },
            ExposeError::MemberUnsafe { name } => ExposeError::MemberUnsafe { name: name@ },
            ExposeError::MemberPublic { name } => ExposeError::MemberPublic { name: name@ },
            ExposeError::ProvenOnlyUnderOpen { name } => ExposeError::ProvenOnlyUnderOpen {
                name: name@,
            },
            ExposeError::ProvenOnlyPublic { name } => ExposeError::ProvenOnlyPublic {
                name: name@,
            },
        }
    }
}

impl ExposeError<Seq<char>> {
    /// The sentence an operator reads.
    pub open spec fn text(self) -> Seq<char> {
        match self {
            ExposeError::NotServed { name, served } => {
                "no service named `"@ + name + "` to open; this node serves: "@ + served
            },
            ExposeError::NotRawSource { name } => {
                "`"@ + name
                    + "` is not a raw byte source, so the unsafe raw-stream set will not open it; a handler is opened to anyone through the public set instead"@
            },
            ExposeError::SourceUnexamined { name } => {
                "`"@ + name
                    + "` names a path nobody has looked at, so the unsafe raw-stream set will not open it; find out what stands there first"@
            },
            ExposeError::SourceRefused { name, kind } => {
                "`"@ + name + "` names a "@ + kind.word()
                    + ", which a raw stream will not read; point it at a file or a fifo"@
            },
            ExposeError::RawSource { name } => {
                "`"@ + name
                    + "` is a raw byte source (file:/fifo:/stdin:) with no auth of its own, so a public gate will not serve it. to serve its raw bytes to anyone, name it in the unsafe raw-stream set; otherwise gate it or drop it from the public set"@
            },
            ExposeError::NoPublicUse { name } => {
                "`"@ + name
                    + "` has no legitimate public use: a keyless shell (or an alias of one) would hand a shell to anyone who reaches this node. keep it family-gated; drop it from the public set"@
            },
            ExposeError::MemberUnderOpen { name } => {
                "`"@ + name
                    + "` is member-only, so an open gate will never serve it: an open gate admits everyone and proves nothing about who they are, so no dial can count as a member. keep the service on a gate that admits members, or drop the member-only declaration"@
            },
            ExposeError::MemberUnsafe { name } => {
                "`"@ + name
                    + "` is member-only, so it cannot be served to everyone as a raw byte source: an opened stream carries no membership proof, so the route would refuse every caller while the manifest renders it open. drop it from the unsafe raw-stream set, or drop the member-only declaration"@
            },
            ExposeError::MemberPublic { name } => {
                "`"@ + name
                    + "` is member-only, so it cannot be opened to everyone: a public dial carries no membership proof, so the route would refuse every caller while the catalog renders it open. drop it from the public set, or drop the member-only declaration"@
            },
            ExposeError::ProvenOnlyUnderOpen { name } => {
                "`"@ + name
                    + "` is proven-only, so an open gate will never serve it: it answers a key the transport proved, and an open gate proves nothing about who is there. keep the service on a gate that admits members"@
            },
            ExposeError::ProvenOnlyPublic { name } => {
                "`"@ + name
                    + "` is proven-only, so it cannot be opened to everyone: it answers a key the transport proved, and a public dial proves none. drop it from the public set"@
            },
        }
    }
}

impl ExposeError<String> {
    /// The sentence an operator reads.
    pub fn message(&self) -> (message: String)
        ensures
            message@ == self@.text(),
    {
        match self {
            ExposeError::NotServed { name, served } => {
                String::from_str("no service named `").concat(name.as_str()).concat(
                    "` to open; this node serves: ",
                ).concat(served.as_str())
            },
            ExposeError::NotRawSource { name } => {
                String::from_str("`").concat(name.as_str()).concat(
                    "` is not a raw byte source, so the unsafe raw-stream set will not open it; a handler is opened to anyone through the public set instead",
                )
            },
            ExposeError::SourceUnexamined { name } => {
                String::from_str("`").concat(name.as_str()).concat(
                    "` names a path nobody has looked at, so the unsafe raw-stream set will not open it; find out what stands there first",
                )
            },
            ExposeError::SourceRefused { name, kind } => {
                String::from_str("`").concat(name.as_str()).concat("` names a ").concat(
                    kind.label(),
                ).concat(", which a raw stream will not read; point it at a file or a fifo")
            },
            ExposeError::RawSource { name } => {
                String::from_str("`").concat(name.as_str()).concat(
                    "` is a raw byte source (file:/fifo:/stdin:) with no auth of its own, so a public gate will not serve it. to serve its raw bytes to anyone, name it in the unsafe raw-stream set; otherwise gate it or drop it from the public set",
                )
            },
            ExposeError::NoPublicUse { name } => {
                String::from_str("`").concat(name.as_str()).concat(
                    "` has no legitimate public use: a keyless shell (or an alias of one) would hand a shell to anyone who reaches this node. keep it family-gated; drop it from the public set",
                )
            },
            ExposeError::MemberUnderOpen { name } => {
                String::from_str("`").concat(name.as_str()).concat(
                    "` is member-only, so an open gate will never serve it: an open gate admits everyone and proves nothing about who they are, so no dial can count as a member. keep the service on a gate that admits members, or drop the member-only declaration",
                )
            },
            ExposeError::MemberUnsafe { name } => {
                String::from_str("`").concat(name.as_str()).concat(
                    "` is member-only, so it cannot be served to everyone as a raw byte source: an opened stream carries no membership proof, so the route would refuse every caller while the manifest renders it open. drop it from the unsafe raw-stream set, or drop the member-only declaration",
                )
            },
            ExposeError::MemberPublic { name } => {
                String::from_str("`").concat(name.as_str()).concat(
                    "` is member-only, so it cannot be opened to everyone: a public dial carries no membership proof, so the route would refuse every caller while the catalog renders it open. drop it from the public set, or drop the member-only declaration",
                )
            },
            ExposeError::ProvenOnlyUnderOpen { name } => {
                String::from_str("`").concat(name.as_str()).concat(
                    "` is proven-only, so an open gate will never serve it: it answers a key the transport proved, and an open gate proves nothing about who is there. keep the service on a gate that admits members",
                )
            },
            ExposeError::ProvenOnlyPublic { name } => {
                String::from_str("`").concat(name.as_str()).concat(
                    "` is proven-only, so it cannot be opened to everyone: it answers a key the transport proved, and a public dial proves none. drop it from the public set",
                )
            },
        }
    }
}

/// Why a name may not enter the unsafe overlay, if it may not.
pub open spec fn unsafe_fault(table: Table, facts: Seq<SourceFact>, name: Seq<char>) -> Option<
    ExposeError<Seq<char>>,
> {
    if !table.contains_key(name) {
        Some(ExposeError::NotServed { name, served: join(listing(table), ", "@) })
    } else {
        match table[name].target {
            Target::Handler(..) => Some(ExposeError::NotRawSource { name }),
            Target::RawStream(stream) => if source_path(stream) is None {
                None
            } else {
                match found_source(facts, name) {
                    None => Some(ExposeError::SourceUnexamined { name }),
                    Some(kind) => if kind.readable() {
                        None
                    } else {
                        Some(ExposeError::SourceRefused { name, kind })
                    },
                }
            },
        }
    }
}

/// The first of these names that may not enter the unsafe overlay, and why.
pub open spec fn unsafe_faults(
    table: Table,
    facts: Seq<SourceFact>,
    names: Seq<Seq<char>>,
) -> Option<ExposeError<Seq<char>>>
    decreases names.len(),
{
    if names.len() == 0 {
        None
    } else {
        match unsafe_fault(table, facts, names[0]) {
            Some(fault) => Some(fault),
            None => unsafe_faults(table, facts, names.drop_first()),
        }
    }
}

/// Why a name may not enter the safe overlay, if it may not. Read through the target, never off the
/// name, so an alias cannot be opened by naming it.
pub open spec fn public_fault(table: Table, name: Seq<char>) -> Option<ExposeError<Seq<char>>> {
    if !table.contains_key(name) {
        Some(ExposeError::NotServed { name, served: join(listing(table), ", "@) })
    } else if table[name].access == Access::Member {
        Some(ExposeError::MemberPublic { name })
    } else if table[name].access == Access::ProvenOnly {
        Some(ExposeError::ProvenOnlyPublic { name })
    } else if table[name].target is RawStream {
        Some(ExposeError::RawSource { name })
    } else if !table[name].target.openable() {
        Some(ExposeError::NoPublicUse { name })
    } else {
        None
    }
}

/// The first of these names that may not enter the safe overlay, and why.
pub open spec fn public_faults(table: Table, names: Seq<Seq<char>>) -> Option<
    ExposeError<Seq<char>>,
>
    decreases names.len(),
{
    if names.len() == 0 {
        None
    } else {
        match public_fault(table, names[0]) {
            Some(fault) => Some(fault),
            None => public_faults(table, names.drop_first()),
        }
    }
}

/// Where every name is clear, no member of the set is at fault.
pub proof fn lemma_unsafe_clear(table: Table, facts: Seq<SourceFact>, names: Seq<Seq<char>>)
    requires
        unsafe_faults(table, facts, names) is None,
    ensures
        forall|name: Seq<char>| #[trigger]
            names.to_set().contains(name) ==> unsafe_fault(table, facts, name) is None,
    decreases names.len(),
{
    if names.len() > 0 {
        let rest = names.drop_first();
        lemma_unsafe_clear(table, facts, rest);
        assert forall|name: Seq<char>| #[trigger] names.to_set().contains(name) implies unsafe_fault(
            table,
            facts,
            name,
        ) is None by {
            let i = choose|i: int| 0 <= i < names.len() && names[i] == name;
            if i > 0 {
                assert(rest[i - 1] == name);
                assert(rest.to_set().contains(name));
            }
        }
    }
}

/// No path is opened to strangers unseen: each name the unsafe overlay opens stands for standard
/// input, or for a path that was looked at and is one a dial would open.
pub proof fn an_opened_source_was_examined(
    table: Table,
    facts: Seq<SourceFact>,
    names: Seq<Seq<char>>,
    name: Seq<char>,
)
    requires
        unsafe_faults(table, facts, names) is None,
        names.to_set().contains(name),
    ensures
        table.contains_key(name),
        table[name].target is RawStream,
        source_path(table[name].target->RawStream_0) is Some ==> match found_source(facts, name) {
            Some(kind) => kind.readable(),
            None => false,
        },
{
    lemma_unsafe_clear(table, facts, names);
    assert(unsafe_fault(table, facts, name) is None);
}

/// Where every name is clear, no member of the set is at fault.
pub proof fn lemma_public_clear(table: Table, names: Seq<Seq<char>>)
    requires
        public_faults(table, names) is None,
    ensures
        forall|name: Seq<char>| #[trigger]
            names.to_set().contains(name) ==> public_fault(table, name) is None,
    decreases names.len(),
{
    if names.len() > 0 {
        let rest = names.drop_first();
        lemma_public_clear(table, rest);
        assert forall|name: Seq<char>| #[trigger] names.to_set().contains(name) implies public_fault(
            table,
            name,
        ) is None by {
            let i = choose|i: int| 0 <= i < names.len() && names[i] == name;
            if i > 0 {
                assert(rest[i - 1] == name);
                assert(rest.to_set().contains(name));
            }
        }
    }
}

/// The posture a dialer faces: open where the node's gate is, or where an overlay opened the name.
pub open spec fn posture_of(
    name: Seq<char>,
    gate: Gate,
    public: Set<Seq<char>>,
    public_unsafe: Set<Seq<char>>,
) -> Posture {
    if gate is Open || public.contains(name) || public_unsafe.contains(name) {
        Posture::Open
    } else {
        Posture::Gated
    }
}

/// The catalog of a table: its names in name order, each with the posture a dialer faces.
pub open spec fn catalog_of(
    table: Table,
    gate: Gate,
    public: Set<Seq<char>>,
    public_unsafe: Set<Seq<char>>,
) -> Seq<(Seq<char>, Posture)> {
    listing(table).map_values(
        |name: Seq<char>| (name, posture_of(name, gate, public, public_unsafe)),
    )
}

impl Services {
    /// Prove an unsafe raw-stream request: every name must be served, and resolve to a raw stream
    /// whose path was looked at and is one a dial would open. A handler named here is redirected,
    /// never opened.
    pub fn prove_unsafe(&self, requested: PublicUnsafeRequest, facts: &Vec<SourceFact>) -> (proven:
        Result<PublicServices, ExposeError<String>>)
        ensures
            match proven {
                Ok(set) => {
                    &&& unsafe_faults(self@, facts@, requested@) is None
                    &&& set@ == requested@.to_set()
                },
                Err(error) => unsafe_faults(self@, facts@, requested@) == Some(error@),
            },
    {
        let names: Vec<String> = requested.names;
        let ghost all = texts(names@);
        let mut i: usize = 0;
        assert(all.skip(0) =~= all);
        while i < names.len()
            invariant
                i <= names.len(),
                all == texts(names@),
                all == requested@,
                unsafe_faults(self@, facts@, all) == unsafe_faults(
                    self@,
                    facts@,
                    all.skip(i as int),
                ),
            decreases names.len() - i,
        {
            let name: &String = &names[i];
            proof {
                assert(all.skip(i as int)[0] == name@);
                assert(all.skip(i as int).drop_first() =~= all.skip(i + 1));
            }
            match self.get(name.as_str()) {
                None => {
                    return Err(
                        ExposeError::NotServed { name: name.clone(), served: self.served_line() },
                    );
                },
                Some(route) => match &route.target {
                    Target::Handler(..) => {
                        return Err(ExposeError::NotRawSource { name: name.clone() });
                    },
                    Target::RawStream(stream) => {
                        let on_path: bool = match stream {
                            RawStream::File { .. } | RawStream::Fifo { .. } => true,
                            RawStream::Stdin { .. } => false,
                        };
                        if on_path {
                            match find_fact(facts, name.as_str()) {
                                None => {
                                    return Err(
                                        ExposeError::SourceUnexamined { name: name.clone() },
                                    );
                                },
                                Some(fact) => {
                                    let kind: SourceKind = fact.kind;
                                    if !kind.is_readable() {
                                        return Err(
                                            ExposeError::SourceRefused {
                                                name: name.clone(),
                                                kind,
                                            },
                                        );
                                    }
                                },
                            }
                        }
                    },
                },
            }
            i = i + 1;
        }
        assert(all.skip(i as int) =~= Seq::empty());
        Ok(PublicServices { names })
    }

    /// Prove a safe public request: every name must be served, carry no floor a public dial could
    /// not pass, and resolve to an open-safe handler.
    pub fn prove_public(&self, requested: PublicRequest) -> (proven: Result<
        PublicServices,
        ExposeError<String>,
    >)
        ensures
            match proven {
                Ok(set) => {
                    &&& public_faults(self@, requested@) is None
                    &&& set@ == requested@.to_set()
                },
                Err(error) => public_faults(self@, requested@) == Some(error@),
            },
    {
        let names: Vec<String> = requested.names;
        let ghost all = texts(names@);
        let mut i: usize = 0;
        assert(all.skip(0) =~= all);
        while i < names.len()
            invariant
                i <= names.len(),
                all == texts(names@),
                all == requested@,
                public_faults(self@, all) == public_faults(self@, all.skip(i as int)),
            decreases names.len() - i,
        {
            let name: &String = &names[i];
            proof {
                assert(all.skip(i as int)[0] == name@);
                assert(all.skip(i as int).drop_first() =~= all.skip(i + 1));
            }
            match self.get(name.as_str()) {
                None => {
                    return Err(
                        ExposeError::NotServed { name: name.clone(), served: self.served_line() },
                    );
                },
                Some(route) => {
                    match route.access {
                        Access::Member => {
                            return Err(ExposeError::MemberPublic { name: name.clone() });
                        },
                        Access::ProvenOnly => {
                            return Err(ExposeError::ProvenOnlyPublic { name: name.clone() });
                        },
                        Access::Family => {},
                    }
                    match &route.target {
                        Target::RawStream(_) => {
                            return Err(ExposeError::RawSource { name: name.clone() });
                        },
                        Target::Handler(..) => {
                            if !route.target.open_safe() {
                                return Err(ExposeError::NoPublicUse { name: name.clone() });
                            }
                        },
                    }
                },
            }
            i = i + 1;
        }
        assert(all.skip(i as int) =~= Seq::empty());
        Ok(PublicServices { names })
    }

    /// The served services and the posture a dialer faces, in name order. Reads the operator's raw
    /// requests: the display side shows what was asked, and a node serves only once it was proven.
    pub fn catalog(
        &self,
        gate: &Gate,
        public: &PublicRequest,
        public_unsafe: &PublicUnsafeRequest,
    ) -> (catalog: ServiceCatalog)
        ensures
            catalog@ == catalog_of(self@, *gate, public@.to_set(), public_unsafe@.to_set()),
            is_listing(listing(self@), self@),
            is_listing(entry_names(catalog@), self@),
    {
        let node_open: bool = matches!(gate, Gate::Open);
        let names: Vec<String> = self.names();
        let mut entries: Vec<ServiceEntry> = Vec::new();
        let ghost all = texts(names@);
        let mut i: usize = 0;
        while i < names.len()
            invariant
                i <= names.len(),
                all == texts(names@),
                node_open == (gate is Open),
                entries.len() == i,
                forall|j: int|
                    0 <= j < i ==> (#[trigger] entries@[j])@ == (
                        all[j],
                        posture_of(all[j], *gate, public@.to_set(), public_unsafe@.to_set()),
                    ),
            decreases names.len() - i,
        {
            let name: &String = &names[i];
            assert(all[i as int] == name@);
            let posture: Posture = if node_open || public.contains(name.as_str())
                || public_unsafe.contains(name.as_str()) {
                Posture::Open
            } else {
                Posture::Gated
            };
            entries.push(ServiceEntry { name: name.clone(), posture });
            i = i + 1;
        }
        let catalog = ServiceCatalog(entries);
        assert(catalog@ =~= catalog_of(
            self@,
            *gate,
            public@.to_set(),
            public_unsafe@.to_set(),
        ));
        assert(entry_names(catalog@) =~= listing(self@));
        catalog
    }
}

/// A name enters the safe overlay exactly where it is one a stranger may be let in to: it is served,
/// it carries no floor, and its target is a handler whose marker is open-safe. Which handler it is
/// makes no difference, a built-in or a bound one.
pub proof fn a_safe_name_is_opened(
    services: &Services,
    requested: PublicRequest,
    proven: Result<PublicServices, ExposeError<String>>,
)
    requires
        call_ensures(Services::prove_public, (services, requested), proven),
    ensures
        proven is Ok <==> forall|i: int|
            0 <= i < requested@.len() ==> {
                let name = #[trigger] requested@[i];
                &&& services@.contains_key(name)
                &&& services@[name].access == Access::Family
                &&& services@[name].target matches Target::Handler(bound, _)
                    && bound.ceiling.open_safe
            },
        proven matches Ok(set) ==> forall|name: Seq<char>| #[trigger]
            set@.contains(name) <==> requested@.contains(name),
{
    lemma_public_faults(services@, requested@);
    assert forall|i: int| 0 <= i < requested@.len() implies (public_fault(
        services@,
        #[trigger] requested@[i],
    ) is None <==> {
        let name = requested@[i];
        &&& services@.contains_key(name)
        &&& services@[name].access == Access::Family
        &&& services@[name].target matches Target::Handler(bound, _) && bound.ceiling.open_safe
    }) by {}
}

/// A list of names is clear exactly where each of them is.
pub proof fn lemma_public_faults(table: Table, names: Seq<Seq<char>>)
    ensures
        public_faults(table, names) is None <==> forall|i: int|
            0 <= i < names.len() ==> public_fault(table, #[trigger] names[i]) is None,
    decreases names.len(),
{
    if names.len() > 0 {
        let rest = names.drop_first();
        lemma_public_faults(table, rest);
        if public_faults(table, names) is None {
            assert forall|i: int| 0 <= i < names.len() implies public_fault(
                table,
                #[trigger] names[i],
            ) is None by {
                if i > 0 {
                    assert(names[i] == rest[i - 1]);
                }
            }
        }
        if forall|i: int| 0 <= i < names.len() ==> public_fault(table, #[trigger] names[i]) is None {
            assert(public_fault(table, names[0]) is None);
            assert forall|i: int| 0 <= i < rest.len() implies public_fault(
                table,
                #[trigger] rest[i],
            ) is None by {
                assert(rest[i] == names[i + 1]);
            }
        }
    }
}

/// A list of names is clear exactly where each of them is.
pub proof fn lemma_unsafe_faults(table: Table, facts: Seq<SourceFact>, names: Seq<Seq<char>>)
    ensures
        unsafe_faults(table, facts, names) is None <==> forall|i: int|
            0 <= i < names.len() ==> unsafe_fault(table, facts, #[trigger] names[i]) is None,
    decreases names.len(),
{
    if names.len() > 0 {
        let rest = names.drop_first();
        lemma_unsafe_faults(table, facts, rest);
        if unsafe_faults(table, facts, names) is None {
            assert forall|i: int| 0 <= i < names.len() implies unsafe_fault(
                table,
                facts,
                #[trigger] names[i],
            ) is None by {
                if i > 0 {
                    assert(names[i] == rest[i - 1]);
                }
            }
        }
        if forall|i: int|
            0 <= i < names.len() ==> unsafe_fault(table, facts, #[trigger] names[i]) is None {
            assert(unsafe_fault(table, facts, names[0]) is None);
            assert forall|i: int| 0 <= i < rest.len() implies unsafe_fault(
                table,
                facts,
                #[trigger] rest[i],
            ) is None by {
                assert(rest[i] == names[i + 1]);
            }
        }
    }
}

/// Whether the first of the facts about a name says that a dial could read what stands at its path:
/// a file, a pipe, or nothing yet.
pub open spec fn seen_readable(facts: Seq<SourceFact>, name: Seq<char>) -> bool {
    exists|i: int|
        {
            &&& 0 <= i < facts.len()
            &&& (#[trigger] facts[i]).name@ == name
            &&& facts[i].kind == SourceKind::Missing || facts[i].kind == SourceKind::File
                || facts[i].kind == SourceKind::Fifo
            &&& forall|j: int| 0 <= j < i ==> (#[trigger] facts[j]).name@ != name
        }
}

/// The fact that is found about a name is the first one about it.
pub proof fn lemma_found_fact(facts: Seq<SourceFact>, name: Seq<char>)
    ensures
        match found_fact(facts, name) {
            Some(fact) => exists|i: int|
                {
                    &&& 0 <= i < facts.len()
                    &&& #[trigger] facts[i] == fact
                    &&& fact.name@ == name
                    &&& forall|j: int| 0 <= j < i ==> (#[trigger] facts[j]).name@ != name
                },
            None => forall|i: int| 0 <= i < facts.len() ==> (#[trigger] facts[i]).name@ != name,
        },
    decreases facts.len(),
{
    if facts.len() > 0 && facts[0].name@ != name {
        let rest = facts.drop_first();
        lemma_found_fact(rest, name);
        match found_fact(rest, name) {
            Some(fact) => {
                let i = choose|i: int|
                    {
                        &&& 0 <= i < rest.len()
                        &&& #[trigger] rest[i] == fact
                        &&& fact.name@ == name
                        &&& forall|j: int| 0 <= j < i ==> (#[trigger] rest[j]).name@ != name
                    };
                assert(facts[i + 1] == fact);
                assert forall|j: int| 0 <= j < i + 1 implies (#[trigger] facts[j]).name@ != name by {
                    if j > 0 {
                        assert(facts[j] == rest[j - 1]);
                    }
                }
            },
            None => {
                assert forall|i: int| 0 <= i < facts.len() implies (#[trigger] facts[i]).name@
                    != name by {
                    if i > 0 {
                        assert(facts[i] == rest[i - 1]);
                    }
                }
            },
        }
    } else if facts.len() > 0 {
        assert(facts[0] == found_fact(facts, name)->0);
    }
}

/// What was seen of a name is what is found of it.
pub proof fn lemma_seen(facts: Seq<SourceFact>, name: Seq<char>)
    ensures
        seen_readable(facts, name) <==> (found_source(facts, name) matches Some(kind)
            && kind.readable()),
{
    lemma_found_fact(facts, name);
    if let Some(fact) = found_fact(facts, name) {
        let i = choose|i: int|
            {
                &&& 0 <= i < facts.len()
                &&& #[trigger] facts[i] == fact
                &&& fact.name@ == name
                &&& forall|j: int| 0 <= j < i ==> (#[trigger] facts[j]).name@ != name
            };
        assert(facts[i].name@ == name);
        if seen_readable(facts, name) {
            let k = choose|k: int|
                {
                    &&& 0 <= k < facts.len()
                    &&& (#[trigger] facts[k]).name@ == name
                    &&& facts[k].kind == SourceKind::Missing || facts[k].kind == SourceKind::File
                        || facts[k].kind == SourceKind::Fifo
                    &&& forall|j: int| 0 <= j < k ==> (#[trigger] facts[j]).name@ != name
                };
            assert(k == i);
        }
    }
}

/// A name enters the unsafe overlay exactly where it is a raw byte source somebody looked at: it is
/// served, its target is a raw stream, and where that reads a path, the path was seen to be one a
/// dial could read.
pub proof fn an_examined_source_is_opened(
    services: &Services,
    requested: PublicUnsafeRequest,
    facts: &Vec<SourceFact>,
    proven: Result<PublicServices, ExposeError<String>>,
)
    requires
        call_ensures(Services::prove_unsafe, (services, requested, facts), proven),
    ensures
        proven is Ok <==> forall|i: int|
            0 <= i < requested@.len() ==> {
                let name = #[trigger] requested@[i];
                &&& services@.contains_key(name)
                &&& match services@[name].target {
                    Target::Handler(..) => false,
                    Target::RawStream(RawStream::Stdin { .. }) => true,
                    Target::RawStream(_) => seen_readable(facts@, name),
                }
            },
        proven matches Ok(set) ==> forall|name: Seq<char>| #[trigger]
            set@.contains(name) <==> requested@.contains(name),
{
    lemma_unsafe_faults(services@, facts@, requested@);
    assert forall|i: int| 0 <= i < requested@.len() implies (unsafe_fault(
        services@,
        facts@,
        #[trigger] requested@[i],
    ) is None <==> {
        let name = requested@[i];
        &&& services@.contains_key(name)
        &&& match services@[name].target {
            Target::Handler(..) => false,
            Target::RawStream(RawStream::Stdin { .. }) => true,
            Target::RawStream(_) => seen_readable(facts@, name),
        }
    }) by {
        lemma_seen(facts@, requested@[i]);
    }
}

/// A catalog lists every served name once, with the posture a dialer faces: open exactly where the
/// node's gate is open or an overlay holds the name.
pub proof fn a_catalog_tells_what_a_dialer_faces(
    services: &Services,
    gate: &Gate,
    public: &PublicRequest,
    public_unsafe: &PublicUnsafeRequest,
    catalog: ServiceCatalog,
    name: Seq<char>,
    posture: Posture,
)
    requires
        call_ensures(Services::catalog, (services, gate, public, public_unsafe), catalog),
    ensures
        catalog@.contains((name, posture)) <==> services@.contains_key(name) && (posture
            == Posture::Open <==> *gate is Open || public@.contains(name)
            || public_unsafe@.contains(name)),
        forall|i: int, j: int|
            0 <= i < j < catalog@.len() ==> (#[trigger] catalog@[i]).0 != (
            #[trigger] catalog@[j]).0,
{
    let names = listing(services@);
    let entries = catalog@;
    let row = (
        name,
        posture_of(name, *gate, public@.to_set(), public_unsafe@.to_set()),
    );
    if services@.contains_key(name) {
        assert(names.contains(name));
        let i = choose|i: int| 0 <= i < names.len() && names[i] == name;
        assert(entries[i] == row);
        assert(entries.contains(row));
    }
    if entries.contains((name, posture)) {
        let i = choose|i: int| 0 <= i < entries.len() && entries[i] == (name, posture);
        assert(names[i] == name);
        assert(names.contains(name));
    }
    assert forall|i: int, j: int| 0 <= i < j < entries.len() implies (#[trigger] entries[i]).0 != (
    #[trigger] entries[j]).0 by {
        assert(name_lt(names[i], names[j]));
    }
}

/// A refusal names what it is about: its sentence holds the name.
pub proof fn a_refusal_to_open_names_its_name(
    error: ExposeError<String>,
    message: String,
    name: Seq<char>,
)
    requires
        call_ensures(ExposeError::<String>::message, (&error,), message),
        match error@ {
            ExposeError::NotServed { name: told, .. } => told == name,
            ExposeError::NotRawSource { name: told } => told == name,
            ExposeError::SourceUnexamined { name: told } => told == name,
            ExposeError::SourceRefused { name: told, .. } => told == name,
            ExposeError::RawSource { name: told } => told == name,
            ExposeError::NoPublicUse { name: told } => told == name,
            ExposeError::MemberUnderOpen { name: told } => told == name,
            ExposeError::MemberUnsafe { name: told } => told == name,
            ExposeError::MemberPublic { name: told } => told == name,
            ExposeError::ProvenOnlyUnderOpen { name: told } => told == name,
            ExposeError::ProvenOnlyPublic { name: told } => told == name,
        },
    ensures
        exists|before: Seq<char>, after: Seq<char>| message@ == #[trigger] (before + name + after),
{
    let text = message@;
    let before = if error@ is NotServed {
        "no service named `"@
    } else {
        "`"@
    };
    let after = text.skip((before.len() + name.len()) as int);
    assert(text =~= before + name + after);
}

} // verus!
