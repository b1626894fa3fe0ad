//! The exposer: a proven route table armed behind its gate, and the rules its accept loops run by.

use vstd::prelude::*;
use vstd::string::*;

use crate::catalog::Posture;
use crate::contract::Metering;
use crate::gate::{claim_word, peer_proven, Gate, PeerProof};
use crate::overlay::{
    catalog_of, find_fact, found_path, lemma_found_fact, lemma_public_clear, lemma_public_faults,
    lemma_seen, lemma_unsafe_clear, lemma_unsafe_faults, posture_of, public_fault, public_faults,
    seen_readable, unsafe_fault, unsafe_faults, ExposeError, PublicRequest, PublicServices,
    PublicUnsafeRequest, SourceFact,
};
use crate::services::{is_listing, listing, Access, Route, Services, Table};
use crate::target::{source_path, RawSource, RawStream, Target, TargetKind};
use crate::text::{ascending, name_lt, texts};

verus! {

/// What one interlock refuses a route for.
pub enum Interlock {
    /// It answers only a proven key.
    ProvenOnly,
    /// Its handler must never face a stranger.
    Keyless,
    /// It is a raw source outside this set.
    RawOutside(Set<Seq<char>>),
    /// It is member-only.
    Member,
    /// It is member-only and in this set.
    MemberIn(Set<Seq<char>>),
}

/// Whether a route trips an interlock.
pub open spec fn trips(route: Route<Seq<char>>, name: Seq<char>, interlock: Interlock) -> bool {
    match interlock {
        Interlock::ProvenOnly => route.access == Access::ProvenOnly,
        Interlock::Keyless => route.target is Handler && !route.target.openable(),
        Interlock::RawOutside(set) => route.target is RawStream && !set.contains(name),
        Interlock::Member => route.access == Access::Member,
        Interlock::MemberIn(set) => route.access == Access::Member && set.contains(name),
    }
}

/// The first of these names whose route trips an interlock.
pub open spec fn first_tripped(table: Table, names: Seq<Seq<char>>, interlock: Interlock) -> Option<
    Seq<char>,
>
    decreases names.len(),
{
    if names.len() == 0 {
        None
    } else if trips(table[names[0]], names[0], interlock) {
        Some(names[0])
    } else {
        first_tripped(table, names.drop_first(), interlock)
    }
}

/// The first served name, in name order, whose route trips an interlock.
pub open spec fn tripped(table: Table, interlock: Interlock) -> Option<Seq<char>> {
    first_tripped(table, listing(table), interlock)
}

proof fn lemma_none_tripped(table: Table, names: Seq<Seq<char>>, interlock: Interlock)
    requires
        first_tripped(table, names, interlock) is None,
    ensures
        forall|name: Seq<char>| #[trigger]
            names.contains(name) ==> !trips(table[name], name, interlock),
    decreases names.len(),
{
    if names.len() > 0 {
        let rest = names.drop_first();
        lemma_none_tripped(table, rest, interlock);
        assert forall|name: Seq<char>| #[trigger] names.contains(name) implies !trips(
            table[name],
            name,
            interlock,
        ) by {
            let i = choose|i: int| 0 <= i < names.len() && names[i] == name;
            if i > 0 {
                assert(rest[i - 1] == name);
                assert(rest.contains(name));
            }
        }
    }
}

/// Why an assembled table may not be exposed, if it may not: the first interlock it trips.
pub open spec fn expose_fault(
    table: Table,
    gate: Gate,
    public: Seq<Seq<char>>,
    public_unsafe: Seq<Seq<char>>,
    facts: Seq<SourceFact>,
) -> Option<ExposeError<Seq<char>>> {
    let opened = public_unsafe.to_set();
    if gate is Open && tripped(table, Interlock::ProvenOnly) is Some {
        Some(ExposeError::ProvenOnlyUnderOpen { name: tripped(table, Interlock::ProvenOnly)->0 })
    } else if gate is Open && tripped(table, Interlock::Keyless) is Some {
        Some(ExposeError::NoPublicUse { name: tripped(table, Interlock::Keyless)->0 })
    } else if unsafe_faults(table, facts, public_unsafe) is Some {
        unsafe_faults(table, facts, public_unsafe)
    } else if gate is Open && tripped(table, Interlock::RawOutside(opened)) is Some {
        Some(ExposeError::RawSource { name: tripped(table, Interlock::RawOutside(opened))->0 })
    } else if gate is Open && tripped(table, Interlock::Member) is Some {
        Some(ExposeError::MemberUnderOpen { name: tripped(table, Interlock::Member)->0 })
    } else if tripped(table, Interlock::MemberIn(opened)) is Some {
        Some(ExposeError::MemberUnsafe { name: tripped(table, Interlock::MemberIn(opened))->0 })
    } else {
        public_faults(table, public)
    }
}

/// What holds of every exposer. A name in the safe overlay is a served, open-safe handler with no
/// floor; a name in the unsafe overlay is a served raw stream that is not member-only; and under an
/// open gate every handler is open-safe, every raw stream was deliberately opened, and no route
/// carries a floor.
pub open spec fn sound(
    table: Table,
    gate: Gate,
    public: Set<Seq<char>>,
    public_unsafe: Set<Seq<char>>,
) -> bool {
    &&& forall|name: Seq<char>| #[trigger]
        public.contains(name) ==> {
            &&& table.contains_key(name)
            &&& table[name].access == Access::Family
            &&& table[name].target is Handler
            &&& table[name].target.openable()
        }
    &&& forall|name: Seq<char>| #[trigger]
        public_unsafe.contains(name) ==> {
            &&& table.contains_key(name)
            &&& table[name].access != Access::Member
            &&& table[name].target is RawStream
        }
    &&& gate is Open ==> forall|name: Seq<char>| #[trigger]
        table.contains_key(name) ==> {
            &&& table[name].access == Access::Family
            &&& table[name].target is Handler ==> table[name].target.openable()
            &&& table[name].target is RawStream ==> public_unsafe.contains(name)
        }
}

/// A table that no interlock refuses is sound under its gate and overlays.
pub proof fn a_proven_table_is_sound(
    table: Table,
    gate: Gate,
    public: Seq<Seq<char>>,
    public_unsafe: Seq<Seq<char>>,
    facts: Seq<SourceFact>,
)
    requires
        is_listing(listing(table), table),
        expose_fault(table, gate, public, public_unsafe, facts) is None,
    ensures
        sound(table, gate, public.to_set(), public_unsafe.to_set()),
{
    let opened = public_unsafe.to_set();
    let names = listing(table);
    lemma_unsafe_clear(table, facts, public_unsafe);
    lemma_public_clear(table, public);
    lemma_none_tripped(table, names, Interlock::MemberIn(opened));
    assert forall|name: Seq<char>| #[trigger] opened.contains(name) implies {
        &&& table.contains_key(name)
        &&& table[name].access != Access::Member
        &&& table[name].target is RawStream
    } by {
        assert(unsafe_fault(table, facts, name) is None);
        assert(names.contains(name));
        assert(!trips(table[name], name, Interlock::MemberIn(opened)));
    }
    assert forall|name: Seq<char>| #[trigger] public.to_set().contains(name) implies {
        &&& table.contains_key(name)
        &&& table[name].access == Access::Family
        &&& table[name].target is Handler
        &&& table[name].target.openable()
    } by {
        assert(public_fault(table, name) is None);
    }
    if gate is Open {
        lemma_none_tripped(table, names, Interlock::ProvenOnly);
        lemma_none_tripped(table, names, Interlock::Keyless);
        lemma_none_tripped(table, names, Interlock::RawOutside(opened));
        lemma_none_tripped(table, names, Interlock::Member);
        assert forall|name: Seq<char>| #[trigger] table.contains_key(name) implies {
            &&& table[name].access == Access::Family
            &&& table[name].target is Handler ==> table[name].target.openable()
            &&& table[name].target is RawStream ==> opened.contains(name)
        } by {
            assert(names.contains(name));
            assert(!trips(table[name], name, Interlock::ProvenOnly));
            assert(!trips(table[name], name, Interlock::Keyless));
            assert(!trips(table[name], name, Interlock::RawOutside(opened)));
            assert(!trips(table[name], name, Interlock::Member));
        }
    }
}

/// The two overlays never fold: no name is open through both.
pub proof fn the_overlays_are_disjoint(
    table: Table,
    gate: Gate,
    public: Set<Seq<char>>,
    public_unsafe: Set<Seq<char>>,
)
    requires
        sound(table, gate, public, public_unsafe),
    ensures
        public.disjoint(public_unsafe),
{
    assert forall|name: Seq<char>| #[trigger] public.contains(name) implies !public_unsafe.contains(
        name,
    ) by {
        if public_unsafe.contains(name) {
            assert(table[name].target is Handler);
            assert(table[name].target is RawStream);
        }
    }
}

/// The banner and the catalog agree: both give a served name the posture the node's gate and the
/// overlays make a dialer face.
pub proof fn the_banner_and_the_catalog_agree(
    table: Table,
    gate: Gate,
    public: Set<Seq<char>>,
    public_unsafe: Set<Seq<char>>,
    entry: ManifestEntry,
    located: Option<Seq<char>>,
    i: int,
)
    requires
        0 <= i < listing(table).len(),
        row_tells(
            entry,
            listing(table)[i],
            table[listing(table)[i]],
            posture_of(listing(table)[i], gate, public, public_unsafe),
            located,
        ),
    ensures
        catalog_of(table, gate, public, public_unsafe)[i] == (entry.name@, entry.posture),
{
}

/// One served service as a node's own readiness banner needs it. A local render view: kind and
/// metering never cross the wire.
#[derive(Debug, Clone, PartialEq, Eq)]
pub struct ManifestEntry {
    /// The service name.
    pub name: String,
    /// The posture a dialer faces reaching it.
    pub posture: Posture,
    /// What kind of target it forwards to.
    pub kind: TargetKind,
    /// The handler's declared responder-side rate limit; `None` for a raw stream.
    pub metering: Option<Metering>,
    /// For a raw stream, the source a banner names in its unsafe warning, its path made absolute;
    /// `None` for a handler.
    pub raw_source: Option<RawSource>,
}

/// Whether a manifest row tells of a route what it should. `located` is the absolute path found for
/// the name; a path nothing was found out about is shown as the operator wrote it.
pub open spec fn row_tells(
    entry: ManifestEntry,
    name: Seq<char>,
    route: Route<Seq<char>>,
    posture: Posture,
    located: Option<Seq<char>>,
) -> bool {
    &&& entry.name@ == name
    &&& entry.posture == posture
    &&& match route.target {
        Target::Handler(bound, _) => {
            &&& entry.kind == TargetKind::Handler
            &&& entry.metering == Some(bound.metering)
            &&& entry.raw_source is None
        },
        Target::RawStream(stream) => {
            &&& entry.kind == TargetKind::RawStream
            &&& entry.metering is None
            &&& match entry.raw_source {
                Some(RawSource::Path(path)) => source_path(stream) matches Some(written) && path@
                    == match located {
                    Some(absolute) => absolute,
                    None => written,
                },
                Some(RawSource::Stdin) => source_path(stream) is None,
                None => false,
            }
        },
    }
}

/// A gate that rules on tokens over a transport that cannot prove the peer they are bound to.
#[derive(Debug, Clone, Copy, PartialEq, Eq, Structural)]
pub struct NotProvable {
    /// What the transport claims.
    pub declared: PeerProof,
}

impl NotProvable {
    /// The sentence an operator reads.
    pub open spec fn text(self) -> Seq<char> {
        "this node gates on a signet, but the bound transport declares "@ + claim_word(
            self.declared,
        )
            + " peer proof, so a gated dial could never be admitted; bind a transport that proves the peer (the default iroh transport does), or serve with an open gate (`Gate::Open`), which needs no peer proof"@
    }

    /// The sentence an operator reads.
    pub fn message(&self) -> (message: String)
        ensures
            message@ == self.text(),
    {
        String::from_str(
            "this node gates on a signet, but the bound transport declares ",
        ).concat(self.declared.label()).concat(
            " peer proof, so a gated dial could never be admitted; bind a transport that proves the peer (the default iroh transport does), or serve with an open gate (`Gate::Open`), which needs no peer proof",
        )
    }
}

/// The proven services a node publishes and the base gate that decides who may reach them. Built
/// only by the proof, so every exposer is [`sound`].
#[derive(Debug)]
pub struct Exposer {
    services: Services,
    gate: Gate,
    public: PublicServices,
    public_unsafe: PublicServices,
    sources: Vec<SourceFact>,
}

/// An interlock, as the proof runs it.
enum Rule<'a> {
    ProvenOnly,
    Keyless,
    RawOutside(&'a PublicServices),
    Member,
    MemberIn(&'a PublicServices),
}

impl<'a> View for Rule<'a> {
    type V = Interlock;

    closed spec fn view(&self) -> Interlock {
        match self {
            Rule::ProvenOnly => Interlock::ProvenOnly,
            Rule::Keyless => Interlock::Keyless,
            Rule::RawOutside(set) => Interlock::RawOutside(set@),
            Rule::Member => Interlock::Member,
            Rule::MemberIn(set) => Interlock::MemberIn(set@),
        }
    }
}

/// The first served name, in name order, whose route trips a rule.
fn find_tripped(services: &Services, rule: Rule<'_>) -> (name: Option<String>)
    ensures
        match name {
            Some(name) => tripped(services@, rule@) == Some(name@),
            None => tripped(services@, rule@) is None,
        },
{
    let len: usize = services.len();
    let ghost names = listing(services@);
    let mut i: usize = 0;
    assert(names.skip(0) =~= names);
    while i < len
        invariant
            i <= len,
            len == names.len(),
            names == listing(services@),
            tripped(services@, rule@) == first_tripped(services@, names.skip(i as int), rule@),
        decreases len - i,
    {
        let (name, route) = services.row(i);
        proof {
            assert(names.skip(i as int)[0] == name@);
            assert(names.skip(i as int).drop_first() =~= names.skip(i + 1));
        }
        let hit: bool = match &rule {
            Rule::ProvenOnly => matches!(route.access, Access::ProvenOnly),
            Rule::Keyless => match &route.target {
                Target::Handler(..) => !route.target.open_safe(),
                Target::RawStream(_) => false,
            },
            Rule::RawOutside(set) => match &route.target {
                Target::Handler(..) => false,
                Target::RawStream(_) => !set.contains(name.as_str()),
            },
            Rule::Member => matches!(route.access, Access::Member),
            Rule::MemberIn(set) => matches!(route.access, Access::Member) && set.contains(
                name.as_str(),
            ),
        };
        assert(hit == trips(services@[name@], name@, rule@));
        if hit {
            return Some(name.clone());
        }
        i = i + 1;
    }
    assert(names.skip(i as int) =~= Seq::empty());
    None
}

impl Exposer {
    #[verifier::type_invariant]
    spec fn proven(self) -> bool {
        sound(self.services@, self.gate, self.public@, self.public_unsafe@)
    }

    /// The routes it serves.
    pub closed spec fn table(self) -> Table {
        self.services@
    }

    /// The base gate.
    pub closed spec fn base(self) -> Gate {
        self.gate
    }

    /// The safe overlay.
    pub closed spec fn open_names(self) -> Set<Seq<char>> {
        self.public@
    }

    /// The unsafe overlay.
    pub closed spec fn unsafe_names(self) -> Set<Seq<char>> {
        self.public_unsafe@
    }

    /// What was found out about the raw streams.
    pub closed spec fn located(self) -> Seq<SourceFact> {
        self.sources@
    }

    /// Prove an assembled table into a runnable exposer, refusing the first interlock it trips.
    /// `facts` says of the raw streams what stands at their paths, and where those are.
    pub fn prove(
        services: Services,
        gate: Gate,
        public: PublicRequest,
        public_unsafe: PublicUnsafeRequest,
        facts: Vec<SourceFact>,
    ) -> (proven: Result<Exposer, ExposeError<String>>)
        ensures
            match proven {
                Ok(exposer) => {
                    &&& expose_fault(
                        services@,
                        gate,
                        public@,
                        public_unsafe@,
                        facts@,
                    ) is None
                    &&& exposer.table() == services@
                    &&& exposer.base() == gate
                    &&& exposer.open_names() == public@.to_set()
                    &&& exposer.unsafe_names() == public_unsafe@.to_set()
                    &&& exposer.located() == facts@
                    &&& sound(
                        exposer.table(),
                        exposer.base(),
                        exposer.open_names(),
                        exposer.unsafe_names(),
                    )
                },
                Err(error) => expose_fault(
                    services@,
                    gate,
                    public@,
                    public_unsafe@,
                    facts@,
                ) == Some(error@),
            },
    {
        let open: bool = matches!(gate, Gate::Open);
        if open {
            if let Some(name) = find_tripped(&services, Rule::ProvenOnly) {
                return Err(ExposeError::ProvenOnlyUnderOpen { name });
            }
            if let Some(name) = find_tripped(&services, Rule::Keyless) {
                return Err(ExposeError::NoPublicUse { name });
            }
        }
        let ghost asked = public@;
        let ghost asked_unsafe = public_unsafe@;
        let proven_unsafe: PublicServices = match services.prove_unsafe(public_unsafe, &facts) {
            Ok(set) => set,
            Err(error) => {
                return Err(error);
            },
        };
        if open {
            if let Some(name) = find_tripped(&services, Rule::RawOutside(&proven_unsafe)) {
                return Err(ExposeError::RawSource { name });
            }
            if let Some(name) = find_tripped(&services, Rule::Member) {
                return Err(ExposeError::MemberUnderOpen { name });
            }
        }
        if let Some(name) = find_tripped(&services, Rule::MemberIn(&proven_unsafe)) {
            return Err(ExposeError::MemberUnsafe { name });
        }
        let proven_public: PublicServices = match services.prove_public(public) {
            Ok(set) => set,
            Err(error) => {
                return Err(error);
            },
        };
        let names: Vec<String> = services.names();
        proof {
            assert(is_listing(texts(names@), services@));
            a_proven_table_is_sound(services@, gate, asked, asked_unsafe, facts@);
        }
        Ok(
            Exposer {
                services,
                gate,
                public: proven_public,
                public_unsafe: proven_unsafe,
                sources: facts,
            },
        )
    }

    /// Whether a manifest row tells of a served name what this exposer serves under it.
    pub open spec fn told(self, entry: ManifestEntry, name: Seq<char>) -> bool {
        &&& self.table().contains_key(name)
        &&& row_tells(
            entry,
            name,
            self.table()[name],
            posture_of(name, self.base(), self.open_names(), self.unsafe_names()),
            found_path(self.located(), name),
        )
    }

    /// Take the exposer apart to be served.
    pub(crate) fn into_parts(self) -> (parts: (Services, Gate, PublicServices, PublicServices))
        ensures
            parts.0@ == self.table(),
            parts.1 == self.base(),
            parts.2@ == self.open_names(),
            parts.3@ == self.unsafe_names(),
            sound(parts.0@, parts.1, parts.2@, parts.3@),
    {
        proof {
            use_type_invariant(&self);
        }
        (self.services, self.gate, self.public, self.public_unsafe)
    }

    /// The served services as this node's own readiness banner needs them, in name order.
    pub fn manifest(&self) -> (manifest: Vec<ManifestEntry>)
        ensures
            is_listing(listing(self.table()), self.table()),
            manifest.len() == listing(self.table()).len(),
            forall|i: int|
                0 <= i < manifest.len() ==> self.told(
                    #[trigger] manifest@[i],
                    listing(self.table())[i],
                ),
    {
        let node_open: bool = matches!(self.gate, Gate::Open);
        let len: usize = self.services.len();
        assert(self.table() == self.services@);
        let mut entries: Vec<ManifestEntry> = Vec::new();
        let ghost names = listing(self.table());
        let mut i: usize = 0;
        while i < len
            invariant
                i <= len,
                len == names.len(),
                names == listing(self.services@),
                node_open == (self.gate is Open),
                entries.len() == i,
                names == listing(self.table()),
                forall|j: int| 0 <= j < i ==> self.told(#[trigger] entries@[j], names[j]),
            decreases len - i,
        {
            let (name, route) = self.services.row(i);
            let posture: Posture = if node_open || self.public.contains(name.as_str())
                || self.public_unsafe.contains(name.as_str()) {
                Posture::Open
            } else {
                Posture::Gated
            };
            let (metering, raw_source): (Option<Metering>, Option<RawSource>) =
                match &route.target {
                Target::Handler(bound, _) => (Some(bound.metering), None),
                Target::RawStream(stream) => {
                    let source: RawSource = match (
                        stream.raw_source(),
                        find_fact(&self.sources, name.as_str()),
                    ) {
                        (RawSource::Path(_), Some(fact)) => RawSource::Path(fact.path.clone()),
                        (source, _) => source,
                    };
                    (None, Some(source))
                },
            };
            let entry = ManifestEntry {
                name: name.clone(),
                posture,
                kind: route.target.kind(),
                metering,
                raw_source,
            };
            assert(self.told(entry, names[i as int]));
            entries.push(entry);
            i = i + 1;
        }
        entries
    }

    /// Refuse to arm this exposer over a transport that cannot prove the peer, when its gate rules
    /// on tokens bound to that proof.
    pub fn prove_security(&self, declared: PeerProof) -> (provable: Result<(), NotProvable>)
        ensures
            match provable {
                Ok(()) => self.base().rules_on_tokens() ==> declared.proves(),
                Err(error) => {
                    &&& self.base().rules_on_tokens()
                    &&& !declared.proves()
                    &&& error == (NotProvable { declared })
                },
            },
    {
        if self.gate.wants_capability() && !peer_proven(declared) {
            return Err(NotProvable { declared });
        }
        Ok(())
    }
}

proof fn lemma_tripped(table: Table, names: Seq<Seq<char>>, interlock: Interlock)
    ensures
        first_tripped(table, names, interlock) is None <==> forall|i: int|
            0 <= i < names.len() ==> !trips(table[#[trigger] names[i]], names[i], interlock),
        first_tripped(table, names, interlock) matches Some(name) ==> names.contains(name)
            && trips(table[name], name, interlock),
    decreases names.len(),
{
    if names.len() > 0 {
        let rest = names.drop_first();
        lemma_tripped(table, rest, interlock);
        assert(names.contains(names[0]));
        if let Some(name) = first_tripped(table, rest, interlock) {
            let i = choose|i: int| 0 <= i < rest.len() && rest[i] == name;
            assert(names[i + 1] == name);
        }
        if first_tripped(table, names, interlock) is None {
            assert forall|i: int| 0 <= i < names.len() implies !trips(
                table[#[trigger] names[i]],
                names[i],
                interlock,
            ) by {
                if i > 0 {
                    assert(names[i] == rest[i - 1]);
                }
            }
        }
        if forall|i: int|
            0 <= i < names.len() ==> !trips(table[#[trigger] names[i]], names[i], interlock) {
            assert(!trips(table[names[0]], names[0], interlock));
            assert forall|i: int| 0 <= i < rest.len() implies !trips(
                table[#[trigger] rest[i]],
                rest[i],
                interlock,
            ) by {
                assert(rest[i] == names[i + 1]);
            }
        }
    }
}

proof fn lemma_nothing_trips(table: Table, interlock: Interlock)
    requires
        is_listing(listing(table), table),
    ensures
        tripped(table, interlock) is None <==> forall|name: Seq<char>| #[trigger]
            table.contains_key(name) ==> !trips(table[name], name, interlock),
        tripped(table, interlock) matches Some(name) ==> table.contains_key(name) && trips(
            table[name],
            name,
            interlock,
        ),
{
    let names = listing(table);
    lemma_tripped(table, names, interlock);
    if forall|name: Seq<char>| #[trigger]
        table.contains_key(name) ==> !trips(table[name], name, interlock) {
        assert forall|i: int| 0 <= i < names.len() implies !trips(
            table[#[trigger] names[i]],
            names[i],
            interlock,
        ) by {
            assert(names.contains(names[i]));
            assert(table.contains_key(names[i]));
        }
    }
    if tripped(table, interlock) is None {
        assert forall|name: Seq<char>| #[trigger] table.contains_key(name) implies !trips(
            table[name],
            name,
            interlock,
        ) by {
            assert(names.contains(name));
            let i = choose|i: int| 0 <= i < names.len() && names[i] == name;
            assert(!trips(table[names[i]], names[i], interlock));
        }
    }
}

spec fn public_ok(table: Table, public: Seq<Seq<char>>) -> bool {
    forall|i: int|
        0 <= i < public.len() ==> {
            let name = #[trigger] public[i];
            &&& table.contains_key(name)
            &&& table[name].access == Access::Family
            &&& table[name].target matches Target::Handler(bound, _) && bound.ceiling.open_safe
        }
}

proof fn lemma_public_ok(table: Table, public: Seq<Seq<char>>)
    ensures
        public_faults(table, public) is None <==> public_ok(table, public),
{
    lemma_public_faults(table, public);
    assert forall|i: int| 0 <= i < public.len() implies (public_fault(
        table,
        #[trigger] public[i],
    ) is None <==> {
        let name = public[i];
        &&& table.contains_key(name)
        &&& table[name].access == Access::Family
        &&& table[name].target matches Target::Handler(bound, _) && bound.ceiling.open_safe
    }) by {}
}

spec fn unsafe_ok(table: Table, facts: Seq<SourceFact>, names: Seq<Seq<char>>) -> bool {
    forall|i: int|
        0 <= i < names.len() ==> {
            let name = #[trigger] names[i];
            &&& table.contains_key(name)
            &&& table[name].access != Access::Member
            &&& match table[name].target {
                Target::Handler(..) => false,
                Target::RawStream(RawStream::Stdin { .. }) => true,
                Target::RawStream(_) => seen_readable(facts, name),
            }
        }
}

proof fn lemma_unsafe_ok(table: Table, facts: Seq<SourceFact>, names: Seq<Seq<char>>)
    requires
        is_listing(listing(table), table),
    ensures
        unsafe_faults(table, facts, names) is None && tripped(
            table,
            Interlock::MemberIn(names.to_set()),
        ) is None <==> unsafe_ok(table, facts, names),
{
    let opened = names.to_set();
    let interlock = Interlock::MemberIn(opened);
    lemma_nothing_trips(table, interlock);
    lemma_unsafe_faults(table, facts, names);
    assert forall|i: int| 0 <= i < names.len() implies (unsafe_fault(
        table,
        facts,
        #[trigger] names[i],
    ) is None <==> {
        let name = names[i];
        &&& table.contains_key(name)
        &&& match table[name].target {
            Target::Handler(..) => false,
            Target::RawStream(RawStream::Stdin { .. }) => true,
            Target::RawStream(_) => seen_readable(facts, name),
        }
    }) by {
        lemma_seen(facts, names[i]);
    }
    if unsafe_ok(table, facts, names) {
        assert forall|name: Seq<char>| #[trigger] table.contains_key(name) implies !trips(
            table[name],
            name,
            interlock,
        ) by {
            if opened.contains(name) {
                let i = choose|i: int| 0 <= i < names.len() && names[i] == name;
                assert(table[names[i]].access != Access::Member);
            }
        }
    }
    if unsafe_faults(table, facts, names) is None && tripped(table, interlock) is None {
        assert forall|i: int| 0 <= i < names.len() implies {
            let name = #[trigger] names[i];
            &&& table.contains_key(name)
            &&& table[name].access != Access::Member
            &&& match table[name].target {
                Target::Handler(..) => false,
                Target::RawStream(RawStream::Stdin { .. }) => true,
                Target::RawStream(_) => seen_readable(facts, name),
            }
        } by {
            assert(unsafe_fault(table, facts, names[i]) is None);
            assert(opened.contains(names[i]));
            assert(!trips(table[names[i]], names[i], interlock));
        }
    }
}

proof fn lemma_open_ok(table: Table, names: Seq<Seq<char>>)
    requires
        is_listing(listing(table), table),
    ensures
        ({
            &&& tripped(table, Interlock::ProvenOnly) is None
            &&& tripped(table, Interlock::Keyless) is None
            &&& tripped(table, Interlock::RawOutside(names.to_set())) is None
            &&& tripped(table, Interlock::Member) is None
        }) <==> forall|name: Seq<char>| #[trigger]
            table.contains_key(name) ==> {
                &&& table[name].access == Access::Family
                &&& match table[name].target {
                    Target::Handler(bound, _) => bound.ceiling.open_safe,
                    Target::RawStream(_) => names.contains(name),
                }
            },
{
    let opened = names.to_set();
    lemma_nothing_trips(table, Interlock::ProvenOnly);
    lemma_nothing_trips(table, Interlock::Keyless);
    lemma_nothing_trips(table, Interlock::RawOutside(opened));
    lemma_nothing_trips(table, Interlock::Member);
    assert forall|name: Seq<char>| #[trigger] table.contains_key(name) implies ((!trips(
        table[name],
        name,
        Interlock::ProvenOnly,
    ) && !trips(table[name], name, Interlock::Keyless) && !trips(
        table[name],
        name,
        Interlock::RawOutside(opened),
    ) && !trips(table[name], name, Interlock::Member)) <==> {
        &&& table[name].access == Access::Family
        &&& match table[name].target {
            Target::Handler(bound, _) => bound.ceiling.open_safe,
            Target::RawStream(_) => names.contains(name),
        }
    }) by {}
}

/// A table is exposed exactly where nothing in it could surprise a stranger or shut out a member,
/// and never refused otherwise. Each name asked to be public is a served, open-safe handler without
/// a floor. Each name asked to be served unsafely is a served raw source without a member floor,
/// whose path, where it has one, was seen to be readable. And under an open gate every handler is
/// open-safe, every raw source was asked for, and no route has a floor.
pub proof fn a_table_is_exposed_exactly_where_it_may_be(
    services: Services,
    gate: Gate,
    public: PublicRequest,
    public_unsafe: PublicUnsafeRequest,
    facts: Vec<SourceFact>,
    proven: Result<Exposer, ExposeError<String>>,
)
    requires
        is_listing(listing(services@), services@),
        call_ensures(Exposer::prove, (services, gate, public, public_unsafe, facts), proven),
    ensures
        proven is Ok <==> {
            &&& forall|i: int|
                0 <= i < public@.len() ==> {
                    let name = #[trigger] public@[i];
                    &&& services@.contains_key(name)
                    &&& services@[name].access == Access::Family
                    &&& services@[name].target matches Target::Handler(bound, _)
                        && bound.ceiling.open_safe
                }
            &&& forall|i: int|
                0 <= i < public_unsafe@.len() ==> {
                    let name = #[trigger] public_unsafe@[i];
                    &&& services@.contains_key(name)
                    &&& services@[name].access != Access::Member
                    &&& match services@[name].target {
                        Target::Handler(..) => false,
                        Target::RawStream(RawStream::Stdin { .. }) => true,
                        Target::RawStream(_) => seen_readable(facts@, name),
                    }
                }
            &&& gate == Gate::Open ==> forall|name: Seq<char>| #[trigger]
                services@.contains_key(name) ==> {
                    &&& services@[name].access == Access::Family
                    &&& match services@[name].target {
                        Target::Handler(bound, _) => bound.ceiling.open_safe,
                        Target::RawStream(_) => public_unsafe@.contains(name),
                    }
                }
        },
        proven matches Ok(exposer) ==> {
            &&& exposer.table() == services@
            &&& exposer.base() == gate
            &&& forall|name: Seq<char>| #[trigger]
                exposer.open_names().contains(name) <==> public@.contains(name)
            &&& forall|name: Seq<char>| #[trigger]
                exposer.unsafe_names().contains(name) <==> public_unsafe@.contains(name)
        },
{
    lemma_public_ok(services@, public@);
    lemma_unsafe_ok(services@, facts@, public_unsafe@);
    if gate == Gate::Open {
        lemma_open_ok(services@, public_unsafe@);
    }
}

/// A refusal to expose tells the truth: it names a name that has the fault it is refused for.
pub proof fn a_refusal_to_expose_tells_the_truth(
    services: Services,
    gate: Gate,
    public: PublicRequest,
    public_unsafe: PublicUnsafeRequest,
    facts: Vec<SourceFact>,
    proven: Result<Exposer, ExposeError<String>>,
)
    requires
        is_listing(listing(services@), services@),
        call_ensures(Exposer::prove, (services, gate, public, public_unsafe, facts), proven),
    ensures
        proven matches Err(error) ==> match error@ {
            ExposeError::NotServed { name, .. } => !services@.contains_key(name) && (
            public@.contains(name) || public_unsafe@.contains(name)),
            ExposeError::NotRawSource { name } => public_unsafe@.contains(name)
                && services@[name].target is Handler,
            ExposeError::SourceUnexamined { name } => public_unsafe@.contains(name) && (forall|
                i: int,
            |
                0 <= i < facts@.len() ==> (#[trigger] facts@[i]).name@ != name),
            ExposeError::SourceRefused { name, kind } => public_unsafe@.contains(name)
                && !seen_readable(facts@, name) && (exists|i: int|
                0 <= i < facts@.len() && (#[trigger] facts@[i]).name@ == name && facts@[i].kind
                    == kind),
            ExposeError::RawSource { name } => services@[name].target is RawStream && (
            public@.contains(name) || (gate == Gate::Open && !public_unsafe@.contains(name))),
            ExposeError::NoPublicUse { name } => (gate == Gate::Open || public@.contains(name)) && (
            services@[name].target matches Target::Handler(bound, _) && !bound.ceiling.open_safe),
            ExposeError::MemberUnderOpen { name } => gate == Gate::Open && services@[name].access
                == Access::Member,
            ExposeError::MemberUnsafe { name } => public_unsafe@.contains(name)
                && services@[name].access == Access::Member,
            ExposeError::MemberPublic { name } => public@.contains(name) && services@[name].access
                == Access::Member,
            ExposeError::ProvenOnlyUnderOpen { name } => gate == Gate::Open
                && services@[name].access == Access::ProvenOnly,
            ExposeError::ProvenOnlyPublic { name } => public@.contains(name)
                && services@[name].access == Access::ProvenOnly,
        },
{
    let table = services@;
    let opened = public_unsafe@.to_set();
    lemma_nothing_trips(table, Interlock::ProvenOnly);
    lemma_nothing_trips(table, Interlock::Keyless);
    lemma_nothing_trips(table, Interlock::RawOutside(opened));
    lemma_nothing_trips(table, Interlock::Member);
    lemma_nothing_trips(table, Interlock::MemberIn(opened));
    lemma_first_public_fault(table, public@);
    lemma_first_unsafe_fault(table, facts@, public_unsafe@);
    if let Err(error) = proven {
        if let Some(fault) = unsafe_faults(table, facts@, public_unsafe@) {
            let i = choose|i: int|
                0 <= i < public_unsafe@.len() && unsafe_fault(
                    table,
                    facts@,
                    #[trigger] public_unsafe@[i],
                ) == Some(fault);
            lemma_seen(facts@, public_unsafe@[i]);
            lemma_found_fact(facts@, public_unsafe@[i]);
        }
    }
}

proof fn lemma_first_public_fault(table: Table, names: Seq<Seq<char>>)
    ensures
        public_faults(table, names) matches Some(fault) ==> exists|i: int|
            0 <= i < names.len() && public_fault(table, #[trigger] names[i]) == Some(fault),
    decreases names.len(),
{
    if names.len() > 0 && public_fault(table, names[0]) is None {
        let rest = names.drop_first();
        lemma_first_public_fault(table, rest);
        if let Some(fault) = public_faults(table, rest) {
            let i = choose|i: int|
                0 <= i < rest.len() && public_fault(table, #[trigger] rest[i]) == Some(fault);
            assert(names[i + 1] == rest[i]);
        }
    }
}

proof fn lemma_first_unsafe_fault(table: Table, facts: Seq<SourceFact>, names: Seq<Seq<char>>)
    ensures
        unsafe_faults(table, facts, names) matches Some(fault) ==> exists|i: int|
            0 <= i < names.len() && unsafe_fault(table, facts, #[trigger] names[i]) == Some(fault),
    decreases names.len(),
{
    if names.len() > 0 && unsafe_fault(table, facts, names[0]) is None {
        let rest = names.drop_first();
        lemma_first_unsafe_fault(table, facts, rest);
        if let Some(fault) = unsafe_faults(table, facts, rest) {
            let i = choose|i: int|
                0 <= i < rest.len() && unsafe_fault(table, facts, #[trigger] rest[i]) == Some(
                    fault,
                );
            assert(names[i + 1] == rest[i]);
        }
    }
}

/// A banner tells of every served name, once and in order, what a dialer faces and what would be at
/// risk: open exactly where the node's gate is or an overlay holds the name; a handler's own rate
/// limit; and for a raw source where it was found, or where it was said to be.
pub proof fn a_banner_tells_what_is_served(
    exposer: &Exposer,
    manifest: Vec<ManifestEntry>,
    i: int,
)
    requires
        call_ensures(Exposer::manifest, (exposer,), manifest),
        0 <= i < manifest@.len(),
    ensures
        ({
            let row = manifest@[i];
            let name = row.name@;
            let route = exposer.table()[name];
            &&& exposer.table().contains_key(name)
            &&& row.posture == Posture::Open <==> exposer.base() == Gate::Open
                || exposer.open_names().contains(name) || exposer.unsafe_names().contains(name)
            &&& match route.target {
                Target::Handler(bound, _) => {
                    &&& row.kind == TargetKind::Handler
                    &&& row.metering == Some(bound.metering)
                    &&& row.raw_source is None
                },
                Target::RawStream(RawStream::Stdin { .. }) => {
                    &&& row.kind == TargetKind::RawStream
                    &&& row.metering is None
                    &&& row.raw_source == Some(RawSource::Stdin)
                },
                Target::RawStream(stream) => {
                    let written = match stream {
                        RawStream::File { path } => path,
                        RawStream::Fifo { path, .. } => path,
                        RawStream::Stdin { .. } => Seq::empty(),
                    };
                    &&& row.kind == TargetKind::RawStream
                    &&& row.metering is None
                    &&& row.raw_source matches Some(RawSource::Path(path)) && {
                        ||| path@ == written && (forall|k: int|
                            0 <= k < exposer.located().len() ==> (
                            #[trigger] exposer.located()[k]).name@ != name)
                        ||| exists|k: int|
                            {
                                &&& 0 <= k < exposer.located().len()
                                &&& (#[trigger] exposer.located()[k]).name@ == name
                                &&& exposer.located()[k].path@ == path@
                                &&& forall|j: int|
                                    0 <= j < k ==> (#[trigger] exposer.located()[j]).name@ != name
                            }
                    }
                },
            }
        }),
        forall|name: Seq<char>| #[trigger]
            exposer.table().contains_key(name) ==> exists|k: int|
                0 <= k < manifest@.len() && (#[trigger] manifest@[k]).name@ == name,
        forall|a: int, b: int|
            0 <= a < b < manifest@.len() ==> name_lt(
                (#[trigger] manifest@[a]).name@,
                (#[trigger] manifest@[b]).name@,
            ),
{
    let names = listing(exposer.table());
    let row = manifest@[i];
    assert(exposer.told(row, names[i]));
    lemma_found_fact(exposer.located(), row.name@);
    assert forall|name: Seq<char>| #[trigger] exposer.table().contains_key(name) implies exists|
        k: int,
    |
        0 <= k < manifest@.len() && (#[trigger] manifest@[k]).name@ == name by {
        assert(names.contains(name));
        let k = choose|k: int| 0 <= k < names.len() && names[k] == name;
        assert(exposer.told(manifest@[k], names[k]));
    }
    assert forall|a: int, b: int| 0 <= a < b < manifest@.len() implies name_lt(
        (#[trigger] manifest@[a]).name@,
        (#[trigger] manifest@[b]).name@,
    ) by {
        assert(exposer.told(manifest@[a], names[a]));
        assert(exposer.told(manifest@[b], names[b]));
        assert(name_lt(names[a], names[b]));
    }
}

/// A node whose gate rules on tokens is armed only over a transport that proves the peer they are
/// bound to; an open node is armed over any.
pub proof fn a_gated_node_needs_a_proving_transport(
    exposer: &Exposer,
    declared: PeerProof,
    provable: Result<(), NotProvable>,
)
    requires
        call_ensures(Exposer::prove_security, (exposer, declared), provable),
    ensures
        provable is Err <==> exposer.base() != Gate::Open && declared == PeerProof::Announced,
        provable matches Err(error) ==> error.declared == declared,
{
}

proof fn lemma_first_of(table: Table, names: Seq<Seq<char>>, interlock: Interlock, other: Seq<char>)
    requires
        ascending(names),
        names.contains(other),
        trips(table[other], other, interlock),
    ensures
        first_tripped(table, names, interlock) matches Some(name) && (name == other || name_lt(
            name,
            other,
        )),
    decreases names.len(),
{
    let i = choose|i: int| 0 <= i < names.len() && names[i] == other;
    if i > 0 {
        assert(name_lt(names[0], names[i]));
        let rest = names.drop_first();
        assert(rest[i - 1] == other);
        assert(rest.contains(other));
        assert forall|a: int, b: int| 0 <= a < b < rest.len() implies name_lt(
            #[trigger] rest[a],
            #[trigger] rest[b],
        ) by {
            assert(name_lt(names[a + 1], names[b + 1]));
        }
        lemma_first_of(table, rest, interlock, other);
    }
}

proof fn lemma_first_tripped(table: Table, interlock: Interlock, other: Seq<char>)
    requires
        is_listing(listing(table), table),
        table.contains_key(other),
        trips(table[other], other, interlock),
    ensures
        tripped(table, interlock) matches Some(name) && (name == other || name_lt(name, other)),
{
    assert(listing(table).contains(other));
    lemma_first_of(table, listing(table), interlock, other);
}

/// What an exposure is refused for first. Under an open gate it is a route no stranger could ever
/// pass, then a handler no stranger may ever reach; then, under any gate, what is wrong with the
/// unsafe overlay comes before what is wrong with the safe one. Of several names with one fault the
/// first in name order is told.
pub proof fn what_an_exposure_is_refused_for_first(
    services: Services,
    gate: Gate,
    public: PublicRequest,
    public_unsafe: PublicUnsafeRequest,
    facts: Vec<SourceFact>,
    proven: Result<Exposer, ExposeError<String>>,
    other: Seq<char>,
)
    requires
        is_listing(listing(services@), services@),
        call_ensures(Exposer::prove, (services, gate, public, public_unsafe, facts), proven),
        services@.contains_key(other),
    ensures
        gate == Gate::Open && services@[other].access == Access::ProvenOnly ==> (proven matches Err(
            error,
        ) && (error@ matches ExposeError::ProvenOnlyUnderOpen { name } && (name == other || name_lt(
            name,
            other,
        )))),
        gate == Gate::Open && (services@[other].target matches Target::Handler(bound, _)
            && !bound.ceiling.open_safe) ==> (proven matches Err(error) && (error@ matches
            ExposeError::ProvenOnlyUnderOpen { .. } || (error@ matches ExposeError::NoPublicUse {
            name,
        } && (name == other || name_lt(name, other))))),
        // A member floor in the unsafe overlay is told before anything about the safe one.
        public_unsafe@.contains(other) && services@[other].access == Access::Member
            ==> (proven matches Err(error) && !(error@ is MemberPublic) && !(error@ is
            ProvenOnlyPublic)),
        proven matches Err(error) ==> (error@ matches ExposeError::MemberUnsafe { name }
            ==> services@[other].access == Access::Member && public_unsafe@.contains(other) ==> name
            == other || name_lt(name, other)),
        proven matches Err(error) ==> (error@ matches ExposeError::MemberUnderOpen { name }
            ==> services@[other].access == Access::Member ==> name == other || name_lt(name, other)),
{
    let table = services@;
    let opened = public_unsafe@.to_set();
    if services@[other].access == Access::ProvenOnly {
        lemma_first_tripped(table, Interlock::ProvenOnly, other);
    }
    if trips(table[other], other, Interlock::Keyless) {
        lemma_first_tripped(table, Interlock::Keyless, other);
    }
    if trips(table[other], other, Interlock::Member) {
        lemma_first_tripped(table, Interlock::Member, other);
    }
    if trips(table[other], other, Interlock::MemberIn(opened)) {
        lemma_first_tripped(table, Interlock::MemberIn(opened), other);
    }
    lemma_first_public_fault(table, public@);
    lemma_first_unsafe_fault(table, facts@, public_unsafe@);
}

} // verus!
