//! The one author-facing assembly: bind names to handlers, built-ins and raw sources, declare what
//! is open, and prove the whole of it into a runnable exposer.

use vstd::prelude::*;

use crate::bridge::{marker_ceiling, what_each_marker_answers, ErasedHandler};
use crate::catalog::{
    catalog_fits, catalog_round_trips, catalog_wire, entry_names, read_catalog, CatalogError,
    Posture, ServiceCatalog, ServiceEntry,
};
use crate::contract::{Handler, Metering};
use crate::exposer::{expose_fault, sound, Exposer};
use crate::gate::Gate;
use crate::open_policy::{accepted_by, PublicUse};
use crate::overlay::{catalog_of, ExposeError, PublicRequest, PublicUnsafeRequest, SourceFact};
use crate::services::{
    entries_bound, entry_views, handler_fault, is_listing, listing, Access, Route, ServeEntry,
    ServiceName, Services, Table,
};
use crate::target::{
    echo_target, forward_target, is_forward, make_echo, make_forward, serves_strangers_and_holders,
    validate_forward, RawStream, RouteError, Serves, Target,
};
use crate::text::{
    ascending, compare_names, in_name_order, lemma_name_le_total, lemma_name_le_transitive,
    lemma_name_transitive, lemma_name_trichotomy, name_le, name_lt, texts, NameOrder,
};
use crate::witness::Origin;

verus! {

/// The server-side route table under assembly: each name binds to its target in one call, a name
/// binds once, and [`Router::expose`] proves every route against the node's gate.
#[must_use]
#[derive(Debug)]
pub struct Router {
    services: Services,
    public: PublicRequest,
    public_unsafe: PublicUnsafeRequest,
    gate: Gate,
}

/// The names of a list of service names.
pub open spec fn name_texts(names: Seq<ServiceName>) -> Seq<Seq<char>> {
    names.map_values(|name: ServiceName| name@)
}

/// Turn service names into their texts, in order.
fn into_texts(names: Vec<ServiceName>) -> (list: Vec<String>)
    ensures
        texts(list@) == name_texts(names@),
{
    let mut list: Vec<String> = Vec::new();
    let mut i: usize = 0;
    while i < names.len()
        invariant
            i <= names.len(),
            list.len() == i,
            forall|j: int| 0 <= j < i ==> (#[trigger] list@[j])@ == names@[j]@,
        decreases names.len() - i,
    {
        list.push(names[i].text.clone());
        i = i + 1;
    }
    assert(texts(list@) =~= name_texts(names@));
    list
}

/// A catalog with one more row, after every row whose name does not come later.
pub open spec fn listed(
    entries: Seq<(Seq<char>, Posture)>,
    row: (Seq<char>, Posture),
) -> Seq<(Seq<char>, Posture)>
    decreases entries.len(),
{
    if entries.len() == 0 || !name_lt(row.0, entries.last().0) {
        entries.push(row)
    } else {
        listed(entries.drop_last(), row).push(entries.last())
    }
}

/// Where the new row of a catalog goes.
proof fn lemma_listed(
    entries: Seq<(Seq<char>, Posture)>,
    row: (Seq<char>, Posture),
    at: int,
)
    requires
        0 <= at <= entries.len(),
        forall|j: int| at <= j < entries.len() ==> name_lt(row.0, (#[trigger] entries[j]).0),
        at > 0 ==> !name_lt(row.0, entries[at - 1].0),
    ensures
        listed(entries, row) == entries.insert(at, row),
    decreases entries.len(),
{
    if at == entries.len() {
        assert(entries.insert(at, row) =~= entries.push(row));
    } else {
        assert(name_lt(row.0, entries[entries.len() - 1].0));
        let shorter = entries.drop_last();
        assert forall|j: int| at <= j < shorter.len() implies name_lt(
            row.0,
            (#[trigger] shorter[j]).0,
        ) by {
            assert(shorter[j] == entries[j]);
        }
        lemma_listed(shorter, row, at);
        assert(shorter.insert(at, row).push(entries.last()) =~= entries.insert(at, row));
    }
}

/// A row for a name the table does not serve yet keeps the catalog in strict name order: nothing
/// the table lists is moved, dropped or repeated.
pub proof fn a_self_listing_keeps_name_order(
    entries: Seq<(Seq<char>, Posture)>,
    row: (Seq<char>, Posture),
)
    requires
        ascending(entry_names(entries)),
        forall|i: int| 0 <= i < entries.len() ==> (#[trigger] entries[i]).0 != row.0,
    ensures
        ascending(entry_names(listed(entries, row))),
        exists|at: int|
            0 <= at <= entries.len() && listed(entries, row) == #[trigger] entries.insert(at, row),
    decreases entries.len(),
{
    let names = entry_names(entries);
    if entries.len() == 0 || !name_lt(row.0, entries.last().0) {
        let longer = entry_names(entries.push(row));
        assert(entries.push(row) =~= entries.insert(entries.len() as int, row));
        assert forall|i: int, j: int| 0 <= i < j < longer.len() implies name_lt(
            #[trigger] longer[i],
            #[trigger] longer[j],
        ) by {
            if j < entries.len() {
                assert(name_lt(names[i], names[j]));
            } else {
                assert(entries[i].0 != row.0);
                let last = entries.len() - 1;
                assert(entries[last].0 != row.0);
                lemma_name_trichotomy(row.0, entries[last].0);
                if i < last {
                    assert(name_lt(names[i], names[last]));
                    lemma_name_transitive(entries[i].0, entries[last].0, row.0);
                }
            }
        }
    } else {
        let shorter = entries.drop_last();
        let fewer = entry_names(shorter);
        assert forall|i: int, j: int| 0 <= i < j < fewer.len() implies name_lt(
            #[trigger] fewer[i],
            #[trigger] fewer[j],
        ) by {
            assert(name_lt(names[i], names[j]));
        }
        assert forall|i: int| 0 <= i < shorter.len() implies (#[trigger] shorter[i]).0 != row.0 by {
            assert(entries[i].0 != row.0);
        }
        a_self_listing_keeps_name_order(shorter, row);
        let at = choose|at: int|
            0 <= at <= shorter.len() && listed(shorter, row) == #[trigger] shorter.insert(at, row);
        assert(shorter.insert(at, row).push(entries.last()) =~= entries.insert(at, row));
        let mid = listed(shorter, row);
        let mid_names = entry_names(mid);
        let longer = entry_names(listed(entries, row));
        assert forall|i: int, j: int| 0 <= i < j < longer.len() implies name_lt(
            #[trigger] longer[i],
            #[trigger] longer[j],
        ) by {
            if j < mid.len() {
                assert(name_lt(mid_names[i], mid_names[j]));
            } else {
                let last = entries.len() - 1;
                if i == at {
                    assert(mid[i] == row);
                } else if i < at {
                    assert(mid[i] == shorter[i]);
                    assert(name_lt(names[i], names[last]));
                } else {
                    assert(mid[i] == shorter[i - 1]);
                    assert(name_lt(names[i - 1], names[last]));
                }
            }
        }
    }
}

/// The catalog of a table, with the row of a service that is still being built, if there is one.
pub open spec fn catalog_with(
    table: Table,
    gate: Gate,
    public: Set<Seq<char>>,
    public_unsafe: Set<Seq<char>>,
    self_listing: Option<Seq<char>>,
) -> Seq<(Seq<char>, Posture)> {
    let entries = catalog_of(table, gate, public, public_unsafe);
    match self_listing {
        Some(name) => listed(entries, (name, Posture::Gated)),
        None => entries,
    }
}

proof fn lemma_listed_in_order(entries: Seq<(Seq<char>, Posture)>, row: (Seq<char>, Posture))
    requires
        in_name_order(entry_names(entries)),
    ensures
        in_name_order(entry_names(listed(entries, row))),
        exists|at: int|
            0 <= at <= entries.len() && listed(entries, row) == #[trigger] entries.insert(at, row),
    decreases entries.len(),
{
    let names = entry_names(entries);
    let longer = entry_names(listed(entries, row));
    let last = entries.len() - 1;
    if entries.len() == 0 || !name_lt(row.0, entries.last().0) {
        assert(entries.push(row) =~= entries.insert(entries.len() as int, row));
        assert forall|i: int, j: int| 0 <= i < j < longer.len() implies name_le(
            #[trigger] longer[i],
            #[trigger] longer[j],
        ) by {
            if j < entries.len() {
                assert(name_le(names[i], names[j]));
            } else {
                lemma_name_le_total(names[last], row.0);
                if i < last {
                    assert(name_le(names[i], names[last]));
                    lemma_name_le_transitive(names[i], names[last], row.0);
                }
            }
        }
    } else {
        let shorter = entries.drop_last();
        let fewer = entry_names(shorter);
        assert forall|i: int, j: int| 0 <= i < j < fewer.len() implies name_le(
            #[trigger] fewer[i],
            #[trigger] fewer[j],
        ) by {
            assert(name_le(names[i], names[j]));
        }
        lemma_listed_in_order(shorter, row);
        let at = choose|at: int|
            0 <= at <= shorter.len() && listed(shorter, row) == #[trigger] shorter.insert(at, row);
        assert(shorter.insert(at, row).push(entries.last()) =~= entries.insert(at, row));
        let mid = listed(shorter, row);
        let mid_names = entry_names(mid);
        assert forall|i: int, j: int| 0 <= i < j < longer.len() implies name_le(
            #[trigger] longer[i],
            #[trigger] longer[j],
        ) by {
            if j < mid.len() {
                assert(name_le(mid_names[i], mid_names[j]));
            } else if i == at {
                assert(mid[i] == row);
            } else if i < at {
                assert(mid[i] == shorter[i]);
                assert(name_le(names[i], names[last]));
            } else {
                assert(mid[i] == shorter[i - 1]);
                assert(name_le(names[i - 1], names[last]));
            }
        }
    }
}

/// A catalog is in name order, whatever row is listed beside the bound ones, and so is what its wire
/// form reads back as. It holds every bound name exactly once, and the row listed beside them where
/// there is one.
pub proof fn a_catalog_is_in_name_order(
    table: Table,
    gate: Gate,
    public: Set<Seq<char>>,
    public_unsafe: Set<Seq<char>>,
    self_listing: Option<Seq<char>>,
)
    requires
        is_listing(listing(table), table),
    ensures
        ({
            let bound = catalog_of(table, gate, public, public_unsafe);
            let entries = catalog_with(table, gate, public, public_unsafe, self_listing);
            &&& in_name_order(entry_names(entries))
            &&& is_listing(entry_names(bound), table)
            &&& match self_listing {
                None => entries == bound,
                Some(name) => exists|at: int|
                    0 <= at <= bound.len() && entries == #[trigger] bound.insert(
                        at,
                        (name, Posture::Gated),
                    ),
            }
            &&& catalog_fits(entries) ==> read_catalog(catalog_wire(entries)) == Ok::<
                _,
                CatalogError,
            >(entries)
        }),
{
    let bound = catalog_of(table, gate, public, public_unsafe);
    let entries = catalog_with(table, gate, public, public_unsafe, self_listing);
    let names = listing(table);
    assert(entry_names(bound) =~= names);
    assert forall|i: int, j: int| 0 <= i < j < names.len() implies name_le(
        #[trigger] names[i],
        #[trigger] names[j],
    ) by {
        assert(name_lt(names[i], names[j]));
    }
    if let Some(name) = self_listing {
        lemma_listed_in_order(bound, (name, Posture::Gated));
    }
    if catalog_fits(entries) {
        catalog_round_trips(entries);
    }
}

impl Router {
    /// What is bound so far.
    pub closed spec fn table(self) -> Table {
        self.services@
    }

    /// The base gate.
    pub closed spec fn base(self) -> Gate {
        self.gate
    }

    /// The names asked to be public.
    pub closed spec fn asked(self) -> Seq<Seq<char>> {
        self.public@
    }

    /// The names asked to be served unsafely.
    pub closed spec fn asked_unsafe(self) -> Seq<Seq<char>> {
        self.public_unsafe@
    }

    /// Whether two routers differ in their tables alone.
    pub open spec fn same_but_table(self, other: Router) -> bool {
        &&& self.base() == other.base()
        &&& self.asked() == other.asked()
        &&& self.asked_unsafe() == other.asked_unsafe()
    }

    /// An empty router over the node-wide base gate.
    pub fn new(gate: Gate) -> (router: Router)
        ensures
            router.table() == Map::<Seq<char>, Route<Seq<char>>>::empty(),
            router.base() == gate,
            router.asked() == Seq::<Seq<char>>::empty(),
            router.asked_unsafe() == Seq::<Seq<char>>::empty(),
    {
        Router {
            services: Services::new(),
            public: PublicRequest::none(),
            public_unsafe: PublicUnsafeRequest::none(),
            gate,
        }
    }

    /// Bind a name to a handler under a floor.
    fn bind_handler<H: Handler>(self, name: ServiceName, handler: &H, access: Access) -> (bound:
        Result<Router, RouteError<String>>)
        ensures
            match bound {
                Ok(router) => {
                    &&& router.same_but_table(self)
                    &&& handler_fault(name@, marker_ceiling::<H::Exposure>(), access) is None
                    &&& !self.table().contains_key(name@)
                    &&& router.table().remove(name@) == self.table()
                    &&& router.table().contains_key(name@)
                    &&& router.table()[name@].access == access
                    &&& router.table()[name@].target matches Target::Handler(bound, serves) && {
                        &&& bound.ceiling == marker_ceiling::<H::Exposure>()
                        &&& handler.meters(bound.metering)
                        &&& serves is Bound
                    }
                },
                Err(error) => match handler_fault(
                    name@,
                    marker_ceiling::<H::Exposure>(),
                    access,
                ) {
                    Some(fault) => error@ == fault,
                    None => {
                        &&& self.table().contains_key(name@)
                        &&& error@ == (RouteError::Duplicate { name: name@ })
                    },
                },
            },
    {
        let Router { services, public, public_unsafe, gate } = self;
        match services.bind_handler(name, handler, access) {
            Ok(services) => Ok(Router { services, public, public_unsafe, gate }),
            Err(error) => Err(error),
        }
    }

    /// Bind a name to a target under the node's gate alone.
    fn bind_target(self, name: ServiceName, target: Target<String>) -> (bound: Result<
        Router,
        RouteError<String>,
    >)
        ensures
            match bound {
                Ok(router) => {
                    &&& router.same_but_table(self)
                    &&& !self.table().contains_key(name@)
                    &&& router.table() == self.table().insert(
                        name@,
                        Route { target: target@, access: Access::Family },
                    )
                },
                Err(error) => {
                    &&& self.table().contains_key(name@)
                    &&& error@ == (RouteError::Duplicate { name: name@ })
                },
            },
    {
        let Router { services, public, public_unsafe, gate } = self;
        match services.bind(name, Route { target, access: Access::Family }) {
            Ok(services) => Ok(Router { services, public, public_unsafe, gate }),
            Err(error) => Err(error),
        }
    }

    /// Bind a name to a handler you wrote. The handler's answers are frozen into the route; the
    /// value itself stays with its author, to be served under this name.
    pub fn service<H: Handler>(self, name: ServiceName, handler: &H) -> (bound: Result<
        Router,
        RouteError<String>,
    >)
        ensures
            match bound {
                Ok(router) => {
                    &&& router.same_but_table(self)
                    &&& handler_fault(name@, marker_ceiling::<H::Exposure>(), Access::Family) is None
                    &&& !self.table().contains_key(name@)
                    &&& router.table().remove(name@) == self.table()
                    &&& router.table().contains_key(name@)
                    &&& router.table()[name@].access == Access::Family
                    &&& router.table()[name@].target matches Target::Handler(bound, serves) && {
                        &&& bound.ceiling == marker_ceiling::<H::Exposure>()
                        &&& handler.meters(bound.metering)
                        &&& serves is Bound
                    }
                },
                Err(error) => match handler_fault(
                    name@,
                    marker_ceiling::<H::Exposure>(),
                    Access::Family,
                ) {
                    Some(fault) => error@ == fault,
                    None => {
                        &&& self.table().contains_key(name@)
                        &&& error@ == (RouteError::Duplicate { name: name@ })
                    },
                },
            },
    {
        self.bind_handler(name, handler, Access::Family)
    }

    /// As [`Router::service`], with the member floor: only a witness the node's gate admitted as a
    /// whole-node member may reach it.
    pub fn member_service<H: Handler>(self, name: ServiceName, handler: &H) -> (bound: Result<
        Router,
        RouteError<String>,
    >)
        ensures
            match bound {
                Ok(router) => {
                    &&& router.same_but_table(self)
                    &&& handler_fault(name@, marker_ceiling::<H::Exposure>(), Access::Member) is None
                    &&& !self.table().contains_key(name@)
                    &&& router.table().remove(name@) == self.table()
                    &&& router.table().contains_key(name@)
                    &&& router.table()[name@].access == Access::Member
                    &&& router.table()[name@].target matches Target::Handler(bound, serves) && {
                        &&& bound.ceiling == marker_ceiling::<H::Exposure>()
                        &&& handler.meters(bound.metering)
                        &&& serves is Bound
                    }
                },
                Err(error) => match handler_fault(
                    name@,
                    marker_ceiling::<H::Exposure>(),
                    Access::Member,
                ) {
                    Some(fault) => error@ == fault,
                    None => {
                        &&& self.table().contains_key(name@)
                        &&& error@ == (RouteError::Duplicate { name: name@ })
                    },
                },
            },
    {
        self.bind_handler(name, handler, Access::Member)
    }

    /// Bind a name to a handler that answers a peer whose key the transport proved, and which the
    /// route's owner knows, with no token.
    pub fn proven_service<H: Handler>(self, name: ServiceName, handler: &H) -> (bound: Result<
        Router,
        RouteError<String>,
    >)
        ensures
            match bound {
                Ok(router) => {
                    &&& router.same_but_table(self)
                    &&& handler_fault(
                        name@,
                        marker_ceiling::<H::Exposure>(),
                        Access::ProvenOnly,
                    ) is None
                    &&& !self.table().contains_key(name@)
                    &&& router.table().remove(name@) == self.table()
                    &&& router.table().contains_key(name@)
                    &&& router.table()[name@].access == Access::ProvenOnly
                    &&& router.table()[name@].target matches Target::Handler(bound, serves) && {
                        &&& bound.ceiling == marker_ceiling::<H::Exposure>()
                        &&& handler.meters(bound.metering)
                        &&& serves is Bound
                    }
                },
                Err(error) => match handler_fault(
                    name@,
                    marker_ceiling::<H::Exposure>(),
                    Access::ProvenOnly,
                ) {
                    Some(fault) => error@ == fault,
                    None => {
                        &&& self.table().contains_key(name@)
                        &&& error@ == (RouteError::Duplicate { name: name@ })
                    },
                },
            },
    {
        self.bind_handler(name, handler, Access::ProvenOnly)
    }

    /// Bind a name to the built-in loopback reflector.
    pub fn echo(self, name: ServiceName) -> (bound: Result<Router, RouteError<String>>)
        ensures
            match bound {
                Ok(router) => {
                    &&& router.same_but_table(self)
                    &&& !self.table().contains_key(name@)
                    &&& router.table() == self.table().insert(
                        name@,
                        Route { target: echo_target(), access: Access::Family },
                    )
                },
                Err(error) => {
                    &&& self.table().contains_key(name@)
                    &&& error@ == (RouteError::Duplicate { name: name@ })
                },
            },
    {
        self.bind_target(name, make_echo())
    }

    /// Bind a name to the built-in local forward to `addr`, validated here so a typo fails at the
    /// bind.
    pub fn forward(self, name: ServiceName, addr: &str) -> (bound: Result<
        Router,
        RouteError<String>,
    >)
        ensures
            match bound {
                Ok(router) => {
                    &&& router.same_but_table(self)
                    &&& is_forward(addr@)
                    &&& !self.table().contains_key(name@)
                    &&& router.table() == self.table().insert(
                        name@,
                        Route { target: forward_target(addr@), access: Access::Family },
                    )
                },
                Err(error) => {
                    if is_forward(addr@) {
                        &&& self.table().contains_key(name@)
                        &&& error@ == (RouteError::Duplicate { name: name@ })
                    } else {
                        error@ == (RouteError::BadForward { addr: addr@ })
                    }
                },
            },
    {
        match validate_forward(addr) {
            Ok(()) => self.bind_target(name, make_forward(addr)),
            Err(error) => Err(error),
        }
    }

    /// Bind a name to a raw byte source.
    pub fn raw_stream(self, name: ServiceName, source: RawStream<String>) -> (bound: Result<
        Router,
        RouteError<String>,
    >)
        ensures
            match bound {
                Ok(router) => {
                    &&& router.same_but_table(self)
                    &&& !self.table().contains_key(name@)
                    &&& router.table() == self.table().insert(
                        name@,
                        Route { target: Target::RawStream(source@), access: Access::Family },
                    )
                },
                Err(error) => {
                    &&& self.table().contains_key(name@)
                    &&& error@ == (RouteError::Duplicate { name: name@ })
                },
            },
    {
        self.bind_target(name, Target::RawStream(source))
    }

    /// Absorb `name=target` serve entries, in order.
    pub fn parse(self, entries: &Vec<ServeEntry>, terminal: bool) -> (bound: Result<
        Router,
        RouteError<String>,
    >)
        ensures
            match bound {
                Ok(router) => {
                    &&& router.same_but_table(self)
                    &&& entries_bound(self.table(), entry_views(entries@), terminal) == Ok::<
                        _,
                        RouteError<Seq<char>>,
                    >(router.table())
                },
                Err(error) => entries_bound(
                    self.table(),
                    entry_views(entries@),
                    terminal,
                ) == Err::<Table, _>(error@),
            },
    {
        let Router { services, public, public_unsafe, gate } = self;
        match services.extend_parse(entries, terminal) {
            Ok(services) => Ok(Router { services, public, public_unsafe, gate }),
            Err(error) => Err(error),
        }
    }

    /// Declare these served names open to anyone. The proof runs at [`Router::expose`].
    pub fn public(self, names: Vec<ServiceName>) -> (router: Router)
        ensures
            router.table() == self.table(),
            router.base() == self.base(),
            router.asked() == name_texts(names@),
            router.asked_unsafe() == self.asked_unsafe(),
    {
        Router {
            services: self.services,
            public: PublicRequest::new(into_texts(names)),
            public_unsafe: self.public_unsafe,
            gate: self.gate,
        }
    }

    /// Declare these raw-stream names knowingly served to anyone, unauthenticated. The proof runs
    /// at [`Router::expose`].
    pub fn public_unsafe(self, names: Vec<ServiceName>) -> (router: Router)
        ensures
            router.table() == self.table(),
            router.base() == self.base(),
            router.asked() == self.asked(),
            router.asked_unsafe() == name_texts(names@),
    {
        Router {
            services: self.services,
            public: self.public,
            public_unsafe: PublicUnsafeRequest::new(into_texts(names)),
            gate: self.gate,
        }
    }

    /// The declared service names, in name order.
    pub fn names(&self) -> (names: Vec<String>)
        ensures
            texts(names@) == listing(self.table()),
            is_listing(listing(self.table()), self.table()),
    {
        self.services.names()
    }

    /// The node's base gate.
    pub fn gate(&self) -> (gate: &Gate)
        ensures
            *gate == self.base(),
    {
        &self.gate
    }

    /// The served services and the posture a dialer faces. `self_listing` names the one row whose
    /// handler is built from this catalog, so it is not bound yet: it is listed gated, in its
    /// place.
    pub fn catalog(&self, self_listing: Option<ServiceName>) -> (catalog: ServiceCatalog)
        ensures
            catalog@ == catalog_with(
                self.table(),
                self.base(),
                self.asked().to_set(),
                self.asked_unsafe().to_set(),
                match self_listing {
                    Some(name) => Some(name@),
                    None => None,
                },
            ),
            is_listing(listing(self.table()), self.table()),
            in_name_order(entry_names(catalog@)),
    {
        let catalog = self.services.catalog(&self.gate, &self.public, &self.public_unsafe);
        let ghost listed_name: Option<Seq<char>> = match &self_listing {
            Some(name) => Some(name@),
            None => None,
        };
        proof {
            assert(self.table() == self.services@);
            a_catalog_is_in_name_order(
                self.table(),
                self.base(),
                self.asked().to_set(),
                self.asked_unsafe().to_set(),
                listed_name,
            );
        }
        match self_listing {
            None => catalog,
            Some(name) => {
                let ghost rows = catalog@;
                let ghost row = (name@, Posture::Gated);
                let mut entries: Vec<ServiceEntry> = catalog.0;
                let mut at: usize = entries.len();
                while at > 0
                    invariant_except_break
                        at <= entries.len(),
                        rows == entries@.map_values(|entry: ServiceEntry| entry@),
                        row == (name@, Posture::Gated),
                        forall|j: int|
                            at <= j < rows.len() ==> name_lt(row.0, (#[trigger] rows[j]).0),
                    ensures
                        at <= entries.len(),
                        forall|j: int|
                            at <= j < rows.len() ==> name_lt(row.0, (#[trigger] rows[j]).0),
                        at > 0 ==> !name_lt(row.0, rows[at - 1].0),
                    decreases at,
                {
                    assert(rows[at - 1].0 == entries@[at - 1].name@);
                    match compare_names(name.as_str(), entries[at - 1].name.as_str()) {
                        NameOrder::Before => {},
                        _ => {
                            break;
                        },
                    }
                    at = at - 1;
                }
                proof {
                    lemma_listed(rows, row, at as int);
                }
                let ghost before = entries@;
                let entry = ServiceEntry { name: name.text, posture: Posture::Gated };
                entries.insert(at, entry);
                let catalog = ServiceCatalog(entries);
                proof {
                    assert(catalog@ =~= rows.insert(at as int, row));
                }
                catalog
            },
        }
    }

    /// The one door: prove every route and interlock against the base gate, prove both overlays,
    /// and hand back the runnable exposer. `facts` says of the raw streams what stands at their
    /// paths, and where those are.
    pub fn expose(self, facts: Vec<SourceFact>) -> (exposed: Result<
        Exposer,
        ExposeError<String>,
    >)
        ensures
            match exposed {
                Ok(exposer) => {
                    &&& expose_fault(
                        self.table(),
                        self.base(),
                        self.asked(),
                        self.asked_unsafe(),
                        facts@,
                    ) is None
                    &&& exposer.table() == self.table()
                    &&& exposer.base() == self.base()
                    &&& exposer.open_names() == self.asked().to_set()
                    &&& exposer.unsafe_names() == self.asked_unsafe().to_set()
                    &&& exposer.located() == facts@
                    &&& sound(
                        exposer.table(),
                        exposer.base(),
                        exposer.open_names(),
                        exposer.unsafe_names(),
                    )
                },
                Err(error) => expose_fault(
                    self.table(),
                    self.base(),
                    self.asked(),
                    self.asked_unsafe(),
                    facts@,
                ) == Some(error@),
            },
    {
        Exposer::prove(self.services, self.gate, self.public, self.public_unsafe, facts)
    }
}

/// A forward is bound to exactly the address it was given, as a handler that may be opened.
pub proof fn a_bound_forward_goes_where_it_was_sent(
    router: Router,
    name: ServiceName,
    addr: &str,
    bound: Result<Router, RouteError<String>>,
    valid: Result<(), RouteError<String>>,
    other: Seq<char>,
)
    requires
        call_ensures(Router::forward, (router, name, addr), bound),
        call_ensures(validate_forward, (addr,), valid),
    ensures
        bound is Ok <==> valid is Ok && !router.table().contains_key(name@),
        bound matches Ok(after) ==> {
            &&& after.table().contains_key(name@)
            &&& after.table()[name@].access == Access::Family
            &&& after.table()[name@].target matches Target::Handler(handler, Serves::Forward {
                addr: kept,
            }) && kept == addr@ && handler.metering == Metering::Unmetered
            &&& serves_strangers_and_holders(after.table()[name@].target)
            &&& other != name@ ==> (after.table().contains_key(other)
                <==> router.table().contains_key(other))
            &&& other != name@ && router.table().contains_key(other) ==> after.table()[other]
                == router.table()[other]
            &&& after.base() == router.base()
            &&& after.asked() == router.asked()
            &&& after.asked_unsafe() == router.asked_unsafe()
        },
{
    what_each_marker_answers();
}

/// The reflector is bound under a free name, as a handler that may be opened and answers with no more
/// than it gets; a raw source is bound as it was given.
pub proof fn a_built_in_is_bound_as_itself(
    router: Router,
    name: ServiceName,
    echoing: Result<Router, RouteError<String>>,
    source: RawStream<String>,
    streaming: Result<Router, RouteError<String>>,
)
    requires
        call_ensures(Router::echo, (router, name), echoing),
        call_ensures(Router::raw_stream, (router, name, source), streaming),
    ensures
        echoing is Ok <==> !router.table().contains_key(name@),
        streaming is Ok <==> !router.table().contains_key(name@),
        echoing matches Ok(after) ==> {
            &&& after.table().remove(name@) == router.table()
            &&& after.table()[name@].access == Access::Family
            &&& after.table()[name@].target matches Target::Handler(handler, Serves::Echo)
                && handler.metering == Metering::Metered
            &&& serves_strangers_and_holders(after.table()[name@].target)
            &&& after.same_but_table(router)
        },
        streaming matches Ok(after) ==> {
            &&& after.table().remove(name@) == router.table()
            &&& after.table()[name@].access == Access::Family
            &&& after.table()[name@].target == Target::RawStream(source@)
            &&& after.same_but_table(router)
        },
{
    what_each_marker_answers();
    if let Ok(after) = echoing {
        assert(after.table().remove(name@) =~= router.table());
    }
    if let Ok(after) = streaming {
        assert(after.table().remove(name@) =~= router.table());
    }
}

/// Each verb binds under its own floor: a service for whom the node's gate admits, a member service
/// for members, a proven service for proven keys. A handler for token holders is refused as a proven
/// service, and one for proven keys as anything else.
pub proof fn each_verb_binds_under_its_floor<H: Handler>(
    router: Router,
    name: ServiceName,
    handler: &H,
    family: Result<Router, RouteError<String>>,
    member: Result<Router, RouteError<String>>,
    proven: Result<Router, RouteError<String>>,
)
    requires
        call_ensures(Router::service::<H>, (router, name, handler), family),
        call_ensures(Router::member_service::<H>, (router, name, handler), member),
        call_ensures(Router::proven_service::<H>, (router, name, handler), proven),
    ensures
        family is Ok <==> !router.table().contains_key(name@) && accepted_by::<H::Exposure>(
            Origin::Rooted,
        ),
        member is Ok <==> !router.table().contains_key(name@) && accepted_by::<H::Exposure>(
            Origin::Rooted,
        ),
        proven is Ok <==> !router.table().contains_key(name@) && accepted_by::<H::Exposure>(
            Origin::Proven,
        ),
        family matches Ok(after) ==> after.table()[name@].access == Access::Family
            && after.table().remove(name@) == router.table() && after.table()[name@].target is Handler,
        member matches Ok(after) ==> after.table()[name@].access == Access::Member
            && after.table().remove(name@) == router.table() && after.table()[name@].target is Handler,
        proven matches Ok(after) ==> after.table()[name@].access == Access::ProvenOnly
            && after.table().remove(name@) == router.table() && after.table()[name@].target is Handler,
        family matches Ok(after) ==> (after.table()[name@].target matches Target::Handler(bound, _)
            && bound.ceiling.open_safe == H::Exposure::OPEN_SAFE),
{
}

/// A router absorbs entries as a table does, and changes nothing else about itself.
pub proof fn a_router_absorbs_entries_as_a_table_does(
    router: Router,
    services: Services,
    entries: &Vec<ServeEntry>,
    terminal: bool,
    routed: Result<Router, RouteError<String>>,
    bound: Result<Services, RouteError<String>>,
)
    requires
        services@ == router.table(),
        call_ensures(Router::parse, (router, entries, terminal), routed),
        call_ensures(Services::extend_parse, (services, entries, terminal), bound),
    ensures
        bound matches Ok(after) ==> (routed matches Ok(next) && next.table() == after@
            && next.base() == router.base() && next.asked() == router.asked()
            && next.asked_unsafe() == router.asked_unsafe()),
        bound matches Err(error) ==> (routed matches Err(why) && why@ == error@),
{
}

/// Naming what is open changes what is asked for and nothing else, and the last word stands.
pub proof fn naming_what_is_open_opens_nothing_yet(
    router: Router,
    names: Vec<ServiceName>,
    asked: Router,
    asked_unsafe: Router,
    i: int,
)
    requires
        call_ensures(Router::public, (router, names), asked),
        call_ensures(Router::public_unsafe, (router, names), asked_unsafe),
        0 <= i < names@.len(),
    ensures
        asked.table() == router.table() && asked_unsafe.table() == router.table(),
        asked.base() == router.base() && asked_unsafe.base() == router.base(),
        asked.asked().len() == names@.len() && asked.asked()[i] == names@[i]@,
        asked.asked_unsafe() == router.asked_unsafe(),
        asked_unsafe.asked_unsafe().len() == names@.len() && asked_unsafe.asked_unsafe()[i]
            == names@[i]@,
        asked_unsafe.asked() == router.asked(),
{
}

/// A router is exposed as its table is proved: under its own gate, with what it was asked to open.
pub proof fn a_router_is_exposed_as_it_was_assembled(
    router: Router,
    facts: Vec<SourceFact>,
    exposed: Result<Exposer, ExposeError<String>>,
    services: Services,
    public: PublicRequest,
    public_unsafe: PublicUnsafeRequest,
    proven: Result<Exposer, ExposeError<String>>,
)
    requires
        services@ == router.table(),
        public@ == router.asked(),
        public_unsafe@ == router.asked_unsafe(),
        call_ensures(Router::expose, (router, facts), exposed),
        call_ensures(
            Exposer::prove,
            (services, router.base(), public, public_unsafe, facts),
            proven,
        ),
    ensures
        exposed is Ok <==> proven is Ok,
        exposed matches Ok(exposer) ==> {
            &&& exposer.table() == router.table()
            &&& exposer.base() == router.base()
            &&& forall|name: Seq<char>| #[trigger]
                exposer.open_names().contains(name) <==> router.asked().contains(name)
            &&& forall|name: Seq<char>| #[trigger]
                exposer.unsafe_names().contains(name) <==> router.asked_unsafe().contains(name)
        },
        exposed matches Err(error) ==> (proven matches Err(why) && why@ == error@),
{
}

/// A row that is still being built is told as gated, whatever the node's own gate; the bound rows are
/// told as they would be without it.
pub proof fn a_row_being_built_is_told_as_gated(
    router: &Router,
    plain: ServiceCatalog,
    name: ServiceName,
    with: ServiceCatalog,
)
    requires
        call_ensures(Router::catalog, (router, None), plain),
        call_ensures(Router::catalog, (router, Some(name)), with),
    ensures
        exists|at: int|
            0 <= at <= plain@.len() && with@ == #[trigger] plain@.insert(
                at,
                (name@, Posture::Gated),
            ),
{
    a_catalog_is_in_name_order(
        router.table(),
        router.base(),
        router.asked().to_set(),
        router.asked_unsafe().to_set(),
        Some(name@),
    );
}

/// A router's catalog lists every bound name, once, with the posture a dialer would face.
pub proof fn a_routers_catalog_tells_what_a_dialer_would_face(
    router: &Router,
    catalog: ServiceCatalog,
    name: Seq<char>,
    posture: Posture,
)
    requires
        call_ensures(Router::catalog, (router, None), catalog),
    ensures
        catalog@.contains((name, posture)) <==> router.table().contains_key(name) && (posture
            == Posture::Open <==> router.base() == Gate::Open || router.asked().contains(name)
            || router.asked_unsafe().contains(name)),
        forall|i: int, j: int|
            0 <= i < j < catalog@.len() ==> name_lt(
                (#[trigger] catalog@[i]).0,
                (#[trigger] catalog@[j]).0,
            ),
{
    let names = listing(router.table());
    let entries = catalog@;
    if router.table().contains_key(name) {
        assert(names.contains(name));
        let i = choose|i: int| 0 <= i < names.len() && names[i] == name;
        assert(entries.contains(entries[i]));
    }
    if entries.contains((name, posture)) {
        let i = choose|i: int| 0 <= i < entries.len() && entries[i] == (name, posture);
        assert(names[i] == name);
        assert(names.contains(name));
    }
    assert forall|i: int, j: int| 0 <= i < j < entries.len() implies name_lt(
        (#[trigger] entries[i]).0,
        (#[trigger] entries[j]).0,
    ) by {
        assert(name_lt(names[i], names[j]));
    }
}

} // verus!
