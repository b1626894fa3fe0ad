//! The service table: the names a node serves, what each one forwards to, and the access floor
//! declared for it.

use vstd::prelude::*;
use vstd::string::*;

use crate::bridge::{marker_ceiling, ErasedHandler};
use crate::contract::Handler;
use crate::open_policy::{accepted_by, PublicUse};
use crate::target::{
    lemma_host_port, lemma_unix, no_scheme_starts, parse_target, target_of, RouteError, Serves, Target,
};
use crate::text::{
    ascending, comma_joined, compare_names, digits_value, join, lemma_joined_splits_first,
    lemma_name_transitive, lemma_name_trichotomy, lemma_split_first_parts, lemma_splits_where_held,
    name_lt, split_at_first, split_first, texts, NameOrder,
};
use crate::witness::Origin;

verus! {

/// A name the service-name grammar accepts.
#[derive(Debug, Clone, PartialEq, Eq)]
pub struct ServiceName {
    /// The name.
    pub text: String,
}

impl View for ServiceName {
    type V = Seq<char>;

    open spec fn view(&self) -> Seq<char> {
        self.text@
    }
}

impl ServiceName {
    /// A name its caller has held to the service-name grammar.
    pub fn new(text: String) -> (name: ServiceName)
        ensures
            name@ == text@,
    {
        ServiceName { text }
    }

    /// The name.
    pub fn as_str(&self) -> (text: &str)
        ensures
            text@ == self@,
    {
        self.text.as_str()
    }

    /// Another copy of this name.
    pub fn copied(&self) -> (copy: ServiceName)
        ensures
            copy@ == self@,
    {
        ServiceName { text: self.text.clone() }
    }
}

/// A route's access class: what the node's gate must have proven beyond admission. A property of
/// the name a caller reaches, never of the handler.
#[derive(Debug, Clone, Copy, PartialEq, Eq, Structural)]
pub enum Access {
    /// Admission is the whole verdict.
    Family,
    /// Only a witness the node's gate admitted as a whole-node member passes.
    Member,
    /// Only a peer whose key the transport proved, and which the route knows, passes; it presents
    /// no token.
    ProvenOnly,
}

/// One served route: the target a name resolves to and the access class declared for it.
#[derive(Debug, Clone, PartialEq, Eq)]
pub struct Route<Text> {
    /// What the name resolves to.
    pub target: Target<Text>,
    /// The floor declared for it.
    pub access: Access,
}

impl View for Route<String> {
    type V = Route<Seq<char>>;

    open spec fn view(&self) -> Route<Seq<char>> {
        Route { target: self.target@, access: self.access }
    }
}

/// One `name=target` serve entry, and the ruling of the service-name grammar on its name.
#[derive(Debug, Clone, PartialEq, Eq)]
pub struct ServeEntry {
    /// The entry as the operator wrote it.
    pub text: String,
    /// Whether what stands before the first `=` is a service name. Not read where there is no `=`.
    pub named: bool,
}

impl View for ServeEntry {
    type V = (Seq<char>, bool);

    open spec fn view(&self) -> (Seq<char>, bool) {
        (self.text@, self.named)
    }
}

/// The name a serve entry gives its service, for the service-name grammar to rule on.
pub fn entry_name(entry: &str) -> (name: Option<&str>)
    ensures
        match name {
            Some(name) => split_first(entry@, '=') matches Some((before, _)) && before == name@,
            None => split_first(entry@, '=') is None,
        },
{
    match split_at_first(entry, '=') {
        Some((name, _)) => Some(name),
        None => None,
    }
}

/// A route table, by name.
pub type Table = Map<Seq<char>, Route<Seq<char>>>;

/// Whether a list of names is the names of a table, in name order.
pub open spec fn is_listing(names: Seq<Seq<char>>, table: Table) -> bool {
    &&& ascending(names)
    &&& forall|name: Seq<char>| #[trigger]
        names.contains(name) <==> table.contains_key(name)
}

/// The names of a table, in name order. There is one such list: see [`a_table_has_one_listing`].
pub open spec fn listing(table: Table) -> Seq<Seq<char>> {
    choose|names: Seq<Seq<char>>| is_listing(names, table)
}

proof fn lemma_last_is_greatest(names: Seq<Seq<char>>, name: Seq<char>)
    requires
        ascending(names),
        names.contains(name),
    ensures
        name == names.last() || name_lt(name, names.last()),
{
    let i = choose|i: int| 0 <= i < names.len() && names[i] == name;
    if i < names.len() - 1 {
        assert(name_lt(names[i], names[names.len() - 1]));
    }
}

/// A table has at most one listing: two name-ordered lists of the same names are the same list.
pub proof fn a_table_has_one_listing(a: Seq<Seq<char>>, b: Seq<Seq<char>>)
    requires
        ascending(a),
        ascending(b),
        forall|name: Seq<char>| #[trigger] a.contains(name) <==> b.contains(name),
    ensures
        a == b,
    decreases a.len(),
{
    if a.len() == 0 {
        if b.len() > 0 {
            assert(b.contains(b[0]));
            assert(a.contains(b[0]));
        }
        assert(a =~= b);
    } else {
        assert(a.contains(a.last()));
        assert(b.contains(a.last()));
        assert(b.contains(b.last()));
        assert(a.contains(b.last()));
        lemma_last_is_greatest(a, b.last());
        lemma_last_is_greatest(b, a.last());
        lemma_name_trichotomy(a.last(), b.last());
        assert(a.last() == b.last());
        let shorter_a = a.drop_last();
        let shorter_b = b.drop_last();
        assert forall|i: int, j: int| 0 <= i < j < shorter_a.len() implies name_lt(
            #[trigger] shorter_a[i],
            #[trigger] shorter_a[j],
        ) by {
            assert(name_lt(a[i], a[j]));
        }
        assert forall|i: int, j: int| 0 <= i < j < shorter_b.len() implies name_lt(
            #[trigger] shorter_b[i],
            #[trigger] shorter_b[j],
        ) by {
            assert(name_lt(b[i], b[j]));
        }
        assert forall|name: Seq<char>| #[trigger] shorter_a.contains(name) implies
            shorter_b.contains(name) by {
            let i = choose|i: int| 0 <= i < shorter_a.len() && shorter_a[i] == name;
            assert(a[i] == name);
            assert(a.contains(name));
            assert(name_lt(a[i], a[a.len() - 1]));
            let j = choose|j: int| 0 <= j < b.len() && b[j] == name;
            assert(b[j] != b.last());
            assert(shorter_b[j] == name);
        }
        assert forall|name: Seq<char>| #[trigger] shorter_b.contains(name) implies
            shorter_a.contains(name) by {
            let i = choose|i: int| 0 <= i < shorter_b.len() && shorter_b[i] == name;
            assert(b[i] == name);
            assert(b.contains(name));
            assert(a.contains(name));
            assert(name_lt(b[i], b[b.len() - 1]));
            let j = choose|j: int| 0 <= j < a.len() && a[j] == name;
            assert(a[j] != a.last());
            assert(shorter_a[j] == name);
        }
        assert forall|name: Seq<char>| #[trigger] shorter_a.contains(name) <==> shorter_b.contains(
            name,
        ) by {}
        a_table_has_one_listing(shorter_a, shorter_b);
        assert(a =~= shorter_a.push(a.last()));
        assert(b =~= shorter_b.push(b.last()));
    }
}

/// One row of the table.
#[derive(Debug, PartialEq, Eq)]
struct Row {
    name: String,
    route: Route<String>,
}

/// The local services an exposer publishes, each name bound to one route.
#[derive(Debug, PartialEq, Eq)]
pub struct Services {
    rows: Vec<Row>,
}

spec fn row_names(rows: Seq<Row>) -> Seq<Seq<char>> {
    rows.map_values(|row: Row| row.name@)
}

spec fn row_table(rows: Seq<Row>) -> Table
    decreases rows.len(),
{
    if rows.len() == 0 {
        Map::empty()
    } else {
        row_table(rows.drop_last()).insert(rows.last().name@, rows.last().route@)
    }
}

proof fn lemma_row_table(rows: Seq<Row>)
    requires
        ascending(row_names(rows)),
    ensures
        is_listing(row_names(rows), row_table(rows)),
        forall|i: int|
            #![trigger rows[i]]
            0 <= i < rows.len() ==> row_table(rows).contains_key(rows[i].name@) && row_table(
                rows,
            )[rows[i].name@] == rows[i].route@,
    decreases rows.len(),
{
    let names = row_names(rows);
    if rows.len() == 0 {
        assert forall|name: Seq<char>| #[trigger] names.contains(name) <==> row_table(
            rows,
        ).contains_key(name) by {}
    } else {
        let shorter = rows.drop_last();
        let fewer = row_names(shorter);
        assert(fewer =~= names.drop_last());
        assert forall|i: int, j: int| 0 <= i < j < fewer.len() implies name_lt(
            #[trigger] fewer[i],
            #[trigger] fewer[j],
        ) by {
            assert(name_lt(names[i], names[j]));
        }
        lemma_row_table(shorter);
        let last = rows.last();
        assert(names[rows.len() - 1] == last.name@);
        assert forall|name: Seq<char>| #[trigger] names.contains(name) <==> row_table(
            rows,
        ).contains_key(name) by {
            if names.contains(name) {
                let i = choose|i: int| 0 <= i < names.len() && names[i] == name;
                if i < fewer.len() {
                    assert(fewer[i] == name);
                    assert(fewer.contains(name));
                }
            }
            if row_table(rows).contains_key(name) && name != last.name@ {
                assert(fewer.contains(name));
                let i = choose|i: int| 0 <= i < fewer.len() && fewer[i] == name;
                assert(names[i] == name);
            }
        }
        assert forall|i: int|
            #![trigger rows[i]]
            0 <= i < rows.len() implies row_table(rows).contains_key(rows[i].name@) && row_table(
            rows,
        )[rows[i].name@] == rows[i].route@ by {
            if i < shorter.len() {
                assert(shorter[i] == rows[i]);
                assert(name_lt(names[i], names[rows.len() - 1]));
            }
        }
    }
}

proof fn lemma_listing(names: Seq<Seq<char>>, table: Table)
    requires
        is_listing(names, table),
    ensures
        listing(table) == names,
        is_listing(listing(table), table),
{
    let chosen = listing(table);
    assert forall|name: Seq<char>| #[trigger] chosen.contains(name) <==> names.contains(name) by {
        assert(chosen.contains(name) <==> table.contains_key(name));
        assert(names.contains(name) <==> table.contains_key(name));
    }
    a_table_has_one_listing(chosen, names);
}

impl View for Services {
    type V = Table;

    closed spec fn view(&self) -> Table {
        row_table(self.rows@)
    }
}

/// The table a serve entry leads to, or why it binds nothing.
pub open spec fn entry_bound(table: Table, entry: (Seq<char>, bool), terminal: bool) -> Result<
    Table,
    RouteError<Seq<char>>,
> {
    match split_first(entry.0, '=') {
        None => Err(RouteError::NoName { entry: entry.0 }),
        Some((name, addr)) => {
            if !entry.1 {
                Err(RouteError::BadName { name })
            } else if table.contains_key(name) {
                Err(RouteError::Duplicate { name })
            } else {
                match target_of(addr, entry.0, terminal) {
                    Ok(target) => Ok(table.insert(name, Route { target, access: Access::Family })),
                    Err(error) => Err(error),
                }
            }
        },
    }
}

/// The table a list of serve entries leads to, or why the first bad one binds nothing.
pub open spec fn entries_bound(
    table: Table,
    entries: Seq<(Seq<char>, bool)>,
    terminal: bool,
) -> Result<Table, RouteError<Seq<char>>>
    decreases entries.len(),
{
    if entries.len() == 0 {
        Ok(table)
    } else {
        match entry_bound(table, entries[0], terminal) {
            Ok(next) => entries_bound(next, entries.drop_first(), terminal),
            Err(error) => Err(error),
        }
    }
}

/// A list of serve entries by what it says.
pub open spec fn entry_views(entries: Seq<ServeEntry>) -> Seq<(Seq<char>, bool)> {
    entries.map_values(|entry: ServeEntry| entry@)
}

/// Where a name stands in a name-ordered table.
enum Place {
    /// At this row.
    Found(usize),
    /// Nowhere; it would be inserted at this row.
    Missing(usize),
}

impl Services {
    #[verifier::type_invariant]
    spec fn ordered(self) -> bool {
        ascending(row_names(self.rows@))
    }

    /// A table that serves nothing.
    pub fn new() -> (services: Services)
        ensures
            services@ == Map::<Seq<char>, Route<Seq<char>>>::empty(),
    {
        Services { rows: Vec::new() }
    }

    /// Find where a name stands.
    fn place(&self, name: &str) -> (place: Place)
        ensures
            match place {
                Place::Found(i) => {
                    &&& i < self.rows.len()
                    &&& self.rows@[i as int].name@ == name@
                    &&& self@.contains_key(name@)
                    &&& self@[name@] == self.rows@[i as int].route@
                },
                Place::Missing(i) => {
                    &&& i <= self.rows.len()
                    &&& !self@.contains_key(name@)
                    &&& forall|j: int|
                        0 <= j < i ==> name_lt((#[trigger] self.rows@[j]).name@, name@)
                    &&& forall|j: int|
                        i <= j < self.rows.len() ==> name_lt(
                            name@,
                            (#[trigger] self.rows@[j]).name@,
                        )
                },
            },
    {
        proof {
            use_type_invariant(self);
            lemma_row_table(self.rows@);
        }
        let ghost names = row_names(self.rows@);
        let mut i: usize = 0;
        while i < self.rows.len()
            invariant
                i <= self.rows.len(),
                names == row_names(self.rows@),
                ascending(names),
                is_listing(names, self@),
                forall|j: int|
                    #![trigger self.rows@[j]]
                    0 <= j < self.rows@.len() ==> self@.contains_key(self.rows@[j].name@)
                        && self@[self.rows@[j].name@] == self.rows@[j].route@,
                forall|j: int| 0 <= j < i ==> name_lt((#[trigger] self.rows@[j]).name@, name@),
            decreases self.rows.len() - i,
        {
            match compare_names(self.rows[i].name.as_str(), name) {
                NameOrder::Before => {},
                NameOrder::Same => {
                    return Place::Found(i);
                },
                NameOrder::After => {
                    proof {
                        assert(names[i as int] == self.rows@[i as int].name@);
                        assert forall|j: int| i <= j < self.rows.len() implies name_lt(
                            name@,
                            (#[trigger] self.rows@[j]).name@,
                        ) by {
                            if j > i {
                                assert(names[j] == self.rows@[j].name@);
                                assert(name_lt(names[i as int], names[j]));
                                lemma_name_transitive(name@, names[i as int], names[j]);
                            }
                        }
                        self.lemma_between(name@, i as int);
                    }
                    return Place::Missing(i);
                },
            }
            i = i + 1;
        }
        proof {
            self.lemma_between(name@, i as int);
        }
        Place::Missing(i)
    }

    proof fn lemma_between(&self, name: Seq<char>, i: int)
        requires
            0 <= i <= self.rows@.len(),
            is_listing(row_names(self.rows@), self@),
            forall|j: int| 0 <= j < i ==> name_lt((#[trigger] self.rows@[j]).name@, name),
            forall|j: int|
                i <= j < self.rows@.len() ==> name_lt(name, (#[trigger] self.rows@[j]).name@),
        ensures
            !self@.contains_key(name),
    {
        let names = row_names(self.rows@);
        if self@.contains_key(name) {
            assert(names.contains(name));
            let j = choose|j: int| 0 <= j < names.len() && names[j] == name;
            assert(names[j] == self.rows@[j].name@);
        }
    }

    /// Whether a name is served.
    pub fn contains(&self, name: &str) -> (served: bool)
        ensures
            served == self@.contains_key(name@),
    {
        matches!(self.place(name), Place::Found(_))
    }

    /// The route a name resolves to.
    pub fn get(&self, name: &str) -> (route: Option<&Route<String>>)
        ensures
            match route {
                Some(route) => self@.contains_key(name@) && route@ == self@[name@],
                None => !self@.contains_key(name@),
            },
    {
        match self.place(name) {
            Place::Found(i) => Some(&self.rows[i].route),
            Place::Missing(_) => None,
        }
    }

    /// How many names are served.
    pub fn len(&self) -> (len: usize)
        ensures
            len == listing(self@).len(),
            is_listing(listing(self@), self@),
    {
        proof {
            use_type_invariant(self);
            lemma_row_table(self.rows@);
            lemma_listing(row_names(self.rows@), self@);
        }
        self.rows.len()
    }

    /// The served name at a place in name order, and its route.
    pub fn row(&self, index: usize) -> (row: (&String, &Route<String>))
        requires
            index < listing(self@).len(),
        ensures
            row.0@ == listing(self@)[index as int],
            self@.contains_key(row.0@),
            row.1@ == self@[row.0@],
    {
        proof {
            use_type_invariant(self);
            lemma_row_table(self.rows@);
            lemma_listing(row_names(self.rows@), self@);
        }
        (&self.rows[index].name, &self.rows[index].route)
    }

    /// The served names, in name order.
    pub fn names(&self) -> (names: Vec<String>)
        ensures
            texts(names@) == listing(self@),
            is_listing(texts(names@), self@),
    {
        proof {
            use_type_invariant(self);
            lemma_row_table(self.rows@);
            lemma_listing(row_names(self.rows@), self@);
        }
        let mut names: Vec<String> = Vec::new();
        let mut i: usize = 0;
        while i < self.rows.len()
            invariant
                i <= self.rows.len(),
                names.len() == i,
                forall|j: int| 0 <= j < i ==> (#[trigger] names@[j])@ == self.rows@[j].name@,
            decreases self.rows.len() - i,
        {
            names.push(self.rows[i].name.clone());
            i = i + 1;
        }
        assert(texts(names@) =~= row_names(self.rows@));
        names
    }

    /// The served names as one line, in name order.
    pub fn served_line(&self) -> (line: String)
        ensures
            line@ == join(listing(self@), ", "@),
    {
        comma_joined(&self.names())
    }

    /// Bind a name to a route, refusing a name that is already bound.
    pub fn bind(self, name: ServiceName, route: Route<String>) -> (bound: Result<
        Services,
        RouteError<String>,
    >)
        ensures
            match bound {
                Ok(services) => {
                    &&& !self@.contains_key(name@)
                    &&& services@ == self@.insert(name@, route@)
                },
                Err(error) => {
                    &&& self@.contains_key(name@)
                    &&& error@ == (RouteError::Duplicate { name: name@ })
                },
            },
    {
        match self.place(name.as_str()) {
            Place::Found(_) => Err(RouteError::Duplicate { name: name.text }),
            Place::Missing(i) => {
                proof {
                    use_type_invariant(&self);
                    lemma_row_table(self.rows@);
                }
                let ghost before = self.rows@;
                let mut rows: Vec<Row> = self.rows;
                let row = Row { name: name.text, route };
                rows.insert(i, row);
                proof {
                    lemma_inserted(before, i as int, row);
                }
                Ok(Services { rows })
            },
        }
    }

    /// Bind a name to a handler under a floor. The floor fixes which witnesses reach the route, so
    /// a handler that could never accept one is refused here rather than served to no one.
    pub fn bind_handler<H: Handler>(self, name: ServiceName, handler: &H, access: Access) -> (
        bound: Result<Services, RouteError<String>>)
        ensures
            match bound {
                Ok(services) => {
                    &&& handler_fault(name@, marker_ceiling::<H::Exposure>(), access) is None
                    &&& !self@.contains_key(name@)
                    &&& services@.remove(name@) == self@
                    &&& services@.contains_key(name@)
                    &&& services@[name@].access == access
                    &&& services@[name@].target matches Target::Handler(bound, serves) && {
                        &&& bound.ceiling == marker_ceiling::<H::Exposure>()
                        &&& handler.meters(bound.metering)
                        &&& serves is Bound
                    }
                },
                Err(error) => {
                    match handler_fault(name@, marker_ceiling::<H::Exposure>(), access) {
                        Some(fault) => error@ == fault,
                        None => {
                            &&& self@.contains_key(name@)
                            &&& error@ == (RouteError::Duplicate { name: name@ })
                        },
                    }
                },
            },
    {
        let bound = handler.freeze();
        match access {
            Access::ProvenOnly => {
                if !bound.ceiling.accepts(Origin::Proven) {
                    return Err(RouteError::NotProvenHandler { name: name.text });
                }
            },
            _ => {
                if !bound.ceiling.accepts(Origin::Rooted) {
                    return Err(RouteError::ProvenOnlyHandler { name: name.text });
                }
            },
        }
        let ghost key = name@;
        let ghost before = self@;
        let route = Route { target: Target::Handler(bound, Serves::Bound), access };
        match self.bind(name, route) {
            Ok(services) => {
                assert(before.insert(key, route@).remove(key) =~= before);
                Ok(services)
            },
            Err(error) => Err(error),
        }
    }

    /// Bind `name=target` serve entries, in order, stopping at the first bad one. `terminal` says
    /// whether this process's standard input is a terminal.
    pub fn extend_parse(self, entries: &Vec<ServeEntry>, terminal: bool) -> (bound: Result<
        Services,
        RouteError<String>,
    >)
        ensures
            match bound {
                Ok(services) => entries_bound(self@, entry_views(entries@), terminal) == Ok::<
                    _,
                    RouteError<Seq<char>>,
                >(services@),
                Err(error) => entries_bound(self@, entry_views(entries@), terminal) == Err::<
                    Table,
                    _,
                >(error@),
            },
    {
        let ghost all = entry_views(entries@);
        let ghost whole = entries_bound(self@, all, terminal);
        let mut services: Services = self;
        let mut i: usize = 0;
        assert(all.skip(0) =~= all);
        while i < entries.len()
            invariant
                i <= entries.len(),
                all == entry_views(entries@),
                whole == entries_bound(self@, all, terminal),
                whole == entries_bound(services@, all.skip(i as int), terminal),
            decreases entries.len() - i,
        {
            let entry = &entries[i];
            proof {
                assert(all.skip(i as int)[0] == entry@);
                assert(all.skip(i as int).drop_first() =~= all.skip(i + 1));
            }
            let (name, addr): (&str, &str) = match split_at_first(entry.text.as_str(), '=') {
                Some(parts) => parts,
                None => {
                    return Err(RouteError::NoName { entry: entry.text.clone() });
                },
            };
            if !entry.named {
                return Err(RouteError::BadName { name: name.to_owned() });
            }
            if services.contains(name) {
                return Err(RouteError::Duplicate { name: name.to_owned() });
            }
            let target: Target<String> = match parse_target(addr, entry.text.as_str(), terminal) {
                Ok(target) => target,
                Err(error) => {
                    return Err(error);
                },
            };
            let route = Route { target, access: Access::Family };
            services = match services.bind(ServiceName { text: name.to_owned() }, route) {
                Ok(services) => services,
                Err(error) => {
                    return Err(error);
                },
            };
            i = i + 1;
        }
        assert(all.skip(i as int) =~= Seq::empty());
        Ok(services)
    }

    /// Bind `name=target` serve entries into a fresh table.
    pub fn parse(entries: &Vec<ServeEntry>, terminal: bool) -> (bound: Result<
        Services,
        RouteError<String>,
    >)
        ensures
            match bound {
                Ok(services) => entries_bound(
                    Map::empty(),
                    entry_views(entries@),
                    terminal,
                ) == Ok::<_, RouteError<Seq<char>>>(services@),
                Err(error) => entries_bound(
                    Map::empty(),
                    entry_views(entries@),
                    terminal,
                ) == Err::<Table, _>(error@),
            },
    {
        Services::new().extend_parse(entries, terminal)
    }

    /// Declare a served name member-only, leaving everything else as it was.
    pub fn member_only(self, name: &str) -> (marked: Result<Services, RouteError<String>>)
        ensures
            match marked {
                Ok(services) => {
                    &&& self@.contains_key(name@)
                    &&& services@ == self@.insert(
                        name@,
                        Route { target: self@[name@].target, access: Access::Member },
                    )
                },
                Err(error) => {
                    &&& !self@.contains_key(name@)
                    &&& error@ == (RouteError::NotServed {
                        name: name@,
                        served: join(listing(self@), ", "@),
                    })
                },
            },
    {
        match self.place(name) {
            Place::Missing(_) => {
                Err(RouteError::NotServed { name: name.to_owned(), served: self.served_line() })
            },
            Place::Found(i) => {
                proof {
                    use_type_invariant(&self);
                    lemma_row_table(self.rows@);
                }
                let ghost before = self.rows@;
                let mut rows: Vec<Row> = self.rows;
                let Row { name: row_name, route } = rows.remove(i);
                let row = Row {
                    name: row_name,
                    route: Route { target: route.target, access: Access::Member },
                };
                rows.insert(i, row);
                proof {
                    assert(rows@ =~= before.update(i as int, row));
                    lemma_updated(before, i as int, row);
                }
                Ok(Services { rows })
            },
        }
    }
}

/// Why a handler with these answers may not be bound under a floor.
pub open spec fn handler_fault(
    name: Seq<char>,
    ceiling: crate::bridge::Ceiling,
    access: Access,
) -> Option<RouteError<Seq<char>>> {
    if access == Access::ProvenOnly {
        if ceiling.accepts_proven {
            None
        } else {
            Some(RouteError::NotProvenHandler { name })
        }
    } else if ceiling.accepts_rooted {
        None
    } else {
        Some(RouteError::ProvenOnlyHandler { name })
    }
}

proof fn lemma_tables_agree(table: Table, rows: Seq<Row>)
    requires
        ascending(row_names(rows)),
        forall|name: Seq<char>| #[trigger]
            table.contains_key(name) <==> row_names(rows).contains(name),
        forall|i: int|
            #![trigger rows[i]]
            0 <= i < rows.len() ==> table[rows[i].name@] == rows[i].route@,
    ensures
        row_table(rows) == table,
{
    lemma_row_table(rows);
    let names = row_names(rows);
    assert forall|name: Seq<char>| #[trigger] table.contains_key(name) implies table[name]
        == row_table(rows)[name] by {
        assert(names.contains(name));
        let i = choose|i: int| 0 <= i < names.len() && names[i] == name;
        assert(rows[i].name@ == name);
    }
    assert forall|name: Seq<char>| #[trigger] row_table(rows).contains_key(name) <==> table.contains_key(
        name,
    ) by {
        assert(names.contains(name) <==> row_table(rows).contains_key(name));
    }
    assert(row_table(rows) =~= table);
}

proof fn lemma_inserted(rows: Seq<Row>, at: int, row: Row)
    requires
        0 <= at <= rows.len(),
        ascending(row_names(rows)),
        forall|j: int| 0 <= j < at ==> name_lt((#[trigger] rows[j]).name@, row.name@),
        forall|j: int| at <= j < rows.len() ==> name_lt(row.name@, (#[trigger] rows[j]).name@),
    ensures
        ascending(row_names(rows.insert(at, row))),
        row_table(rows.insert(at, row)) == row_table(rows).insert(row.name@, row.route@),
{
    let after = rows.insert(at, row);
    let names = row_names(rows);
    let longer = row_names(after);
    lemma_row_table(rows);
    assert forall|i: int, j: int| 0 <= i < j < longer.len() implies name_lt(
        #[trigger] longer[i],
        #[trigger] longer[j],
    ) by {
        let a = if i < at { i } else { i - 1 };
        let b = if j < at { j } else { j - 1 };
        if i != at {
            assert(longer[i] == names[a]);
            assert(names[a] == rows[a].name@);
        }
        if j != at {
            assert(longer[j] == names[b]);
            assert(names[b] == rows[b].name@);
        }
        if i != at && j != at {
            assert(name_lt(names[a], names[b]));
        }
    }
    let table = row_table(rows).insert(row.name@, row.route@);
    assert(after[at] == row);
    assert(longer[at] == row.name@);
    assert forall|name: Seq<char>| #[trigger] table.contains_key(name) <==> longer.contains(name) by {
        assert(names.contains(name) <==> row_table(rows).contains_key(name));
        if names.contains(name) {
            let i = choose|i: int| 0 <= i < names.len() && names[i] == name;
            if i < at {
                assert(longer[i] == name);
            } else {
                assert(longer[i + 1] == name);
            }
        }
        if longer.contains(name) && name != row.name@ {
            let i = choose|i: int| 0 <= i < longer.len() && longer[i] == name;
            if i < at {
                assert(names[i] == name);
            } else {
                assert(names[i - 1] == name);
            }
        }
    }
    assert forall|i: int|
        #![trigger after[i]]
        0 <= i < after.len() implies table[after[i].name@] == after[i].route@ by {
        if i != at {
            let k = if i < at { i } else { i - 1 };
            assert(after[i] == rows[k]);
        }
    }
    lemma_tables_agree(table, after);
}

proof fn lemma_updated(rows: Seq<Row>, at: int, row: Row)
    requires
        0 <= at < rows.len(),
        ascending(row_names(rows)),
        rows[at].name@ == row.name@,
    ensures
        ascending(row_names(rows.update(at, row))),
        row_table(rows.update(at, row)) == row_table(rows).insert(row.name@, row.route@),
{
    let after = rows.update(at, row);
    let names = row_names(rows);
    assert(row_names(after) =~= names);
    lemma_row_table(rows);
    let table = row_table(rows).insert(row.name@, row.route@);
    assert(names[at] == row.name@);
    assert forall|name: Seq<char>| #[trigger] table.contains_key(name) <==> row_names(
        after,
    ).contains(name) by {
        assert(names.contains(name) <==> row_table(rows).contains_key(name));
    }
    assert forall|i: int|
        #![trigger after[i]]
        0 <= i < after.len() implies table[after[i].name@] == after[i].route@ by {
        if i != at {
            assert(after[i] == rows[i]);
            assert(names[i] == rows[i].name@);
            if i < at {
                assert(name_lt(names[i], names[at]));
            } else {
                assert(name_lt(names[at], names[i]));
            }
        }
    }
    lemma_tables_agree(table, after);
}

/// An entry binds what its address means, under the name before its first `=`. What the address
/// means does not depend on the name, on what is bound already, or on where the entry stands in the
/// list; and what was bound already stays as it was.
pub proof fn an_entry_binds_what_its_address_means(
    services: Services,
    entries: &Vec<ServeEntry>,
    terminal: bool,
    bound: Result<Services, RouteError<String>>,
    name: Seq<char>,
    addr: &str,
    entry: &str,
    target: Result<Target<String>, RouteError<String>>,
)
    requires
        call_ensures(Services::extend_parse, (services, entries, terminal), bound),
        call_ensures(parse_target, (addr, entry, terminal), target),
        entries@.len() == 1,
        entries@[0].text@ == entry@,
        entry@ == name + seq!['='] + addr@,
        !name.contains('='),
    ensures
        entries@[0].named && !services@.contains_key(name) ==> match target {
            Ok(target) => bound matches Ok(after) && {
                &&& after@.contains_key(name)
                &&& after@[name].target == target@
                &&& after@[name].access == Access::Family
                &&& after@.remove(name) == services@
            },
            Err(why) => bound matches Err(error) && error@ == why@,
        },
        !entries@[0].named ==> (bound matches Err(error) && error@ == (RouteError::BadName {
            name,
        })),
        entries@[0].named && services@.contains_key(name) ==> (bound matches Err(error) && error@
            == (RouteError::Duplicate { name })),
{
    let all = entry_views(entries@);
    assert(all[0] == entries@[0]@);
    lemma_joined_splits_first(name, '=', addr@);
    assert(all.drop_first() =~= Seq::empty());
    reveal_with_fuel(entries_bound, 2);
    if !services@.contains_key(name) {
        if let Ok(target) = target {
            let route = Route { target: target@, access: Access::Family };
            assert(services@.insert(name, route).remove(name) =~= services@);
        }
    }
}

/// An entry without a `=` gives its service no name, and binds nothing.
pub proof fn an_entry_needs_a_name(
    services: Services,
    entries: &Vec<ServeEntry>,
    terminal: bool,
    bound: Result<Services, RouteError<String>>,
)
    requires
        call_ensures(Services::extend_parse, (services, entries, terminal), bound),
        entries@.len() > 0,
        !entries@[0].text@.contains('='),
    ensures
        bound matches Err(RouteError::NoName { entry }) && entry@ == entries@[0].text@,
{
    let all = entry_views(entries@);
    assert(all[0] == entries@[0]@);
    lemma_splits_where_held(entries@[0].text@, '=');
}

proof fn lemma_entries_append(
    table: Table,
    a: Seq<(Seq<char>, bool)>,
    b: Seq<(Seq<char>, bool)>,
    terminal: bool,
)
    ensures
        entries_bound(table, a + b, terminal) == match entries_bound(table, a, terminal) {
            Ok(next) => entries_bound(next, b, terminal),
            Err(error) => Err(error),
        },
    decreases a.len(),
{
    if a.len() == 0 {
        assert(a + b =~= b);
    } else {
        assert((a + b).drop_first() =~= a.drop_first() + b);
        if let Ok(next) = entry_bound(table, a[0], terminal) {
            lemma_entries_append(next, a.drop_first(), b, terminal);
        }
    }
}

/// A list of entries is bound in order, and it makes no difference in how many calls: binding two
/// lists one after the other is binding the one list they make. The first entry that cannot be bound
/// stops it.
pub proof fn entries_are_bound_in_order(
    services: Services,
    first: &Vec<ServeEntry>,
    second: &Vec<ServeEntry>,
    both: &Vec<ServeEntry>,
    terminal: bool,
    mid: Result<Services, RouteError<String>>,
    twice: Result<Services, RouteError<String>>,
    once: Result<Services, RouteError<String>>,
)
    requires
        both@ == first@ + second@,
        call_ensures(Services::extend_parse, (services, first, terminal), mid),
        call_ensures(Services::extend_parse, (services, both, terminal), once),
        mid is Ok ==> call_ensures(Services::extend_parse, (mid->Ok_0, second, terminal), twice),
    ensures
        mid matches Err(error) ==> (once matches Err(why) && why@ == error@),
        mid is Ok && twice is Ok ==> (once matches Ok(after) && after@ == twice->Ok_0@),
        mid is Ok && twice is Err ==> (once matches Err(why) && why@ == twice->Err_0@),
{
    let a = entry_views(first@);
    let b = entry_views(second@);
    assert(entry_views(both@) =~= a + b);
    lemma_entries_append(services@, a, b, terminal);
}

proof fn lemma_entries_keep(table: Table, entries: Seq<(Seq<char>, bool)>, terminal: bool)
    ensures
        entries_bound(table, entries, terminal) matches Ok(after) ==> {
            &&& forall|name: Seq<char>| #[trigger]
                table.contains_key(name) ==> after.contains_key(name) && after[name]
                    == table[name]
            &&& forall|name: Seq<char>| #[trigger]
                after.contains_key(name) && !table.contains_key(name) ==> after[name].access
                    == Access::Family && exists|i: int|
                    0 <= i < entries.len() && (name + seq!['=']).is_prefix_of(
                        (#[trigger] entries[i]).0,
                    )
            &&& forall|i: int|
                0 <= i < entries.len() ==> (#[trigger] entries[i]).1 && entries[i].0.contains('=')
        },
    decreases entries.len(),
{
    if entries.len() > 0 {
        if let Ok(next) = entry_bound(table, entries[0], terminal) {
            let rest = entries.drop_first();
            lemma_entries_keep(next, rest, terminal);
            lemma_split_first_parts(entries[0].0, '=');
            lemma_splits_where_held(entries[0].0, '=');
            let (name, addr) = split_first(entries[0].0, '=')->0;
            if let Ok(after) = entries_bound(next, rest, terminal) {
                assert forall|other: Seq<char>| #[trigger]
                    after.contains_key(other) && !table.contains_key(other) implies after[other].access
                    == Access::Family && exists|i: int|
                    0 <= i < entries.len() && (other + seq!['=']).is_prefix_of(
                        (#[trigger] entries[i]).0,
                    ) by {
                    if other == name {
                        assert(next.contains_key(name));
                        assert((name + seq!['=']) =~= entries[0].0.subrange(
                            0,
                            name.len() as int + 1,
                        ));
                        assert((other + seq!['=']).is_prefix_of(entries[0].0));
                    } else {
                        assert(!next.contains_key(other));
                        let j = choose|j: int|
                            0 <= j < rest.len() && (other + seq!['=']).is_prefix_of(
                                (#[trigger] rest[j]).0,
                            );
                        assert((other + seq!['=']).is_prefix_of(entries[j + 1].0));
                    }
                }
                assert forall|name: Seq<char>| #[trigger] table.contains_key(name) implies
                    after.contains_key(name) && after[name] == table[name] by {
                    assert(next.contains_key(name));
                }
                assert forall|i: int| 0 <= i < entries.len() implies (#[trigger] entries[i]).1
                    && entries[i].0.contains('=') by {
                    if i > 0 {
                        assert(entries[i] == rest[i - 1]);
                    }
                }
            }
        }
    }
}

/// Binding entries changes nothing that was bound, and adds only what the entries name, each on a
/// family route.
pub proof fn entries_add_only_what_they_name(
    services: Services,
    entries: &Vec<ServeEntry>,
    terminal: bool,
    bound: Result<Services, RouteError<String>>,
    name: Seq<char>,
)
    requires
        call_ensures(Services::extend_parse, (services, entries, terminal), bound),
        bound is Ok,
    ensures
        services@.contains_key(name) ==> bound->Ok_0@.contains_key(name) && bound->Ok_0@[name]
            == services@[name],
        bound->Ok_0@.contains_key(name) && !services@.contains_key(name)
            ==> bound->Ok_0@[name].access == Access::Family && exists|i: int|
            0 <= i < entries@.len() && (name + seq!['=']).is_prefix_of(
                (#[trigger] entries@[i]).text@,
            ),
        forall|i: int|
            0 <= i < entries@.len() ==> (#[trigger] entries@[i]).named
                && entries@[i].text@.contains('='),
{
    let all = entry_views(entries@);
    lemma_entries_keep(services@, all, terminal);
    let after = bound->Ok_0@;
    if after.contains_key(name) && !services@.contains_key(name) {
        let i = choose|i: int|
            0 <= i < all.len() && (name + seq!['=']).is_prefix_of((#[trigger] all[i]).0);
        assert(all[i] == entries@[i]@);
        assert((name + seq!['=']).is_prefix_of(entries@[i].text@));
    }
    assert forall|i: int| 0 <= i < entries@.len() implies (#[trigger] entries@[i]).named
        && entries@[i].text@.contains('=') by {
        assert(all[i] == entries@[i]@);
    }
}

/// A handler is bound under a floor exactly where some witness could ever reach it there: a
/// proven-only route takes a handler for proven keys, and any other route one for token holders.
pub proof fn a_floor_takes_a_handler_it_can_reach<H: Handler>(
    services: Services,
    name: ServiceName,
    handler: &H,
    access: Access,
    bound: Result<Services, RouteError<String>>,
)
    requires
        call_ensures(Services::bind_handler::<H>, (services, name, handler, access), bound),
    ensures
        bound is Ok <==> !services@.contains_key(name@) && (if access == Access::ProvenOnly {
            accepted_by::<H::Exposure>(Origin::Proven)
        } else {
            accepted_by::<H::Exposure>(Origin::Rooted)
        }),
        bound matches Ok(after) ==> {
            &&& after@.remove(name@) == services@
            &&& after@[name@].access == access
            &&& after@[name@].target matches Target::Handler(frozen, serves) && {
                &&& serves is Bound
                &&& call_ensures(<H as Handler>::metering, (handler,), frozen.metering)
                &&& frozen.ceiling.open_safe == H::Exposure::OPEN_SAFE
                &&& frozen.ceiling.accepts_rooted == accepted_by::<H::Exposure>(Origin::Rooted)
                &&& frozen.ceiling.accepts_open == accepted_by::<H::Exposure>(Origin::Open)
                &&& frozen.ceiling.accepts_proven == accepted_by::<H::Exposure>(Origin::Proven)
            }
        },
{
}

/// A member floor changes the floor of the one name, and nothing else of the table.
pub proof fn a_member_floor_marks_one_name(
    services: Services,
    name: &str,
    marked: Result<Services, RouteError<String>>,
    other: Seq<char>,
)
    requires
        call_ensures(Services::member_only, (services, name), marked),
    ensures
        marked is Ok <==> services@.contains_key(name@),
        marked matches Ok(after) ==> {
            &&& after@.contains_key(other) <==> services@.contains_key(other)
            &&& after@[name@].access == Access::Member
            &&& after@[name@].target == services@[name@].target
            &&& other != name@ && services@.contains_key(other) ==> after@[other]
                == services@[other]
        },
{
}

/// A fresh table parsed from entries is an empty one extended by them.
pub proof fn parsing_is_extending_nothing(
    entries: &Vec<ServeEntry>,
    terminal: bool,
    empty: Services,
    parsed: Result<Services, RouteError<String>>,
    extended: Result<Services, RouteError<String>>,
)
    requires
        call_ensures(Services::new, (), empty),
        call_ensures(Services::parse, (entries, terminal), parsed),
        call_ensures(Services::extend_parse, (empty, entries, terminal), extended),
    ensures
        parsed matches Ok(services) ==> (extended matches Ok(after) && after@ == services@),
        parsed matches Err(error) ==> (extended matches Err(why) && why@ == error@),
        entries@.len() == 0 ==> parsed is Ok && parsed->Ok_0@ == Map::<
            Seq<char>,
            Route<Seq<char>>,
        >::empty(),
{
}

/// A name binds once: a bound name is refused and nothing is lost, a free one is added and nothing
/// else moves.
pub proof fn a_name_binds_once(
    services: Services,
    name: ServiceName,
    route: Route<String>,
    bound: Result<Services, RouteError<String>>,
    other: Seq<char>,
)
    requires
        call_ensures(Services::bind, (services, name, route), bound),
    ensures
        bound is Ok <==> !services@.contains_key(name@),
        bound matches Ok(after) ==> {
            &&& after@.contains_key(name@) && after@[name@] == route@
            &&& other != name@ ==> (after@.contains_key(other) <==> services@.contains_key(other))
            &&& other != name@ && services@.contains_key(other) ==> after@[other]
                == services@[other]
        },
{
}

/// What is bound is found, under its own name and no other.
pub proof fn what_is_bound_is_found(
    services: Services,
    name: ServiceName,
    route: Route<String>,
    bound: Result<Services, RouteError<String>>,
    asked: &str,
    found: Option<&Route<String>>,
    held: bool,
)
    requires
        call_ensures(Services::bind, (services, name, route), bound),
        bound is Ok,
        call_ensures(Services::get, (&bound->Ok_0, asked), found),
        call_ensures(Services::contains, (&bound->Ok_0, asked), held),
    ensures
        asked@ == name@ ==> (found matches Some(kept) && kept@ == route@) && held,
        asked@ != name@ ==> held == services@.contains_key(asked@),
        asked@ != name@ ==> match found {
            Some(kept) => services@.contains_key(asked@) && kept@ == services@[asked@],
            None => !services@.contains_key(asked@),
        },
{
}

/// A table lists every name it serves, each once, in name order, and no other; it counts them and
/// gives each with its route.
pub proof fn a_table_lists_its_names_in_order(
    services: &Services,
    names: Vec<String>,
    len: usize,
    index: usize,
    row: (&String, &Route<String>),
    name: Seq<char>,
)
    requires
        call_ensures(Services::names, (services,), names),
        call_ensures(Services::len, (services,), len),
        index < names@.len(),
        call_ensures(Services::row, (services, index), row),
    ensures
        len == names@.len(),
        row.0@ == names@[index as int]@,
        services@.contains_key(row.0@) && row.1@ == services@[row.0@],
        services@.contains_key(name) <==> exists|i: int|
            0 <= i < names@.len() && (#[trigger] names@[i])@ == name,
        forall|i: int, j: int|
            0 <= i < j < names@.len() ==> name_lt((#[trigger] names@[i])@, (#[trigger] names@[j])@),
{
    let all = texts(names@);
    assert(all[index as int] == names@[index as int]@);
    if services@.contains_key(name) {
        assert(all.contains(name));
        let i = choose|i: int| 0 <= i < all.len() && all[i] == name;
        assert(names@[i]@ == name);
    }
    if exists|i: int| 0 <= i < names@.len() && (#[trigger] names@[i])@ == name {
        let i = choose|i: int| 0 <= i < names@.len() && (#[trigger] names@[i])@ == name;
        assert(all[i] == name);
        assert(all.contains(name));
    }
    assert forall|i: int, j: int| 0 <= i < j < names@.len() implies name_lt(
        (#[trigger] names@[i])@,
        (#[trigger] names@[j])@,
    ) by {
        assert(name_lt(all[i], all[j]));
    }
}

/// The name an entry gives is what stands before its first `=`.
pub proof fn an_entry_is_named_before_its_first_equals_sign<'a>(
    entry: &'a str,
    name: Option<&'a str>,
)
    requires
        call_ensures(entry_name, (entry,), name),
    ensures
        match name {
            Some(name) => !name@.contains('=') && (name@ + seq!['=']).is_prefix_of(entry@),
            None => !entry@.contains('='),
        },
{
    lemma_split_first_parts(entry@, '=');
    if let Some(name) = name {
        assert((name@ + seq!['=']) =~= entry@.subrange(0, name@.len() as int + 1));
    }
}

/// A forward entry `name=addr` binds the name to a forward to exactly `addr`, what follows the first
/// `=`, on a family route. It is the same for every name.
pub proof fn a_forward_entry_binds_its_address(
    services: Services,
    entries: &Vec<ServeEntry>,
    terminal: bool,
    bound: Result<Services, RouteError<String>>,
    name: Seq<char>,
    addr: Seq<char>,
    host: Seq<char>,
    port: Seq<char>,
    path: Seq<char>,
)
    requires
        call_ensures(Services::extend_parse, (services, entries, terminal), bound),
        entries@.len() == 1,
        entries@[0].named,
        entries@[0].text@ == name + seq!['='] + addr,
        !name.contains('='),
        !services@.contains_key(name),
        ({
            ||| {
                &&& addr == "unix:"@ + path
                &&& path.len() > 0
                &&& !"+lossy"@.is_suffix_of(addr)
            }
            ||| {
                &&& addr == host + seq![':'] + port
                &&& host.len() > 0 && host != "file"@ && host != "fifo"@
                &&& !host.contains(':') || no_scheme_starts(host) || "tcp:"@.is_prefix_of(host)
                &&& port.len() > 0 && digits_value(port) < 65536
                &&& forall|i: int| 0 <= i < port.len() ==> '0' <= #[trigger] port[i] <= '9'
            }
        }),
    ensures
        bound matches Ok(after) && {
            &&& after@.contains_key(name)
            &&& after@[name].access == Access::Family
            &&& after@[name].target matches Target::Handler(_, Serves::Forward { addr: kept })
                && kept == addr
            &&& after@.remove(name) == services@
        },
{
    let all = entry_views(entries@);
    assert(all[0] == entries@[0]@);
    lemma_joined_splits_first(name, '=', addr);
    assert(all.drop_first() =~= Seq::empty());
    reveal_with_fuel(entries_bound, 2);
    if addr == "unix:"@ + path && path.len() > 0 && !"+lossy"@.is_suffix_of(addr) {
        lemma_unix(path, entries@[0].text@, terminal);
    } else {
        lemma_host_port(host, port, entries@[0].text@, terminal);
    }
    if let Ok(target) = target_of(addr, entries@[0].text@, terminal) {
        let route = Route { target, access: Access::Family };
        assert(services@.insert(name, route).remove(name) =~= services@);
    }
}

} // verus!
