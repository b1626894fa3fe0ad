//! The live cut: a session admitted on a capability that is later recalled, or on a grant that has
//! since run out, ends itself, rather than running on until its peer leaves.
//!
//! Each session keeps the chains it was admitted on and re-asks an oracle on every sweep. The unit
//! is the session: a recall or an expiry ends every stream on it.


use vstd::prelude::*;
use vstd::string::*;

use crate::text::{decimal, decimal_text};
use crate::witness::{RevocationId, VerifyKey};

verus! {

/// How often a live session re-checks the chains it was admitted on, in milliseconds.
pub const CUT_SWEEP_MILLIS: u64 = 1000;

/// The most revocation ids one session may keep for the cut. A stream whose admission would take
/// the session past it is refused: anyone holding a token can narrow it offline, and every
/// narrowing adds a fresh id, so an uncapped record would grow without bound.
pub const MAX_SESSION_CHAIN_IDS: usize = 1024;

/// When a capability stops granting anything, in nanoseconds since the Unix epoch.
#[derive(Debug, Clone, Copy, PartialEq, Eq, Structural)]
pub enum Expiry {
    /// Never.
    Never,
    /// Once this instant has passed.
    At(i128),
    /// It cannot be read, so it counts as passed.
    Unreadable,
}

/// What the cut and the ruling read of a parsed capability.
#[derive(Debug, PartialEq, Eq)]
pub struct Cap {
    /// The authority key the capability is rooted at.
    pub root: VerifyKey,
    /// The revocation ids of its blocks.
    pub ids: Vec<RevocationId>,
    /// The earliest bound anywhere in its chain.
    pub expiry: Expiry,
    /// Whether it names an authority whose badge must be presented with it.
    pub authority_bound: bool,
}

/// The expiries of a list of capabilities.
pub open spec fn expiries(caps: Seq<Cap>) -> Seq<Expiry> {
    caps.map_values(|cap: Cap| cap.expiry)
}

/// The revocation ids of a list of capabilities.
pub open spec fn ids_of(caps: Seq<Cap>) -> Set<Seq<u8>>
    decreases caps.len(),
{
    if caps.len() == 0 {
        Set::empty()
    } else {
        ids_of(caps.drop_last()).union(id_set(caps.last().ids@))
    }
}

/// The roots of a list of capabilities.
pub open spec fn roots_of(caps: Seq<Cap>) -> Set<Seq<u8>> {
    key_set(caps.map_values(|cap: Cap| cap.root))
}

/// A list of ids as a set.
pub open spec fn id_set(ids: Seq<RevocationId>) -> Set<Seq<u8>> {
    ids.map_values(|id: RevocationId| id@).to_set()
}

/// A list of keys as a set.
pub open spec fn key_set(keys: Seq<VerifyKey>) -> Set<Seq<u8>> {
    keys.map_values(|key: VerifyKey| key@).to_set()
}

/// A capability's expiry cannot be read.
#[derive(Debug, Clone, Copy, PartialEq, Eq, Structural)]
pub struct UnreadableExpiry;

/// How long a session's grants hold it open: until the first of its streams' grants runs out. Any
/// one grant ending ends the session, the same as any one chain recalled.
#[derive(Debug, Clone, Copy, PartialEq, Eq, Structural)]
pub enum Lease {
    /// No stream was admitted on a grant: nothing here can run out.
    Unruled,
    /// Some grant a stream was admitted on has run out once this instant passes.
    Until(i128),
    /// Every stream was admitted on grants none of which ever expires.
    Unbounded,
}

/// Whether `until` is the earliest of one stream's expiries: the bound it names, or none where no
/// capability ever expires.
pub open spec fn is_earliest(reads: Seq<Expiry>, until: Option<i128>) -> bool {
    &&& forall|i: int| 0 <= i < reads.len() ==> #[trigger] reads[i] !is Unreadable
    &&& match until {
        Some(instant) => {
            &&& reads.contains(Expiry::At(instant))
            &&& forall|i: int|
                0 <= i < reads.len() ==> ((#[trigger] reads[i]) matches Expiry::At(other) ==> instant
                    <= other)
        },
        None => forall|i: int| 0 <= i < reads.len() ==> #[trigger] reads[i] is Never,
    }
}

/// A stream has one earliest expiry.
pub proof fn the_earliest_expiry_is_unique(reads: Seq<Expiry>, a: Option<i128>, b: Option<i128>)
    requires
        is_earliest(reads, a),
        is_earliest(reads, b),
    ensures
        a == b,
{
    if let Some(x) = a {
        let i = choose|i: int| 0 <= i < reads.len() && reads[i] == Expiry::At(x);
        assert(reads[i] !is Never);
        if let Some(y) = b {
            let j = choose|j: int| 0 <= j < reads.len() && reads[j] == Expiry::At(y);
            assert(y <= x);
            assert(x <= y);
        }
    } else if let Some(y) = b {
        let j = choose|j: int| 0 <= j < reads.len() && reads[j] == Expiry::At(y);
        assert(reads[j] is Never);
    }
}

impl Lease {
    /// The earliest of one stream's expiry reads, and an error when any of them failed: an
    /// unreadable expiry is treated as expired and never as absent.
    pub fn earliest(reads: &Vec<Expiry>) -> (until: Result<Option<i128>, UnreadableExpiry>)
        ensures
            match until {
                Ok(until) => is_earliest(reads@, until),
                Err(_) => reads@.contains(Expiry::Unreadable),
            },
    {
        let mut until: Option<i128> = None;
        let mut i: usize = 0;
        assert(reads@.take(0) =~= Seq::empty());
        while i < reads.len()
            invariant
                i <= reads.len(),
                is_earliest(reads@.take(i as int), until),
            decreases reads.len() - i,
        {
            let ghost before = reads@.take(i as int);
            let ghost after = reads@.take(i + 1);
            let ghost held = until;
            assert(after =~= before.push(reads@[i as int]));
            match reads[i] {
                Expiry::Unreadable => {
                    assert(reads@[i as int] == Expiry::Unreadable);
                    return Err(UnreadableExpiry);
                },
                Expiry::Never => {},
                Expiry::At(instant) => {
                    until = match until {
                        Some(earlier) => if earlier <= instant {
                            Some(earlier)
                        } else {
                            Some(instant)
                        },
                        None => Some(instant),
                    };
                },
            }
            proof {
                if let Some(kept) = until {
                    if held == until {
                        let k = choose|k: int| 0 <= k < before.len() && before[k] == Expiry::At(
                            kept,
                        );
                        assert(after[k] == Expiry::At(kept));
                    } else {
                        assert(after[i as int] == Expiry::At(kept));
                    }
                    assert(after.contains(Expiry::At(kept)));
                }
                assert forall|j: int| 0 <= j < after.len() implies #[trigger] after[j] !is
                    Unreadable by {
                    if j < i {
                        assert(before[j] !is Unreadable);
                    }
                }
                if let Some(kept) = until {
                    assert forall|j: int| 0 <= j < after.len() implies ((#[trigger] after[j])
                        matches Expiry::At(other) ==> kept <= other) by {
                        if j < i {
                            assert(after[j] == before[j]);
                            if held is None {
                                assert(before[j] is Never);
                            }
                        }
                    }
                } else {
                    assert forall|j: int| 0 <= j < after.len() implies #[trigger] after[j] is
                        Never by {
                        if j < i {
                            assert(before[j] is Never);
                        }
                    }
                }
            }
            i = i + 1;
        }
        assert(reads@.take(i as int) =~= reads@);
        Ok(until)
    }

    /// The expiry of one stream's grant, from the capabilities it was ruled on.
    pub fn of_stream(ruled: &Vec<Cap>) -> (until: Result<Option<i128>, UnreadableExpiry>)
        ensures
            match until {
                Ok(until) => is_earliest(expiries(ruled@), until),
                Err(_) => expiries(ruled@).contains(Expiry::Unreadable),
            },
    {
        let mut reads: Vec<Expiry> = Vec::new();
        let mut i: usize = 0;
        while i < ruled.len()
            invariant
                i <= ruled.len(),
                reads.len() == i,
                forall|j: int| 0 <= j < i ==> #[trigger] reads@[j] == ruled@[j].expiry,
            decreases ruled.len() - i,
        {
            reads.push(ruled[i].expiry);
            i = i + 1;
        }
        assert(reads@ =~= expiries(ruled@));
        Lease::earliest(&reads)
    }

    /// This lease with one more admitted stream, whose grant runs out at `stream`.
    pub open spec fn extended(self, stream: Option<i128>) -> Lease {
        match (self, stream) {
            (Lease::Until(held), Some(until)) => Lease::Until(
                if held <= until {
                    held
                } else {
                    until
                },
            ),
            (Lease::Until(held), None) => Lease::Until(held),
            (_, Some(until)) => Lease::Until(until),
            (_, None) => Lease::Unbounded,
        }
    }

    /// This lease with one more admitted stream. It can only ever shorten.
    pub fn extend(self, stream: Option<i128>) -> (lease: Lease)
        ensures
            lease == self.extended(stream),
    {
        match (self, stream) {
            (Lease::Until(held), Some(until)) => if held <= until {
                Lease::Until(held)
            } else {
                Lease::Until(until)
            },
            (Lease::Until(held), None) => Lease::Until(held),
            (_, Some(until)) => Lease::Until(until),
            (_, None) => Lease::Unbounded,
        }
    }

    /// Whether the lease has run out at `now`.
    pub open spec fn over(self, now: i128) -> bool {
        self matches Lease::Until(until) && now > until
    }

    /// Whether the lease has run out at `now`. A capability is good through its expiry instant, so
    /// it lapses only strictly after.
    pub fn lapsed(self, now: i128) -> (lapsed: bool)
        ensures
            lapsed == self.over(now),
    {
        match self {
            Lease::Until(until) => now > until,
            _ => false,
        }
    }
}

/// A session ends at the first expiry of any of its grants: a lease has run out exactly when one of
/// the grants it was extended by has, whatever the others say.
pub proof fn a_lease_ends_with_its_first_grant(lease: Lease, stream: Option<i128>, now: i128)
    ensures
        lease.extended(stream).over(now) <==> lease.over(now) || (stream matches Some(until) && now
            > until),
{
}

/// The order in which a session's streams were admitted does not matter to how long it lasts.
pub proof fn lease_order_does_not_matter(lease: Lease, a: Option<i128>, b: Option<i128>)
    ensures
        lease.extended(a).extended(b) == lease.extended(b).extended(a),
        lease.extended(a).extended(a) == lease.extended(a),
{
}

/// Why a stream's chains were not kept, which refuses the stream.
#[derive(Debug, Clone, Copy, PartialEq, Eq, Structural)]
pub enum Unrecorded {
    /// They would take the session past [`MAX_SESSION_CHAIN_IDS`].
    Full,
    /// A capability's expiry cannot be read, so it is treated as already expired.
    UnreadableExpiry,
}

impl Unrecorded {
    /// The line a node logs.
    pub open spec fn text(self) -> Seq<char> {
        match self {
            Unrecorded::Full => {
                "this session already keeps "@ + decimal_text(MAX_SESSION_CHAIN_IDS as nat)
                    + " revocation ids for the live cut"@
            },
            Unrecorded::UnreadableExpiry => {
                "a capability's expiry cannot be read, so the live cut treats it as expired"@
            },
        }
    }

    /// The line a node logs.
    pub fn message(&self) -> (message: String)
        ensures
            message@ == self.text(),
    {
        match self {
            Unrecorded::Full => {
                String::from_str("this session already keeps ").concat(
                    decimal(MAX_SESSION_CHAIN_IDS as u64).as_str(),
                ).concat(" revocation ids for the live cut")
            },
            Unrecorded::UnreadableExpiry => {
                String::from_str(
                    "a capability's expiry cannot be read, so the live cut treats it as expired",
                )
            },
        }
    }
}

/// What a session's record says.
pub struct Chains {
    /// The authority keys the admitted capabilities are rooted at.
    pub roots: Set<Seq<u8>>,
    /// The revocation ids of every block of every admitted capability.
    pub ids: Set<Seq<u8>>,
    /// The root of each admitted stream's first capability.
    pub anchors: Set<Seq<u8>>,
    /// The key the session's peer proved.
    pub peer: Option<VerifyKey>,
    /// How long its grants hold it open.
    pub lease: Lease,
}

/// The record of a session no stream was admitted on.
pub open spec fn no_chains() -> Chains {
    Chains {
        roots: Set::empty(),
        ids: Set::empty(),
        anchors: Set::empty(),
        peer: None,
        lease: Lease::Unruled,
    }
}

/// A record with one more stream, admitted for `peer` on `ruled` until `until`. A stream nothing
/// was ruled on leaves the record as it was.
pub open spec fn recorded(
    chains: Chains,
    peer: VerifyKey,
    ruled: Seq<Cap>,
    until: Option<i128>,
) -> Chains {
    if ruled.len() == 0 {
        chains
    } else {
        Chains {
            roots: chains.roots.union(roots_of(ruled)),
            ids: chains.ids.union(ids_of(ruled)),
            anchors: chains.anchors.insert(ruled[0].root@),
            peer: Some(peer),
            lease: chains.lease.extended(until),
        }
    }
}

/// A record forgets nothing: whatever a later stream is admitted on, every root, id and anchor kept
/// so far is still kept, and a grant that has run out still ends the session. So no later grant
/// carries a session past an earlier one's recall or expiry.
pub proof fn recording_forgets_nothing(
    chains: Chains,
    peer: VerifyKey,
    ruled: Seq<Cap>,
    until: Option<i128>,
    now: i128,
)
    ensures
        chains.roots.subset_of(recorded(chains, peer, ruled, until).roots),
        chains.ids.subset_of(recorded(chains, peer, ruled, until).ids),
        chains.anchors.subset_of(recorded(chains, peer, ruled, until).anchors),
        chains.lease.over(now) ==> recorded(chains, peer, ruled, until).lease.over(now),
{
}

/// Presenting the same capabilities again adds nothing to a record.
pub proof fn recording_again_adds_nothing(
    chains: Chains,
    peer: VerifyKey,
    ruled: Seq<Cap>,
    until: Option<i128>,
)
    ensures
        recorded(recorded(chains, peer, ruled, until), peer, ruled, until) == recorded(
            chains,
            peer,
            ruled,
            until,
        ),
{
    let once = recorded(chains, peer, ruled, until);
    let twice = recorded(once, peer, ruled, until);
    if ruled.len() > 0 {
        assert(twice.roots =~= once.roots);
        assert(twice.ids =~= once.ids);
        assert(twice.anchors =~= once.anchors);
    }
}

/// Every root key and revocation id of every capability the node's gate ruled on to admit a
/// session's streams, the anchors those streams were verified under, the peer key they were bound
/// to, and how long those grants hold the session: the facts the cut re-checks, kept instead of the
/// tokens.
#[derive(Debug)]
pub struct AdmittedChains {
    roots: Vec<VerifyKey>,
    ids: Vec<RevocationId>,
    anchors: Vec<VerifyKey>,
    peer: Option<VerifyKey>,
    lease: Lease,
}

impl View for AdmittedChains {
    type V = Chains;

    closed spec fn view(&self) -> Chains {
        Chains {
            roots: key_set(self.roots@),
            ids: id_set(self.ids@),
            anchors: key_set(self.anchors@),
            peer: self.peer,
            lease: self.lease,
        }
    }
}

/// Whether a list of keys holds a key.
fn holds_key(keys: &Vec<VerifyKey>, key: &VerifyKey) -> (held: bool)
    ensures
        held == key_set(keys@).contains(key@),
{
    let ghost views = keys@.map_values(|key: VerifyKey| key@);
    let mut i: usize = 0;
    while i < keys.len()
        invariant
            i <= keys.len(),
            views == keys@.map_values(|key: VerifyKey| key@),
            forall|j: int| 0 <= j < i ==> views[j] != key@,
        decreases keys.len() - i,
    {
        assert(views[i as int] == keys@[i as int]@);
        if keys[i].same(key) {
            assert(views.contains(key@));
            return true;
        }
        i = i + 1;
    }
    false
}

/// Whether a list of ids holds an id.
fn holds_id(ids: &Vec<RevocationId>, id: &RevocationId) -> (held: bool)
    ensures
        held == id_set(ids@).contains(id@),
{
    let ghost views = ids@.map_values(|id: RevocationId| id@);
    let mut i: usize = 0;
    while i < ids.len()
        invariant
            i <= ids.len(),
            views == ids@.map_values(|id: RevocationId| id@),
            forall|j: int| 0 <= j < i ==> views[j] != id@,
        decreases ids.len() - i,
    {
        assert(views[i as int] == ids@[i as int]@);
        if ids[i].same(id) {
            assert(views.contains(id@));
            return true;
        }
        i = i + 1;
    }
    false
}

proof fn lemma_key_push(keys: Seq<VerifyKey>, key: VerifyKey)
    ensures
        key_set(keys.push(key)) == key_set(keys).insert(key@),
{
    let views = keys.map_values(|key: VerifyKey| key@);
    let longer = keys.push(key).map_values(|key: VerifyKey| key@);
    assert(longer =~= views.push(key@));
    assert forall|x: Seq<u8>| longer.to_set().contains(x) <==> views.to_set().insert(
        key@,
    ).contains(x) by {
        if views.contains(x) {
            let i = choose|i: int| 0 <= i < views.len() && views[i] == x;
            assert(longer[i] == x);
        }
        if x == key@ {
            assert(longer[views.len() as int] == x);
        }
        if longer.contains(x) && x != key@ {
            let i = choose|i: int| 0 <= i < longer.len() && longer[i] == x;
            assert(views[i] == x);
        }
    }
    assert(longer.to_set() =~= views.to_set().insert(key@));
}

proof fn lemma_id_push(ids: Seq<RevocationId>, id: RevocationId)
    ensures
        id_set(ids.push(id)) == id_set(ids).insert(id@),
{
    let views = ids.map_values(|id: RevocationId| id@);
    let longer = ids.push(id).map_values(|id: RevocationId| id@);
    assert(longer =~= views.push(id@));
    assert forall|x: Seq<u8>| longer.to_set().contains(x) <==> views.to_set().insert(
        id@,
    ).contains(x) by {
        if views.contains(x) {
            let i = choose|i: int| 0 <= i < views.len() && views[i] == x;
            assert(longer[i] == x);
        }
        if x == id@ {
            assert(longer[views.len() as int] == x);
        }
        if longer.contains(x) && x != id@ {
            let i = choose|i: int| 0 <= i < longer.len() && longer[i] == x;
            assert(views[i] == x);
        }
    }
    assert(longer.to_set() =~= views.to_set().insert(id@));
}

proof fn lemma_empty_sets()
    ensures
        key_set(Seq::<VerifyKey>::empty()) == Set::<Seq<u8>>::empty(),
        id_set(Seq::<RevocationId>::empty()) == Set::<Seq<u8>>::empty(),
{
    assert(key_set(Seq::<VerifyKey>::empty()) =~= Set::empty());
    assert(id_set(Seq::<RevocationId>::empty()) =~= Set::empty());
}

/// Whether no id occurs twice in a list.
spec fn distinct_ids(ids: Seq<RevocationId>) -> bool {
    ids.map_values(|id: RevocationId| id@).no_duplicates()
}

proof fn lemma_distinct_push(ids: Seq<RevocationId>, id: RevocationId)
    requires
        distinct_ids(ids),
        !id_set(ids).contains(id@),
    ensures
        distinct_ids(ids.push(id)),
{
    let views = ids.map_values(|id: RevocationId| id@);
    let longer = ids.push(id).map_values(|id: RevocationId| id@);
    assert(longer =~= views.push(id@));
    assert forall|i: int, j: int| 0 <= i < j < longer.len() implies longer[i] != longer[j] by {
        if j == views.len() && longer[i] == id@ {
            assert(views[i] == id@);
            assert(views.contains(id@));
        }
    }
}

/// The size of a list of distinct ids is the size of its set.
proof fn lemma_distinct_len(ids: Seq<RevocationId>)
    requires
        distinct_ids(ids),
    ensures
        id_set(ids).finite(),
        id_set(ids).len() == ids.len(),
{
    let views = ids.map_values(|id: RevocationId| id@);
    views.unique_seq_to_set();
}

/// Gather the ids of `caps` that are not in `kept`, each once.
fn fresh_ids(kept: &Vec<RevocationId>, caps: &Vec<Cap>) -> (fresh: Vec<RevocationId>)
    requires
        distinct_ids(kept@),
    ensures
        distinct_ids(kept@ + fresh@),
        id_set(kept@ + fresh@) == id_set(kept@).union(ids_of(caps@)),
{
    let mut fresh: Vec<RevocationId> = Vec::new();
    let mut i: usize = 0;
    proof {
        assert(kept@ + fresh@ =~= kept@);
        assert(caps@.take(0) =~= Seq::empty());
        assert(id_set(kept@).union(ids_of(caps@.take(0))) =~= id_set(kept@));
    }
    while i < caps.len()
        invariant
            i <= caps.len(),
            distinct_ids(kept@ + fresh@),
            id_set(kept@ + fresh@) == id_set(kept@).union(ids_of(caps@.take(i as int))),
        decreases caps.len() - i,
    {
        let ids = &caps[i].ids;
        let ghost start = id_set(kept@ + fresh@);
        let mut j: usize = 0;
        proof {
            assert(ids@.take(0) =~= Seq::empty());
            lemma_empty_sets();
            assert(start.union(id_set(ids@.take(0))) =~= start);
        }
        while j < ids.len()
            invariant
                j <= ids.len(),
                distinct_ids(kept@ + fresh@),
                id_set(kept@ + fresh@) == start.union(id_set(ids@.take(j as int))),
            decreases ids.len() - j,
        {
            let id = &ids[j];
            proof {
                assert(ids@.take(j + 1) =~= ids@.take(j as int).push(*id));
                lemma_id_push(ids@.take(j as int), *id);
                lemma_split_set(kept@, fresh@);
            }
            if !holds_id(kept, id) && !holds_id(&fresh, id) {
                let copy = id.copied();
                proof {
                    lemma_distinct_push(kept@ + fresh@, copy);
                    lemma_id_push(kept@ + fresh@, copy);
                    assert((kept@ + fresh@).push(copy) =~= kept@ + fresh@.push(copy));
                    assert(start.union(id_set(ids@.take(j as int))).insert(id@) =~= start.union(
                        id_set(ids@.take(j as int)).insert(id@),
                    ));
                }
                fresh.push(copy);
            } else {
                proof {
                    assert(start.union(id_set(ids@.take(j as int))).contains(id@));
                    assert(start.union(id_set(ids@.take(j as int))) =~= start.union(
                        id_set(ids@.take(j as int)).insert(id@),
                    ));
                }
            }
            j = j + 1;
        }
        proof {
            assert(ids@.take(j as int) =~= ids@);
            let done = caps@.take(i as int);
            assert(caps@.take(i + 1) =~= done.push(caps@[i as int]));
            assert(caps@.take(i + 1).drop_last() =~= done);
            assert(id_set(kept@).union(ids_of(done)).union(id_set(ids@)) =~= id_set(kept@).union(
                ids_of(done).union(id_set(ids@)),
            ));
        }
        i = i + 1;
    }
    assert(caps@.take(i as int) =~= caps@);
    fresh
}

proof fn lemma_split_set(a: Seq<RevocationId>, b: Seq<RevocationId>)
    ensures
        id_set(a + b) == id_set(a).union(id_set(b)),
{
    let va = a.map_values(|id: RevocationId| id@);
    let vb = b.map_values(|id: RevocationId| id@);
    let vab = (a + b).map_values(|id: RevocationId| id@);
    assert(vab =~= va + vb);
    assert forall|x: Seq<u8>| vab.to_set().contains(x) <==> va.to_set().union(
        vb.to_set(),
    ).contains(x) by {
        if vab.contains(x) {
            let i = choose|i: int| 0 <= i < vab.len() && vab[i] == x;
            if i < va.len() {
                assert(va[i] == x);
            } else {
                assert(vb[i - va.len()] == x);
            }
        }
        if va.contains(x) {
            let i = choose|i: int| 0 <= i < va.len() && va[i] == x;
            assert(vab[i] == x);
        }
        if vb.contains(x) {
            let i = choose|i: int| 0 <= i < vb.len() && vb[i] == x;
            assert(vab[i + va.len()] == x);
        }
    }
    assert(vab.to_set() =~= va.to_set().union(vb.to_set()));
}

/// Whether no key occurs twice in a list.
spec fn distinct_keys(keys: Seq<VerifyKey>) -> bool {
    keys.map_values(|key: VerifyKey| key@).no_duplicates()
}

proof fn lemma_distinct_key_push(keys: Seq<VerifyKey>, key: VerifyKey)
    requires
        distinct_keys(keys),
        !key_set(keys).contains(key@),
    ensures
        distinct_keys(keys.push(key)),
{
    let views = keys.map_values(|key: VerifyKey| key@);
    let longer = keys.push(key).map_values(|key: VerifyKey| key@);
    assert(longer =~= views.push(key@));
    assert forall|i: int, j: int| 0 <= i < j < longer.len() implies longer[i] != longer[j] by {
        if j == views.len() && longer[i] == key@ {
            assert(views[i] == key@);
            assert(views.contains(key@));
        }
    }
}

/// The size of a list of distinct keys is the size of its set.
proof fn lemma_distinct_keys_len(keys: Seq<VerifyKey>)
    requires
        distinct_keys(keys),
    ensures
        key_set(keys).finite(),
        key_set(keys).len() == keys.len(),
{
    let views = keys.map_values(|key: VerifyKey| key@);
    views.unique_seq_to_set();
}

/// Add a key to a list, unless it is there: a list that holds each key once goes on doing so.
fn add_key(keys: &mut Vec<VerifyKey>, key: VerifyKey)
    requires
        distinct_keys(old(keys)@),
    ensures
        key_set(final(keys)@) == key_set(old(keys)@).insert(key@),
        distinct_keys(final(keys)@),
{
    if !holds_key(keys, &key) {
        proof {
            lemma_key_push(keys@, key);
            lemma_distinct_key_push(keys@, key);
        }
        keys.push(key);
    } else {
        assert(key_set(keys@).insert(key@) =~= key_set(keys@));
    }
}

impl AdmittedChains {
    #[verifier::type_invariant]
    spec fn bounded(self) -> bool {
        &&& distinct_keys(self.roots@)
        &&& distinct_ids(self.ids@)
        &&& self.ids@.len() <= MAX_SESSION_CHAIN_IDS
        &&& distinct_keys(self.anchors@)
    }

    /// The record of a session no stream was admitted on.
    pub fn new() -> (chains: AdmittedChains)
        ensures
            chains@ == no_chains(),
    {
        proof {
            lemma_empty_sets();
        }
        AdmittedChains {
            roots: Vec::new(),
            ids: Vec::new(),
            anchors: Vec::new(),
            peer: None,
            lease: Lease::Unruled,
        }
    }

    /// The authority keys the admitted capabilities are rooted at, each once.
    pub fn roots(&self) -> (roots: &Vec<VerifyKey>)
        ensures
            key_set(roots@) == self@.roots,
            roots.len() == self@.roots.len(),
    {
        proof {
            use_type_invariant(self);
            lemma_distinct_keys_len(self.roots@);
        }
        &self.roots
    }

    /// The revocation ids of every block of every admitted capability, each once.
    pub fn ids(&self) -> (ids: &Vec<RevocationId>)
        ensures
            id_set(ids@) == self@.ids,
            ids.len() == self@.ids.len(),
            ids.len() <= MAX_SESSION_CHAIN_IDS,
    {
        proof {
            use_type_invariant(self);
            lemma_distinct_len(self.ids@);
        }
        &self.ids
    }

    /// The root of each admitted stream's first capability: the one the node's gate verified at its
    /// own authority. A badge presented second is never an anchor. Each key stands here once.
    pub fn anchors(&self) -> (anchors: &Vec<VerifyKey>)
        ensures
            key_set(anchors@) == self@.anchors,
            anchors.len() == self@.anchors.len(),
    {
        proof {
            use_type_invariant(self);
            lemma_distinct_keys_len(self.anchors@);
        }
        &self.anchors
    }

    /// The key the session's peer proved, once any of its streams was admitted on more than an open
    /// policy.
    pub fn peer(&self) -> (peer: Option<VerifyKey>)
        ensures
            peer == self@.peer,
    {
        self.peer
    }

    /// Whether any grant this session was admitted on has run out by `now`.
    pub fn lapsed(&self, now: i128) -> (lapsed: bool)
        ensures
            lapsed == self@.lease.over(now),
    {
        self.lease.lapsed(now)
    }

    /// How many revocation ids this session keeps.
    pub fn len(&self) -> (len: usize)
        ensures
            len == self@.ids.len(),
            len <= MAX_SESSION_CHAIN_IDS,
    {
        self.ids().len()
    }

    /// Keep what the cut will need of every capability one stream was admitted on, and of the peer
    /// it was bound to, or keep nothing and refuse the stream. `ruled` lists the capability the
    /// node's gate verified at its own authority first.
    pub fn record_all(&mut self, peer: VerifyKey, ruled: &Vec<Cap>) -> (kept: Result<
        (),
        Unrecorded,
    >)
        ensures
            match kept {
                Ok(()) => {
                    &&& old(self)@.ids.union(ids_of(ruled@)).len() <= MAX_SESSION_CHAIN_IDS
                    &&& exists|until: Option<i128>|
                        {
                            &&& #[trigger] is_earliest(expiries(ruled@), until)
                            &&& final(self)@ == recorded(old(self)@, peer, ruled@, until)
                        }
                },
                Err(Unrecorded::UnreadableExpiry) => {
                    &&& expiries(ruled@).contains(Expiry::Unreadable)
                    &&& final(self)@ == old(self)@
                },
                Err(Unrecorded::Full) => {
                    &&& !expiries(ruled@).contains(Expiry::Unreadable)
                    &&& old(self)@.ids.union(ids_of(ruled@)).len() > MAX_SESSION_CHAIN_IDS
                    &&& final(self)@ == old(self)@
                },
            },
    {
        proof {
            use_type_invariant(&*self);
        }
        let until: Option<i128> = match Lease::of_stream(ruled) {
            Ok(until) => until,
            Err(_) => {
                return Err(Unrecorded::UnreadableExpiry);
            },
        };
        let mut fresh: Vec<RevocationId> = fresh_ids(&self.ids, ruled);
        proof {
            lemma_distinct_len(self.ids@ + fresh@);
            if expiries(ruled@).contains(Expiry::Unreadable) {
                let i = choose|i: int|
                    0 <= i < expiries(ruled@).len() && expiries(ruled@)[i] == Expiry::Unreadable;
                assert(expiries(ruled@)[i] !is Unreadable);
            }
        }
        if fresh.len() > MAX_SESSION_CHAIN_IDS - self.ids.len() {
            return Err(Unrecorded::Full);
        }
        let mut before = AdmittedChains::new();
        core::mem::swap(self, &mut before);
        let AdmittedChains {
            roots: mut roots,
            ids: mut ids,
            anchors: mut anchors,
            peer: mut bound,
            lease: mut lease,
        } = before;
        let ghost old_roots = key_set(roots@);
        ids.append(&mut fresh);
        let mut i: usize = 0;
        let ghost ruled_roots = ruled@.map_values(|cap: Cap| cap.root);
        proof {
            assert(ruled_roots.take(0) =~= Seq::empty());
            lemma_empty_sets();
            assert(old_roots.union(key_set(ruled_roots.take(0))) =~= old_roots);
        }
        while i < ruled.len()
            invariant
                i <= ruled.len(),
                ruled_roots == ruled@.map_values(|cap: Cap| cap.root),
                distinct_keys(roots@),
                key_set(roots@) == old_roots.union(key_set(ruled_roots.take(i as int))),
            decreases ruled.len() - i,
        {
            proof {
                assert(ruled_roots.take(i + 1) =~= ruled_roots.take(i as int).push(
                    ruled@[i as int].root,
                ));
                lemma_key_push(ruled_roots.take(i as int), ruled@[i as int].root);
                assert(old_roots.union(key_set(ruled_roots.take(i as int))).insert(
                    ruled@[i as int].root@,
                ) =~= old_roots.union(
                    key_set(ruled_roots.take(i as int)).insert(ruled@[i as int].root@),
                ));
            }
            add_key(&mut roots, ruled[i].root);
            i = i + 1;
        }
        assert(ruled_roots.take(i as int) =~= ruled_roots);
        if ruled.len() > 0 {
            add_key(&mut anchors, ruled[0].root);
            bound = Some(peer);
            lease = lease.extend(until);
        } else {
            proof {
                assert(ruled@ =~= Seq::empty());
                assert(old(self)@.ids.union(ids_of(ruled@)) =~= old(self)@.ids);
                assert(old_roots.union(roots_of(ruled@)) =~= old_roots);
            }
        }
        *self = AdmittedChains { roots, ids, anchors, peer: bound, lease };
        proof {
            assert(is_earliest(expiries(ruled@), until));
            assert(self@ == recorded(old(self)@, peer, ruled@, until));
        }
        Ok(())
    }

    /// Keep the key a proven-only stream was witnessed for, and nothing else: no token was ruled
    /// on.
    pub fn record_proven(&mut self, key: VerifyKey)
        ensures
            final(self)@ == (Chains { peer: Some(key), ..old(self)@ }),
    {
        let mut before = AdmittedChains::new();
        core::mem::swap(self, &mut before);
        proof {
            use_type_invariant(&before);
        }
        *self = AdmittedChains {
            roots: before.roots,
            ids: before.ids,
            anchors: before.anchors,
            peer: Some(key),
            lease: before.lease,
        };
    }
}

/// The ids of a list of capabilities are those of each of them.
pub proof fn lemma_ids_of(caps: Seq<Cap>, id: Seq<u8>)
    ensures
        ids_of(caps).contains(id) <==> exists|i: int, j: int|
            0 <= i < caps.len() && 0 <= j < caps[i].ids@.len() && #[trigger] caps[i].ids@[j]@ == id,
    decreases caps.len(),
{
    if caps.len() > 0 {
        let fewer = caps.drop_last();
        let last = caps.last();
        let views = last.ids@.map_values(|id: RevocationId| id@);
        lemma_ids_of(fewer, id);
        if ids_of(fewer).contains(id) {
            let (i, j) = choose|i: int, j: int|
                0 <= i < fewer.len() && 0 <= j < fewer[i].ids@.len()
                    && #[trigger] fewer[i].ids@[j]@ == id;
            assert(caps[i].ids@[j]@ == id);
        }
        if views.contains(id) {
            let j = choose|j: int| 0 <= j < views.len() && views[j] == id;
            assert(caps[caps.len() - 1].ids@[j]@ == id);
        }
        if exists|i: int, j: int|
            0 <= i < caps.len() && 0 <= j < caps[i].ids@.len() && #[trigger] caps[i].ids@[j]@ == id {
            let (i, j) = choose|i: int, j: int|
                0 <= i < caps.len() && 0 <= j < caps[i].ids@.len() && #[trigger] caps[i].ids@[j]@
                    == id;
            if i < fewer.len() {
                assert(fewer[i].ids@[j]@ == id);
            } else {
                assert(views[j] == id);
            }
        }
    }
}

/// The roots of a list of capabilities are those of each of them.
pub proof fn lemma_roots_of(caps: Seq<Cap>, root: Seq<u8>)
    ensures
        roots_of(caps).contains(root) <==> exists|i: int|
            0 <= i < caps.len() && (#[trigger] caps[i]).root@ == root,
{
    let keys = caps.map_values(|cap: Cap| cap.root);
    let views = keys.map_values(|key: VerifyKey| key@);
    if views.contains(root) {
        let i = choose|i: int| 0 <= i < views.len() && views[i] == root;
        assert(caps[i].root@ == root);
    }
    if exists|i: int| 0 <= i < caps.len() && (#[trigger] caps[i]).root@ == root {
        let i = choose|i: int| 0 <= i < caps.len() && (#[trigger] caps[i]).root@ == root;
        assert(views[i] == root);
    }
}

/// The earliest expiry has passed exactly where some expiry has.
pub proof fn lemma_earliest_passed(caps: Seq<Cap>, until: Option<i128>, now: i128)
    requires
        is_earliest(expiries(caps), until),
    ensures
        (until matches Some(instant) && now > instant) <==> exists|i: int|
            0 <= i < caps.len() && ((#[trigger] caps[i]).expiry matches Expiry::At(instant) && now
                > instant),
{
    let reads = expiries(caps);
    if let Some(instant) = until {
        if now > instant {
            let i = choose|i: int| 0 <= i < reads.len() && reads[i] == Expiry::At(instant);
            assert(caps[i].expiry == Expiry::At(instant));
        }
    }
    if exists|i: int|
        0 <= i < caps.len() && ((#[trigger] caps[i]).expiry matches Expiry::At(instant) && now
            > instant) {
        let i = choose|i: int|
            0 <= i < caps.len() && ((#[trigger] caps[i]).expiry matches Expiry::At(instant) && now
                > instant);
        assert(reads[i] == caps[i].expiry);
    }
}

/// A session ends at the first expiry of any grant it was ever admitted on: once a stream is
/// recorded, its session has run out exactly where it had before, or where one of the capabilities
/// of this stream has expired. So no grant, not even one that never expires, carries a session past
/// another's expiry. A capability is good through the instant it expires at.
pub proof fn a_recorded_session_ends_with_its_first_grant(
    chains: &mut AdmittedChains,
    peer: VerifyKey,
    ruled: &Vec<Cap>,
    kept: Result<(), Unrecorded>,
    now: i128,
    before: AdmittedChains,
    lapsed_before: bool,
    after: AdmittedChains,
    lapsed_after: bool,
)
    requires
        call_ensures(AdmittedChains::record_all, (chains, peer, ruled), kept),
        kept is Ok,
        before == *old(chains),
        after == *final(chains),
        call_ensures(AdmittedChains::lapsed, (&before, now), lapsed_before),
        call_ensures(AdmittedChains::lapsed, (&after, now), lapsed_after),
    ensures
        lapsed_after <==> lapsed_before || exists|i: int|
            0 <= i < ruled@.len() && ((#[trigger] ruled@[i]).expiry matches Expiry::At(instant)
                && now > instant),
{
    let until = choose|until: Option<i128>|
        {
            &&& #[trigger] is_earliest(expiries(ruled@), until)
            &&& final(chains)@ == recorded(old(chains)@, peer, ruled@, until)
        };
    lemma_earliest_passed(ruled@, until, now);
}

/// A record holds what its streams were admitted on, and nothing else: the ids of every block of
/// every capability, the root of each, the root of the first as an anchor, and the peer. A stream
/// nothing was ruled on adds nothing.
pub proof fn a_record_holds_what_was_ruled_on(
    chains: &mut AdmittedChains,
    peer: VerifyKey,
    ruled: &Vec<Cap>,
    kept: Result<(), Unrecorded>,
    x: Seq<u8>,
)
    requires
        call_ensures(AdmittedChains::record_all, (chains, peer, ruled), kept),
        kept is Ok,
    ensures
        final(chains)@.ids.contains(x) <==> old(chains)@.ids.contains(x) || exists|i: int, j: int|
            0 <= i < ruled@.len() && 0 <= j < ruled@[i].ids@.len()
                && #[trigger] ruled@[i].ids@[j]@ == x,
        final(chains)@.roots.contains(x) <==> old(chains)@.roots.contains(x) || exists|i: int|
            0 <= i < ruled@.len() && (#[trigger] ruled@[i]).root@ == x,
        final(chains)@.anchors.contains(x) <==> old(chains)@.anchors.contains(x) || (ruled@.len()
            > 0 && ruled@[0].root@ == x),
        ruled@.len() > 0 ==> final(chains)@.peer == Some(peer),
        ruled@.len() == 0 ==> final(chains)@ == old(chains)@,
{
    lemma_ids_of(ruled@, x);
    lemma_roots_of(ruled@, x);
}

/// A stream is kept whole or not at all. It is refused for an expiry nobody can read, or for ids
/// beyond what a session may keep, and for nothing else; refused, it leaves no trace.
pub proof fn a_stream_is_kept_whole_or_not_at_all(
    chains: &mut AdmittedChains,
    peer: VerifyKey,
    ruled: &Vec<Cap>,
    kept: Result<(), Unrecorded>,
)
    requires
        call_ensures(AdmittedChains::record_all, (chains, peer, ruled), kept),
    ensures
        kept == Err::<(), _>(Unrecorded::UnreadableExpiry) <==> exists|i: int|
            0 <= i < ruled@.len() && (#[trigger] ruled@[i]).expiry == Expiry::Unreadable,
        kept is Ok ==> final(chains)@.ids.len() <= 1024 || ruled@.len() == 0,
        kept is Err ==> final(chains)@ == old(chains)@,
        kept == Err::<(), _>(Unrecorded::Full) <==> old(chains)@.ids.union(ids_of(ruled@)).len()
            > 1024 && forall|i: int|
            0 <= i < ruled@.len() ==> (#[trigger] ruled@[i]).expiry != Expiry::Unreadable,
{
    let reads = expiries(ruled@);
    if reads.contains(Expiry::Unreadable) {
        let i = choose|i: int| 0 <= i < reads.len() && reads[i] == Expiry::Unreadable;
        assert(ruled@[i].expiry == Expiry::Unreadable);
    }
    if exists|i: int|
        0 <= i < ruled@.len() && (#[trigger] ruled@[i]).expiry == Expiry::Unreadable {
        let i = choose|i: int|
            0 <= i < ruled@.len() && (#[trigger] ruled@[i]).expiry == Expiry::Unreadable;
        assert(reads[i] == Expiry::Unreadable);
        assert(reads.contains(Expiry::Unreadable));
    }
    if kept is Ok && ruled@.len() > 0 {
        assert(final(chains)@.ids =~= old(chains)@.ids.union(ids_of(ruled@)));
    }
}

/// A session no stream was admitted on has nothing to recall and never runs out.
pub proof fn a_fresh_record_holds_nothing(chains: AdmittedChains, now: i128, lapsed: bool, x: Seq<u8>)
    requires
        call_ensures(AdmittedChains::new, (), chains),
        call_ensures(AdmittedChains::lapsed, (&chains, now), lapsed),
    ensures
        !lapsed,
        !chains@.ids.contains(x) && !chains@.roots.contains(x) && !chains@.anchors.contains(x),
        chains@.peer is None,
{
}

/// A proven-only stream keeps the key it was witnessed for, and changes nothing else of the record.
pub proof fn a_proven_stream_keeps_its_key_alone(
    chains: &mut AdmittedChains,
    key: VerifyKey,
    out: (),
)
    requires
        call_ensures(AdmittedChains::record_proven, (chains, key), out),
    ensures
        final(chains)@.peer == Some(key),
        final(chains)@.ids == old(chains)@.ids,
        final(chains)@.roots == old(chains)@.roots,
        final(chains)@.anchors == old(chains)@.anchors,
        final(chains)@.lease == old(chains)@.lease,
{
}

/// What a record lists is what it holds: each id, root and anchor once, and no other.
pub proof fn a_record_lists_what_it_holds(
    chains: &AdmittedChains,
    roots: &Vec<VerifyKey>,
    ids: &Vec<RevocationId>,
    anchors: &Vec<VerifyKey>,
    x: Seq<u8>,
)
    requires
        call_ensures(AdmittedChains::roots, (chains,), roots),
        call_ensures(AdmittedChains::ids, (chains,), ids),
        call_ensures(AdmittedChains::anchors, (chains,), anchors),
    ensures
        chains@.roots.contains(x) <==> exists|i: int|
            0 <= i < roots@.len() && (#[trigger] roots@[i])@ == x,
        chains@.ids.contains(x) <==> exists|i: int|
            0 <= i < ids@.len() && (#[trigger] ids@[i])@ == x,
        chains@.anchors.contains(x) <==> exists|i: int|
            0 <= i < anchors@.len() && (#[trigger] anchors@[i])@ == x,
        roots@.len() == chains@.roots.len(),
        ids@.len() == chains@.ids.len(),
        anchors@.len() == chains@.anchors.len(),
{
    lemma_key_listed(roots@, x);
    lemma_key_listed(anchors@, x);
    let views = ids@.map_values(|id: RevocationId| id@);
    if views.contains(x) {
        let i = choose|i: int| 0 <= i < views.len() && views[i] == x;
        assert(ids@[i]@ == x);
    }
    if exists|i: int| 0 <= i < ids@.len() && (#[trigger] ids@[i])@ == x {
        let i = choose|i: int| 0 <= i < ids@.len() && (#[trigger] ids@[i])@ == x;
        assert(views[i] == x);
    }
}

proof fn lemma_key_listed(keys: Seq<VerifyKey>, x: Seq<u8>)
    ensures
        key_set(keys).contains(x) <==> exists|i: int|
            0 <= i < keys.len() && (#[trigger] keys[i])@ == x,
{
    let views = keys.map_values(|key: VerifyKey| key@);
    if views.contains(x) {
        let i = choose|i: int| 0 <= i < views.len() && views[i] == x;
        assert(keys[i]@ == x);
    }
    if exists|i: int| 0 <= i < keys.len() && (#[trigger] keys[i])@ == x {
        let i = choose|i: int| 0 <= i < keys.len() && (#[trigger] keys[i])@ == x;
        assert(views[i] == x);
    }
}

/// A lease runs out strictly after the instant it names, and one that names none never does.
pub proof fn a_lease_is_good_through_its_instant(
    until: i128,
    now: i128,
    bounded: bool,
    unbounded: bool,
    unruled: bool,
)
    requires
        call_ensures(Lease::lapsed, (Lease::Until(until), now), bounded),
        call_ensures(Lease::lapsed, (Lease::Unbounded, now), unbounded),
        call_ensures(Lease::lapsed, (Lease::Unruled, now), unruled),
    ensures
        bounded == (now > until),
        !unbounded && !unruled,
{
}

/// One more grant can only shorten a lease: it has run out where it had before, or where the new
/// grant has.
pub proof fn one_more_grant_only_shortens(
    lease: Lease,
    stream: Option<i128>,
    extended: Lease,
    now: i128,
    before: bool,
    after: bool,
)
    requires
        call_ensures(Lease::extend, (lease, stream), extended),
        call_ensures(Lease::lapsed, (lease, now), before),
        call_ensures(Lease::lapsed, (extended, now), after),
    ensures
        after <==> before || (stream matches Some(until) && now > until),
        extended !is Unruled,
{
}

/// The expiry of a stream is the smallest of those it was ruled on. One that cannot be read stands
/// for no expiry at all, early or late: it is an error.
pub proof fn a_streams_expiry_is_its_smallest(
    reads: &Vec<Expiry>,
    until: Result<Option<i128>, UnreadableExpiry>,
)
    requires
        call_ensures(Lease::earliest, (reads,), until),
    ensures
        until is Err <==> exists|i: int|
            0 <= i < reads@.len() && #[trigger] reads@[i] == Expiry::Unreadable,
        until matches Ok(None) ==> forall|i: int|
            0 <= i < reads@.len() ==> #[trigger] reads@[i] == Expiry::Never,
        until matches Ok(Some(instant)) ==> {
            &&& exists|i: int| 0 <= i < reads@.len() && #[trigger] reads@[i] == Expiry::At(instant)
            &&& forall|i: int|
                0 <= i < reads@.len() ==> (#[trigger] reads@[i] matches Expiry::At(other)
                    ==> instant <= other)
        },
{
    if until is Err {
        let i = choose|i: int| 0 <= i < reads@.len() && reads@[i] == Expiry::Unreadable;
        assert(reads@[i] == Expiry::Unreadable);
    }
    if let Ok(Some(instant)) = until {
        let i = choose|i: int| 0 <= i < reads@.len() && reads@[i] == Expiry::At(instant);
        assert(reads@[i] == Expiry::At(instant));
    }
}

} // verus!
