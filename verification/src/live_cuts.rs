//! The rule a live session is re-checked against on every sweep, and why it ends.

use std::sync::Arc;

use vstd::prelude::*;

use crate::cut::{
    a_record_holds_what_was_ruled_on, id_set, key_set, AdmittedChains, Cap, Unrecorded,
};
use crate::witness::{RevocationId, VerifyKey};

verus! {

/// Whether the chains a session was admitted on are still good.
///
/// It answers about one session's record at a time: it never sees a session or a count, so no
/// oracle can grow into an inventory of who is connected. A wrapper that holds an oracle must
/// forward all three questions: a question it does not write answers the default, not the inner
/// oracle.
pub trait LiveCuts: Send + Sync {
    /// Whether a session admitted on `chains` must end now.
    fn cuts(&self, chains: &AdmittedChains) -> (ends: bool)
    ;

    /// Whether a session anchored at `anchor` may keep running. An oracle behind a gate whose root
    /// never changes keeps the default, which trusts every anchor.
    fn trusts(&self, anchor: &VerifyKey) -> (trusted: bool)
        default_ensures
            trusted,
    {
        true
    }

    /// Whether the key a session's peer proved is revoked. An oracle over a store that keeps no
    /// keys keeps the default, which revokes none.
    fn revoked_peer(&self, peer: &VerifyKey) -> (revoked: bool)
        default_ensures
            !revoked,
    {
        false
    }
}

/// Whether two lists of ids have one in common.
fn ids_meet(a: &Vec<RevocationId>, b: &Vec<RevocationId>) -> (meet: bool)
    ensures
        meet == !id_set(a@).disjoint(id_set(b@)),
{
    let ghost va = a@.map_values(|id: RevocationId| id@);
    let ghost vb = b@.map_values(|id: RevocationId| id@);
    let mut i: usize = 0;
    while i < a.len()
        invariant
            i <= a.len(),
            va == a@.map_values(|id: RevocationId| id@),
            vb == b@.map_values(|id: RevocationId| id@),
            forall|x: int, y: int| 0 <= x < i && 0 <= y < vb.len() ==> va[x] != vb[y],
        decreases a.len() - i,
    {
        let mut j: usize = 0;
        while j < b.len()
            invariant
                i < a.len(),
                j <= b.len(),
                va == a@.map_values(|id: RevocationId| id@),
                vb == b@.map_values(|id: RevocationId| id@),
                forall|x: int, y: int| 0 <= x < i && 0 <= y < vb.len() ==> va[x] != vb[y],
                forall|y: int| 0 <= y < j ==> va[i as int] != vb[y],
            decreases b.len() - j,
        {
            assert(va[i as int] == a@[i as int]@);
            assert(vb[j as int] == b@[j as int]@);
            if a[i].same(&b[j]) {
                proof {
                    assert(id_set(a@).contains(va[i as int]));
                    assert(id_set(b@).contains(vb[j as int]));
                }
                return true;
            }
            j = j + 1;
        }
        i = i + 1;
    }
    assert forall|x: Seq<u8>| id_set(a@).contains(x) implies !id_set(b@).contains(x) by {
        if va.contains(x) && vb.contains(x) {
            let p = choose|p: int| 0 <= p < va.len() && va[p] == x;
            let q = choose|q: int| 0 <= q < vb.len() && vb[q] == x;
            assert(va[p] != vb[q]);
        }
    }
    false
}

/// Whether two lists of keys have one in common.
fn keys_meet(a: &Vec<VerifyKey>, b: &Vec<VerifyKey>) -> (meet: bool)
    ensures
        meet == !key_set(a@).disjoint(key_set(b@)),
{
    let ghost va = a@.map_values(|key: VerifyKey| key@);
    let ghost vb = b@.map_values(|key: VerifyKey| key@);
    let mut i: usize = 0;
    while i < a.len()
        invariant
            i <= a.len(),
            va == a@.map_values(|key: VerifyKey| key@),
            vb == b@.map_values(|key: VerifyKey| key@),
            forall|x: int, y: int| 0 <= x < i && 0 <= y < vb.len() ==> va[x] != vb[y],
        decreases a.len() - i,
    {
        let mut j: usize = 0;
        while j < b.len()
            invariant
                i < a.len(),
                j <= b.len(),
                va == a@.map_values(|key: VerifyKey| key@),
                vb == b@.map_values(|key: VerifyKey| key@),
                forall|x: int, y: int| 0 <= x < i && 0 <= y < vb.len() ==> va[x] != vb[y],
                forall|y: int| 0 <= y < j ==> va[i as int] != vb[y],
            decreases b.len() - j,
        {
            assert(va[i as int] == a@[i as int]@);
            assert(vb[j as int] == b@[j as int]@);
            if a[i].same(&b[j]) {
                proof {
                    assert(key_set(a@).contains(va[i as int]));
                    assert(key_set(b@).contains(vb[j as int]));
                }
                return true;
            }
            j = j + 1;
        }
        i = i + 1;
    }
    assert forall|x: Seq<u8>| key_set(a@).contains(x) implies !key_set(b@).contains(x) by {
        if va.contains(x) && vb.contains(x) {
            let p = choose|p: int| 0 <= p < va.len() && va[p] == x;
            let q = choose|q: int| 0 <= q < vb.len() && vb[q] == x;
            assert(va[p] != vb[q]);
        }
    }
    false
}

/// A list of revoked grants, as last read from its store: a session ends when it kept a listed id.
#[derive(Debug)]
pub struct Denylist {
    /// The revoked ids.
    pub revoked: Vec<RevocationId>,
}

impl LiveCuts for Denylist {
    fn cuts(&self, chains: &AdmittedChains) -> (ends: bool)
        ensures
            ends == !chains@.ids.disjoint(id_set(self.revoked@)),
    {
        ids_meet(chains.ids(), &self.revoked)
    }
}

/// A latch over an inner oracle: it also ends every session rooted at a disabled key. The disabled
/// roots are asked first, then the inner oracle.
#[derive(Debug)]
pub struct Latch<R> {
    /// The disabled root keys, as last read from their store.
    pub disabled: Vec<VerifyKey>,
    /// The oracle it latches.
    pub inner: R,
}

impl<R: LiveCuts> LiveCuts for Latch<R> {
    fn cuts(&self, chains: &AdmittedChains) -> (ends: bool)
        ensures
            !chains@.roots.disjoint(key_set(self.disabled@)) ==> ends,
            chains@.roots.disjoint(key_set(self.disabled@)) ==> call_ensures(
                <R as LiveCuts>::cuts,
                (&self.inner, chains),
                ends,
            ),
    {
        keys_meet(chains.roots(), &self.disabled) || self.inner.cuts(chains)
    }

    fn trusts(&self, anchor: &VerifyKey) -> (trusted: bool)
        ensures
            call_ensures(<R as LiveCuts>::trusts, (&self.inner, anchor), trusted),
    {
        self.inner.trusts(anchor)
    }

    fn revoked_peer(&self, peer: &VerifyKey) -> (revoked: bool)
        ensures
            call_ensures(<R as LiveCuts>::revoked_peer, (&self.inner, peer), revoked),
    {
        self.inner.revoked_peer(peer)
    }
}

/// A shared oracle answers as the one it shares, which is how the node's gate and the cut read one
/// instance.
impl<C: LiveCuts + ?Sized> LiveCuts for Arc<C> {
    fn cuts(&self, chains: &AdmittedChains) -> (ends: bool)
        ensures
            call_ensures(<C as LiveCuts>::cuts, (&**self, chains), ends),
    {
        (**self).cuts(chains)
    }

    fn trusts(&self, anchor: &VerifyKey) -> (trusted: bool)
        ensures
            call_ensures(<C as LiveCuts>::trusts, (&**self, anchor), trusted),
    {
        (**self).trusts(anchor)
    }

    fn revoked_peer(&self, peer: &VerifyKey) -> (revoked: bool)
        ensures
            call_ensures(<C as LiveCuts>::revoked_peer, (&**self, peer), revoked),
    {
        (**self).revoked_peer(peer)
    }
}

/// Why the cut ended a session, for the node's own log.
#[derive(Debug, Clone, Copy, PartialEq, Eq, Structural)]
pub enum Cut {
    /// A capability it was admitted on is revoked, or the root one was issued under is disabled.
    Recalled,
    /// A root one of its streams was verified under is no longer trusted.
    Untrusted,
    /// The key its peer proved is revoked.
    PeerRevoked,
    /// A grant it was admitted on has expired.
    Expired,
}

impl Cut {
    /// The line a node logs.
    pub fn message(self) -> (line: &'static str)
        ensures
            line@ == match self {
                Cut::Recalled => {
                    "a capability it was admitted on is revoked or its root disabled"@
                },
                Cut::Untrusted => "a root it was admitted under is no longer trusted"@,
                Cut::PeerRevoked => "its peer's key is revoked"@,
                Cut::Expired => "a capability it was admitted on has expired"@,
            },
    {
        match self {
            Cut::Recalled => "a capability it was admitted on is revoked or its root disabled",
            Cut::Untrusted => "a root it was admitted under is no longer trusted",
            Cut::PeerRevoked => "its peer's key is revoked",
            Cut::Expired => "a capability it was admitted on has expired",
        }
    }
}

/// What a session's answers end it for, the first of the four reasons that holds.
pub open spec fn cut_for(recalled: bool, untrusted: bool, revoked: bool, expired: bool) -> Option<
    Cut,
> {
    if recalled {
        Some(Cut::Recalled)
    } else if untrusted {
        Some(Cut::Untrusted)
    } else if revoked {
        Some(Cut::PeerRevoked)
    } else if expired {
        Some(Cut::Expired)
    } else {
        None
    }
}

/// What a session's answers end it for.
pub fn verdict(recalled: bool, untrusted: bool, revoked: bool, expired: bool) -> (cut: Option<Cut>)
    ensures
        cut == cut_for(recalled, untrusted, revoked, expired),
{
    if recalled {
        Some(Cut::Recalled)
    } else if untrusted {
        Some(Cut::Untrusted)
    } else if revoked {
        Some(Cut::PeerRevoked)
    } else if expired {
        Some(Cut::Expired)
    } else {
        None
    }
}

/// Whether an oracle answered this of a record: what it said of the chains, of every anchor it was
/// asked about, and of the peer.
pub open spec fn answered<O: LiveCuts>(
    oracle: &O,
    chains: &AdmittedChains,
    recalled: bool,
    untrusted: bool,
    revoked: bool,
) -> bool {
    &&& call_ensures(<O as LiveCuts>::cuts, (oracle, chains), recalled)
    &&& untrusted ==> exists|anchor: VerifyKey|
        chains@.anchors.contains(anchor@) && #[trigger] call_ensures(
            <O as LiveCuts>::trusts,
            (oracle, &anchor),
            false,
        )
    &&& !recalled && !untrusted ==> forall|view: Seq<u8>| #[trigger]
        chains@.anchors.contains(view) ==> exists|anchor: VerifyKey|
            anchor@ == view && #[trigger] call_ensures(
                <O as LiveCuts>::trusts,
                (oracle, &anchor),
                true,
            )
    &&& revoked ==> chains@.peer is Some
    &&& !recalled && !untrusted && chains@.peer is Some ==> call_ensures(
        <O as LiveCuts>::revoked_peer,
        (oracle, &chains@.peer->0),
        revoked,
    )
}

/// Whether a session must end at `now`, and why. Expiry is checked here, beside the oracle, so
/// every oracle gets it and none can forget it; so is the walk over the session's anchors and its
/// peer.
pub fn cuts<O: LiveCuts>(oracle: &O, chains: &AdmittedChains, now: i128) -> (cut: Option<Cut>)
    ensures
        exists|recalled: bool, untrusted: bool, revoked: bool|
            {
                &&& #[trigger] answered(oracle, chains, recalled, untrusted, revoked)
                &&& cut == cut_for(recalled, untrusted, revoked, chains@.lease.over(now))
            },
        chains@.lease.over(now) ==> cut is Some,
{
    let expired: bool = chains.lapsed(now);
    let recalled: bool = oracle.cuts(chains);
    if recalled {
        assert(answered(oracle, chains, true, false, false));
        return verdict(true, false, false, expired);
    }
    let anchors: &Vec<VerifyKey> = chains.anchors();
    let ghost views = anchors@.map_values(|key: VerifyKey| key@);
    let mut i: usize = 0;
    while i < anchors.len()
        invariant
            i <= anchors.len(),
            views == anchors@.map_values(|key: VerifyKey| key@),
            key_set(anchors@) == chains@.anchors,
            call_ensures(<O as LiveCuts>::cuts, (oracle, chains), false),
            forall|j: int|
                #![trigger anchors@[j]]
                0 <= j < i ==> call_ensures(
                    <O as LiveCuts>::trusts,
                    (oracle, &anchors@[j]),
                    true,
                ),
            expired == chains@.lease.over(now),
        decreases anchors.len() - i,
    {
        if !oracle.trusts(&anchors[i]) {
            proof {
                assert(views[i as int] == anchors@[i as int]@);
                assert(views.contains(anchors@[i as int]@));
                assert(answered(oracle, chains, false, true, false));
            }
            return verdict(false, true, false, expired);
        }
        i = i + 1;
    }
    proof {
        assert forall|view: Seq<u8>| #[trigger] chains@.anchors.contains(view) implies exists|
            anchor: VerifyKey,
        |
            anchor@ == view && #[trigger] call_ensures(
                <O as LiveCuts>::trusts,
                (oracle, &anchor),
                true,
            ) by {
            let k = choose|k: int| 0 <= k < views.len() && views[k] == view;
            assert(anchors@[k]@ == view);
        }
    }
    let revoked: bool = match chains.peer() {
        Some(peer) => oracle.revoked_peer(&peer),
        None => false,
    };
    assert(answered(oracle, chains, false, false, revoked));
    verdict(false, false, revoked, expired)
}

/// A session ends where any one of four things holds, and runs on where none does. Nothing a session
/// was admitted on outweighs another: one recalled grant, one anchor no longer trusted, a revoked
/// peer or one expired grant is enough.
pub proof fn any_one_reason_ends_a_session(
    recalled: bool,
    untrusted: bool,
    revoked: bool,
    expired: bool,
    cut: Option<Cut>,
)
    requires
        call_ensures(verdict, (recalled, untrusted, revoked, expired), cut),
    ensures
        cut is Some <==> recalled || untrusted || revoked || expired,
        cut == Some(Cut::Recalled) ==> recalled,
        cut == Some(Cut::Untrusted) ==> untrusted && !recalled,
        cut == Some(Cut::PeerRevoked) ==> revoked && !recalled && !untrusted,
        cut == Some(Cut::Expired) ==> expired && !recalled && !untrusted && !revoked,
{
}

/// A session that runs on was vouched for in full: its oracle recalled nothing of it, trusts every
/// anchor it has, did not revoke its peer, and its lease has not run out.
pub proof fn a_session_runs_on_only_in_good_standing<O: LiveCuts>(
    oracle: &O,
    chains: &AdmittedChains,
    now: i128,
    cut: Option<Cut>,
    lapsed: bool,
)
    requires
        call_ensures(cuts::<O>, (oracle, chains, now), cut),
        call_ensures(AdmittedChains::lapsed, (chains, now), lapsed),
        cut is None,
    ensures
        !lapsed,
        call_ensures(<O as LiveCuts>::cuts, (oracle, chains), false),
        forall|view: Seq<u8>| #[trigger]
            chains@.anchors.contains(view) ==> exists|anchor: VerifyKey|
                anchor@ == view && #[trigger] call_ensures(
                    <O as LiveCuts>::trusts,
                    (oracle, &anchor),
                    true,
                ),
        chains@.peer matches Some(peer) ==> call_ensures(
            <O as LiveCuts>::revoked_peer,
            (oracle, &peer),
            false,
        ),
{
}

/// A session that is ended is ended for a reason its oracle gave, or because it ran out.
pub proof fn a_session_ends_only_for_a_reason<O: LiveCuts>(
    oracle: &O,
    chains: &AdmittedChains,
    now: i128,
    cut: Option<Cut>,
    lapsed: bool,
)
    requires
        call_ensures(cuts::<O>, (oracle, chains, now), cut),
        call_ensures(AdmittedChains::lapsed, (chains, now), lapsed),
    ensures
        lapsed ==> cut is Some,
        cut == Some(Cut::Expired) ==> lapsed,
        cut == Some(Cut::Recalled) ==> call_ensures(
            <O as LiveCuts>::cuts,
            (oracle, chains),
            true,
        ),
        cut == Some(Cut::Untrusted) ==> exists|anchor: VerifyKey|
            chains@.anchors.contains(anchor@) && #[trigger] call_ensures(
                <O as LiveCuts>::trusts,
                (oracle, &anchor),
                false,
            ),
        cut == Some(Cut::PeerRevoked) ==> (chains@.peer matches Some(peer) && call_ensures(
            <O as LiveCuts>::revoked_peer,
            (oracle, &peer),
            true,
        )),
{
}

/// Under a list of revoked grants a session ends exactly where it was admitted on a listed one, or
/// where a grant of it has expired, and the list is told of first.
pub proof fn a_denylist_ends_what_it_lists(
    list: &Denylist,
    chains: &AdmittedChains,
    now: i128,
    cut: Option<Cut>,
    lapsed: bool,
)
    requires
        call_ensures(cuts::<Denylist>, (list, chains, now), cut),
        call_ensures(AdmittedChains::lapsed, (chains, now), lapsed),
    ensures
        cut == Some(Cut::Recalled) <==> exists|i: int|
            0 <= i < list.revoked@.len() && chains@.ids.contains((#[trigger] list.revoked@[i])@),
        cut == Some(Cut::Expired) <==> lapsed && cut != Some(Cut::Recalled),
        cut is None <==> !lapsed && cut != Some(Cut::Recalled),
{
    lemma_ids_meet(list.revoked@, chains@.ids);
}

proof fn lemma_ids_meet(list: Seq<RevocationId>, held: Set<Seq<u8>>)
    ensures
        !held.disjoint(id_set(list)) <==> exists|i: int|
            0 <= i < list.len() && held.contains((#[trigger] list[i])@),
{
    let views = list.map_values(|id: RevocationId| id@);
    if !held.disjoint(id_set(list)) {
        let x = choose|x: Seq<u8>| held.contains(x) && id_set(list).contains(x);
        let i = choose|i: int| 0 <= i < views.len() && views[i] == x;
        assert(held.contains(list[i]@));
    }
    if exists|i: int| 0 <= i < list.len() && held.contains((#[trigger] list[i])@) {
        let i = choose|i: int| 0 <= i < list.len() && held.contains((#[trigger] list[i])@);
        assert(views[i] == list[i]@);
        assert(id_set(list).contains(list[i]@));
    }
}

/// A disabled root ends every session rooted at it, whatever the oracle behind the latch says. Where
/// no root of a session is disabled, the latch answers as that oracle does, question by question.
pub proof fn a_disabled_root_ends_its_sessions<R: LiveCuts>(
    latch: &Latch<R>,
    chains: &AdmittedChains,
    ends: bool,
    anchor: &VerifyKey,
    trusted: bool,
    revoked: bool,
)
    requires
        call_ensures(<Latch<R> as LiveCuts>::cuts, (latch, chains), ends),
        call_ensures(<Latch<R> as LiveCuts>::trusts, (latch, anchor), trusted),
        call_ensures(<Latch<R> as LiveCuts>::revoked_peer, (latch, anchor), revoked),
    ensures
        (exists|i: int|
            0 <= i < latch.disabled@.len() && chains@.roots.contains(
                (#[trigger] latch.disabled@[i])@,
            )) ==> ends,
        (forall|i: int|
            0 <= i < latch.disabled@.len() ==> !chains@.roots.contains(
                (#[trigger] latch.disabled@[i])@,
            )) ==> call_ensures(<R as LiveCuts>::cuts, (&latch.inner, chains), ends),
        call_ensures(<R as LiveCuts>::trusts, (&latch.inner, anchor), trusted),
        call_ensures(<R as LiveCuts>::revoked_peer, (&latch.inner, anchor), revoked),
{
    let list = latch.disabled@;
    let views = list.map_values(|key: VerifyKey| key@);
    if exists|i: int| 0 <= i < list.len() && chains@.roots.contains((#[trigger] list[i])@) {
        let i = choose|i: int| 0 <= i < list.len() && chains@.roots.contains((#[trigger] list[i])@);
        assert(views[i] == list[i]@);
        assert(key_set(list).contains(list[i]@));
    } else {
        assert forall|x: Seq<u8>| chains@.roots.contains(x) implies !key_set(list).contains(x) by {
            if views.contains(x) {
                let i = choose|i: int| 0 <= i < views.len() && views[i] == x;
                assert(chains@.roots.contains(list[i]@));
            }
        }
        assert(chains@.roots.disjoint(key_set(list)));
    }
}

/// What a session was admitted on ends it once it is recalled, however many streams were recorded
/// before: a stream's grant that a list revokes later is found in the record.
pub proof fn a_recorded_grant_can_be_recalled(
    chains: &mut AdmittedChains,
    peer: VerifyKey,
    ruled: &Vec<Cap>,
    kept: Result<(), Unrecorded>,
    after: AdmittedChains,
    list: &Denylist,
    now: i128,
    cut: Option<Cut>,
    i: int,
    j: int,
    k: int,
)
    requires
        call_ensures(AdmittedChains::record_all, (chains, peer, ruled), kept),
        kept is Ok,
        after == *final(chains),
        call_ensures(cuts::<Denylist>, (list, &after, now), cut),
        0 <= i < ruled@.len(),
        0 <= j < ruled@[i].ids@.len(),
        0 <= k < list.revoked@.len(),
        list.revoked@[k]@ == ruled@[i].ids@[j]@,
    ensures
        cut == Some(Cut::Recalled),
{
    a_record_holds_what_was_ruled_on(chains, peer, ruled, kept, ruled@[i].ids@[j]@);
    lemma_ids_meet(list.revoked@, after@.ids);
    assert(after@.ids.contains(list.revoked@[k]@));
}

/// A shared oracle answers every question as the one it shares.
pub proof fn a_shared_oracle_answers_as_its_own<C: LiveCuts>(
    shared: &Arc<C>,
    chains: &AdmittedChains,
    ends: bool,
    key: &VerifyKey,
    trusted: bool,
    revoked: bool,
)
    requires
        call_ensures(<Arc<C> as LiveCuts>::cuts, (shared, chains), ends),
        call_ensures(<Arc<C> as LiveCuts>::trusts, (shared, key), trusted),
        call_ensures(<Arc<C> as LiveCuts>::revoked_peer, (shared, key), revoked),
    ensures
        call_ensures(<C as LiveCuts>::cuts, (&**shared, chains), ends),
        call_ensures(<C as LiveCuts>::trusts, (&**shared, key), trusted),
        call_ensures(<C as LiveCuts>::revoked_peer, (&**shared, key), revoked),
{
}

} // verus!
