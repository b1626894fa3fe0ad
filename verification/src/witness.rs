//! What an admission ruling leaves behind: the keys it speaks of, the single-use witness a handler
//! is served with, and the refusal a caller is told instead.

use vstd::prelude::*;
use vstd::string::*;

verus! {

/// A public key that signs: the name of an authority, a member, or a peer.
#[derive(Debug, Clone, Copy, PartialEq, Eq, Hash)]
pub struct VerifyKey {
    /// The key's bytes.
    pub bytes: [u8; 32],
}

impl View for VerifyKey {
    type V = Seq<u8>;

    open spec fn view(&self) -> Seq<u8> {
        self.bytes@
    }
}

/// Whether two fixed-width keys hold the same bytes.
fn same_bytes(a: &[u8; 32], b: &[u8; 32]) -> (equal: bool)
    ensures
        equal == (a@ == b@),
{
    let mut i: usize = 0;
    while i < 32
        invariant
            i <= 32,
            a@.take(i as int) == b@.take(i as int),
        decreases 32 - i,
    {
        if a[i] != b[i] {
            assert(a@[i as int] != b@[i as int]);
            return false;
        }
        proof {
            assert(a@.take(i + 1) =~= a@.take(i as int).push(a@[i as int]));
            assert(b@.take(i + 1) =~= b@.take(i as int).push(b@[i as int]));
        }
        i = i + 1;
    }
    proof {
        assert(a@.take(32) =~= a@);
        assert(b@.take(32) =~= b@);
    }
    true
}

impl VerifyKey {
    /// Whether two keys are the same key.
    pub fn same(&self, other: &VerifyKey) -> (equal: bool)
        ensures
            equal == (self@ == other@),
    {
        same_bytes(&self.bytes, &other.bytes)
    }
}

/// A node's address on the transport: the key it is dialed by.
#[derive(Debug, Clone, Copy, PartialEq, Eq, Hash)]
pub struct NodeId {
    /// The address bytes.
    pub bytes: [u8; 32],
}

impl View for NodeId {
    type V = Seq<u8>;

    open spec fn view(&self) -> Seq<u8> {
        self.bytes@
    }
}

/// The name one block of a token is revoked by.
#[derive(Debug, Clone, PartialEq, Eq, Hash)]
pub struct RevocationId {
    /// The id's bytes.
    pub bytes: Vec<u8>,
}

impl View for RevocationId {
    type V = Seq<u8>;

    open spec fn view(&self) -> Seq<u8> {
        self.bytes@
    }
}

impl RevocationId {
    /// Whether two ids name the same block.
    pub fn same(&self, other: &RevocationId) -> (equal: bool)
        ensures
            equal == (self@ == other@),
    {
        let a = &self.bytes;
        let b = &other.bytes;
        if a.len() != b.len() {
            return false;
        }
        let mut i: usize = 0;
        while i < a.len()
            invariant
                i <= a.len(),
                a.len() == b.len(),
                a@ == self@,
                b@ == other@,
                forall|j: int| 0 <= j < i ==> a@[j] == b@[j],
            decreases a.len() - i,
        {
            if a[i] != b[i] {
                assert(a@[i as int] != b@[i as int]);
                return false;
            }
            i = i + 1;
        }
        assert(a@ =~= b@);
        true
    }

    /// Another copy of this id.
    pub fn copied(&self) -> (copy: RevocationId)
        ensures
            copy@ == self@,
    {
        let bytes: Vec<u8> = vstd::slice::slice_to_vec(self.bytes.as_slice());
        RevocationId { bytes }
    }
}

/// How a gate minted a witness.
#[derive(Debug, Clone, Copy, PartialEq, Eq, Structural)]
pub enum Origin {
    /// A token chaining to a trusted root was ruled on.
    Rooted,
    /// An open policy let the peer in; nothing about it was verified.
    Open,
    /// The transport proved the peer's key, and it presented no token.
    Proven,
}

/// By what authority a gate admitted a peer.
#[derive(Debug, Clone, Copy, PartialEq, Eq, Structural)]
pub enum Admission {
    /// A whole-node member badge.
    Member,
    /// A per-service slip, or no token at all.
    Slip,
}

/// One gate ruling, to be spent on the one stream it admitted.
///
/// No public constructor and no `Clone`: a witness exists only where a gate admitted a stream, and
/// serves one. A witness that is not rooted carries no standing, so it is never a member's.
#[derive(Debug)]
pub struct Admitted {
    peer: VerifyKey,
    kind: Admission,
    origin: Origin,
}

impl Admitted {
    #[verifier::type_invariant]
    spec fn standing_is_rooted(self) -> bool {
        self.kind == Admission::Member ==> self.origin == Origin::Rooted
    }

    /// The key the node's gate admitted.
    pub closed spec fn peer_key(self) -> VerifyKey {
        self.peer
    }

    /// The authority the node's gate admitted it by.
    pub closed spec fn authority(self) -> Admission {
        self.kind
    }

    /// How the node's gate minted the witness.
    pub closed spec fn source(self) -> Origin {
        self.origin
    }

    /// The witness of a token ruling.
    pub(crate) fn rooted(peer: VerifyKey, kind: Admission) -> (witness: Admitted)
        ensures
            witness.peer_key() == peer,
            witness.authority() == kind,
            witness.source() == Origin::Rooted,
    {
        Admitted { peer, kind, origin: Origin::Rooted }
    }

    /// The witness of an open policy.
    pub(crate) fn open(peer: VerifyKey) -> (witness: Admitted)
        ensures
            witness.peer_key() == peer,
            witness.authority() == Admission::Slip,
            witness.source() == Origin::Open,
    {
        Admitted { peer, kind: Admission::Slip, origin: Origin::Open }
    }

    /// The witness of a proven key that presented no token.
    pub(crate) fn proven(peer: VerifyKey) -> (witness: Admitted)
        ensures
            witness.peer_key() == peer,
            witness.authority() == Admission::Slip,
            witness.source() == Origin::Proven,
    {
        Admitted { peer, kind: Admission::Slip, origin: Origin::Proven }
    }

    /// The key the node's gate admitted: verified where the witness is rooted, proven by the
    /// transport but without standing where it is proven, merely announced where it is open.
    pub fn peer(&self) -> (peer: VerifyKey)
        ensures
            peer == self.peer_key(),
    {
        self.peer
    }

    /// By what authority the node's gate admitted the peer.
    pub fn kind(&self) -> (kind: Admission)
        ensures
            kind == self.authority(),
            kind == Admission::Member ==> self.source() == Origin::Rooted,
    {
        proof {
            use_type_invariant(self);
        }
        self.kind
    }

    /// Whether the peer was admitted as a whole-node member. Never true of an open or a proven
    /// witness.
    pub fn is_member(&self) -> (member: bool)
        ensures
            member == (self.authority() == Admission::Member),
            member ==> self.source() == Origin::Rooted,
    {
        proof {
            use_type_invariant(self);
        }
        matches!(self.kind, Admission::Member)
    }

    /// How the node's gate minted the witness.
    pub fn origin(&self) -> (origin: Origin)
        ensures
            origin == self.source(),
    {
        self.origin
    }
}

/// What a refused caller is told.
#[derive(Debug, Clone, PartialEq, Eq)]
pub enum Refusal {
    /// The request was not admitted. The one answer every ruling cause collapses to.
    NotAdmitted,
    /// The request itself is not well formed.
    BadRequest {
        /// What is wrong with it.
        detail: String,
    },
    /// The node cannot answer now; nothing was ruled about the caller.
    Unavailable {
        /// What it is waiting for.
        detail: String,
    },
}

impl View for Refusal {
    type V = RefusalView;

    open spec fn view(&self) -> RefusalView {
        match self {
            Refusal::NotAdmitted => RefusalView::NotAdmitted,
            Refusal::BadRequest { detail } => RefusalView::BadRequest { detail: detail@ },
            Refusal::Unavailable { detail } => RefusalView::Unavailable { detail: detail@ },
        }
    }
}

/// A refusal by the text it carries.
pub enum RefusalView {
    /// See [`Refusal::NotAdmitted`].
    NotAdmitted,
    /// See [`Refusal::BadRequest`].
    BadRequest { detail: Seq<char> },
    /// See [`Refusal::Unavailable`].
    Unavailable { detail: Seq<char> },
}

impl Refusal {
    /// The reason a person can act on: never the bare word, so that a wrapper cannot double it.
    pub open spec fn text(self) -> Seq<char> {
        match self {
            Refusal::NotAdmitted => {
                "not admitted: no member badge or capability this node honors was accepted"@
            },
            Refusal::BadRequest { detail } => "bad request: "@ + detail@,
            Refusal::Unavailable { detail } => "unavailable: "@ + detail@,
        }
    }

    /// The reason a person can act on.
    pub fn message(&self) -> (message: String)
        ensures
            message@ == self.text(),
    {
        match self {
            Refusal::NotAdmitted => String::from_str(
                "not admitted: no member badge or capability this node honors was accepted",
            ),
            Refusal::BadRequest { detail } => String::from_str("bad request: ").concat(
                detail.as_str(),
            ),
            Refusal::Unavailable { detail } => String::from_str("unavailable: ").concat(
                detail.as_str(),
            ),
        }
    }

    /// Another copy of this refusal.
    pub fn copied(&self) -> (copy: Refusal)
        ensures
            copy@ == self@,
    {
        match self {
            Refusal::NotAdmitted => Refusal::NotAdmitted,
            Refusal::BadRequest { detail } => Refusal::BadRequest { detail: detail.clone() },
            Refusal::Unavailable { detail } => Refusal::Unavailable { detail: detail.clone() },
        }
    }
}

/// A refusal's sentence ends in what it has to say, and a refused caller is told nothing particular:
/// all who are not admitted read the same.
pub proof fn a_refusal_says_what_it_has_to_say(
    refusal: Refusal,
    message: String,
    other: Refusal,
    said: String,
)
    requires
        call_ensures(Refusal::message, (&refusal,), message),
        call_ensures(Refusal::message, (&other,), said),
    ensures
        refusal is NotAdmitted && other is NotAdmitted ==> message@ == said@,
        refusal matches Refusal::BadRequest { detail } ==> exists|before: Seq<char>| message@
            == #[trigger] (before + detail@),
        refusal matches Refusal::Unavailable { detail } ==> exists|before: Seq<char>| message@
            == #[trigger] (before + detail@),
{
    match refusal {
        Refusal::NotAdmitted => {},
        Refusal::BadRequest { detail } => {
            assert(message@ == "bad request: "@ + detail@);
        },
        Refusal::Unavailable { detail } => {
            assert(message@ == "unavailable: "@ + detail@);
        },
    }
}

} // verus!
