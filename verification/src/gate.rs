//! The node's base gate, and what the transport says of the peer it faces.

use vstd::prelude::*;

use crate::witness::{Admission, Admitted, Origin, VerifyKey};

verus! {

/// What a transport claims about the identity of a session's peer.
#[derive(Debug, Clone, Copy, PartialEq, Eq, Structural)]
pub enum PeerProof {
    /// A completed handshake proved the peer holds its key.
    Proven,
    /// Both ends live in this process, so the key is exact by construction.
    InProcess,
    /// The peer announced a key and nothing checked it.
    Announced,
}

impl PeerProof {
    /// Whether the claim proves the peer's key.
    pub open spec fn proves(self) -> bool {
        self != PeerProof::Announced
    }

    /// The word a message renders for this claim.
    pub fn label(self) -> (word: &'static str)
        ensures
            word@ == claim_word(self),
    {
        match self {
            PeerProof::Proven => "proven",
            PeerProof::InProcess => "in-process",
            PeerProof::Announced => "announced",
        }
    }
}

/// The word a message renders for a peer claim.
pub open spec fn claim_word(claim: PeerProof) -> Seq<char> {
    match claim {
        PeerProof::Proven => "proven"@,
        PeerProof::InProcess => "in-process"@,
        PeerProof::Announced => "announced"@,
    }
}

/// Whether a transport's claim proves the peer's key.
pub fn peer_proven(claim: PeerProof) -> (proven: bool)
    ensures
        proven == claim.proves(),
{
    match claim {
        PeerProof::Proven | PeerProof::InProcess => true,
        PeerProof::Announced => false,
    }
}

/// The peer a session attests: the key the transport reports, with what that transport claims of
/// it. The two travel together, so one session's key is never paired with another session's claim.
#[derive(Debug, Clone, Copy, PartialEq, Eq)]
pub struct SessionPeer {
    /// The key the transport reports.
    pub key: VerifyKey,
    /// What the transport claims of it.
    pub claim: PeerProof,
}

/// The node-wide policy every route faces unless an overlay opens it.
#[derive(Debug, Clone, Copy, PartialEq, Eq)]
pub enum Gate {
    /// Admits anyone, and proves nothing about them.
    Open,
    /// Admits a token rooted at one authority.
    Rooted {
        /// The authority.
        root: VerifyKey,
    },
    /// Admits a token rooted at whatever authority the node currently pins, or one the node's own
    /// key issued.
    Anchored {
        /// The node's own key.
        own: VerifyKey,
    },
}

/// Why a gate's token ruling did not admit a stream.
#[derive(Debug, Clone, Copy, PartialEq, Eq, Structural)]
pub enum GateRefusal {
    /// No token was presented.
    Missing,
    /// The token does not grant the service.
    NotGranted,
    /// The token, or the peer it is bound to, is revoked.
    Revoked,
    /// The ruling ran out of time and decided nothing.
    Undecided,
}

impl Gate {
    /// Whether this gate rules on a presented token. Only an open gate does not.
    pub open spec fn rules_on_tokens(self) -> bool {
        self !is Open
    }

    /// Whether this gate rules on a presented token.
    pub fn wants_capability(&self) -> (wants: bool)
        ensures
            wants == self.rules_on_tokens(),
    {
        !matches!(self, Gate::Open)
    }

    /// Turn a ruling into the witness a stream is served with. An open gate admits whoever asks,
    /// whatever was ruled, with a witness that carries no standing; any other gate mints exactly
    /// what `ruling` decided.
    pub fn admit_witnessed(&self, peer: VerifyKey, ruling: Result<Admission, GateRefusal>) -> (
        witness: Result<Admitted, GateRefusal>)
        ensures
            match witness {
                Ok(witness) => {
                    &&& witness.peer_key() == peer
                    &&& if self.rules_on_tokens() {
                        ruling == Ok::<_, GateRefusal>(witness.authority()) && witness.source()
                            == Origin::Rooted
                    } else {
                        witness.authority() == Admission::Slip && witness.source() == Origin::Open
                    }
                },
                Err(refusal) => {
                    self.rules_on_tokens() && ruling == Err::<Admission, _>(refusal)
                },
            },
    {
        match self {
            Gate::Open => Ok(Admitted::open(peer)),
            _ => match ruling {
                Ok(kind) => Ok(Admitted::rooted(peer, kind)),
                Err(refusal) => Err(refusal),
            },
        }
    }
}

/// A node that was never given a signet has nothing to gate on.
#[derive(Debug, Clone, Copy, PartialEq, Eq, Structural)]
pub struct NoSignet;

impl NoSignet {
    /// The sentence an operator reads.
    pub fn message(&self) -> (message: String)
        ensures
            message@
                == "this node has no signet to gate on: provision it (adopt a signet), or open individual services to anyone"@,
    {
        "this node has no signet to gate on: provision it (adopt a signet), or open individual services to anyone".to_owned()
    }
}

/// Resolve the node's base gate: a gate rooted at the provisioned signet. An unprovisioned node
/// fails loud rather than ever defaulting to open.
pub fn resolve_gate(signet: Option<VerifyKey>) -> (gate: Result<Gate, NoSignet>)
    ensures
        match gate {
            Ok(gate) => signet matches Some(root) && gate == (Gate::Rooted { root }),
            Err(_) => signet is None,
        },
        gate matches Ok(gate) ==> gate.rules_on_tokens(),
{
    match signet {
        Some(root) => Ok(Gate::Rooted { root }),
        None => Err(NoSignet),
    }
}

/// Only an open gate admits without a ruling, and it gives nobody any standing. Any other gate gives
/// exactly what the ruling gave, for the peer it was ruled on.
pub proof fn a_gate_gives_what_was_ruled(
    gate: &Gate,
    peer: VerifyKey,
    ruling: Result<Admission, GateRefusal>,
    witness: Result<Admitted, GateRefusal>,
)
    requires
        call_ensures(Gate::admit_witnessed, (gate, peer, ruling), witness),
    ensures
        *gate == Gate::Open ==> (witness matches Ok(given) && given.source() == Origin::Open
            && given.authority() == Admission::Slip && given.peer_key() == peer),
        *gate != Gate::Open ==> match ruling {
            Ok(standing) => witness matches Ok(given) && given.source() == Origin::Rooted
                && given.authority() == standing && given.peer_key() == peer,
            Err(cause) => witness matches Err(refusal) && refusal == cause,
        },
{
}

/// A claim proves the peer unless the peer merely announced its key.
pub proof fn an_announced_key_proves_nothing(claim: PeerProof, proven: bool)
    requires
        call_ensures(peer_proven, (claim,), proven),
    ensures
        proven <==> claim == PeerProof::Proven || claim == PeerProof::InProcess,
{
}

/// A node gates on the signet it was given, and never opens for want of one.
pub proof fn a_node_never_opens_by_default(
    signet: Option<VerifyKey>,
    gate: Result<Gate, NoSignet>,
)
    requires
        call_ensures(resolve_gate, (signet,), gate),
    ensures
        gate is Ok <==> signet is Some,
        gate matches Ok(resolved) ==> resolved == (Gate::Rooted { root: signet->0 }) && resolved
            != Gate::Open,
{
}

} // verus!
