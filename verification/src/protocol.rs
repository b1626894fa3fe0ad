//! The opening exchange on a stream: what a dialer asks for, and what the host answers.

use vstd::prelude::*;
use vstd::string::*;

use crate::gate::{claim_word, peer_proven, PeerProof};
use crate::witness::Refusal;

verus! {

/// What a dialer asks for.
#[derive(Debug, Clone, PartialEq, Eq)]
pub struct Request {
    /// The service to reach.
    pub service: String,
    /// The first slot: a capability.
    pub capability: Option<String>,
    /// The second slot: a badge under the authority the capability names.
    pub membership: Option<String>,
}

/// A request by the text it carries.
pub struct RequestView {
    /// See [`Request::service`].
    pub service: Seq<char>,
    /// See [`Request::capability`].
    pub capability: Option<Seq<char>>,
    /// See [`Request::membership`].
    pub membership: Option<Seq<char>>,
}

/// An optional text by what it says.
pub open spec fn text_of(slot: Option<String>) -> Option<Seq<char>> {
    match slot {
        Some(text) => Some(text@),
        None => None,
    }
}

impl View for Request {
    type V = RequestView;

    open spec fn view(&self) -> RequestView {
        RequestView {
            service: self.service@,
            capability: text_of(self.capability),
            membership: text_of(self.membership),
        }
    }
}

/// What the host answers.
#[derive(Debug, Clone, PartialEq, Eq)]
pub enum Response {
    /// The stream is served.
    Accepted,
    /// The stream is refused.
    Refused(Refusal),
}

/// A credential presented over a transport that does not prove who receives it.
#[derive(Debug, Clone, Copy, PartialEq, Eq, Structural)]
pub struct TransportInsecure {
    /// What the transport claims of the peer.
    pub declared: PeerProof,
}

impl TransportInsecure {
    /// The sentence a caller reads.
    pub fn message(&self) -> (message: String)
        ensures
            message@ == "refusing to present a credential: the transport does not prove the peer (declared: "@
                + claim_word(self.declared) + ")"@,
    {
        String::from_str(
            "refusing to present a credential: the transport does not prove the peer (declared: ",
        ).concat(self.declared.label()).concat(")")
    }
}

impl Request {
    /// Whether the request presents a credential in either slot.
    pub open spec fn presents(self) -> bool {
        self.capability is Some || self.membership is Some
    }

    /// Check a request before its first byte is written: one that presents a credential is refused
    /// when the session's transport does not prove the peer.
    pub fn check(&self, claim: PeerProof) -> (checked: Result<(), TransportInsecure>)
        ensures
            match checked {
                Ok(()) => self.presents() ==> claim.proves(),
                Err(error) => {
                    &&& self.presents()
                    &&& !claim.proves()
                    &&& error == (TransportInsecure { declared: claim })
                },
            },
    {
        if (self.capability.is_some() || self.membership.is_some()) && !peer_proven(claim) {
            return Err(TransportInsecure { declared: claim });
        }
        Ok(())
    }

    /// Another copy of this request.
    pub fn copied(&self) -> (copy: Request)
        ensures
            copy@ == self@,
            copy.presents() == self.presents(),
    {
        let capability: Option<String> = match &self.capability {
            Some(text) => Some(text.clone()),
            None => None,
        };
        let membership: Option<String> = match &self.membership {
            Some(text) => Some(text.clone()),
            None => None,
        };
        Request { service: self.service.clone(), capability, membership }
    }
}

/// A credential goes out only over a transport that proves who receives it; a request without one
/// goes out over any.
pub proof fn a_credential_goes_only_to_a_proven_peer(
    request: &Request,
    claim: PeerProof,
    checked: Result<(), TransportInsecure>,
)
    requires
        call_ensures(Request::check, (request, claim), checked),
    ensures
        checked is Err <==> claim == PeerProof::Announced && (request.capability is Some
            || request.membership is Some),
        checked matches Err(error) ==> error.declared == claim,
{
}

} // verus!
