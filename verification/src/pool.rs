//! The permit pools that bound what strangers and proven peers can occupy at once.

use std::sync::Arc;

use tokio::sync::{OwnedSemaphorePermit, Semaphore, TryAcquireError};
use vstd::prelude::*;

verus! {

/// The maximum number of concurrent public sessions: a session that has reached any opened service
/// holds one permit until it closes.
pub const PUBLIC_SESSION_PERMITS: usize = 32;

/// The maximum number of concurrent public streams, node-wide. Over the cap refuses, never queues.
pub const PUBLIC_STREAM_PERMITS: usize = 4;

/// The maximum number of concurrent proven-only streams, node-wide.
pub const PROVEN_STREAM_PERMITS: usize = 4;

/// The maximum number of raw-stream opens in flight across the whole node. It bounds the
/// descriptors a peer can hold mid-open, never a splice.
pub const RAW_STREAM_OPEN_PERMITS: usize = 16;

/// A tokio semaphore: a number of permits that are taken and given back.
#[verifier::external_type_specification]
#[verifier::external_body]
pub struct ExSemaphore(tokio::sync::Semaphore);

/// A permit taken from a tokio semaphore, given back when it is dropped.
#[verifier::external_type_specification]
#[verifier::external_body]
pub struct ExOwnedSemaphorePermit(tokio::sync::OwnedSemaphorePermit);

/// Why a tokio semaphore gave no permit.
#[verifier::external_type_specification]
#[verifier::external_body]
pub struct ExTryAcquireError(tokio::sync::TryAcquireError);

/// The semaphore a permit was taken from, as `OwnedSemaphorePermit::semaphore` tells it.
pub uninterp spec fn taken_from(permit: OwnedSemaphorePermit) -> Semaphore;

/// How many permits a semaphore was made with. How many of them are left at a moment has no name:
/// it changes as they are taken and given back.
pub uninterp spec fn made_with(semaphore: Semaphore) -> nat;

/// `Semaphore::new` makes a semaphore with this many permits to give. It panics above
/// `usize::MAX >> 3`, so that is left out.
pub assume_specification[ Semaphore::new ](permits: usize) -> (semaphore: Semaphore)
    requires
        permits <= usize::MAX / 8,
    ensures
        made_with(semaphore) == permits,
;

/// `Semaphore::try_acquire_owned` takes one permit, or answers at once that there is none. Which of
/// the two depends on the permits other holders have not given back, so neither is promised; a
/// permit that is taken is this semaphore's.
pub assume_specification[ Semaphore::try_acquire_owned ](semaphore: Arc<Semaphore>) -> (permit:
    Result<OwnedSemaphorePermit, TryAcquireError>)
    ensures
        permit matches Ok(permit) ==> taken_from(permit) == *semaphore,
;

/// Whether a pool's semaphore may answer `taken` when it is asked for one permit.
pub open spec fn may_answer(
    pool: Semaphore,
    taken: Result<OwnedSemaphorePermit, TryAcquireError>,
) -> bool {
    exists|semaphore: Arc<Semaphore>|
        *semaphore == pool && #[trigger] call_ensures(
            Semaphore::try_acquire_owned,
            (semaphore,),
            taken,
        )
}

/// Whether a pool's semaphore may answer that it has no permit to give.
pub open spec fn may_refuse(pool: Semaphore) -> bool {
    exists|taken: Result<OwnedSemaphorePermit, TryAcquireError>| #[trigger]
        may_answer(pool, taken) && taken is Err
}

/// Whether a pool's semaphore may answer with a permit.
pub open spec fn may_give(pool: Semaphore) -> bool {
    exists|taken: Result<OwnedSemaphorePermit, TryAcquireError>| #[trigger]
        may_answer(pool, taken) && taken is Ok
}

/// The permit in a semaphore's answer: the one it gave, or none where it gave none.
pub open spec fn permit_in(
    taken: Result<OwnedSemaphorePermit, TryAcquireError>,
) -> Option<OwnedSemaphorePermit> {
    match taken {
        Ok(permit) => Some(permit),
        Err(_) => None,
    }
}

/// Go on with a semaphore's answer. Why it gave no permit makes no difference.
fn given(taken: Result<OwnedSemaphorePermit, TryAcquireError>) -> (permit: Option<
    OwnedSemaphorePermit,
>)
    ensures
        permit == permit_in(taken),
{
    match taken {
        Ok(permit) => Some(permit),
        Err(_) => None,
    }
}

/// Take one permit of a pool, if there is one to take: what the pool's semaphore answers decides,
/// and nothing else.
pub fn take(pool: &Arc<Semaphore>) -> (permit: Option<OwnedSemaphorePermit>)
    ensures
        exists|taken: Result<OwnedSemaphorePermit, TryAcquireError>| #[trigger]
            may_answer(**pool, taken) && permit == permit_in(taken),
        permit matches Some(permit) ==> taken_from(permit) == **pool,
        permit is Some ==> may_give(**pool),
        permit is None ==> may_refuse(**pool),
{
    let semaphore: Arc<Semaphore> = Arc::clone(pool);
    let taken = semaphore.try_acquire_owned();
    assert(may_answer(**pool, taken));
    given(taken)
}

/// The node's public-path capacity. Both pools are taken only where a stream takes the open path: a
/// gated route never consults either.
pub struct PublicPool {
    /// One permit per public session.
    pub sessions: Arc<Semaphore>,
    /// One permit per concurrent public stream.
    pub streams: Arc<Semaphore>,
}

impl PublicPool {
    /// The production capacity.
    pub fn new() -> (pool: PublicPool)
        ensures
            made_with(*pool.sessions) == PUBLIC_SESSION_PERMITS,
            made_with(*pool.streams) == PUBLIC_STREAM_PERMITS,
    {
        PublicPool {
            sessions: Arc::new(Semaphore::new(PUBLIC_SESSION_PERMITS)),
            streams: Arc::new(Semaphore::new(PUBLIC_STREAM_PERMITS)),
        }
    }
}

/// The per-session half of the public cap: the one permit a session holds once it has been admitted
/// to any opened service. A session that only ever dials gated routes never takes one.
pub struct PublicSession {
    permit: Option<OwnedSemaphorePermit>,
}

impl PublicSession {
    /// The permit the session holds.
    pub closed spec fn held(self) -> Option<OwnedSemaphorePermit> {
        self.permit
    }

    /// A session that has reached no opened service yet.
    pub fn new() -> (session: PublicSession)
        ensures
            session.held() is None,
    {
        PublicSession { permit: None }
    }

    /// Whether the session holds its permit.
    pub fn is_public(&self) -> (public: bool)
        ensures
            public == (self.held() is Some),
    {
        self.permit.is_some()
    }

    /// Classify this session into the public pool, taking its permit on the first public admit. A
    /// session that already holds one keeps it and takes no second; a pool with none left leaves
    /// the session as it was.
    pub fn enter(&mut self, sessions: &Arc<Semaphore>) -> (entered: bool)
        ensures
            old(self).held() is Some ==> entered && *final(self) == *old(self),
            entered ==> final(self).held() is Some,
            entered && old(self).held() is None ==> taken_from(final(self).held()->0)
                == **sessions,
            !entered ==> *final(self) == *old(self) && may_refuse(**sessions),
    {
        if self.permit.is_some() {
            return true;
        }
        self.seat(take(sessions))
    }

    /// Go on with what the pool gave: a session that holds no permit yet holds this one from now
    /// on.
    fn seat(&mut self, permit: Option<OwnedSemaphorePermit>) -> (seated: bool)
        requires
            old(self).held() is None,
        ensures
            seated == permit is Some,
            final(self).held() == permit,
    {
        let seated: bool = permit.is_some();
        self.permit = permit;
        seated
    }
}

/// A session takes one public permit and keeps it: the first stream that enters takes it, later ones
/// take none, and where the pool gives nothing the session is left as it was.
pub proof fn a_session_takes_one_permit(
    session: &mut PublicSession,
    sessions: &Arc<Semaphore>,
    entered: bool,
    fresh: PublicSession,
)
    requires
        call_ensures(PublicSession::enter, (session, sessions), entered),
        call_ensures(PublicSession::new, (), fresh),
    ensures
        fresh.held() is None,
        old(session).held() is Some ==> entered && final(session).held() == old(session).held(),
        old(session).held() is None && entered ==> (final(session).held() matches Some(permit)
            && taken_from(permit) == **sessions),
        !entered ==> final(session).held() is None && may_refuse(**sessions),
        old(session).held() is None && !may_refuse(**sessions) ==> entered,
{
}

} // verus!
