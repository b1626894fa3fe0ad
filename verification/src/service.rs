//! The typed door: a service states the frame its callers open with, and receives it decoded.
//!
//! A library a service opts into, never a tax the contract collects: implement [`Service`] and bind
//! [`Serve`], or implement the handler contract directly.

use vstd::prelude::*;

use crate::bridge::marker_ceiling;
use crate::contract::{Handler, Metering, ServeError};
use crate::open_policy::PublicUse;
use crate::wire::{extent, read_frame, Frame, FrameExtent, IoFault, WireError};

verus! {

/// A service whose callers open with a typed control frame. Everything a handler declares is
/// declared here and forwarded unchanged through [`Serve`].
pub trait Service: Send + Sync + 'static {
    /// This service's open-safety ceiling, forwarded by [`Serve`] as its own.
    type Exposure: PublicUse;

    /// The control frame a caller opens the stream with.
    type Request: Frame + Send;

    /// The responder-side rate limit this service enforces. A service that states no bound is
    /// narrated as unbounded when opened.
    fn metering(&self) -> (metering: Metering)
        default_ensures
            metering == Metering::Unmetered,
    {
        Metering::Unmetered
    }
}

/// The adapter that binds a [`Service`] as a handler: read the one control frame, hand the service
/// its decoded request and the stream positioned right after it.
pub struct Serve<S>(pub S);

impl<S: Service> Handler for Serve<S> {
    type Exposure = S::Exposure;

    fn metering(&self) -> (metering: Metering)
        ensures
            call_ensures(<S as Service>::metering, (&self.0,), metering),
    {
        self.0.metering()
    }
}

/// A preamble that could not be read ends the stream as a transport failure: there is no request to
/// answer.
pub fn preamble_failed(error: &WireError) -> (failed: ServeError)
    ensures
        failed matches ServeError::Io { detail } && detail@ == error.text(),
{
    ServeError::Io { detail: error.message() }
}

/// The one read the typed door performs: take exactly the service's control frame off the front of
/// the stream. Only a frame that decodes reaches the service, and the stream it gets back starts at
/// the payload's first byte.
pub fn read_preamble<S: Service>(reader: &mut &[u8]) -> (request: Result<S::Request, ServeError>)
    requires
        S::Request::HEAD <= S::Request::MAX,
    ensures
        match extent::<S::Request>(old(reader)@) {
            FrameExtent::Cut => {
                &&& request matches Err(ServeError::Io { detail }) && detail@ == WireError::Io(
                    IoFault::UnexpectedEof,
                ).text()
                &&& final(reader)@ == Seq::<u8>::empty()
            },
            FrameExtent::Over { declared } => {
                &&& request matches Err(ServeError::Io { detail }) && detail@ == (
                WireError::TooLong {
                    declared: declared as usize,
                    max: S::Request::MAX,
                }).text()
                &&& final(reader)@ == old(reader)@.skip(S::Request::HEAD as int)
            },
            FrameExtent::Whole { len } => {
                &&& match request {
                    Ok(decoded) => S::Request::reads(old(reader)@.take(len as int), Ok(decoded)),
                    Err(ServeError::Io { detail }) => exists|cause: WireError|
                        {
                            &&& #[trigger] S::Request::reads(
                                old(reader)@.take(len as int),
                                Err(cause),
                            )
                            &&& detail@ == cause.text()
                        },
                    Err(_) => false,
                }
                &&& final(reader)@ == old(reader)@.skip(len as int)
            },
        },
{
    match read_frame::<S::Request>(reader) {
        Ok(request) => Ok(request),
        Err(error) => Err(preamble_failed(&error)),
    }
}

/// The ceiling forwards through the adapter unchanged: a dispatcher reads off [`Serve`] exactly
/// what the service's own marker answers.
pub proof fn the_ceiling_forwards_through_the_adapter<S: Service>()
    ensures
        marker_ceiling::<<Serve<S> as Handler>::Exposure>() == marker_ceiling::<S::Exposure>(),
{
}

/// A service gets its request off the front of the stream, whole, and the stream behind it untouched;
/// a preamble that is cut short or over the cap reaches no service.
pub proof fn a_service_gets_its_request_whole<S: Service>(
    reader: &mut &[u8],
    request: Result<S::Request, ServeError>,
    whole: int,
)
    requires
        call_ensures(read_preamble::<S>, (reader,), request),
        whole == S::Request::HEAD + S::Request::named_by(
            old(reader)@.take(S::Request::HEAD as int),
        ),
        whole <= usize::MAX,
    ensures
        request is Ok ==> {
            &&& old(reader)@.len() >= whole && whole <= S::Request::MAX
            &&& S::Request::reads(old(reader)@.take(whole), Ok(request->Ok_0))
            &&& final(reader)@ == old(reader)@.skip(whole)
        },
        old(reader)@.len() < S::Request::HEAD || whole > S::Request::MAX || old(reader)@.len()
            < whole ==> (request matches Err(error) && error is Io),
{
}

} // verus!
