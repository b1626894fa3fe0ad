//! The frame vocabulary a typed service's control preamble speaks: one buffer out, one exact slice
//! in.
//!
//! A control frame encodes into one buffer and decodes from exactly its own bytes, under a cap the
//! two sides share. This layer touches the control preamble and never the payload: [`read_frame`]
//! takes exactly one frame and not one byte more, so nothing is stranded behind it.

use vstd::prelude::*;
use vstd::string::*;

use crate::text::{decimal, decimal_text};

verus! {

/// One control frame, as a pure codec: no I/O, no policy, no handler.
///
/// The length rule is "a fixed head, then however many bytes the head names", which is what lets a
/// reader take exactly one frame off a shared stream and leave the payload behind it untouched.
///
/// An impl gives all three of [`Frame::named_by`], [`Frame::wire`] and [`Frame::reads`]: they are
/// what its codec is held to, and the bodies here describe no frame that crosses a wire. An impl
/// that left [`Frame::reads`] out would have nothing proved of what it decodes.
pub trait Frame: Sized {
    /// The largest whole frame this wire admits, in bytes.
    const MAX: usize;

    /// How many leading bytes a reader must hold before [`Frame::rest`] can answer.
    const HEAD: usize;

    /// How many bytes follow a head. A frame that says nothing else is its head alone.
    open spec fn named_by(head: Seq<u8>) -> usize {
        0
    }

    /// The whole frame on the wire. A frame that says nothing else writes nothing.
    open spec fn wire(&self) -> Seq<u8> {
        Seq::empty()
    }

    /// Whether decoding `bytes` may come out as `decoded`. A frame that says nothing else may
    /// decode to anything.
    open spec fn reads(bytes: Seq<u8>, decoded: Result<Self, WireError>) -> bool {
        true
    }

    /// How many bytes follow the head, given the head. Zero when the head is the whole frame, and
    /// for a head this wire cannot parse: the reader then stops at the head.
    fn rest(head: &[u8]) -> (rest: usize)
        requires
            head@.len() == Self::HEAD,
        ensures
            rest == Self::named_by(head@),
    ;

    /// Encode the whole frame, head included, onto the end of `out`.
    fn encode(&self, out: &mut Vec<u8>)
        ensures
            final(out)@ == old(out)@ + self.wire(),
    ;

    /// Decode one frame from exactly its own bytes.
    fn decode(bytes: &[u8]) -> (decoded: Result<Self, WireError>)
        requires
            bytes@.len() >= Self::HEAD,
            bytes@.len() == saturating_sum(
                Self::HEAD,
                Self::named_by(bytes@.take(Self::HEAD as int)),
            ),
        ensures
            Self::reads(bytes@, decoded),
    ;
}

/// Why a stream failed under a frame.
#[derive(Debug, Clone, PartialEq, Eq)]
pub enum IoFault {
    /// The stream ended inside the frame.
    UnexpectedEof,
    /// The transport reported a failure.
    Failed {
        /// What it reported.
        detail: String,
    },
}

/// Why one frame could not be moved.
#[derive(Debug, Clone, PartialEq, Eq)]
pub enum WireError {
    /// The frame's head declared more bytes than the wire admits, or an encode produced more.
    TooLong {
        /// The byte count the head declared, or the encoder produced.
        declared: usize,
        /// The cap this wire states as [`Frame::MAX`].
        max: usize,
    },
    /// The bytes were this wire's, and its grammar rejected them.
    Malformed {
        /// The service's own words for what is wrong.
        cause: String,
    },
    /// The stream failed under the frame.
    Io(IoFault),
}

impl WireError {
    /// Carry a service's own decode failure.
    pub fn malformed(cause: String) -> (error: WireError)
        ensures
            error == (WireError::Malformed { cause }),
    {
        WireError::Malformed { cause }
    }

    /// The sentence a caller reads.
    pub open spec fn text(self) -> Seq<char> {
        match self {
            WireError::TooLong { declared, max } => {
                "frame is "@ + decimal_text(declared as nat) + " bytes, over this wire's "@
                    + decimal_text(max as nat) + " byte cap"@
            },
            WireError::Malformed { cause } => cause@,
            WireError::Io(IoFault::UnexpectedEof) => "early eof"@,
            WireError::Io(IoFault::Failed { detail }) => detail@,
        }
    }

    /// The sentence a caller reads.
    pub fn message(&self) -> (message: String)
        ensures
            message@ == self.text(),
    {
        match self {
            WireError::TooLong { declared, max } => {
                String::from_str("frame is ").concat(decimal(*declared as u64).as_str()).concat(
                    " bytes, over this wire's ",
                ).concat(decimal(*max as u64).as_str()).concat(" byte cap")
            },
            WireError::Malformed { cause } => cause.clone(),
            WireError::Io(IoFault::UnexpectedEof) => String::from_str("early eof"),
            WireError::Io(IoFault::Failed { detail }) => detail.clone(),
        }
    }
}

/// The sum of two lengths, or the largest length there is: a hostile length cannot wrap into a
/// small one.
pub open spec fn saturating_sum(a: usize, b: usize) -> nat {
    if a + b > usize::MAX {
        usize::MAX as nat
    } else {
        (a + b) as nat
    }
}

/// The length of the whole frame a head opens.
pub open spec fn whole_len<F: Frame>(head: Seq<u8>) -> nat {
    saturating_sum(F::HEAD, F::named_by(head))
}

/// What a reader finds at the front of a stream.
pub enum FrameExtent {
    /// The stream ends inside the frame.
    Cut,
    /// The head declares more than the wire admits. Nothing past the head is read.
    Over {
        /// The length it declares.
        declared: nat,
    },
    /// One whole frame of this many bytes.
    Whole {
        /// The frame's length.
        len: nat,
    },
}

/// What a reader of frames `F` finds at the front of a stream.
pub open spec fn extent<F: Frame>(stream: Seq<u8>) -> FrameExtent {
    if stream.len() < F::HEAD {
        FrameExtent::Cut
    } else {
        let len = whole_len::<F>(stream.take(F::HEAD as int));
        if len > F::MAX {
            FrameExtent::Over { declared: len }
        } else if stream.len() < len {
            FrameExtent::Cut
        } else {
            FrameExtent::Whole { len }
        }
    }
}

/// How long the frame behind a head is, refusing an over-cap claim before anything is allocated or
/// read for it.
pub fn frame_len<F: Frame>(head: &[u8]) -> (len: Result<usize, WireError>)
    requires
        head@.len() == F::HEAD,
    ensures
        match len {
            Ok(len) => len == whole_len::<F>(head@) && len <= F::MAX,
            Err(WireError::TooLong { declared, max }) => {
                declared == whole_len::<F>(head@) && max == F::MAX && declared > max
            },
            Err(_) => false,
        },
{
    let whole: usize = F::HEAD.saturating_add(F::rest(head));
    if whole > F::MAX {
        return Err(WireError::TooLong { declared: whole, max: F::MAX });
    }
    Ok(whole)
}

/// Take exactly one frame off the front of `reader` and leave everything after it untouched.
///
/// An over-cap claim leaves the reader right after the head. A stream that ends inside the frame is
/// used up. A frame the grammar rejects has been taken like any other.
pub fn read_frame<F: Frame>(reader: &mut &[u8]) -> (frame: Result<F, WireError>)
    requires
        F::HEAD <= F::MAX,
    ensures
        match extent::<F>(old(reader)@) {
            FrameExtent::Cut => {
                &&& frame == Err::<F, _>(WireError::Io(IoFault::UnexpectedEof))
                &&& final(reader)@ == Seq::<u8>::empty()
            },
            FrameExtent::Over { declared } => {
                &&& frame == Err::<F, _>(
                    WireError::TooLong { declared: declared as usize, max: F::MAX },
                )
                &&& final(reader)@ == old(reader)@.skip(F::HEAD as int)
            },
            FrameExtent::Whole { len } => {
                &&& F::reads(old(reader)@.take(len as int), frame)
                &&& final(reader)@ == old(reader)@.skip(len as int)
            },
        },
{
    let stream: &[u8] = *reader;
    let available: usize = stream.len();
    if available < F::HEAD {
        *reader = vstd::slice::slice_subrange(stream, available, available);
        assert(reader@ =~= Seq::<u8>::empty());
        return Err(WireError::Io(IoFault::UnexpectedEof));
    }
    let head: &[u8] = vstd::slice::slice_subrange(stream, 0, F::HEAD);
    assert(head@ =~= stream@.take(F::HEAD as int));
    match frame_len::<F>(head) {
        Err(error) => {
            *reader = vstd::slice::slice_subrange(stream, F::HEAD, available);
            assert(reader@ =~= stream@.skip(F::HEAD as int));
            Err(error)
        },
        Ok(whole) => {
            if available < whole {
                *reader = vstd::slice::slice_subrange(stream, available, available);
                assert(reader@ =~= Seq::<u8>::empty());
                return Err(WireError::Io(IoFault::UnexpectedEof));
            }
            let bytes: &[u8] = vstd::slice::slice_subrange(stream, 0, whole);
            *reader = vstd::slice::slice_subrange(stream, whole, available);
            assert(reader@ =~= stream@.skip(whole as int));
            assert(bytes@ =~= stream@.take(whole as int));
            assert(bytes@.take(F::HEAD as int) =~= head@);
            F::decode(bytes)
        },
    }
}

/// The one buffer a frame is written from, refused when it is over the wire's own cap: the frame
/// that would not be read is the frame that is not written.
pub fn frame_bytes<F: Frame>(frame: &F) -> (bytes: Result<Vec<u8>, WireError>)
    requires
        F::HEAD <= F::MAX,
    ensures
        match bytes {
            Ok(bytes) => bytes@ == frame.wire() && frame.wire().len() <= F::MAX,
            Err(WireError::TooLong { declared, max }) => {
                declared == frame.wire().len() && max == F::MAX && declared > max
            },
            Err(_) => false,
        },
{
    let mut out: Vec<u8> = Vec::new();
    frame.encode(&mut out);
    assert(out@ =~= frame.wire());
    if out.len() > F::MAX {
        return Err(WireError::TooLong { declared: out.len(), max: F::MAX });
    }
    Ok(out)
}

/// Write one frame onto the end of `writer`, whole or not at all.
pub fn write_frame<F: Frame>(writer: &mut Vec<u8>, frame: &F) -> (written: Result<(), WireError>)
    requires
        F::HEAD <= F::MAX,
    ensures
        match written {
            Ok(()) => {
                &&& frame.wire().len() <= F::MAX
                &&& final(writer)@ == old(writer)@ + frame.wire()
            },
            Err(error) => {
                &&& frame.wire().len() > F::MAX
                &&& error == (WireError::TooLong {
                    declared: frame.wire().len() as usize,
                    max: F::MAX,
                })
                &&& final(writer)@ == old(writer)@
            },
        },
{
    match frame_bytes(frame) {
        Ok(mut bytes) => {
            writer.append(&mut bytes);
            Ok(())
        },
        Err(error) => Err(error),
    }
}

/// Whether a frame keeps its wire's own length rule: it is at least a head long, and its head names
/// exactly the bytes that follow.
pub open spec fn keeps_length_rule<F: Frame>(frame: &F) -> bool {
    &&& frame.wire().len() >= F::HEAD
    &&& frame.wire().len() == whole_len::<F>(frame.wire().take(F::HEAD as int))
}

/// The writer's cap is the reader's cap: a frame that keeps its wire's length rule is written
/// exactly when a reader takes it, and then the reader takes exactly that frame and strands nothing
/// of what follows it.
pub proof fn written_frames_are_read_whole<F: Frame>(frame: &F, payload: Seq<u8>)
    requires
        keeps_length_rule(frame),
    ensures
        frame.wire().len() <= F::MAX <==> extent::<F>(frame.wire() + payload)
            == (FrameExtent::Whole { len: frame.wire().len() }),
        frame.wire().len() > F::MAX <==> extent::<F>(frame.wire() + payload) is Over,
        (frame.wire() + payload).take(frame.wire().len() as int) == frame.wire(),
        (frame.wire() + payload).skip(frame.wire().len() as int) == payload,
{
    let stream = frame.wire() + payload;
    assert(stream.take(F::HEAD as int) =~= frame.wire().take(F::HEAD as int));
    assert(stream.take(frame.wire().len() as int) =~= frame.wire());
    assert(stream.skip(frame.wire().len() as int) =~= payload);
}

/// An over-cap claim is refused from the head alone, whatever follows it and however little.
pub proof fn over_cap_claims_are_refused_at_the_head<F: Frame>(head: Seq<u8>, tail: Seq<u8>)
    requires
        head.len() == F::HEAD,
        whole_len::<F>(head) > F::MAX,
    ensures
        extent::<F>(head + tail) == (FrameExtent::Over { declared: whole_len::<F>(head) }),
{
    assert((head + tail).take(F::HEAD as int) =~= head);
}

/// A reader takes exactly one frame and leaves the rest untouched, where the frame is all there and
/// within the cap; a stream that ends early is used up and decodes to nothing; and an over-cap claim
/// is refused with nothing past the head read.
pub proof fn a_reader_takes_exactly_one_frame<F: Frame>(
    reader: &mut &[u8],
    frame: Result<F, WireError>,
    whole: int,
)
    requires
        call_ensures(read_frame::<F>, (reader,), frame),
        whole == F::HEAD + F::named_by(old(reader)@.take(F::HEAD as int)),
    ensures
        // A length no address could reach wraps into no small one.
        old(reader)@.len() >= F::HEAD && whole > usize::MAX && F::MAX < usize::MAX ==> frame == Err::<
            F,
            _,
        >(WireError::TooLong { declared: usize::MAX, max: F::MAX }),
        old(reader)@.len() < F::HEAD ==> {
            &&& frame == Err::<F, _>(WireError::Io(IoFault::UnexpectedEof))
            &&& final(reader)@.len() == 0
        },
        old(reader)@.len() >= F::HEAD && F::MAX < whole <= usize::MAX ==> {
            &&& frame == Err::<F, _>(WireError::TooLong { declared: whole as usize, max: F::MAX })
            &&& final(reader)@ == old(reader)@.skip(F::HEAD as int)
        },
        old(reader)@.len() >= F::HEAD && whole <= F::MAX && old(reader)@.len() < whole ==> {
            &&& frame == Err::<F, _>(WireError::Io(IoFault::UnexpectedEof))
            &&& final(reader)@.len() == 0
        },
        old(reader)@.len() >= F::HEAD && whole <= F::MAX && old(reader)@.len() >= whole ==> {
            &&& F::reads(old(reader)@.take(whole), frame)
            &&& final(reader)@ == old(reader)@.skip(whole)
        },
{
}

/// A frame is written whole behind what was written before, or not at all where it is over the cap
/// that a reader would refuse it for.
pub proof fn a_frame_is_written_whole_or_not_at_all<F: Frame>(
    writer: &mut Vec<u8>,
    frame: &F,
    written: Result<(), WireError>,
)
    requires
        call_ensures(write_frame::<F>, (writer, frame), written),
    ensures
        written is Ok <==> frame.wire().len() <= F::MAX,
        written is Ok ==> final(writer)@ == old(writer)@ + frame.wire(),
        written is Err ==> final(writer)@ == old(writer)@,
{
}

} // verus!
