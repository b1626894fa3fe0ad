//! The frame reader's two load-bearing properties, each pinned by the failure it prevents: it takes
//! the frame and strands nothing behind it, and it refuses an over-cap claim before it reads for it.

use tightbeam::wire::{
    frame_bytes, frame_len, read_frame, write_frame, Frame, IoFault, WireError,
};

#[derive(Debug, PartialEq, Eq)]
enum Probe {
    Ping { nonce: u64 },
    Go,
    Skewed,
}

const IDENTITY: [u8; 3] = *b"PRB";
const VERSION: u8 = b'1';
const PING: u8 = 0;
const GO: u8 = 1;

impl Frame for Probe {
    const MAX: usize = 13;
    const HEAD: usize = 5;

    fn rest(head: &[u8]) -> usize {
        if head[..3] != IDENTITY || head[3] != VERSION {
            return 0;
        }
        match head[4] {
            PING => 8,
            _ => 0,
        }
    }

    fn encode(&self, out: &mut Vec<u8>) {
        out.extend_from_slice(&IDENTITY);
        out.push(VERSION);
        match self {
            Self::Ping { nonce } => {
                out.push(PING);
                out.extend_from_slice(&nonce.to_be_bytes());
            }
            Self::Go => out.push(GO),
            Self::Skewed => out.push(GO),
        }
    }

    fn decode(bytes: &[u8]) -> Result<Self, WireError> {
        if bytes[..3] != IDENTITY {
            return Err(WireError::malformed("not a probe stream".to_owned()));
        }
        if bytes[3] != VERSION {
            return Ok(Self::Skewed);
        }
        match bytes[4] {
            PING => {
                let mut nonce = [0u8; 8];
                nonce.copy_from_slice(&bytes[5..13]);
                Ok(Self::Ping { nonce: u64::from_be_bytes(nonce) })
            }
            GO => Ok(Self::Go),
            other => Err(WireError::malformed(format!("unknown probe tag {other:#04x}"))),
        }
    }
}

#[derive(Debug, PartialEq, Eq)]
struct Declared(Vec<u8>);

impl Frame for Declared {
    const MAX: usize = 16;
    const HEAD: usize = 4;

    fn rest(head: &[u8]) -> usize {
        let mut len = [0u8; 4];
        len.copy_from_slice(&head[..4]);
        u32::from_be_bytes(len) as usize
    }

    fn encode(&self, out: &mut Vec<u8>) {
        let len = self.0.len() as u32;
        out.extend_from_slice(&len.to_be_bytes());
        out.extend_from_slice(&self.0);
    }

    fn decode(bytes: &[u8]) -> Result<Self, WireError> {
        Ok(Self(bytes[4..].to_vec()))
    }
}

#[test]
fn a_frame_round_trips_through_its_own_codec_with_no_stream() {
    for frame in [Probe::Ping { nonce: 0 }, Probe::Ping { nonce: u64::MAX }, Probe::Go] {
        let mut bytes = Vec::new();
        frame.encode(&mut bytes);
        assert_eq!(Probe::decode(&bytes).expect("this build's own frame decodes"), frame);
    }
}

#[test]
fn the_reader_takes_the_frame_and_strands_nothing() {
    const PAYLOAD: &[u8] = &[0xab; 32];
    for (frame, framed) in [(Probe::Ping { nonce: 7 }, 13), (Probe::Go, 5)] {
        let mut stream = Vec::new();
        frame.encode(&mut stream);
        assert_eq!(stream.len(), framed, "the frame's whole wire size");
        stream.extend_from_slice(PAYLOAD);

        let mut reader = stream.as_slice();
        let read: Probe = read_frame(&mut reader).expect("the frame reads");
        assert_eq!(read, frame);
        assert_eq!(
            reader, PAYLOAD,
            "the payload is untouched and positioned at its first byte"
        );
    }
}

#[test]
fn a_truncated_frame_is_an_error_not_a_partial_decode() {
    let mut stream = Vec::new();
    Probe::Ping { nonce: 7 }.encode(&mut stream);
    stream.truncate(stream.len() - 1);

    let read: Result<Probe, _> = read_frame(&mut stream.as_slice());
    let error = read.expect_err("a frame cut one byte short cannot decode");
    assert!(matches!(error, WireError::Io(IoFault::UnexpectedEof)), "{error:?}");
    let short: Result<Probe, _> = read_frame(&mut &b"PR"[..]);
    assert_eq!(short, Err(WireError::Io(IoFault::UnexpectedEof)), "nor a cut head");
}

#[test]
fn an_over_cap_claim_is_refused_before_the_body_is_read() {
    for declared in [Declared::MAX as u32 + 1, u32::MAX] {
        let head = declared.to_be_bytes();
        let read: Result<Declared, _> = read_frame(&mut head.as_slice());
        let error = read.expect_err("a claim over the cap is refused");
        assert!(
            matches!(error, WireError::TooLong { max, .. } if max == Declared::MAX),
            "a {declared} byte claim must be refused as over-cap, got {error:?}"
        );
    }
    // The reader stops right after the head: not one byte of the body is taken.
    let mut stream = (Declared::MAX as u32).to_be_bytes().to_vec();
    stream.extend_from_slice(b"body");
    let mut reader = stream.as_slice();
    assert_eq!(
        read_frame::<Declared>(&mut reader),
        Err(WireError::TooLong { declared: 20, max: 16 })
    );
    assert_eq!(reader, b"body");
}

#[test]
fn the_encoder_cannot_emit_a_frame_its_own_decoder_would_refuse() {
    let mut writer: Vec<u8> = Vec::new();
    let over = Declared(vec![0u8; Declared::MAX]);
    let error = write_frame(&mut writer, &over).expect_err("an over-cap frame is not written");
    assert!(
        matches!(error, WireError::TooLong { max, .. } if max == Declared::MAX),
        "{error:?}"
    );
    assert!(writer.is_empty(), "nothing reaches the wire, not even a prefix");

    // The largest frame that fits is still written, so the cap refuses the over-long and nothing else.
    let fits = Declared(vec![0u8; Declared::MAX - Declared::HEAD]);
    write_frame(&mut writer, &fits).expect("a frame at the cap is written");
    assert_eq!(writer.len(), Declared::MAX);
    assert_eq!(read_frame::<Declared>(&mut writer.as_slice()), Ok(fits));
}

#[test]
fn one_frame_is_one_write() {
    // One buffer per frame, so a writer makes one call.
    let ping = frame_bytes(&Probe::Ping { nonce: 7 }).expect("the frame is under the cap");
    assert_eq!(ping.len(), 13);
    let mut writer: Vec<u8> = Vec::new();
    write_frame(&mut writer, &Probe::Ping { nonce: 7 }).expect("the frame writes");
    assert_eq!(writer, ping);
    write_frame(&mut writer, &Probe::Go).expect("the second frame writes");
    assert_eq!(writer.len(), 18);
}

#[test]
fn a_head_this_build_cannot_parse_stops_at_the_head() {
    let mut skewed = Vec::new();
    Probe::Ping { nonce: 7 }.encode(&mut skewed);
    skewed[3] = b'2';
    let mut reader = skewed.as_slice();
    let frame: Probe = read_frame(&mut reader).expect("a skewed frame is a value, not a failure");
    assert_eq!(frame, Probe::Skewed);
    assert_eq!(
        reader.len(),
        8,
        "the reader stopped at the head rather than trusting another grammar's length"
    );

    let foreign = b"XXX1\x00\x00\x00\x00\x00\x00\x00\x00\x00";
    let read: Result<Probe, _> = read_frame(&mut foreign.as_slice());
    let error = read.expect_err("a foreign stream has nothing true to say back");
    assert!(matches!(error, WireError::Malformed { .. }), "{error:?}");
    assert_eq!(
        error.message(),
        "not a probe stream",
        "the service's own cause survives the crossing"
    );
}

#[test]
fn a_hostile_length_saturates_instead_of_wrapping() {
    #[derive(Debug)]
    struct Hostile;
    impl Frame for Hostile {
        const MAX: usize = 8;
        const HEAD: usize = 1;
        fn rest(_head: &[u8]) -> usize {
            usize::MAX
        }
        fn encode(&self, out: &mut Vec<u8>) {
            out.push(0);
        }
        fn decode(_bytes: &[u8]) -> Result<Self, WireError> {
            Ok(Hostile)
        }
    }
    assert_eq!(
        frame_len::<Hostile>(&[0]),
        Err(WireError::TooLong { declared: usize::MAX, max: 8 })
    );
    assert_eq!(frame_len::<Probe>(b"PRB1\x00"), Ok(13));
}

#[test]
fn a_wire_error_says_what_it_measured() {
    assert_eq!(
        WireError::TooLong { declared: 20, max: 16 }.message(),
        "frame is 20 bytes, over this wire's 16 byte cap"
    );
}
