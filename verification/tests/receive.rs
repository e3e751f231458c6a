use nwd1_webtransport::codec::encode;
use nwd1_webtransport::recv::{check_header, decode_body};
use nwd1_webtransport::wire::{check_caps, magic_matches, read_declared_len};
use nwd1_webtransport::{
    recv_frame, send_frame, ByteReader, Frame, NoFailure, ReadEvent, Receiver, RecvError, Step,
    TransportFailure, DEFAULT_FRAME_LEN_SOFT, MAX_FRAME_LEN_HARD,
};

const EOF_INSIDE: RecvError<NoFailure> = RecvError::Transport(TransportFailure::UnexpectedEof);

fn frame_with(payload: Vec<u8>) -> Frame {
    Frame { id: 0x0100_0700_0000_002A, kind: 1, ver: 1, payload }
}

fn header(magic: [u8; 4], len: u32) -> Vec<u8> {
    let mut h = magic.to_vec();
    h.extend_from_slice(&len.to_be_bytes());
    h
}

fn finished<E>(step: Step<E>) -> Result<Option<Frame>, RecvError<E>> {
    match step {
        Step::Finished(result) => result,
        Step::More(_) => panic!("the receiver wants another read"),
    }
}

fn more<E>(step: Step<E>) -> Receiver<E> {
    match step {
        Step::More(rx) => rx,
        Step::Finished(_) => panic!("the receiver has finished"),
    }
}

#[test]
fn caps_are_8_mib_and_256_kib() {
    assert_eq!(MAX_FRAME_LEN_HARD, 8_388_608);
    assert_eq!(DEFAULT_FRAME_LEN_SOFT, 262_144);
}

#[test]
fn clean_close_on_an_empty_stream() {
    let mut reader = ByteReader::new(Vec::new());
    assert_eq!(recv_frame(&mut reader, DEFAULT_FRAME_LEN_SOFT), Ok(None));
    assert_eq!(recv_frame(&mut reader, 0), Ok(None));
}

#[test]
fn truncated_header_is_a_transport_failure() {
    let wire = encode(&frame_with(b"hello".to_vec()));
    for n in 1..8 {
        let mut reader = ByteReader::new(wire[..n].to_vec());
        assert_eq!(recv_frame(&mut reader, DEFAULT_FRAME_LEN_SOFT), Err(EOF_INSIDE));
        assert_eq!(reader.remaining(), 0);
    }
}

#[test]
fn any_wrong_magic_byte_is_bad_magic() {
    let wire = encode(&frame_with(b"hello".to_vec()));
    for i in 0..4 {
        for flip in [0x01u8, 0x80, 0xFF] {
            let mut bad = wire.clone();
            bad[i] ^= flip;
            let mut reader = ByteReader::new(bad);
            assert_eq!(recv_frame(&mut reader, DEFAULT_FRAME_LEN_SOFT), Err(RecvError::BadMagic));
            // the body stays unread
            assert_eq!(reader.remaining(), wire.len() - 8);
        }
    }
}

#[test]
fn bad_magic_comes_before_the_caps() {
    let mut reader = ByteReader::new(header(*b"NWD2", u32::MAX));
    assert_eq!(recv_frame(&mut reader, 16), Err(RecvError::BadMagic));
}

#[test]
fn length_over_the_soft_cap_is_too_large() {
    let wire = encode(&frame_with(vec![7; 100]));
    let mut reader = ByteReader::new(wire.clone());
    assert_eq!(recv_frame(&mut reader, 116), Err(RecvError::FrameTooLarge));
    assert_eq!(reader.remaining(), wire.len() - 8);
    let mut reader = ByteReader::new(wire);
    assert_eq!(recv_frame(&mut reader, 117), Ok(Some(frame_with(vec![7; 100]))));
    assert_eq!(reader.remaining(), 0);
}

#[test]
fn length_over_the_hard_ceiling_is_too_large_under_any_soft_cap() {
    let declared = (MAX_FRAME_LEN_HARD + 1) as u32;
    for soft_cap in [MAX_FRAME_LEN_HARD + 1, MAX_FRAME_LEN_HARD * 4, usize::MAX] {
        let mut reader = ByteReader::new(header(*b"NWD1", declared));
        assert_eq!(recv_frame(&mut reader, soft_cap), Err(RecvError::FrameTooLarge));
    }
    let mut reader = ByteReader::new(header(*b"NWD1", u32::MAX));
    assert_eq!(recv_frame(&mut reader, usize::MAX), Err(RecvError::FrameTooLarge));
}

#[test]
fn length_at_the_hard_ceiling_passes_the_caps() {
    let payload = vec![0x5A; MAX_FRAME_LEN_HARD - 17];
    let frame = frame_with(payload);
    let mut reader = ByteReader::new(encode(&frame));
    assert_eq!(recv_frame(&mut reader, usize::MAX), Ok(Some(frame)));
}

#[test]
fn check_caps_takes_the_smaller_cap() {
    assert!(check_caps(0, 0));
    assert!(!check_caps(1, 0));
    assert!(check_caps(100, 100));
    assert!(!check_caps(101, 100));
    assert!(check_caps(8_388_608, usize::MAX));
    assert!(!check_caps(8_388_609, usize::MAX));
    assert!(!check_caps(8_388_608, 8_388_607));
}

#[test]
fn header_fields_are_read_as_laid_out() {
    let h = [0x4E, 0x57, 0x44, 0x31, 0x01, 0x02, 0x03, 0x04];
    assert!(magic_matches(&h));
    assert_eq!(read_declared_len(&h), 0x0102_0304);
    assert!(!magic_matches(&[0x4E, 0x57, 0x44, 0x30, 0, 0, 0, 0]));
    assert_eq!(read_declared_len(&[0, 0, 0, 0, 0xFF, 0xFF, 0xFF, 0xFF]), u32::MAX);
    assert_eq!(read_declared_len(&[0, 0, 0, 0, 0, 0, 1, 0]), 256);
}

#[test]
fn check_header_judges_magic_then_caps() {
    let ok = [0x4E, 0x57, 0x44, 0x31, 0, 0, 0, 64];
    assert_eq!(check_header::<NoFailure>(&ok, 64), Ok(()));
    assert_eq!(check_header::<NoFailure>(&ok, 63), Err(RecvError::FrameTooLarge));
    let bad = [0x4E, 0x57, 0x44, 0x00, 0, 0, 0, 64];
    assert_eq!(check_header::<NoFailure>(&bad, 63), Err(RecvError::BadMagic));
}

#[test]
fn truncated_body_is_a_transport_failure() {
    let wire = encode(&frame_with(b"hello".to_vec()));
    for n in 8..wire.len() {
        let mut reader = ByteReader::new(wire[..n].to_vec());
        assert_eq!(recv_frame(&mut reader, DEFAULT_FRAME_LEN_SOFT), Err(EOF_INSIDE));
        assert_eq!(reader.remaining(), 0);
    }
}

#[test]
fn body_below_the_fixed_fields_is_a_decode_failure() {
    for len in 0..17u32 {
        let mut wire = header(*b"NWD1", len);
        wire.extend(std::iter::repeat(0xEE).take(len as usize));
        wire.extend_from_slice(b"next");
        let mut reader = ByteReader::new(wire);
        assert_eq!(recv_frame(&mut reader, DEFAULT_FRAME_LEN_SOFT), Err(RecvError::DecodeFailure));
        // the body was read all the same
        assert_eq!(reader.remaining(), 4);
    }
}

#[test]
fn decode_body_joins_header_and_body() {
    let wire = encode(&frame_with(b"hello".to_vec()));
    let h: [u8; 8] = wire[..8].try_into().expect("eight bytes");
    assert_eq!(
        decode_body::<NoFailure>(&h, &wire[8..].to_vec()),
        Ok(Some(frame_with(b"hello".to_vec())))
    );
    let short = [0x4E, 0x57, 0x44, 0x31, 0, 0, 0, 3];
    assert_eq!(decode_body::<NoFailure>(&short, &vec![1, 2, 3]), Err(RecvError::DecodeFailure));
}

#[test]
fn zero_length_payload_round_trips() {
    let frame = frame_with(Vec::new());
    let mut wire = Vec::new();
    assert_eq!(send_frame(&mut wire, &frame), Ok(()));
    assert_eq!(wire.len(), 25);
    assert_eq!(&wire[4..8], &[0, 0, 0, 17]);
    let mut reader = ByteReader::new(wire);
    assert_eq!(recv_frame(&mut reader, 17), Ok(Some(frame)));
    assert_eq!(reader.remaining(), 0);
}

#[test]
fn hello_round_trips_in_memory() {
    let frame = frame_with(b"hello".to_vec());
    let mut wire = Vec::new();
    assert_eq!(send_frame(&mut wire, &frame), Ok(()));
    let mut reader = ByteReader::new(wire);
    let got = recv_frame(&mut reader, DEFAULT_FRAME_LEN_SOFT).expect("io ok").expect("some");
    assert_eq!(got.id, 0x0100_0700_0000_002A);
    assert_eq!(got.kind, 1);
    assert_eq!(got.ver, 1);
    assert_eq!(got.payload, b"hello".to_vec());
}

#[test]
fn frames_come_out_in_the_order_sent() {
    let first = frame_with(b"first".to_vec());
    let second = Frame { id: 2, kind: 3, ver: 4, payload: vec![0; 2000] };
    let third = frame_with(Vec::new());
    let mut wire = vec![];
    for frame in [&first, &second, &third] {
        assert_eq!(send_frame(&mut wire, frame), Ok(()));
    }
    assert_eq!(wire.len(), 3 * 25 + 5 + 2000);
    let mut reader = ByteReader::new(wire);
    assert_eq!(recv_frame(&mut reader, 4096), Ok(Some(first)));
    assert_eq!(recv_frame(&mut reader, 4096), Ok(Some(second)));
    assert_eq!(recv_frame(&mut reader, 4096), Ok(Some(third)));
    assert_eq!(recv_frame(&mut reader, 4096), Ok(None));
}

#[test]
fn send_appends_behind_what_is_there() {
    let mut wire = vec![1, 2, 3];
    assert_eq!(send_frame(&mut wire, &frame_with(vec![9])), Ok(()));
    assert_eq!(&wire[..3], &[1, 2, 3]);
    assert_eq!(&wire[3..], &encode(&frame_with(vec![9]))[..]);
}

#[test]
fn byte_reader_reads_exactly_or_reports_the_close() {
    let mut reader = ByteReader::new(vec![1, 2, 3, 4, 5]);
    assert_eq!(reader.remaining(), 5);
    assert_eq!(reader.read_exact(0), ReadEvent::Filled(vec![]));
    assert_eq!(reader.read_exact(2), ReadEvent::Filled(vec![1, 2]));
    assert_eq!(reader.remaining(), 3);
    assert_eq!(reader.read_exact(4), ReadEvent::Closed { got: 3 });
    assert_eq!(reader.remaining(), 0);
    assert_eq!(reader.read_exact(1), ReadEvent::Closed { got: 0 });
    assert_eq!(reader.read_exact(0), ReadEvent::Filled(vec![]));
}

#[test]
fn receiver_wants_the_header_then_the_declared_body() {
    let rx: Receiver<NoFailure> = Receiver::new(1024);
    assert_eq!(rx.soft_cap(), 1024);
    assert_eq!(rx.wanted(), 8);
    let rx = more(rx.step(ReadEvent::Filled(header(*b"NWD1", 300))));
    assert_eq!(rx.wanted(), 300);
    assert_eq!(rx.soft_cap(), 1024);
}

#[test]
fn receiver_finishes_with_the_frame() {
    let frame = frame_with(b"hello".to_vec());
    let wire = encode(&frame);
    let rx: Receiver<NoFailure> = Receiver::new(1024);
    let rx = more(rx.step(ReadEvent::Filled(wire[..8].to_vec())));
    assert_eq!(rx.wanted(), 22);
    assert_eq!(finished(rx.step(ReadEvent::Filled(wire[8..].to_vec()))), Ok(Some(frame)));
}

#[test]
fn receiver_tells_close_at_byte_zero_from_close_inside_the_header() {
    let rx: Receiver<NoFailure> = Receiver::new(1024);
    assert_eq!(finished(rx.step(ReadEvent::Closed { got: 0 })), Ok(None));
    for got in [1usize, 4, 7, 8, 100] {
        let rx: Receiver<NoFailure> = Receiver::new(1024);
        assert_eq!(finished(rx.step(ReadEvent::Closed { got })), Err(EOF_INSIDE));
    }
}

#[test]
fn receiver_takes_any_close_inside_the_body_as_failure() {
    for got in [0usize, 1, 21] {
        let rx: Receiver<NoFailure> = Receiver::new(1024);
        let rx = more(rx.step(ReadEvent::Filled(header(*b"NWD1", 22))));
        assert_eq!(finished(rx.step(ReadEvent::Closed { got })), Err(EOF_INSIDE));
    }
}

#[test]
fn receiver_hands_the_transports_cause_on() {
    let rx: Receiver<&str> = Receiver::new(1024);
    assert_eq!(
        finished(rx.step(ReadEvent::Failed("reset by peer"))),
        Err(RecvError::Transport(TransportFailure::Io("reset by peer")))
    );
    let rx: Receiver<u32> = Receiver::new(1024);
    let rx = more(rx.step(ReadEvent::Filled(header(*b"NWD1", 22))));
    assert_eq!(
        finished(rx.step(ReadEvent::Failed(104))),
        Err(RecvError::Transport(TransportFailure::Io(104)))
    );
}

#[test]
fn receiver_takes_a_read_of_the_wrong_size_as_cut_short() {
    for n in [0usize, 7, 9] {
        let rx: Receiver<NoFailure> = Receiver::new(1024);
        assert_eq!(finished(rx.step(ReadEvent::Filled(vec![0x4E; n]))), Err(EOF_INSIDE));
    }
    for n in [0usize, 21, 23] {
        let rx: Receiver<NoFailure> = Receiver::new(1024);
        let rx = more(rx.step(ReadEvent::Filled(header(*b"NWD1", 22))));
        assert_eq!(finished(rx.step(ReadEvent::Filled(vec![0; n]))), Err(EOF_INSIDE));
    }
}

#[test]
fn receiver_reads_an_empty_body_before_it_fails_to_decode() {
    let rx: Receiver<NoFailure> = Receiver::new(1024);
    let rx = more(rx.step(ReadEvent::Filled(header(*b"NWD1", 0))));
    assert_eq!(rx.wanted(), 0);
    assert_eq!(finished(rx.step(ReadEvent::Filled(vec![]))), Err(RecvError::DecodeFailure));
}

#[test]
fn failures_have_their_texts() {
    let texts: Vec<&str> = vec![
        RecvError::<NoFailure>::BadMagic.description(),
        RecvError::<NoFailure>::FrameTooLarge.description(),
        RecvError::<NoFailure>::DecodeFailure.description(),
        EOF_INSIDE.description(),
        RecvError::Transport(TransportFailure::Io(NoFailure)).description(),
    ];
    assert_eq!(
        texts,
        vec![
            "nwd1 bad magic",
            "nwd1 frame too large",
            "nwd1 decode error",
            "nwd1 stream ended inside a frame",
            "nwd1 transport failure",
        ]
    );
}

#[test]
fn only_wrong_bytes_are_protocol_violations() {
    assert!(RecvError::<NoFailure>::BadMagic.is_protocol_violation());
    assert!(RecvError::<NoFailure>::FrameTooLarge.is_protocol_violation());
    assert!(RecvError::<NoFailure>::DecodeFailure.is_protocol_violation());
    assert!(!EOF_INSIDE.is_protocol_violation());
    assert!(!RecvError::Transport(TransportFailure::Io(NoFailure)).is_protocol_violation());
}
