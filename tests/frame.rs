use conetty::frame::{FRAME_MAX_LEN, RSP_HEADER_LEN};
use conetty::server::seal_reply;
use conetty::{Error, Frame, FrameBuf, FrameError, MemStream, ReqBuf, RspBuf, WireError};

fn be(v: u64) -> Vec<u8> {
    v.to_be_bytes().to_vec()
}

fn echo_round_trip(payload: &[u8], id: u64) -> Vec<u8> {
    let mut rsp = RspBuf::new();
    rsp.write_all(payload);
    let bytes = rsp.finish(id, Ok(()));
    let frame = Frame::decode(&bytes).unwrap();
    assert_eq!(frame.id, id);
    frame.decode_rsp().unwrap().to_vec()
}

#[test]
fn request_header_matches_body() {
    let mut req = ReqBuf::new();
    assert_eq!(req.write(b"hello"), 5);
    assert_eq!(req.body_len(), 5);
    let bytes = req.finish(7);
    let mut expected = be(7);
    expected.extend(be(5));
    expected.extend_from_slice(b"hello");
    assert_eq!(bytes, expected);
}

#[test]
fn empty_request_is_header_only() {
    let bytes = FrameBuf::new().finish(1);
    let mut expected = be(1);
    expected.extend(be(0));
    assert_eq!(bytes, expected);
}

#[test]
fn reply_header_matches_payload() {
    let mut rsp = RspBuf::new();
    rsp.write_all(&[1, 2, 3]);
    assert_eq!(rsp.payload_len(), 3);
    let bytes = rsp.finish(9, Ok(()));
    let mut expected = be(9);
    expected.extend(be(12));
    expected.push(0);
    expected.extend(be(3));
    expected.extend_from_slice(&[1, 2, 3]);
    assert_eq!(bytes, expected);
}

#[test]
fn error_reply_replaces_payload() {
    let mut rsp = RspBuf::new();
    rsp.write_all(b"partial output");
    let bytes = rsp.finish(4, Err(WireError::Status("bad".to_string())));
    let mut expected = be(4);
    expected.extend(be(12));
    expected.push(3);
    expected.extend(be(3));
    expected.extend_from_slice(b"bad");
    assert_eq!(bytes, expected);
}

#[test]
fn echo_round_trips_any_payload() {
    let payload: Vec<u8> = (0..1000u32).map(|i| (i * 7) as u8).collect();
    assert_eq!(echo_round_trip(&payload, 42), payload);
}

#[test]
fn echo_round_trips_boundary_sizes() {
    let max = FRAME_MAX_LEN as usize;
    for size in [0usize, 1, max - RSP_HEADER_LEN, max - 9] {
        let payload = vec![0xabu8; size];
        assert_eq!(echo_round_trip(&payload, 3), payload);
    }
}

#[test]
fn sealing_twice_gives_identical_bytes() {
    let mut a = ReqBuf::new();
    let mut b = ReqBuf::new();
    a.write_all(b"same body");
    b.write_all(b"same body");
    assert_eq!(a.finish(11), b.finish(11));
    let mut c = RspBuf::new();
    let mut d = RspBuf::new();
    c.write_all(b"reply");
    d.write_all(b"reply");
    assert_eq!(c.finish(11, Ok(())), d.finish(11, Ok(())));
}

#[test]
fn error_statuses_decode_to_their_variants() {
    let cases = [
        (WireError::ServerDeserialize("de".to_string()), 1u8),
        (WireError::ServerSerialize("ser".to_string()), 2),
        (WireError::Status("st".to_string()), 3),
    ];
    for (e, tag) in cases {
        let bytes = RspBuf::new().finish(5, Err(e));
        assert_eq!(bytes[16], tag);
        let frame = Frame::decode(&bytes).unwrap();
        match (tag, frame.decode_rsp()) {
            (1, Err(Error::ServerDeserialize(m))) => assert_eq!(m, "de"),
            (2, Err(Error::ServerSerialize(m))) => assert_eq!(m, "ser"),
            (3, Err(Error::Status(m))) => assert_eq!(m, "st"),
            (_, other) => panic!("unexpected outcome {:?}", other),
        }
    }
}

#[test]
fn malformed_replies_are_client_deserialize() {
    let mut unknown = vec![7u8];
    unknown.extend(be(0));
    let mut past_end = vec![0u8];
    past_end.extend(be(5));
    past_end.extend_from_slice(&[1, 2]);
    let mut not_utf8 = vec![3u8];
    not_utf8.extend(be(2));
    not_utf8.extend_from_slice(&[0xff, 0xfe]);
    for data in [vec![0u8; 4], unknown, past_end, not_utf8] {
        let frame = Frame { id: 1, data };
        assert!(matches!(frame.decode_rsp(), Err(Error::ClientDeserialize(_))));
    }
}

#[test]
fn trailing_bytes_after_inner_payload_are_ignored() {
    let mut data = vec![0u8];
    data.extend(be(2));
    data.extend_from_slice(&[8, 9, 10, 11]);
    let frame = Frame { id: 1, data };
    assert_eq!(frame.decode_rsp().unwrap(), &[8, 9]);
}

#[test]
fn decode_refuses_long_and_truncated_frames() {
    let mut too_long = be(1);
    too_long.extend(be(FRAME_MAX_LEN + 1));
    assert!(matches!(Frame::decode(&too_long), Err(FrameError::TooLong(n)) if n == FRAME_MAX_LEN + 1));
    let mut truncated = be(1);
    truncated.extend(be(10));
    truncated.extend_from_slice(&[1, 2, 3]);
    assert!(matches!(Frame::decode(&truncated), Err(FrameError::UnexpectedEof)));
    assert!(matches!(Frame::decode(&[0u8; 15]), Err(FrameError::UnexpectedEof)));
}

#[test]
fn decode_ignores_bytes_after_the_frame() {
    let mut bytes = be(6);
    bytes.extend(be(2));
    bytes.extend_from_slice(&[4, 5, 6, 7]);
    let frame = Frame::decode(&bytes).unwrap();
    assert_eq!(frame.id, 6);
    assert_eq!(frame.data, vec![4, 5]);
}

#[test]
fn stream_closed_mid_frame_is_unexpected_eof() {
    let mut bytes = be(2);
    bytes.extend(be(8));
    bytes.extend_from_slice(&[1, 2, 3]);
    let mut stream = MemStream::new(bytes);
    stream.close();
    assert!(matches!(Frame::decode_from(&mut stream), Err(FrameError::UnexpectedEof)));
    let mut empty = MemStream::new(vec![0, 0, 0]);
    empty.close();
    assert!(matches!(Frame::decode_from(&mut empty), Err(FrameError::UnexpectedEof)));
}

#[test]
fn stream_without_data_times_out() {
    let mut stream = MemStream::new(be(2));
    assert!(matches!(Frame::decode_from(&mut stream), Err(FrameError::TimedOut)));
}

#[test]
fn stream_header_past_limit_reads_only_the_header() {
    let mut bytes = be(1);
    bytes.extend(be(FRAME_MAX_LEN + 1));
    bytes.extend_from_slice(&[9, 9, 9]);
    let mut stream = MemStream::new(bytes);
    match Frame::decode_from(&mut stream) {
        Err(FrameError::TooLong(n)) => assert_eq!(n, FRAME_MAX_LEN + 1),
        other => panic!("unexpected outcome {:?}", other),
    }
    assert_eq!(stream.remaining(), 3);
}

#[test]
fn decode_header_reads_id_and_length() {
    let mut hdr = be(0x0102030405060708);
    hdr.extend(be(FRAME_MAX_LEN));
    assert!(matches!(Frame::decode_header(&hdr), Ok((0x0102030405060708, n)) if n == FRAME_MAX_LEN));
}

#[test]
fn largest_request_that_fits_is_sealed() {
    let mut req = ReqBuf::new();
    req.write_all(&vec![3u8; FRAME_MAX_LEN as usize - 16]);
    let bytes = req.finish(1);
    assert_eq!(bytes.len(), FRAME_MAX_LEN as usize);
    assert_eq!(Frame::decode(&bytes).unwrap().data.len(), FRAME_MAX_LEN as usize - 16);
}

#[test]
fn stream_frames_decode_in_order() {
    let mut bytes = FrameBuf::new().finish(1);
    let mut second = FrameBuf::new();
    second.write_all(b"xy");
    bytes.extend(second.finish(2));
    let mut stream = MemStream::new(bytes);
    let a = Frame::decode_from(&mut stream).unwrap();
    let b = Frame::decode_from(&mut stream).unwrap();
    assert_eq!((a.id, a.data.len()), (1, 0));
    assert_eq!((b.id, b.data), (2, b"xy".to_vec()));
}

#[test]
fn oversized_reply_becomes_serialize_error() {
    let mut rsp = RspBuf::new();
    rsp.write_all(&vec![1u8; FRAME_MAX_LEN as usize - 8]);
    let bytes = seal_reply(8, rsp, Ok(()));
    let frame = Frame::decode(&bytes).unwrap();
    assert_eq!(frame.id, 8);
    match frame.decode_rsp() {
        Err(Error::ServerSerialize(m)) => assert_eq!(m, "reply exceeds the frame limit"),
        other => panic!("unexpected outcome {:?}", other),
    }
}

#[test]
fn largest_reply_that_fits_is_kept() {
    let mut rsp = RspBuf::new();
    let payload = vec![2u8; FRAME_MAX_LEN as usize - 9];
    rsp.write_all(&payload);
    let bytes = seal_reply(8, rsp, Ok(()));
    let frame = Frame::decode(&bytes).unwrap();
    assert_eq!(frame.decode_rsp().unwrap(), payload.as_slice());
}

#[test]
fn wire_error_converts_to_error() {
    assert!(matches!(Error::from(WireError::Status("s".to_string())), Error::Status(m) if m == "s"));
    assert!(matches!(
        Error::from(WireError::ServerSerialize("a".to_string())),
        Error::ServerSerialize(m) if m == "a"
    ));
    assert!(matches!(
        Error::from(WireError::ServerDeserialize("b".to_string())),
        Error::ServerDeserialize(m) if m == "b"
    ));
}
