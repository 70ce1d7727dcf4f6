use conetty::errors::{Error, WireError};
use conetty::buf::{ReqBuf, RspBuf};
use conetty::frame::{DecodeError, Frame};
use conetty::frame::{HEADER_LEN, MAX_FRAME, MAX_PAYLOAD};
use conetty::frame::{STATUS_OK, STATUS_REQUEST, STATUS_SERVER_SERIALIZE, STATUS_STRING};
use conetty::le_bytes::{get_u32, get_u64, put_u32, put_u64};

fn header(len: u32, id: u64, status: u8) -> Vec<u8> {
    let mut v = Vec::new();
    v.extend_from_slice(&len.to_le_bytes());
    v.extend_from_slice(&id.to_le_bytes());
    v.push(status);
    v
}

#[test]
fn constants_fit_together() {
    assert_eq!(HEADER_LEN, 13);
    assert_eq!(MAX_FRAME, 16 * 1024 * 1024);
    assert_eq!(MAX_PAYLOAD, MAX_FRAME - HEADER_LEN);
}

#[test]
fn le_bytes_match_the_machine() {
    let mut buf = vec![0u8; 16];
    put_u32(&mut buf, 1, 0x0403_0201);
    assert_eq!(&buf[..6], &[0, 1, 2, 3, 4, 0]);
    assert_eq!(get_u32(&buf, 1), 0x0403_0201);
    put_u64(&mut buf, 8, 0x0807_0605_0403_0201);
    assert_eq!(&buf[8..], &[1, 2, 3, 4, 5, 6, 7, 8]);
    assert_eq!(get_u64(&buf, 8), 0x0807_0605_0403_0201);
    assert_eq!(get_u64(&buf, 8), u64::from_le_bytes([1, 2, 3, 4, 5, 6, 7, 8]));
    put_u32(&mut buf, 0, u32::MAX);
    assert_eq!(get_u32(&buf, 0), u32::MAX);
    put_u64(&mut buf, 0, u64::MAX);
    assert_eq!(get_u64(&buf, 0), u64::MAX);
}

#[test]
fn request_layout() {
    let mut req = ReqBuf::new();
    assert!(req.write_all(b"Hello").is_ok());
    assert_eq!(req.len(), 5);
    let bytes = req.finish(7);
    let mut expected = header(18, 7, STATUS_REQUEST);
    expected.extend_from_slice(b"Hello");
    assert_eq!(bytes, expected);
}

#[test]
fn empty_request_is_a_bare_header() {
    let bytes = ReqBuf::new().finish(0x0102_0304_0506_0708);
    assert_eq!(bytes, header(13, 0x0102_0304_0506_0708, STATUS_REQUEST));
    let frame = Frame::decode(&bytes).unwrap();
    assert_eq!(frame.id(), 0x0102_0304_0506_0708);
    assert_eq!(frame.status(), STATUS_REQUEST);
    assert!(frame.payload().is_empty());
}

#[test]
fn request_round_trip() {
    let mut req = ReqBuf::new();
    assert_eq!(req.write(b"Hel"), 3);
    assert_eq!(req.write(b"lo"), 2);
    let bytes = req.finish(u64::MAX);
    let frame = Frame::decode(&bytes).unwrap();
    assert_eq!(frame.id(), u64::MAX);
    assert_eq!(frame.status(), STATUS_REQUEST);
    assert_eq!(frame.decode_req(), b"Hello");
    assert_eq!(frame.as_bytes(), &bytes[..]);
}

#[test]
fn round_trip_at_the_largest_payload() {
    let payload = vec![0xabu8; MAX_PAYLOAD];
    let mut req = ReqBuf::new();
    assert!(req.write_all(&payload).is_ok());
    let bytes = req.finish(1);
    assert_eq!(bytes.len(), MAX_FRAME);
    let frame = Frame::from_vec(bytes).unwrap();
    assert_eq!(frame.id(), 1);
    assert_eq!(frame.payload().len(), MAX_PAYLOAD);
    assert!(frame.payload().iter().all(|b| *b == 0xab));
}

#[test]
fn builder_takes_no_more_than_fits() {
    let mut req = ReqBuf::new();
    assert!(req.write_all(&vec![1u8; MAX_PAYLOAD - 2]).is_ok());
    match req.write_all(b"abc") {
        Err(Error::ClientSerialize(msg)) => assert_eq!(msg, "payload exceeds the frame limit"),
        other => panic!("unexpected: {:?}", other),
    }
    assert_eq!(req.len(), MAX_PAYLOAD - 2);
    assert_eq!(req.write(b"abc"), 2);
    assert_eq!(req.len(), MAX_PAYLOAD);
    assert_eq!(req.write(b"abc"), 0);
    let bytes = req.finish(3);
    assert_eq!(bytes.len(), MAX_FRAME);
    assert_eq!(&bytes[MAX_FRAME - 3..], &[1, b'a', b'b']);

    let mut rsp = RspBuf::new();
    assert!(rsp.write_all(&vec![1u8; MAX_PAYLOAD]).is_ok());
    match rsp.write_all(b"x") {
        Err(WireError::ServerSerialize(msg)) => {
            assert_eq!(msg, "payload exceeds the frame limit")
        }
        other => panic!("unexpected: {:?}", other),
    }
    assert_eq!(rsp.len(), MAX_PAYLOAD);
}

#[test]
fn decode_ignores_what_follows_the_frame() {
    let mut bytes = header(15, 9, STATUS_OK);
    bytes.extend_from_slice(&[1, 2, 3, 4, 5]);
    let frame = Frame::decode(&bytes).unwrap();
    assert_eq!(frame.id(), 9);
    assert_eq!(frame.payload(), &[1, 2]);
    assert_eq!(frame.as_bytes(), &bytes[..15]);
    let owned = Frame::from_vec(bytes.clone()).unwrap();
    assert_eq!(owned.as_bytes(), &bytes[..15]);
    assert_eq!(owned.id(), 9);
}

#[test]
fn decode_tells_the_failures_apart() {
    assert_eq!(Frame::decode(&[]).unwrap_err(), DecodeError::Closed);
    assert_eq!(Frame::decode(&[13, 0, 0]).unwrap_err(), DecodeError::UnexpectedEof);
    assert_eq!(
        Frame::decode(&header(14, 1, 0)).unwrap_err(),
        DecodeError::UnexpectedEof
    );
    assert_eq!(
        Frame::decode(&header(12, 1, 0)).unwrap_err(),
        DecodeError::InvalidLength
    );
    assert_eq!(
        Frame::decode(&header(0, 1, 0)).unwrap_err(),
        DecodeError::InvalidLength
    );
    assert_eq!(
        Frame::decode(&header(MAX_FRAME as u32 + 1, 1, 0)).unwrap_err(),
        DecodeError::InvalidLength
    );
    assert_eq!(
        Frame::decode(&header(u32::MAX, 1, 0)).unwrap_err(),
        DecodeError::InvalidLength
    );
    assert_eq!(
        Frame::from_vec(vec![]).unwrap_err(),
        DecodeError::Closed
    );
    assert_eq!(
        Frame::from_vec(header(MAX_FRAME as u32, 1, 0)).unwrap_err(),
        DecodeError::UnexpectedEof
    );
    assert!(Frame::decode(&header(13, 1, 0)).is_ok());
}

#[test]
fn frame_len_reads_the_prefix() {
    assert_eq!(Frame::frame_len(&[13, 0, 0, 0]), Ok(13));
    assert_eq!(Frame::frame_len(&[0, 1, 0, 0, 99]), Ok(256));
    assert_eq!(Frame::frame_len(&[0, 0, 0, 1]), Ok(MAX_FRAME));
    assert_eq!(Frame::frame_len(&[1, 0, 0, 1]), Err(DecodeError::InvalidLength));
    assert_eq!(Frame::frame_len(&[12, 0, 0, 0]), Err(DecodeError::InvalidLength));
    assert_eq!(Frame::frame_len(&[]), Err(DecodeError::Closed));
    assert_eq!(Frame::frame_len(&[1]), Err(DecodeError::UnexpectedEof));
}

#[test]
fn wanted_counts_the_missing_bytes() {
    assert_eq!(Frame::wanted(&[]), Ok(4));
    assert_eq!(Frame::wanted(&[20]), Ok(3));
    assert_eq!(Frame::wanted(&[20, 0, 0, 0]), Ok(16));
    assert_eq!(Frame::wanted(&header(20, 1, 0)), Ok(7));
    assert_eq!(Frame::wanted(&header(13, 1, 0)), Ok(0));
    assert_eq!(Frame::wanted(&[13, 0, 0, 0, 9, 9, 9, 9, 9, 9, 9, 9, 9, 9, 9]), Ok(0));
    assert_eq!(Frame::wanted(&[5, 0, 0, 0]), Err(DecodeError::InvalidLength));
}

#[test]
fn response_of_a_success() {
    let mut rsp = RspBuf::new();
    assert!(rsp.write_all(b"pong").is_ok());
    let bytes = rsp.finish(21, Ok(()));
    let mut expected = header(17, 21, STATUS_OK);
    expected.extend_from_slice(b"pong");
    assert_eq!(bytes, expected);
    let frame = Frame::decode(&bytes).unwrap();
    assert_eq!(frame.decode_rsp().unwrap(), b"pong");
}

#[test]
fn response_of_a_status_replaces_the_payload() {
    let mut rsp = RspBuf::new();
    assert!(rsp.write_all(b"half written").is_ok());
    let bytes = rsp.finish(5, Err(WireError::Status("timeout".to_owned())));
    let mut expected = header(20, 5, STATUS_STRING);
    expected.extend_from_slice(b"timeout");
    assert_eq!(bytes, expected);
    let frame = Frame::decode(&bytes).unwrap();
    assert_eq!(frame.id(), 5);
    match frame.decode_rsp() {
        Err(Error::Status(msg)) => assert_eq!(msg, "timeout"),
        other => panic!("unexpected: {:?}", other),
    }
}

#[test]
fn response_of_a_serialize_failure() {
    let bytes = RspBuf::new().finish(6, Err(WireError::ServerSerialize("käse".to_owned())));
    let mut expected = header(18, 6, STATUS_SERVER_SERIALIZE);
    expected.extend_from_slice("käse".as_bytes());
    assert_eq!(bytes, expected);
    match Frame::decode(&bytes).unwrap().decode_rsp() {
        Err(Error::ServerSerialize(msg)) => assert_eq!(msg, "käse"),
        other => panic!("unexpected: {:?}", other),
    }
}

#[test]
fn response_with_a_message_too_long_for_a_frame() {
    let msg = "x".repeat(MAX_PAYLOAD + 1);
    let bytes = RspBuf::new().finish(8, Err(WireError::Status(msg)));
    assert_eq!(bytes, header(13, 8, STATUS_STRING));
    let fits = "y".repeat(MAX_PAYLOAD);
    let bytes = RspBuf::new().finish(8, Err(WireError::Status(fits)));
    assert_eq!(bytes.len(), MAX_FRAME);
}

#[test]
fn malformed_responses_are_client_deserialize_errors() {
    let frame = Frame::decode(&header(13, 1, 3)).unwrap();
    match frame.decode_rsp() {
        Err(Error::ClientDeserialize(msg)) => assert_eq!(msg, "unknown response status"),
        other => panic!("unexpected: {:?}", other),
    }
    let frame = Frame::decode(&header(13, 1, STATUS_REQUEST)).unwrap();
    assert!(matches!(frame.decode_rsp(), Err(Error::ClientDeserialize(_))));
    let mut bytes = header(15, 1, STATUS_STRING);
    bytes.extend_from_slice(&[0xff, 0xfe]);
    match Frame::decode(&bytes).unwrap().decode_rsp() {
        Err(Error::ClientDeserialize(msg)) => assert_eq!(msg, "error message is not UTF-8"),
        other => panic!("unexpected: {:?}", other),
    }
    let mut bytes = header(14, 1, STATUS_SERVER_SERIALIZE);
    bytes.push(0x80);
    assert!(matches!(
        Frame::decode(&bytes).unwrap().decode_rsp(),
        Err(Error::ClientDeserialize(_))
    ));
}

#[test]
fn wire_errors_become_client_errors() {
    match Error::from_wire(WireError::Status("busy".to_owned())) {
        Error::Status(msg) => assert_eq!(msg, "busy"),
        other => panic!("unexpected: {:?}", other),
    }
    match Error::from_wire(WireError::ServerSerialize("bad".to_owned())) {
        Error::ServerSerialize(msg) => assert_eq!(msg, "bad"),
        other => panic!("unexpected: {:?}", other),
    }
}
