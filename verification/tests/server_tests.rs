use conetty::errors::{Error, WireError};
use conetty::buf::{ReqBuf, RspBuf};
use conetty::frame::{DecodeError, Frame, MAX_FRAME, STATUS_OK, STATUS_STRING};
use conetty::server::{datagram_request, handle_request, next_action, read_request};
use conetty::server::{ConnAction, Server, MAX_DATAGRAM};

struct Echo;

impl Server for Echo {
    fn service(&self, req: &[u8], rsp: &mut RspBuf) -> Result<(), WireError> {
        rsp.write_all(req)
    }
}

struct Busy;

impl Server for Busy {
    fn service(&self, _req: &[u8], rsp: &mut RspBuf) -> Result<(), WireError> {
        let _ = rsp.write(b"discarded");
        Err(WireError::Status("timeout".to_owned()))
    }
}

struct Broken;

impl Server for Broken {
    fn service(&self, _req: &[u8], _rsp: &mut RspBuf) -> Result<(), WireError> {
        Err(WireError::ServerSerialize("no shape".to_owned()))
    }
}

fn request(id: u64, payload: &[u8]) -> Vec<u8> {
    let mut req = ReqBuf::new();
    assert!(req.write_all(payload).is_ok());
    req.finish(id)
}

#[test]
fn datagram_buffer_holds_a_kilobyte() {
    assert_eq!(MAX_DATAGRAM, 1024);
}

#[test]
fn echo_answers_with_the_payload_and_the_id() {
    let req = Frame::decode(&request(41, b"Hello")).unwrap();
    let data = handle_request(&Echo, &req);
    let rsp = Frame::decode(&data).unwrap();
    assert_eq!(rsp.id(), 41);
    assert_eq!(rsp.status(), STATUS_OK);
    assert_eq!(rsp.decode_rsp().unwrap(), b"Hello");
    assert_eq!(rsp.as_bytes().len(), data.len());
}

#[test]
fn a_failing_service_is_encoded_not_raised() {
    let req = Frame::decode(&request(42, b"bbbbbb")).unwrap();
    let data = handle_request(&Busy, &req);
    let rsp = Frame::decode(&data).unwrap();
    assert_eq!(rsp.id(), 42);
    assert_eq!(rsp.status(), STATUS_STRING);
    assert_eq!(rsp.payload(), b"timeout");
    match rsp.decode_rsp() {
        Err(Error::Status(msg)) => assert_eq!(msg, "timeout"),
        other => panic!("unexpected: {:?}", other),
    }
    let data = handle_request(&Broken, &req);
    match Frame::decode(&data).unwrap().decode_rsp() {
        Err(Error::ServerSerialize(msg)) => assert_eq!(msg, "no shape"),
        other => panic!("unexpected: {:?}", other),
    }
}

#[test]
fn every_id_is_echoed() {
    for id in [0u64, 1, 255, 256, 1 << 32, u64::MAX - 1, u64::MAX] {
        let req = Frame::decode(&request(id, b"x")).unwrap();
        let rsp = Frame::decode(&handle_request(&Echo, &req)).unwrap();
        assert_eq!(rsp.id(), id);
    }
}

#[test]
fn connection_dispatches_frames_and_ends_on_errors() {
    match next_action(Frame::decode(&request(3, b"abc"))) {
        ConnAction::Dispatch(frame) => {
            assert_eq!(frame.id(), 3);
            assert_eq!(frame.decode_req(), b"abc");
        }
        other => panic!("unexpected: {:?}", other),
    }
    assert!(matches!(next_action(Err(DecodeError::Closed)), ConnAction::Close));
    assert!(matches!(next_action(Err(DecodeError::UnexpectedEof)), ConnAction::Close));
    assert!(matches!(next_action(Err(DecodeError::InvalidLength)), ConnAction::Abort));
}

#[test]
fn oversize_frame_tears_the_connection_down() {
    let mut bytes = Vec::new();
    bytes.extend_from_slice(&(MAX_FRAME as u32 + 1).to_le_bytes());
    bytes.extend_from_slice(&[0u8; 9]);
    assert!(matches!(read_request(bytes.clone()), ConnAction::Abort));
    // Another connection goes on with its own bytes.
    assert!(matches!(read_request(request(1, b"ok")), ConnAction::Dispatch(_)));
    // An undersized length is a protocol error too.
    let mut small = Vec::new();
    small.extend_from_slice(&12u32.to_le_bytes());
    small.extend_from_slice(&[0u8; 9]);
    assert!(matches!(read_request(small), ConnAction::Abort));
}

#[test]
fn end_of_stream_closes_the_connection() {
    assert!(matches!(read_request(Vec::new()), ConnAction::Close));
    let mut cut = request(1, b"abcdef");
    cut.truncate(15);
    assert!(matches!(read_request(cut), ConnAction::Close));
    assert!(matches!(read_request(vec![13, 0]), ConnAction::Close));
}

#[test]
fn datagram_with_a_frame_is_a_request() {
    let mut packet = request(77, b"ping");
    let frame = datagram_request(&packet).unwrap();
    assert_eq!(frame.id(), 77);
    assert_eq!(frame.decode_req(), b"ping");
    // Bytes behind the frame do not matter.
    packet.extend_from_slice(&[9, 9, 9]);
    let frame = datagram_request(&packet).unwrap();
    assert_eq!(frame.decode_req(), b"ping");
}

#[test]
fn datagram_without_a_frame_is_dropped() {
    assert!(datagram_request(&[]).is_none());
    assert!(datagram_request(&[1, 2, 3]).is_none());
    let mut cut = request(1, b"abcdef");
    cut.pop();
    assert!(datagram_request(&cut).is_none());
    let mut bad = request(1, b"abcdef");
    bad[0] = 5;
    assert!(datagram_request(&bad).is_none());
}
