//! What a server decides: what to do with the bytes that arrive, and what to
//! answer. Receiving, sending and the fibers that run these decisions belong
//! to the transport around this library.

use crate::errors::{WireError, WireErrorView};
use crate::buf::{lemma_response_frame, response_bytes, result_view, RspBuf};
use crate::frame::{decoded_view, parse, DecodeError, Frame, FrameView, MAX_PAYLOAD};
use vstd::prelude::*;

verus! {

/// The size of the buffer that a datagram is received into.
pub const MAX_DATAGRAM: usize = 1024;

/// A service: it reads a request's payload, writes the response's payload,
/// and succeeds or says why it failed. It is called from many fibers at
/// once.
pub trait Server {
    fn service(&self, req: &[u8], rsp: &mut RspBuf) -> Result<(), WireError>;
}

/// What a stream connection does after it tried to read the next request.
#[derive(Debug)]
pub enum ConnAction {
    /// A request arrived: answer it on a fiber of its own and read on.
    Dispatch(Frame),
    /// The peer closed the stream: end the connection quietly.
    Close,
    /// The peer broke the protocol: tear the connection down.
    Abort,
}

/// `ConnAction` with the frame as a mathematical value.
pub enum ConnActionView {
    Dispatch(FrameView),
    Close,
    Abort,
}

impl View for ConnAction {
    type V = ConnActionView;

    open spec fn view(&self) -> ConnActionView {
        match self {
            ConnAction::Dispatch(frame) => ConnActionView::Dispatch(frame@),
            ConnAction::Close => ConnActionView::Close,
            ConnAction::Abort => ConnActionView::Abort,
        }
    }
}

/// What a stream connection does once the next request was decoded, or
/// could not be.
pub open spec fn conn_action(decoded: Result<FrameView, DecodeError>) -> ConnActionView {
    match decoded {
        Ok(frame) => ConnActionView::Dispatch(frame),
        Err(DecodeError::InvalidLength) => ConnActionView::Abort,
        Err(_) => ConnActionView::Close,
    }
}

/// Decides what a stream connection does after an attempt to decode the
/// next request: a frame is dispatched, the end of the stream closes the
/// connection, a malformed length tears it down.
pub fn next_action(decoded: Result<Frame, DecodeError>) -> (action: ConnAction)
    ensures
        action@ == conn_action(decoded_view(decoded)),
{
    match decoded {
        Ok(frame) => ConnAction::Dispatch(frame),
        Err(DecodeError::InvalidLength) => ConnAction::Abort,
        Err(_) => ConnAction::Close,
    }
}

/// Decides what a stream connection does with the bytes that its reader
/// holds.
pub fn read_request(bytes: Vec<u8>) -> (action: ConnAction)
    ensures
        action@ == conn_action(parse(bytes@)),
{
    next_action(Frame::from_vec(bytes))
}

/// The request that a datagram holds; none where the datagram is not one
/// whole frame from its first byte on.
pub open spec fn datagram_frame(packet: Seq<u8>) -> Option<FrameView> {
    match parse(packet) {
        Ok(frame) => Some(frame),
        Err(_) => None,
    }
}

/// Decodes the request that a datagram holds. A datagram that holds none is
/// dropped: the result is `None`.
pub fn datagram_request(packet: &[u8]) -> (req: Option<Frame>)
    ensures
        match req {
            Some(frame) => datagram_frame(packet@) == Some(frame@),
            None => datagram_frame(packet@) is None,
        },
{
    match Frame::decode(packet) {
        Ok(frame) => Some(frame),
        Err(_) => None,
    }
}

/// Whether `data` is a response to the request with id `id`: one whole
/// frame that carries `id`, built from what some service wrote and returned.
pub open spec fn answers(data: Seq<u8>, id: u64) -> bool {
    exists|written: Seq<u8>, ret: Result<(), WireErrorView>|
        written.len() <= MAX_PAYLOAD && data == #[trigger] response_bytes(id, written, ret)
}

/// What a response holds follows from what it was built from: it parses as
/// one frame and that frame carries the request's id.
pub proof fn lemma_answer_keeps_id(data: Seq<u8>, id: u64)
    requires
        answers(data, id),
    ensures
        parse(data) is Ok,
        parse(data)->Ok_0.id == id,
{
    let (written, ret) = choose|written: Seq<u8>, ret: Result<(), WireErrorView>|
        written.len() <= MAX_PAYLOAD && data == #[trigger] response_bytes(id, written, ret);
    lemma_response_frame(id, written, ret);
}

/// Answers one request: runs the service on the request's payload and
/// builds the response frame, which carries the request's id. A failure of
/// the service is encoded in the response, never raised.
pub fn handle_request<S: Server>(server: &S, req: &Frame) -> (data: Vec<u8>)
    ensures
        answers(data@, req@.id),
        parse(data@) is Ok,
        parse(data@)->Ok_0.id == req@.id,
{
    let mut rsp = RspBuf::new();
    let ret = server.service(req.decode_req(), &mut rsp);
    let ghost written = rsp@;
    let ghost outcome = result_view(ret);
    let data = rsp.finish(req.id(), ret);
    proof {
        assert(data@ == response_bytes(req@.id, written, outcome));
        lemma_answer_keeps_id(data@, req@.id);
    }
    data
}

} // verus!
