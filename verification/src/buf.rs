//! The builders of frames: a request or a response grows its payload in a
//! buffer that has room for the header in front, and `finish` fills the
//! header in.

use crate::errors::{lift, Error, ErrorView, WireError, WireErrorView};
use crate::frame::{encode, lemma_round_trip, outcome, parse, DecodeError, FrameView};
use crate::frame::{HEADER_LEN, MAX_FRAME, MAX_PAYLOAD};
use crate::frame::{STATUS_OK, STATUS_REQUEST, STATUS_SERVER_SERIALIZE, STATUS_STRING};
use crate::le_bytes::{put_u32, put_u64};
use vstd::prelude::*;
use vstd::slice::slice_subrange;
use vstd::string::StringSliceAdditionalSpecFns;
use vstd::utf8::{encode_utf8, encode_utf8_decode_utf8, encode_utf8_valid_utf8};

verus! {

/// The payload behind the header in a builder's buffer. A buffer that
/// nothing was written to is empty and stands for an empty payload.
pub open spec fn payload_of(data: Seq<u8>) -> Seq<u8> {
    if data.len() < HEADER_LEN {
        Seq::<u8>::empty()
    } else {
        data.subrange(HEADER_LEN as int, data.len() as int)
    }
}

/// Fills in the header of a builder's buffer.
fn seal(data: Vec<u8>, id: u64, status: u8) -> (bytes: Vec<u8>)
    requires
        HEADER_LEN <= data.len() <= MAX_FRAME,
    ensures
        bytes@ == encode(id, status, payload_of(data@)),
{
    let mut bytes = data;
    let len = bytes.len();
    put_u32(&mut bytes, 0, len as u32);
    put_u64(&mut bytes, 4, id);
    bytes.set(12, status);
    assert(bytes@ =~= encode(id, status, payload_of(data@)));
    bytes
}

/// A buffer with room for a header and nothing behind it.
fn blank() -> (data: Vec<u8>)
    ensures
        data.len() == HEADER_LEN,
        payload_of(data@) == Seq::<u8>::empty(),
{
    let mut data: Vec<u8> = Vec::new();
    let mut i: usize = 0;
    while i < HEADER_LEN
        invariant
            i <= HEADER_LEN,
            data.len() == i,
        decreases HEADER_LEN - i,
    {
        data.push(0u8);
        i = i + 1;
    }
    assert(payload_of(data@) =~= Seq::<u8>::empty());
    data
}

/// How much of `wanted` bytes fits behind a payload of `held` bytes.
pub open spec fn accepted(held: nat, wanted: nat) -> nat {
    if held + wanted <= MAX_PAYLOAD {
        wanted
    } else {
        (MAX_PAYLOAD - held) as nat
    }
}

/// The growing buffer of a frame under construction: the header's room,
/// once anything was written, and the payload behind it.
#[derive(Debug)]
struct FrameBuf {
    data: Vec<u8>,
}

impl FrameBuf {
    #[verifier::type_invariant]
    spec fn well_formed(&self) -> bool {
        self.data.len() == 0 || HEADER_LEN <= self.data.len() <= MAX_FRAME
    }

    spec fn payload(&self) -> Seq<u8> {
        payload_of(self.data@)
    }

    fn new() -> (buf: FrameBuf)
        ensures
            buf.payload() == Seq::<u8>::empty(),
    {
        FrameBuf { data: Vec::new() }
    }

    fn len(&self) -> (n: usize)
        ensures
            n == self.payload().len(),
            n <= MAX_PAYLOAD,
    {
        proof {
            use_type_invariant(self);
        }
        if self.data.len() < HEADER_LEN {
            0
        } else {
            self.data.len() - HEADER_LEN
        }
    }

    fn write(&mut self, bytes: &[u8]) -> (n: usize)
        ensures
            old(self).payload().len() <= MAX_PAYLOAD,
            n == accepted(old(self).payload().len(), bytes@.len()),
            final(self).payload() == old(self).payload() + bytes@.subrange(0, n as int),
    {
        proof {
            use_type_invariant(&*self);
        }
        let mut data: Vec<u8> = Vec::new();
        core::mem::swap(&mut self.data, &mut data);
        if data.len() < HEADER_LEN {
            data = blank();
        }
        let room = MAX_FRAME - data.len();
        let n = if bytes.len() <= room {
            bytes.len()
        } else {
            room
        };
        let ghost before = data@;
        data.extend_from_slice(slice_subrange(bytes, 0, n));
        assert(payload_of(data@) =~= payload_of(before) + bytes@.subrange(0, n as int));
        core::mem::swap(&mut self.data, &mut data);
        n
    }

    fn finish(self, id: u64, status: u8) -> (bytes: Vec<u8>)
        ensures
            self.payload().len() <= MAX_PAYLOAD,
            bytes@ == encode(id, status, self.payload()),
    {
        proof {
            use_type_invariant(&self);
        }
        let data = if self.data.len() < HEADER_LEN {
            blank()
        } else {
            self.data
        };
        seal(data, id, status)
    }
}

/// Builds a request: the payload is written piece by piece, and `finish`
/// puts the header in front.
#[derive(Debug)]
pub struct ReqBuf {
    buf: FrameBuf,
}

impl View for ReqBuf {
    type V = Seq<u8>;

    /// The payload written so far.
    closed spec fn view(&self) -> Seq<u8> {
        self.buf.payload()
    }
}

impl ReqBuf {
    /// A request without payload.
    pub fn new() -> (req: ReqBuf)
        ensures
            req@ == Seq::<u8>::empty(),
    {
        ReqBuf { buf: FrameBuf::new() }
    }

    /// How many bytes of payload were written.
    pub fn len(&self) -> (n: usize)
        ensures
            n == self@.len(),
            n <= MAX_PAYLOAD,
    {
        self.buf.len()
    }

    /// Appends as much of `bytes` as the frame has room for, and says how
    /// many bytes that was.
    pub fn write(&mut self, bytes: &[u8]) -> (n: usize)
        ensures
            n == accepted(old(self)@.len(), bytes@.len()),
            final(self)@ == old(self)@ + bytes@.subrange(0, n as int),
    {
        self.buf.write(bytes)
    }

    /// Appends all of `bytes`, or nothing where they do not fit.
    pub fn write_all(&mut self, bytes: &[u8]) -> (r: Result<(), Error>)
        ensures
            r is Ok <==> old(self)@.len() + bytes@.len() <= MAX_PAYLOAD,
            r is Ok ==> final(self)@ == old(self)@ + bytes@,
            r is Err ==> final(self)@ == old(self)@ && r->Err_0@ == ErrorView::ClientSerialize(
                "payload exceeds the frame limit"@,
            ),
    {
        if bytes.len() > MAX_PAYLOAD - self.buf.len() {
            return Err(Error::ClientSerialize(oversize_message()));
        }
        let n = self.buf.write(bytes);
        assert(bytes@.subrange(0, n as int) =~= bytes@);
        Ok(())
    }

    /// The request's frame with correlation id `id`, ready to be sent in one
    /// write.
    pub fn finish(self, id: u64) -> (bytes: Vec<u8>)
        ensures
            self@.len() <= MAX_PAYLOAD,
            bytes@ == encode(id, STATUS_REQUEST, self@),
    {
        self.buf.finish(id, STATUS_REQUEST)
    }
}

/// The message of the error for a payload that does not fit in a frame.
fn oversize_message() -> (msg: String)
    ensures
        msg@ == "payload exceeds the frame limit"@,
{
    "payload exceeds the frame limit".to_owned()
}

/// The payload that carries an error message: its UTF-8 bytes, or nothing
/// where they would not fit in a frame.
pub open spec fn message_bytes(msg: Seq<char>) -> Seq<u8> {
    if encode_utf8(msg).len() <= MAX_PAYLOAD {
        encode_utf8(msg)
    } else {
        Seq::<u8>::empty()
    }
}

/// The response frame for what a service wrote and returned.
pub open spec fn response_bytes(id: u64, written: Seq<u8>, ret: Result<(), WireErrorView>) -> Seq<
    u8,
> {
    match ret {
        Ok(_) => encode(id, STATUS_OK, written),
        Err(WireErrorView::ServerSerialize(msg)) => encode(
            id,
            STATUS_SERVER_SERIALIZE,
            message_bytes(msg),
        ),
        Err(WireErrorView::Status(msg)) => encode(id, STATUS_STRING, message_bytes(msg)),
    }
}

/// What a service returned, with the message of an error as characters.
pub open spec fn result_view(ret: Result<(), WireError>) -> Result<(), WireErrorView> {
    match ret {
        Ok(_) => Ok(()),
        Err(e) => Err(e@),
    }
}

/// A frame whose header is filled in and whose payload is `msg`, or empty
/// where `msg` does not fit.
fn message_frame(id: u64, status: u8, msg: &String) -> (bytes: Vec<u8>)
    ensures
        bytes@ == encode(id, status, message_bytes(msg@)),
{
    let text = msg.as_str().as_bytes();
    let mut buf = FrameBuf::new();
    if text.len() <= MAX_PAYLOAD {
        let n = buf.write(text);
        assert(text@.subrange(0, n as int) =~= text@);
    }
    buf.finish(id, status)
}

/// Builds a response: the service writes the payload piece by piece, and
/// `finish` puts the header in front.
#[derive(Debug)]
pub struct RspBuf {
    buf: FrameBuf,
}

impl View for RspBuf {
    type V = Seq<u8>;

    /// The payload written so far.
    closed spec fn view(&self) -> Seq<u8> {
        self.buf.payload()
    }
}

impl RspBuf {
    /// A response without payload.
    pub fn new() -> (rsp: RspBuf)
        ensures
            rsp@ == Seq::<u8>::empty(),
    {
        RspBuf { buf: FrameBuf::new() }
    }

    /// How many bytes of payload were written.
    pub fn len(&self) -> (n: usize)
        ensures
            n == self@.len(),
            n <= MAX_PAYLOAD,
    {
        self.buf.len()
    }

    /// Appends as much of `bytes` as the frame has room for, and says how
    /// many bytes that was.
    pub fn write(&mut self, bytes: &[u8]) -> (n: usize)
        ensures
            n == accepted(old(self)@.len(), bytes@.len()),
            final(self)@ == old(self)@ + bytes@.subrange(0, n as int),
    {
        self.buf.write(bytes)
    }

    /// Appends all of `bytes`, or nothing where they do not fit.
    pub fn write_all(&mut self, bytes: &[u8]) -> (r: Result<(), WireError>)
        ensures
            r is Ok <==> old(self)@.len() + bytes@.len() <= MAX_PAYLOAD,
            r is Ok ==> final(self)@ == old(self)@ + bytes@,
            r is Err ==> final(self)@ == old(self)@ && r->Err_0@
                == WireErrorView::ServerSerialize("payload exceeds the frame limit"@),
    {
        if bytes.len() > MAX_PAYLOAD - self.buf.len() {
            return Err(WireError::ServerSerialize(oversize_message()));
        }
        let n = self.buf.write(bytes);
        assert(bytes@.subrange(0, n as int) =~= bytes@);
        Ok(())
    }

    /// The response frame for the request with id `id`. Where the service
    /// succeeded the payload is what it wrote; where it failed the payload is
    /// its message and the status says which failure it was.
    pub fn finish(self, id: u64, ret: Result<(), WireError>) -> (bytes: Vec<u8>)
        ensures
            self@.len() <= MAX_PAYLOAD,
            bytes@ == response_bytes(id, self@, result_view(ret)),
    {
        match ret {
            Ok(_) => self.buf.finish(id, STATUS_OK),
            Err(WireError::ServerSerialize(msg)) => {
                proof {
                    use_type_invariant(&self.buf);
                }
                message_frame(id, STATUS_SERVER_SERIALIZE, &msg)
            },
            Err(WireError::Status(msg)) => {
                proof {
                    use_type_invariant(&self.buf);
                }
                message_frame(id, STATUS_STRING, &msg)
            },
        }
    }
}

/// The status byte of the response for what a service returned.
pub open spec fn response_status(ret: Result<(), WireErrorView>) -> u8 {
    match ret {
        Ok(_) => STATUS_OK,
        Err(WireErrorView::ServerSerialize(_)) => STATUS_SERVER_SERIALIZE,
        Err(WireErrorView::Status(_)) => STATUS_STRING,
    }
}

/// The payload of the response for what a service wrote and returned.
pub open spec fn response_payload(written: Seq<u8>, ret: Result<(), WireErrorView>) -> Seq<u8> {
    match ret {
        Ok(_) => written,
        Err(WireErrorView::ServerSerialize(msg)) => message_bytes(msg),
        Err(WireErrorView::Status(msg)) => message_bytes(msg),
    }
}

/// Every response is one whole frame that carries the request's id, the
/// status of what the service returned, and the matching payload.
pub proof fn lemma_response_frame(id: u64, written: Seq<u8>, ret: Result<(), WireErrorView>)
    requires
        written.len() <= MAX_PAYLOAD,
    ensures
        response_bytes(id, written, ret) == encode(
            id,
            response_status(ret),
            response_payload(written, ret),
        ),
        response_payload(written, ret).len() <= MAX_PAYLOAD,
        parse(response_bytes(id, written, ret)) == Ok::<FrameView, DecodeError>(
            FrameView {
                id,
                status: response_status(ret),
                payload: response_payload(written, ret),
            },
        ),
{
    let status = response_status(ret);
    let payload = response_payload(written, ret);
    lemma_round_trip(id, status, payload, Seq::<u8>::empty());
    assert(encode(id, status, payload) + Seq::<u8>::empty() =~= encode(id, status, payload));
}

/// A response read back by the caller is what the service returned: its
/// payload on success, its failure with the same message otherwise, as long
/// as the message fits in a frame.
pub proof fn lemma_response_round_trip(id: u64, written: Seq<u8>, ret: Result<(), WireErrorView>)
    requires
        written.len() <= MAX_PAYLOAD,
        ret matches Err(WireErrorView::ServerSerialize(msg)) ==> encode_utf8(msg).len()
            <= MAX_PAYLOAD,
        ret matches Err(WireErrorView::Status(msg)) ==> encode_utf8(msg).len() <= MAX_PAYLOAD,
    ensures
        parse(response_bytes(id, written, ret)) is Ok,
        parse(response_bytes(id, written, ret))->Ok_0.id == id,
        outcome(parse(response_bytes(id, written, ret))->Ok_0) == match ret {
            Ok(_) => Ok::<Seq<u8>, ErrorView>(written),
            Err(e) => Err::<Seq<u8>, ErrorView>(lift(e)),
        },
{
    lemma_response_frame(id, written, ret);
    match ret {
        Ok(_) => {},
        Err(WireErrorView::ServerSerialize(msg)) => {
            encode_utf8_valid_utf8(msg);
            encode_utf8_decode_utf8(msg);
        },
        Err(WireErrorView::Status(msg)) => {
            encode_utf8_valid_utf8(msg);
            encode_utf8_decode_utf8(msg);
        },
    }
}

} // verus!
