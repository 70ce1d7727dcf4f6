//! The frame: a length-prefixed, id-tagged container of bytes.
//!
//! On the wire a frame is `len: u32 | id: u64 | status: u8 | payload`, all
//! integers little-endian, where `len` counts the whole frame, itself
//! included.

use crate::errors::{Error, ErrorView};
use crate::le_bytes::{get_u32, get_u64, u32_from_le, u32_le, u64_from_le, u64_le};
use crate::le_bytes::{lemma_u32_bytes_round_trip, lemma_u32_round_trip};
use crate::le_bytes::{lemma_u64_bytes_round_trip, lemma_u64_round_trip};
use vstd::prelude::*;
use vstd::slice::slice_subrange;
use vstd::string::StringSliceAdditionalSpecFns;
use vstd::utf8::{decode_utf8, encode_utf8_decode_utf8, valid_utf8};

verus! {

/// Bytes in front of the payload: length, id and status.
pub const HEADER_LEN: usize = 13;

/// The longest frame that is accepted, header included.
pub const MAX_FRAME: usize = 16777216;

/// The longest payload that fits in a frame.
pub const MAX_PAYLOAD: usize = 16777203;

/// Status of a response whose payload is the service's answer.
pub const STATUS_OK: u8 = 0;

/// Status of a response whose payload says why the service could not answer.
pub const STATUS_SERVER_SERIALIZE: u8 = 1;

/// Status of a response whose payload is a status message of the service.
pub const STATUS_STRING: u8 = 2;

/// Status byte of every request.
pub const STATUS_REQUEST: u8 = 255;

/// A frame as a mathematical value.
pub struct FrameView {
    pub id: u64,
    pub status: u8,
    pub payload: Seq<u8>,
}

/// The bytes of a frame on the wire.
pub open spec fn encode(id: u64, status: u8, payload: Seq<u8>) -> Seq<u8>
    recommends
        payload.len() <= MAX_PAYLOAD,
{
    u32_le((payload.len() + HEADER_LEN) as u32) + u64_le(id) + seq![status] + payload
}

/// Why a sequence of bytes does not start with a frame.
#[derive(Debug, Clone, Copy, PartialEq, Eq, Structural)]
pub enum DecodeError {
    /// The bytes ended before any of the frame arrived.
    Closed,
    /// The bytes ended in the middle of the frame.
    UnexpectedEof,
    /// The length prefix is below the header's size or above `MAX_FRAME`.
    InvalidLength,
}

/// The length that the first four bytes announce.
pub open spec fn announced_len(bytes: Seq<u8>) -> int
    recommends
        bytes.len() >= 4,
{
    u32_from_le(bytes.subrange(0, 4))
}

/// The frame held by `bytes`, which are exactly one frame long.
pub open spec fn frame_of(bytes: Seq<u8>) -> FrameView
    recommends
        bytes.len() >= HEADER_LEN,
{
    FrameView {
        id: u64_from_le(bytes.subrange(4, 12)) as u64,
        status: bytes[12],
        payload: bytes.subrange(HEADER_LEN as int, bytes.len() as int),
    }
}

/// The frame that `bytes` start with, or why there is none. Bytes behind the
/// frame are not looked at.
pub open spec fn parse(bytes: Seq<u8>) -> Result<FrameView, DecodeError> {
    if bytes.len() == 0 {
        Err(DecodeError::Closed)
    } else if bytes.len() < 4 {
        Err(DecodeError::UnexpectedEof)
    } else if announced_len(bytes) < HEADER_LEN || announced_len(bytes) > MAX_FRAME {
        Err(DecodeError::InvalidLength)
    } else if bytes.len() < announced_len(bytes) {
        Err(DecodeError::UnexpectedEof)
    } else {
        Ok(frame_of(bytes.subrange(0, announced_len(bytes))))
    }
}

/// How many bytes are missing behind `bytes` until they hold one whole
/// frame, as far as `bytes` tell: what is missing of the length first, then
/// what is missing of the announced length.
pub open spec fn missing(bytes: Seq<u8>) -> Result<int, DecodeError> {
    if bytes.len() < 4 {
        Ok(4 - bytes.len())
    } else if announced_len(bytes) < HEADER_LEN || announced_len(bytes) > MAX_FRAME {
        Err(DecodeError::InvalidLength)
    } else if bytes.len() < announced_len(bytes) {
        Ok(announced_len(bytes) - bytes.len())
    } else {
        Ok(0)
    }
}

/// Bytes hold a whole frame exactly when nothing is missing.
pub proof fn lemma_missing_nothing(bytes: Seq<u8>)
    ensures
        missing(bytes) == Ok::<int, DecodeError>(0) <==> parse(bytes) is Ok,
        missing(bytes) is Err <==> parse(bytes) == Err::<FrameView, DecodeError>(
            DecodeError::InvalidLength,
        ),
{
}

/// A frame's wire bytes start with its length, and hold its id, status and
/// payload at their places.
pub proof fn lemma_encode_layout(id: u64, status: u8, payload: Seq<u8>)
    requires
        payload.len() <= MAX_PAYLOAD,
    ensures
        encode(id, status, payload).len() == payload.len() + HEADER_LEN,
        announced_len(encode(id, status, payload)) == payload.len() + HEADER_LEN,
        frame_of(encode(id, status, payload)) == (FrameView { id, status, payload }),
{
    let len = (payload.len() + HEADER_LEN) as u32;
    let bytes = encode(id, status, payload);
    lemma_u32_round_trip(len);
    lemma_u64_round_trip(id);
    assert(bytes.subrange(0, 4) =~= u32_le(len));
    assert(bytes.subrange(4, 12) =~= u64_le(id));
    assert(bytes.subrange(HEADER_LEN as int, bytes.len() as int) =~= payload);
}

/// Decoding what was encoded gives back id, status and payload, whatever
/// follows the frame.
pub proof fn lemma_round_trip(id: u64, status: u8, payload: Seq<u8>, rest: Seq<u8>)
    requires
        payload.len() <= MAX_PAYLOAD,
    ensures
        parse(encode(id, status, payload) + rest) == Ok::<FrameView, DecodeError>(
            FrameView { id, status, payload },
        ),
{
    let frame = encode(id, status, payload);
    let bytes = frame + rest;
    lemma_encode_layout(id, status, payload);
    assert(bytes.subrange(0, 4) =~= frame.subrange(0, 4));
    assert(bytes.subrange(0, frame.len() as int) =~= frame);
}

/// Encoding the frame that was decoded gives back the bytes it was read from.
pub proof fn lemma_parse_encode(bytes: Seq<u8>)
    requires
        parse(bytes) is Ok,
    ensures
        ({
            let f = parse(bytes)->Ok_0;
            &&& f.payload.len() <= MAX_PAYLOAD
            &&& encode(f.id, f.status, f.payload) == bytes.subrange(0, announced_len(bytes))
        }),
{
    let len = announced_len(bytes);
    let frame = bytes.subrange(0, len);
    let f = parse(bytes)->Ok_0;
    lemma_u32_bytes_round_trip(bytes.subrange(0, 4));
    lemma_u64_bytes_round_trip(frame.subrange(4, 12));
    assert(frame.subrange(0, 4) =~= bytes.subrange(0, 4));
    assert(encode(f.id, f.status, f.payload) =~= frame);
}

/// A decoded frame. It owns the frame's wire bytes in one buffer and hands
/// the payload out as a slice of it.
#[derive(Debug)]
pub struct Frame {
    id: u64,
    data: Vec<u8>,
}

impl View for Frame {
    type V = FrameView;

    closed spec fn view(&self) -> FrameView {
        FrameView {
            id: self.id,
            status: frame_of(self.data@).status,
            payload: frame_of(self.data@).payload,
        }
    }
}

impl Frame {
    #[verifier::type_invariant]
    spec fn well_formed(&self) -> bool {
        &&& HEADER_LEN <= self.data.len() <= MAX_FRAME
        &&& announced_len(self.data@) == self.data.len()
        &&& self.id == frame_of(self.data@).id
    }

    /// The wire bytes of the frame.
    pub closed spec fn wire(&self) -> Seq<u8> {
        self.data@
    }

    /// How many bytes the frame that starts with `prefix` takes, header
    /// included. Fails where `prefix` is shorter than the four bytes of the
    /// length, or the length is out of range.
    pub fn frame_len(prefix: &[u8]) -> (r: Result<usize, DecodeError>)
        ensures
            match r {
                Ok(n) => {
                    &&& prefix.len() >= 4
                    &&& n == announced_len(prefix@)
                    &&& HEADER_LEN <= n <= MAX_FRAME
                },
                Err(e) => {
                    &&& parse(prefix@) == Err::<FrameView, DecodeError>(e)
                    &&& prefix.len() < 4 || e == DecodeError::InvalidLength
                },
            },
    {
        if prefix.len() == 0 {
            return Err(DecodeError::Closed);
        }
        if prefix.len() < 4 {
            return Err(DecodeError::UnexpectedEof);
        }
        let len = get_u32(prefix, 0) as usize;
        if len < HEADER_LEN || len > MAX_FRAME {
            return Err(DecodeError::InvalidLength);
        }
        Ok(len)
    }

    /// How many bytes a reader has to fetch behind `bytes` before it can go
    /// on decoding: none once `bytes` hold a whole frame.
    pub fn wanted(bytes: &[u8]) -> (r: Result<usize, DecodeError>)
        ensures
            match r {
                Ok(n) => missing(bytes@) == Ok::<int, DecodeError>(n as int),
                Err(e) => missing(bytes@) == Err::<int, DecodeError>(e),
            },
    {
        if bytes.len() < 4 {
            return Ok(4 - bytes.len());
        }
        match Frame::frame_len(bytes) {
            Ok(len) => {
                if bytes.len() < len {
                    Ok(len - bytes.len())
                } else {
                    Ok(0)
                }
            },
            Err(e) => Err(e),
        }
    }

    /// Decodes the frame that `data` starts with, keeping `data` as the
    /// frame's buffer. Bytes behind the frame are dropped.
    pub fn from_vec(data: Vec<u8>) -> (r: Result<Frame, DecodeError>)
        ensures
            match r {
                Ok(frame) => {
                    &&& parse(data@) == Ok::<FrameView, DecodeError>(frame@)
                    &&& frame.wire() == data@.subrange(0, announced_len(data@))
                },
                Err(e) => parse(data@) == Err::<FrameView, DecodeError>(e),
            },
    {
        let len = match Frame::frame_len(data.as_slice()) {
            Ok(len) => len,
            Err(e) => {
                return Err(e);
            },
        };
        if data.len() < len {
            return Err(DecodeError::UnexpectedEof);
        }
        let mut data = data;
        let ghost all = data@;
        data.truncate(len);
        assert(data@ =~= all.subrange(0, len as int));
        assert(data@.subrange(0, 4) =~= all.subrange(0, 4));
        let id = get_u64(data.as_slice(), 4);
        proof {
            lemma_u64_bytes_round_trip(data@.subrange(4, 12));
        }
        Ok(Frame { id, data })
    }

    /// Decodes the frame that `bytes` start with into a buffer of its own.
    pub fn decode(bytes: &[u8]) -> (r: Result<Frame, DecodeError>)
        ensures
            match r {
                Ok(frame) => {
                    &&& parse(bytes@) == Ok::<FrameView, DecodeError>(frame@)
                    &&& frame.wire() == bytes@.subrange(0, announced_len(bytes@))
                },
                Err(e) => parse(bytes@) == Err::<FrameView, DecodeError>(e),
            },
    {
        let len = match Frame::frame_len(bytes) {
            Ok(len) => len,
            Err(e) => {
                return Err(e);
            },
        };
        if bytes.len() < len {
            return Err(DecodeError::UnexpectedEof);
        }
        let mut data: Vec<u8> = Vec::with_capacity(len);
        data.extend_from_slice(slice_subrange(bytes, 0, len));
        assert(data@ =~= bytes@.subrange(0, len as int));
        assert(data@.subrange(0, 4) =~= bytes@.subrange(0, 4));
        let id = get_u64(data.as_slice(), 4);
        proof {
            lemma_u64_bytes_round_trip(data@.subrange(4, 12));
        }
        Ok(Frame { id, data })
    }

    /// The correlation id.
    pub fn id(&self) -> (id: u64)
        ensures
            id == self@.id,
    {
        proof {
            use_type_invariant(self);
        }
        self.id
    }

    /// The status byte.
    pub fn status(&self) -> (status: u8)
        ensures
            status == self@.status,
    {
        proof {
            use_type_invariant(self);
        }
        self.data[12]
    }

    /// The payload, a slice of the frame's buffer.
    pub fn payload(&self) -> (payload: &[u8])
        ensures
            payload@ == self@.payload,
    {
        proof {
            use_type_invariant(self);
        }
        slice_subrange(self.data.as_slice(), HEADER_LEN, self.data.len())
    }

    /// The payload of a request.
    pub fn decode_req(&self) -> (payload: &[u8])
        ensures
            payload@ == self@.payload,
    {
        self.payload()
    }

    /// The frame as it travels: the encoding of its id, status and payload.
    pub fn as_bytes(&self) -> (bytes: &[u8])
        ensures
            bytes@ == self.wire(),
            bytes@ == encode(self@.id, self@.status, self@.payload),
    {
        proof {
            use_type_invariant(self);
            lemma_parse_encode(self.data@);
            assert(self.data@.subrange(0, self.data.len() as int) =~= self.data@);
        }
        self.data.as_slice()
    }
}

/// A decoding attempt with the frame as a mathematical value.
pub open spec fn decoded_view(decoded: Result<Frame, DecodeError>) -> Result<
    FrameView,
    DecodeError,
> {
    match decoded {
        Ok(frame) => Ok(frame@),
        Err(e) => Err(e),
    }
}

/// Checks that `bytes` are UTF-8 and hands them back as text. Trusted to
/// agree with `std::str::from_utf8`: text comes back exactly where the bytes
/// are valid UTF-8, and it is made of those bytes.
#[verifier::external_body]
fn utf8_text(bytes: &[u8]) -> (text: Option<&str>)
    ensures
        text is Some <==> valid_utf8(bytes@),
        text matches Some(s) ==> s.spec_bytes() == bytes@,
{
    match std::str::from_utf8(bytes) {
        Ok(s) => Some(s),
        Err(_) => None,
    }
}

/// What a response frame means to the caller: the payload, or the failure
/// that the status byte names.
pub open spec fn outcome(frame: FrameView) -> Result<Seq<u8>, ErrorView> {
    if frame.status == STATUS_OK {
        Ok(frame.payload)
    } else if frame.status != STATUS_SERVER_SERIALIZE && frame.status != STATUS_STRING {
        Err(ErrorView::ClientDeserialize("unknown response status"@))
    } else if !valid_utf8(frame.payload) {
        Err(ErrorView::ClientDeserialize("error message is not UTF-8"@))
    } else if frame.status == STATUS_SERVER_SERIALIZE {
        Err(ErrorView::ServerSerialize(decode_utf8(frame.payload)))
    } else {
        Err(ErrorView::Status(decode_utf8(frame.payload)))
    }
}

impl Frame {
    /// Reads a response: the payload where the service succeeded, else the
    /// failure that the frame reports.
    pub fn decode_rsp(&self) -> (r: Result<&[u8], Error>)
        ensures
            match r {
                Ok(payload) => outcome(self@) == Ok::<Seq<u8>, ErrorView>(payload@),
                Err(e) => outcome(self@) == Err::<Seq<u8>, ErrorView>(e@),
            },
    {
        let status = self.status();
        let payload = self.payload();
        if status == STATUS_OK {
            return Ok(payload);
        }
        if status != STATUS_SERVER_SERIALIZE && status != STATUS_STRING {
            return Err(Error::ClientDeserialize("unknown response status".to_owned()));
        }
        let text = match utf8_text(payload) {
            Some(text) => text,
            None => {
                return Err(Error::ClientDeserialize("error message is not UTF-8".to_owned()));
            },
        };
        proof {
            encode_utf8_decode_utf8(text@);
        }
        if status == STATUS_SERVER_SERIALIZE {
            Err(Error::ServerSerialize(text.to_owned()))
        } else {
            Err(Error::Status(text.to_owned()))
        }
    }
}

} // verus!
