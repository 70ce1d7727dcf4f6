//! The simple client: one call at a time over one stream, with responses
//! matched to the call by id.

use crate::buf::ReqBuf;
use crate::errors::{Error, ErrorView};
use crate::frame::{decoded_view, encode, DecodeError, Frame, FrameView};
use crate::frame::{MAX_PAYLOAD, STATUS_REQUEST};
use crate::stream_ext::{seconds, StreamExt};
use std::time::Duration;
use vstd::prelude::*;

verus! {

/// The read timeout of a client that was given no other, in seconds.
pub const DEFAULT_TIMEOUT_SECS: u64 = 5;

/// The read timeout that a client asks its stream for when it connects:
/// `DEFAULT_TIMEOUT_SECS` seconds.
pub fn default_timeout() -> (d: Duration)
    ensures
        d == seconds(DEFAULT_TIMEOUT_SECS),
{
    Duration::from_secs(DEFAULT_TIMEOUT_SECS)
}

/// What the client does with the outcome of one attempt to read a response.
#[derive(Debug)]
pub enum CallStep {
    /// The response to the call arrived.
    Done(Frame),
    /// A response to another call arrived: drop it and read on.
    Skip,
    /// No response can be read: the call fails.
    Fail(Error),
}

/// `CallStep` as a mathematical value.
pub enum CallStepView {
    Done(FrameView),
    Skip,
    Fail(ErrorView),
}

impl View for CallStep {
    type V = CallStepView;

    open spec fn view(&self) -> CallStepView {
        match self {
            CallStep::Done(frame) => CallStepView::Done(frame@),
            CallStep::Skip => CallStepView::Skip,
            CallStep::Fail(e) => CallStepView::Fail(e@),
        }
    }
}

/// The message of the error for a response that could not be decoded.
pub open spec fn decode_message(e: DecodeError) -> Seq<char> {
    match e {
        DecodeError::Closed => "connection closed"@,
        DecodeError::UnexpectedEof => "unexpected end of stream"@,
        DecodeError::InvalidLength => "invalid frame length"@,
    }
}

/// The error of a call whose response could not be decoded: a transport
/// failure where the stream ended, a malformed response where the length
/// prefix is out of range.
pub open spec fn decode_failure(e: DecodeError) -> ErrorView {
    match e {
        DecodeError::InvalidLength => ErrorView::ClientDeserialize(decode_message(e)),
        _ => ErrorView::Io(decode_message(e)),
    }
}

/// What a call with id `id` does once the next response was decoded, or
/// could not be: it ends with the frame that carries `id`, skips any other
/// frame, and fails where no frame could be read.
pub open spec fn call_step(id: u64, decoded: Result<FrameView, DecodeError>) -> CallStepView {
    match decoded {
        Ok(frame) => if frame.id == id {
            CallStepView::Done(frame)
        } else {
            CallStepView::Skip
        },
        Err(e) => CallStepView::Fail(decode_failure(e)),
    }
}

/// The text that names a decoding failure.
pub fn describe(e: DecodeError) -> (msg: String)
    ensures
        msg@ == decode_message(e),
{
    match e {
        DecodeError::Closed => "connection closed".to_owned(),
        DecodeError::UnexpectedEof => "unexpected end of stream".to_owned(),
        DecodeError::InvalidLength => "invalid frame length".to_owned(),
    }
}

/// A client that makes one call at a time over the stream `S`.
#[derive(Debug)]
pub struct UdsClient<S: StreamExt> {
    id: u64,
    sock: S,
}

impl<S: StreamExt> UdsClient<S> {
    /// The id that the next call will carry.
    pub closed spec fn next_id(&self) -> u64 {
        self.id
    }

    /// The stream that the client talks over.
    pub closed spec fn stream(&self) -> S {
        self.sock
    }

    /// The client over `sock`, once `sock` was asked to take the default
    /// timeout and answered `set`. Its first call carries id 0.
    pub fn with_stream(sock: S, set: Result<(), std::io::Error>) -> (r: Result<
        UdsClient<S>,
        std::io::Error,
    >)
        ensures
            match r {
                Ok(client) => set is Ok && client.next_id() == 0 && client.stream() == sock,
                Err(e) => set == Err::<(), std::io::Error>(e),
            },
    {
        match set {
            Ok(_) => Ok(UdsClient { id: 0, sock }),
            Err(e) => Err(e),
        }
    }

    /// A client over a connected stream. The stream is asked for a read
    /// timeout of `default_timeout()`; where it takes it, the client is made
    /// and its first call carries id 0, and where it does not, its error is
    /// returned.
    pub fn connect(sock: S) -> (r: Result<UdsClient<S>, std::io::Error>)
        ensures
            r matches Ok(client) ==> client.next_id() == 0,
    {
        let mut sock = sock;
        let set = sock.set_read_timeout(default_timeout());
        UdsClient::with_stream(sock, set)
    }

    /// The stream, for the transport to write the request to and to read
    /// the responses from.
    pub fn stream_mut(&mut self) -> (sock: &mut S)
        ensures
            *sock == old(self).stream(),
            final(self).stream() == *final(sock),
            final(self).next_id() == old(self).next_id(),
    {
        &mut self.sock
    }

    /// Sets how long a call waits for its response. The id counter is left
    /// as it is.
    pub fn set_timeout(&mut self, timeout: Duration) -> (r: Result<(), std::io::Error>)
        ensures
            final(self).next_id() == old(self).next_id(),
    {
        self.sock.set_read_timeout(timeout)
    }

    /// Starts a call: takes the next id, and encodes the request with it.
    /// The id after `u64::MAX` is 0 again.
    pub fn begin_call(&mut self, req: ReqBuf) -> (call: (u64, Vec<u8>))
        ensures
            call.0 == old(self).next_id(),
            final(self).next_id() == if old(self).next_id() == u64::MAX {
                0
            } else {
                old(self).next_id() + 1
            },
            final(self).stream() == old(self).stream(),
            req@.len() <= MAX_PAYLOAD,
            call.1@ == encode(call.0, STATUS_REQUEST, req@),
    {
        let id = self.id;
        self.id = id.wrapping_add(1);
        (id, req.finish(id))
    }

    /// Decides what the call with id `id` does after an attempt to decode the
    /// next response.
    pub fn on_response(id: u64, decoded: Result<Frame, DecodeError>) -> (step: CallStep)
        ensures
            step@ == call_step(id, decoded_view(decoded)),
            step matches CallStep::Done(frame) ==> frame@.id == id,
    {
        match decoded {
            Ok(frame) => {
                if frame.id() == id {
                    CallStep::Done(frame)
                } else {
                    CallStep::Skip
                }
            },
            Err(DecodeError::InvalidLength) => CallStep::Fail(
                Error::ClientDeserialize(describe(DecodeError::InvalidLength)),
            ),
            Err(e) => CallStep::Fail(Error::Io(describe(e))),
        }
    }
}

} // verus!
