//! The multiplex client: many calls in flight over one stream. Requests go
//! out through a queued writer; a listener reads the responses and hands
//! each to the caller that waits under the response's id.

use crate::buf::ReqBuf;
use crate::errors::{Error, ErrorView};
use crate::frame::{decoded_view, encode, DecodeError, Frame, FrameView};
use crate::frame::{MAX_PAYLOAD, STATUS_REQUEST};
use crate::queued_writer::QueuedWriter;
use crate::stream_ext::{seconds, split, StreamExt};
use std::time::Duration;
use vstd::prelude::*;

verus! {

/// How long a call waits for its response where no other time was set, in
/// seconds.
pub const DEFAULT_TIMEOUT_SECS: u64 = 10;

/// What the listener does after it tried to read the next response.
#[derive(Debug)]
pub enum ListenerAction {
    /// Hand the frame to the caller that waits under `token`, and read on.
    Deliver { token: usize, frame: Frame },
    /// No caller can wait for this frame: drop it, and read on.
    Discard,
    /// The peer closed the stream: stop quietly.
    Close,
    /// The peer broke the protocol: stop.
    Abort,
}

/// `ListenerAction` with the frame as a mathematical value.
pub enum ListenerActionView {
    Deliver { token: usize, frame: FrameView },
    Discard,
    Close,
    Abort,
}

impl View for ListenerAction {
    type V = ListenerActionView;

    open spec fn view(&self) -> ListenerActionView {
        match self {
            ListenerAction::Deliver { token, frame } => ListenerActionView::Deliver {
                token: *token,
                frame: frame@,
            },
            ListenerAction::Discard => ListenerActionView::Discard,
            ListenerAction::Close => ListenerActionView::Close,
            ListenerAction::Abort => ListenerActionView::Abort,
        }
    }
}

/// Whether a caller can wait under `id`: the tokens that callers wait under
/// are the machine words other than zero.
pub open spec fn is_token(id: u64) -> bool {
    0 < id <= usize::MAX
}

/// What the listener does once the next response was decoded, or could not
/// be: a frame goes to the caller that waits under the frame's id, the end
/// of the stream stops the listener quietly, a malformed length stops it.
pub open spec fn listener_action(decoded: Result<FrameView, DecodeError>) -> ListenerActionView {
    match decoded {
        Ok(frame) => if is_token(frame.id) {
            ListenerActionView::Deliver { token: frame.id as usize, frame }
        } else {
            ListenerActionView::Discard
        },
        Err(DecodeError::InvalidLength) => ListenerActionView::Abort,
        Err(_) => ListenerActionView::Close,
    }
}

/// Decides what the listener does after an attempt to decode the next
/// response.
pub fn listener_step(decoded: Result<Frame, DecodeError>) -> (action: ListenerAction)
    ensures
        action@ == listener_action(decoded_view(decoded)),
        action matches ListenerAction::Deliver { token, frame } ==> token == frame@.id,
{
    match decoded {
        Ok(frame) => {
            let id = frame.id();
            if 0 < id && id <= usize::MAX as u64 {
                ListenerAction::Deliver { token: id as usize, frame }
            } else {
                ListenerAction::Discard
            }
        },
        Err(DecodeError::InvalidLength) => ListenerAction::Abort,
        Err(_) => ListenerAction::Close,
    }
}

/// The frames that the listener hands to the caller that waits under
/// `token`, out of the responses `rsps` that arrive in this order.
pub open spec fn handed_to(rsps: Seq<FrameView>, token: usize) -> Seq<FrameView>
    decreases rsps.len(),
{
    if rsps.len() == 0 {
        Seq::<FrameView>::empty()
    } else if listener_action(Ok(rsps.last())) == (ListenerActionView::Deliver {
        token,
        frame: rsps.last(),
    }) {
        handed_to(rsps.drop_last(), token).push(rsps.last())
    } else {
        handed_to(rsps.drop_last(), token)
    }
}

/// A caller under whose token no response arrives is handed nothing.
pub proof fn lemma_nothing_for_others(rsps: Seq<FrameView>, token: usize)
    requires
        forall|i: int| 0 <= i < rsps.len() ==> (#[trigger] rsps[i]).id != token,
    ensures
        handed_to(rsps, token) == Seq::<FrameView>::empty(),
    decreases rsps.len(),
{
    if rsps.len() > 0 {
        let front = rsps.drop_last();
        assert forall|i: int| 0 <= i < front.len() implies (#[trigger] front[i]).id != token by {
            assert(front[i] == rsps[i]);
        }
        lemma_nothing_for_others(front, token);
        assert(rsps.last() == rsps[rsps.len() - 1]);
    }
}

/// Each caller gets its own response and no other, in whatever order the
/// responses arrive: where no two responses carry the same id, the caller
/// that waits under the id of one of them is handed exactly that one.
pub proof fn lemma_each_caller_gets_its_own(rsps: Seq<FrameView>, k: int)
    requires
        0 <= k < rsps.len(),
        is_token(rsps[k].id),
        forall|i: int, j: int|
            0 <= i < j < rsps.len() ==> (#[trigger] rsps[i]).id != (#[trigger] rsps[j]).id,
    ensures
        handed_to(rsps, rsps[k].id as usize) == seq![rsps[k]],
        listener_action(Ok(rsps[k])) == (ListenerActionView::Deliver {
            token: rsps[k].id as usize,
            frame: rsps[k],
        }),
    decreases rsps.len(),
{
    let token = rsps[k].id as usize;
    let front = rsps.drop_last();
    assert(rsps.last() == rsps[rsps.len() - 1]);
    assert forall|i: int, j: int| 0 <= i < j < front.len() implies (#[trigger] front[i]).id != (
    #[trigger] front[j]).id by {
        assert(front[i] == rsps[i] && front[j] == rsps[j]);
    }
    if k == rsps.len() - 1 {
        assert forall|i: int| 0 <= i < front.len() implies (#[trigger] front[i]).id != token by {
            assert(front[i] == rsps[i]);
        }
        lemma_nothing_for_others(front, token);
        assert(Seq::<FrameView>::empty().push(rsps[k]) =~= seq![rsps[k]]);
    } else {
        assert(front[k] == rsps[k]);
        lemma_each_caller_gets_its_own(front, k);
    }
}

/// The error of a call whose wait for a response failed: a timeout where
/// the time ran out, else a transport failure with the text that names it.
pub open spec fn wait_failure(timed_out: bool, text: Seq<char>) -> ErrorView {
    if timed_out {
        ErrorView::Timeout
    } else {
        ErrorView::Io(text)
    }
}

/// Names the failure of a call whose wait for a response ended without one.
pub fn wait_error(timed_out: bool, text: String) -> (e: Error)
    ensures
        e@ == wait_failure(timed_out, text@),
{
    if timed_out {
        Error::Timeout
    } else {
        Error::Io(text)
    }
}

/// The sending side of a client with many calls in flight: the queue of
/// requests and the time a call waits for its response.
#[derive(Debug)]
pub struct MultiplexClient {
    timeout: Option<Duration>,
    sock: QueuedWriter,
}

impl MultiplexClient {
    /// How long a call waits for its response; `None` until it was set.
    pub closed spec fn timeout(&self) -> Option<Duration> {
        self.timeout
    }

    /// A client over `stream`. The stream is duplicated: the first half in
    /// the result is for the listener to read responses from, the second,
    /// which is `stream` itself, for the drainer to write requests to. Fails
    /// where the stream cannot be duplicated.
    pub fn new<S: StreamExt>(stream: S) -> (r: Result<(MultiplexClient, S, S), std::io::Error>)
        ensures
            r matches Ok(parts) ==> parts.0.timeout() is None && parts.2 == stream,
    {
        MultiplexClient::from_halves(split(stream))
    }

    /// Sets how long a call waits for its response.
    pub fn set_timeout(&mut self, timeout: Duration)
        ensures
            final(self).timeout() == Some(timeout),
    {
        self.timeout = Some(timeout);
    }

    /// How long a call waits for its response: the time that was set, or
    /// `DEFAULT_TIMEOUT_SECS` seconds where none was.
    pub fn wait_time(&self) -> (time: Duration)
        ensures
            time == match self.timeout() {
                Some(timeout) => timeout,
                None => seconds(DEFAULT_TIMEOUT_SECS),
            },
    {
        match self.timeout {
            Some(timeout) => timeout,
            None => Duration::from_secs(DEFAULT_TIMEOUT_SECS),
        }
    }

    /// The queue that the requests go through: the client's own, the one
    /// that `send` queues to.
    pub fn writer(&self) -> (queue: &QueuedWriter)
        ensures
            *queue == self.queue(),
    {
        &self.sock
    }

    /// The frame of a call: the request under the id that its caller waits
    /// under.
    pub fn request(req: ReqBuf, token: usize) -> (data: Vec<u8>)
        ensures
            req@.len() <= MAX_PAYLOAD,
            data@ == encode(token as u64, STATUS_REQUEST, req@),
    {
        req.finish(token as u64)
    }

    /// Sends a call: queues the request under the id that its caller waits
    /// under. Says whether the caller has become the drainer.
    pub fn send(&self, req: ReqBuf, token: usize) -> (drainer: bool) {
        self.sock.write(MultiplexClient::request(req, token))
    }

    /// The queue that the client's requests go through.
    pub closed spec fn queue(&self) -> QueuedWriter {
        self.sock
    }

    /// The client and the two halves of its stream, once the stream was
    /// split and answered `halves`: a client without a timeout of its own,
    /// the half to read from and the half to write to, as they came. Fails
    /// exactly where the split failed, with the split's error.
    pub fn from_halves<S: StreamExt>(halves: Result<(S, S), std::io::Error>) -> (r: Result<
        (MultiplexClient, S, S),
        std::io::Error,
    >)
        ensures
            match r {
                Ok(parts) => {
                    &&& halves == Ok::<(S, S), std::io::Error>((parts.1, parts.2))
                    &&& parts.0.timeout() is None
                },
                Err(e) => halves == Err::<(S, S), std::io::Error>(e),
            },
    {
        match halves {
            Ok((reader, writer)) => Ok(
                (MultiplexClient { timeout: None, sock: QueuedWriter::new() }, reader, writer),
            ),
            Err(e) => Err(e),
        }
    }
}

} // verus!
