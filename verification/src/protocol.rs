//! The messages between the display loop and the prefetch worker, and the
//! worker's side of the exchange.

use crate::convert::convert_decoded;
use crate::error::DecodeError;
use crate::pixel::{converted, DecodedImage, PixelBuffer};
use vstd::prelude::*;

verus! {

/// What the display loop asks of the worker.
#[derive(Debug, PartialEq, Eq)]
pub enum WorkRequest {
    /// Decode the image at this path.
    Decode(String),
    /// Stop after acknowledging.
    Shutdown,
}

/// What the worker sends back.
#[derive(Debug)]
pub enum WorkResult {
    /// The answer to one `Decode`.
    Ready(Result<PixelBuffer, DecodeError>),
    /// The answer to `Shutdown`, and the worker's last message.
    ShutdownAck,
}

/// What the worker does next after receiving a request.
#[derive(Debug)]
pub enum WorkerStep {
    /// Open and decode the file at this path, then hand the outcome to
    /// `Worker::finish` and send what it returns.
    Load(String),
    /// Send this message.
    Reply(WorkResult),
    /// The worker has stopped: send nothing.
    Idle,
}

/// What one request leads the worker to send, as far as the request decides
/// it.
pub enum Response {
    /// A `Ready` for the path that was asked for.
    Ready(String),
    ShutdownAck,
}

/// The worker's state after `request`, and the response it owes for it.
pub open spec fn step(running: bool, request: WorkRequest) -> (bool, Option<Response>) {
    if !running {
        (false, None)
    } else {
        match request {
            WorkRequest::Decode(path) => (true, Some(Response::Ready(path))),
            WorkRequest::Shutdown => (false, Some(Response::ShutdownAck)),
        }
    }
}

/// Everything the worker sends when it is handed `requests` in order.
pub open spec fn responses(running: bool, requests: Seq<WorkRequest>) -> Seq<Response>
    decreases requests.len(),
{
    if requests.len() == 0 {
        seq![]
    } else {
        let (next, sent) = step(running, requests[0]);
        let rest = responses(next, requests.drop_first());
        match sent {
            Some(response) => seq![response] + rest,
            None => rest,
        }
    }
}

/// The prefetch worker: it answers every `Decode` with one `Ready`, and the
/// first `Shutdown` with `ShutdownAck`, after which it is silent.
pub struct Worker {
    running: bool,
}

impl View for Worker {
    type V = bool;

    /// Whether the worker still answers requests.
    closed spec fn view(&self) -> bool {
        self.running
    }
}

impl Worker {
    pub fn new() -> (worker: Worker)
        ensures
            worker@,
    {
        Worker { running: true }
    }

    pub fn is_running(&self) -> (running: bool)
        ensures
            running == self@,
    {
        self.running
    }

    /// Takes one request and says what to do about it.
    pub fn receive(&mut self, request: WorkRequest) -> (next: WorkerStep)
        ensures
            final(self)@ == step(old(self)@, request).0,
            match step(old(self)@, request).1 {
                None => next is Idle,
                Some(Response::Ready(path)) => next == WorkerStep::Load(path),
                Some(Response::ShutdownAck) => next == WorkerStep::Reply(WorkResult::ShutdownAck),
            },
    {
        if !self.running {
            return WorkerStep::Idle;
        }
        match request {
            WorkRequest::Decode(path) => WorkerStep::Load(path),
            WorkRequest::Shutdown => {
                self.running = false;
                WorkerStep::Reply(WorkResult::ShutdownAck)
            },
        }
    }

    /// Turns the outcome of opening and decoding a file into the reply to its
    /// request. `loaded` is the decoded image, or the decoder's error text;
    /// `bands` is the number of parallel bands to convert with.
    pub fn finish(loaded: Result<DecodedImage, String>, bands: usize) -> (reply: WorkResult)
        ensures
            match loaded {
                Err(detail) => reply == WorkResult::Ready(Err(DecodeError::Open(detail))),
                Ok(DecodedImage::Other) => reply == WorkResult::Ready(Err(DecodeError::RgbParse)),
                Ok(DecodedImage::Rgb8(raster)) => reply matches WorkResult::Ready(Ok(buffer))
                    && buffer@ == converted(raster@) && buffer@.wf(),
            },
    {
        match loaded {
            Err(detail) => WorkResult::Ready(Err(DecodeError::Open(detail))),
            Ok(image) => WorkResult::Ready(convert_decoded(&image, bands)),
        }
    }
}

/// A worker that has stopped sends nothing, whatever it is handed.
pub proof fn lemma_stopped_worker_is_silent(requests: Seq<WorkRequest>)
    ensures
        responses(false, requests).len() == 0,
    decreases requests.len(),
{
    if requests.len() > 0 {
        lemma_stopped_worker_is_silent(requests.drop_first());
    }
}

/// Without a `Shutdown` every request is answered, in the order of arrival,
/// by one `Ready` for its own path.
pub proof fn lemma_every_decode_answered(requests: Seq<WorkRequest>)
    requires
        forall|i: int| 0 <= i < requests.len() ==> requests[i] is Decode,
    ensures
        responses(true, requests).len() == requests.len(),
        forall|i: int|
            0 <= i < requests.len() ==> responses(true, requests)[i] == Response::Ready(
                requests[i]->Decode_0,
            ),
    decreases requests.len(),
{
    if requests.len() > 0 {
        let rest = requests.drop_first();
        assert forall|i: int| 0 <= i < rest.len() implies rest[i] is Decode by {
            assert(rest[i] == requests[i + 1]);
        }
        lemma_every_decode_answered(rest);
        let all = responses(true, requests);
        assert(all == seq![Response::Ready(requests[0]->Decode_0)] + responses(true, rest));
        assert forall|i: int| 0 <= i < requests.len() implies all[i] == Response::Ready(
            requests[i]->Decode_0,
        ) by {
            if i > 0 {
                assert(all[i] == responses(true, rest)[i - 1]);
                assert(rest[i - 1] == requests[i]);
            }
        }
    }
}

/// A `Shutdown` is acknowledged exactly once. With the first `Shutdown` at
/// position `k`, the worker answers the `k` requests before it, then sends
/// `ShutdownAck`, and nothing after that, whatever else follows.
pub proof fn lemma_shutdown_acknowledged_once(requests: Seq<WorkRequest>, k: int)
    requires
        0 <= k < requests.len(),
        requests[k] is Shutdown,
        forall|i: int| 0 <= i < k ==> requests[i] is Decode,
    ensures
        responses(true, requests).len() == k + 1,
        responses(true, requests)[k] == Response::ShutdownAck,
        forall|i: int|
            0 <= i < k ==> responses(true, requests)[i] == Response::Ready(requests[i]->Decode_0),
    decreases requests.len(),
{
    let rest = requests.drop_first();
    let all = responses(true, requests);
    if k == 0 {
        lemma_stopped_worker_is_silent(rest);
        assert(all == seq![Response::ShutdownAck] + responses(false, rest));
    } else {
        assert(requests[0] is Decode);
        assert(rest[k - 1] == requests[k]);
        assert forall|i: int| 0 <= i < k - 1 implies rest[i] is Decode by {
            assert(rest[i] == requests[i + 1]);
        }
        lemma_shutdown_acknowledged_once(rest, k - 1);
        assert(all == seq![Response::Ready(requests[0]->Decode_0)] + responses(true, rest));
        assert forall|i: int| 0 <= i < k implies all[i] == Response::Ready(
            requests[i]->Decode_0,
        ) by {
            if i > 0 {
                assert(all[i] == responses(true, rest)[i - 1]);
                assert(rest[i - 1] == requests[i]);
            }
        }
        assert(all[k] == responses(true, rest)[k - 1]);
    }
}

} // verus!
