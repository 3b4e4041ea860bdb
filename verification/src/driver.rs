//! The display loop's side of the pipeline: which image is on screen, which
//! one waits to follow it, and what to ask of the worker next.
//!
//! The loop itself reads the clock, polls the channel and draws. Each thing
//! that happens there is handed to the state kept here, which answers with
//! the next state and with what to do.

use crate::config::Config;
use crate::error::{DecodeError, PipelineError};
use crate::interval::{decrease_interval, faster, increase_interval, slower};
use crate::pixel::{BufferView, PixelBuffer};
use crate::protocol::{WorkRequest, WorkResult};
use vstd::arithmetic::div_mod::{
    lemma_add_mod_noop, lemma_mod_pos_bound, lemma_mod_self_0, lemma_small_mod,
};
use vstd::prelude::*;

verus! {

/// Where the display loop stands.
#[derive(Clone, Copy, Debug, PartialEq, Eq, Structural)]
pub enum Phase {
    /// No image has been decoded yet; nothing is shown.
    Bootstrap,
    /// An image is on display and the worker is kept one image ahead.
    Running,
    /// Exit was asked for while a decode was outstanding; its result is
    /// awaited before `Shutdown` is sent.
    Draining,
    /// `Shutdown` was sent; `ShutdownAck` is awaited.
    Closing,
    /// The worker has acknowledged the shutdown.
    Done,
    /// A fatal error was reported.
    Failed,
}

/// One of the two user controls, or neither.
#[derive(Clone, Copy, Debug, PartialEq, Eq, Structural)]
pub enum Control {
    Faster,
    Slower,
    Neither,
}

/// The control that the keys call for. Each flag says whether one of the keys
/// for that control has just gone down; "faster" wins over "slower".
pub fn control_from_keys(faster_pressed: bool, slower_pressed: bool) -> (control: Control)
    ensures
        control == if faster_pressed {
            Control::Faster
        } else if slower_pressed {
            Control::Slower
        } else {
            Control::Neither
        },
{
    if faster_pressed {
        Control::Faster
    } else if slower_pressed {
        Control::Slower
    } else {
        Control::Neither
    }
}

/// What the loop has to do after handing over an event.
#[derive(Debug, PartialEq, Eq)]
pub enum Action {
    Nothing,
    /// Send this request to the worker.
    Send(WorkRequest),
    /// Stop with this error.
    Fatal(PipelineError),
    /// The shutdown handshake is complete.
    Finished,
}

/// The state of the display loop as contracts see it.
pub struct PipelineView {
    /// The paths to cycle through.
    pub catalog: Seq<String>,
    pub phase: Phase,
    /// Position of the path most recently asked for.
    pub requested: int,
    /// Whether the worker still owes the result of that request.
    pub awaiting: bool,
    /// Failed decodes since the last successful one.
    pub failures: int,
    /// Position of the path whose image is on display.
    pub current_index: int,
    /// The image on display.
    pub current: Option<BufferView>,
    /// The image that will follow it.
    pub pending: Option<BufferView>,
    /// Display time per image, in milliseconds.
    pub interval_ms: u64,
    /// When the image on display was promoted, in milliseconds.
    pub promoted_at: u64,
}

impl PipelineView {
    pub open spec fn wf(self) -> bool {
        &&& self.catalog.len() > 0
        &&& 0 <= self.requested < self.catalog.len()
        &&& 0 <= self.current_index < self.catalog.len()
        &&& 0 <= self.failures <= self.catalog.len()
        &&& (self.current matches Some(b) ==> b.wf())
        &&& (self.pending matches Some(b) ==> b.wf())
        &&& match self.phase {
            Phase::Bootstrap => self.failures < self.catalog.len() && self.awaiting
                && self.current is None && self.pending is None,
            Phase::Running => self.failures < self.catalog.len() && self.current is Some && (
            self.awaiting <==> self.pending is None),
            Phase::Draining => self.awaiting,
            Phase::Closing => !self.awaiting,
            Phase::Done => !self.awaiting,
            Phase::Failed => !self.awaiting,
        }
    }

    /// The state in which the loop starts: the first path has been asked for.
    pub open spec fn start(catalog: Seq<String>, interval_ms: u64) -> PipelineView {
        PipelineView {
            catalog,
            phase: Phase::Bootstrap,
            requested: 0,
            awaiting: true,
            failures: 0,
            current_index: 0,
            current: None,
            pending: None,
            interval_ms,
            promoted_at: 0,
        }
    }

    /// Position of the path after the one most recently asked for, with the
    /// first path following the last.
    pub open spec fn following(self) -> int {
        if self.requested + 1 == self.catalog.len() {
            0
        } else {
            self.requested + 1
        }
    }

    /// Asks for the following path.
    pub open spec fn request_following(self) -> (PipelineView, Action) {
        (
            PipelineView { requested: self.following(), awaiting: true, ..self },
            Action::Send(WorkRequest::Decode(self.catalog[self.following()])),
        )
    }

    /// Gives up with `error`.
    pub open spec fn fail(self, error: PipelineError) -> (PipelineView, Action) {
        (PipelineView { phase: Phase::Failed, awaiting: false, ..self }, Action::Fatal(error))
    }

    /// One more decode has failed: the path is skipped and the following one
    /// asked for, unless every path of the catalog has now failed in a row.
    pub open spec fn skip_failed(self) -> (PipelineView, Action) {
        let counted = PipelineView { failures: self.failures + 1, ..self };
        if counted.failures >= self.catalog.len() {
            counted.fail(PipelineError::Exhausted)
        } else {
            counted.request_following()
        }
    }

    /// What a message from the worker leads to.
    pub open spec fn after_result(self, result: WorkResult, now: u64) -> (PipelineView, Action) {
        match self.phase {
            Phase::Bootstrap => match result {
                WorkResult::Ready(Ok(buffer)) => PipelineView {
                    phase: Phase::Running,
                    current: Some(buffer@),
                    current_index: self.requested,
                    failures: 0,
                    promoted_at: now,
                    ..self
                }.request_following(),
                WorkResult::Ready(Err(_)) => self.skip_failed(),
                WorkResult::ShutdownAck => self.fail(PipelineError::Protocol),
            },
            Phase::Running => if !self.awaiting {
                self.fail(PipelineError::Protocol)
            } else {
                match result {
                    WorkResult::Ready(Ok(buffer)) => (
                        PipelineView {
                            pending: Some(buffer@),
                            awaiting: false,
                            failures: 0,
                            ..self
                        },
                        Action::Nothing,
                    ),
                    WorkResult::Ready(Err(_)) => self.skip_failed(),
                    WorkResult::ShutdownAck => self.fail(PipelineError::Protocol),
                }
            },
            Phase::Draining => match result {
                WorkResult::Ready(_) => (
                    PipelineView { phase: Phase::Closing, awaiting: false, ..self },
                    Action::Send(WorkRequest::Shutdown),
                ),
                WorkResult::ShutdownAck => self.fail(PipelineError::Protocol),
            },
            Phase::Closing => match result {
                WorkResult::ShutdownAck => (
                    PipelineView { phase: Phase::Done, ..self },
                    Action::Finished,
                ),
                WorkResult::Ready(_) => self.fail(PipelineError::Protocol),
            },
            Phase::Done => (self, Action::Nothing),
            Phase::Failed => (self, Action::Nothing),
        }
    }

    /// Milliseconds since the image on display was promoted.
    pub open spec fn elapsed(self, now: u64) -> int {
        if now >= self.promoted_at {
            now - self.promoted_at
        } else {
            0
        }
    }

    /// Whether the waiting image takes over at `now`.
    pub open spec fn promotes(self, now: u64) -> bool {
        self.phase == Phase::Running && self.pending is Some && self.elapsed(now)
            >= self.interval_ms
    }

    /// What the passing of time leads to: once the interval has elapsed the
    /// waiting image, if there is one, is promoted and the path after it is
    /// asked for.
    pub open spec fn after_tick(self, now: u64) -> (PipelineView, Action) {
        if self.promotes(now) {
            PipelineView {
                current: self.pending,
                pending: None,
                current_index: self.requested,
                promoted_at: now,
                ..self
            }.request_following()
        } else {
            (self, Action::Nothing)
        }
    }

    /// What a user control leads to.
    pub open spec fn after_control(self, control: Control) -> PipelineView {
        match control {
            Control::Faster => PipelineView { interval_ms: faster(self.interval_ms), ..self },
            Control::Slower => PipelineView { interval_ms: slower(self.interval_ms), ..self },
            Control::Neither => self,
        }
    }

    /// What one pass of the loop leads to: the control is applied, then the
    /// message that has arrived, if any, is handed over, then the time.
    pub open spec fn after_frame(self, control: Control, arrived: Option<WorkResult>, now: u64) -> (
        PipelineView,
        Action,
    ) {
        let adjusted = self.after_control(control);
        let (received, first) = match arrived {
            Some(result) => adjusted.after_result(result, now),
            None => (adjusted, Action::Nothing),
        };
        let (ticked, second) = received.after_tick(now);
        (
            ticked,
            if second is Nothing {
                first
            } else {
                second
            },
        )
    }

    /// What a run of failed decodes leads to, one `Ready(Err(_))` for each
    /// error in `errors`.
    pub open spec fn after_failures(self, errors: Seq<DecodeError>, now: u64) -> (
        PipelineView,
        Action,
    )
        decreases errors.len(),
    {
        if errors.len() == 0 {
            (self, Action::Nothing)
        } else {
            self.after_failures(errors.drop_last(), now).0.after_result(
                WorkResult::Ready(Err(errors.last())),
                now,
            )
        }
    }

    /// What the exit signal leads to: `Shutdown` is sent at once if the
    /// worker owes nothing, and after its outstanding result otherwise.
    pub open spec fn after_exit_request(self) -> (PipelineView, Action) {
        if self.phase == Phase::Bootstrap || self.phase == Phase::Running {
            if self.awaiting {
                (PipelineView { phase: Phase::Draining, ..self }, Action::Nothing)
            } else {
                (
                    PipelineView { phase: Phase::Closing, ..self },
                    Action::Send(WorkRequest::Shutdown),
                )
            }
        } else {
            (self, Action::Nothing)
        }
    }
}

/// The view of a buffer slot.
pub open spec fn slot_view(slot: Option<PixelBuffer>) -> Option<BufferView> {
    match slot {
        Some(buffer) => Some(buffer@),
        None => None,
    }
}

/// Whether a message carries nothing but well-formed buffers.
pub open spec fn result_wf(result: WorkResult) -> bool {
    result matches WorkResult::Ready(Ok(buffer)) ==> buffer@.wf()
}

/// Every event leads from a well-formed state to a well-formed state, with
/// the catalog unchanged.
pub proof fn lemma_events_keep_wf(
    s: PipelineView,
    control: Control,
    result: WorkResult,
    now: u64,
)
    requires
        s.wf(),
        result_wf(result),
    ensures
        s.after_result(result, now).0.wf(),
        s.after_tick(now).0.wf(),
        s.after_control(control).wf(),
        s.after_exit_request().0.wf(),
        s.after_result(result, now).0.catalog == s.catalog,
        s.after_tick(now).0.catalog == s.catalog,
        s.after_control(control).catalog == s.catalog,
        s.after_exit_request().0.catalog == s.catalog,
{
}

/// At most one request is outstanding. A `Decode` is sent only in exchange
/// for a result that has just come in, or at a promotion, when the worker
/// owes nothing; `Shutdown` is sent only when the worker owes nothing; and
/// without a `Decode` sent nothing new is owed.
pub proof fn lemma_one_request_outstanding(s: PipelineView, result: WorkResult, now: u64)
    requires
        s.wf(),
    ensures
        s.after_result(result, now).1 matches Action::Send(WorkRequest::Decode(_)) ==> s.awaiting
            && s.after_result(result, now).0.awaiting,
        s.after_result(result, now).1 matches Action::Send(WorkRequest::Shutdown) ==> s.awaiting
            && !s.after_result(result, now).0.awaiting,
        !(s.after_result(result, now).1 is Send) ==> (s.after_result(result, now).0.awaiting
            ==> s.awaiting),
        s.after_tick(now).1 matches Action::Send(request) ==> request is Decode && !s.awaiting
            && s.after_tick(now).0.awaiting,
        !(s.after_tick(now).1 is Send) ==> s.after_tick(now).0 == s,
        s.after_exit_request().1 matches Action::Send(request) ==> request is Shutdown
            && !s.awaiting && !s.after_exit_request().0.awaiting,
        s.after_exit_request().0.awaiting == s.awaiting,
{
}

/// One pass of the loop has at most one thing to do: when the message that
/// arrived calls for an action, the time calls for none.
pub proof fn lemma_frame_drops_no_action(
    s: PipelineView,
    control: Control,
    result: WorkResult,
    now: u64,
)
    requires
        s.wf(),
        result_wf(result),
    ensures
        s.after_control(control).after_result(result, now).1 is Nothing || s.after_control(
            control,
        ).after_result(result, now).0.after_tick(now).1 is Nothing,
{
    lemma_events_keep_wf(s, control, result, now);
    lemma_events_keep_wf(s.after_control(control), control, result, now);
}

/// Without a waiting image the time changes nothing: the image on display
/// stays and its position does not advance.
pub proof fn lemma_no_promotion_without_pending(s: PipelineView, now: u64)
    requires
        s.pending is None,
    ensures
        s.after_tick(now) == (s, Action::Nothing),
{
}

/// A promotion puts the waiting image on display, empties the slot behind
/// it, restarts the interval and asks for the path after the promoted one.
pub proof fn lemma_promotion(s: PipelineView, now: u64)
    requires
        s.wf(),
        s.promotes(now),
    ensures
        s.after_tick(now).0.current == s.pending,
        s.after_tick(now).0.pending is None,
        s.after_tick(now).0.current_index == s.requested,
        s.after_tick(now).0.promoted_at == now,
        s.after_tick(now).0.elapsed(now) == 0,
        s.after_tick(now).1 == Action::Send(WorkRequest::Decode(s.catalog[s.following()])),
        0 <= s.following() < s.catalog.len(),
{
}

/// Stepping to the following position `k` times is stepping `k` positions
/// round the catalog.
proof fn lemma_following_step(r: int, k: int, n: int)
    requires
        n > 0,
        0 <= r,
        0 <= k,
    ensures
        0 <= (r + k) % n < n,
        0 <= (r + k + 1) % n < n,
        (r + k + 1) % n == if (r + k) % n + 1 == n {
            0
        } else {
            (r + k) % n + 1
        },
{
    lemma_mod_pos_bound(r + k, n);
    lemma_mod_pos_bound(r + k + 1, n);
    lemma_add_mod_noop(r + k, 1, n);
    if n == 1 {
        lemma_mod_pos_bound((r + k) % n + 1, n);
    } else {
        lemma_small_mod(1, n as nat);
        let m = (r + k) % n;
        if m + 1 == n {
            lemma_mod_self_0(n);
        } else {
            lemma_small_mod((m + 1) as nat, n as nat);
        }
    }
}

/// Decode failures in a row are bounded by one traversal of the catalog.
/// While fewer paths have failed in a row than the catalog holds, each
/// failure leads to a request for the following path and to nothing else;
/// the failure that completes the traversal is fatal; after that the state
/// rests. The image on display is the same throughout.
pub proof fn lemma_failures_exhaust(s: PipelineView, errors: Seq<DecodeError>, now: u64)
    requires
        s.wf(),
        s.phase == Phase::Bootstrap || s.phase == Phase::Running,
        s.awaiting,
        errors.len() >= 1,
    ensures
        ({
            let n = s.catalog.len() as int;
            let k = errors.len() as int;
            let (t, action) = s.after_failures(errors, now);
            &&& t.wf()
            &&& t.catalog == s.catalog
            &&& t.current == s.current
            &&& t.current_index == s.current_index
            &&& s.failures + k < n ==> {
                &&& t.phase == s.phase
                &&& t.awaiting
                &&& t.failures == s.failures + k
                &&& t.requested == (s.requested + k) % n
                &&& action == Action::Send(WorkRequest::Decode(s.catalog[(s.requested + k) % n]))
            }
            &&& s.failures + k == n ==> t.phase == Phase::Failed && action == Action::Fatal(
                PipelineError::Exhausted,
            )
            &&& s.failures + k > n ==> t.phase == Phase::Failed && action == Action::Nothing
        }),
    decreases errors.len(),
{
    let n = s.catalog.len() as int;
    let k = errors.len() as int;
    let before = errors.drop_last();
    if k == 1 {
        assert(before.len() == 0);
        assert(s.after_failures(before, now).0 == s);
        lemma_small_mod(s.requested as nat, n as nat);
        lemma_following_step(s.requested, 0, n);
    } else {
        lemma_failures_exhaust(s, before, now);
        lemma_following_step(s.requested, k - 1, n);
    }
}

/// A catalog whose every entry fails to decode ends the loop with a fatal
/// error after one traversal: each path is asked for once, in order, and the
/// failure of the last one is fatal.
pub proof fn lemma_all_failing_catalog_is_fatal(
    catalog: Seq<String>,
    interval_ms: u64,
    errors: Seq<DecodeError>,
    now: u64,
)
    requires
        catalog.len() > 0,
        1 <= errors.len() <= catalog.len(),
    ensures
        ({
            let (t, action) = PipelineView::start(catalog, interval_ms).after_failures(errors, now);
            &&& t.current is None
            &&& errors.len() < catalog.len() ==> t.phase == Phase::Bootstrap && action
                == Action::Send(WorkRequest::Decode(catalog[errors.len() as int]))
            &&& errors.len() == catalog.len() ==> t.phase == Phase::Failed && action
                == Action::Fatal(PipelineError::Exhausted)
        }),
{
    let s = PipelineView::start(catalog, interval_ms);
    lemma_failures_exhaust(s, errors, now);
    if errors.len() < catalog.len() {
        lemma_small_mod(errors.len(), catalog.len());
    }
}

/// The display loop's state: the catalog, the image on display, the image
/// waiting to follow it, and the interval.
pub struct PipelineState {
    catalog: Vec<String>,
    phase: Phase,
    requested: usize,
    awaiting: bool,
    failures: usize,
    current_index: usize,
    current: Option<PixelBuffer>,
    pending: Option<PixelBuffer>,
    interval_ms: u64,
    promoted_at: u64,
}

impl View for PipelineState {
    type V = PipelineView;

    closed spec fn view(&self) -> PipelineView {
        PipelineView {
            catalog: self.catalog@,
            phase: self.phase,
            requested: self.requested as int,
            awaiting: self.awaiting,
            failures: self.failures as int,
            current_index: self.current_index as int,
            current: slot_view(self.current),
            pending: slot_view(self.pending),
            interval_ms: self.interval_ms,
            promoted_at: self.promoted_at,
        }
    }
}

impl PipelineState {
    #[verifier::type_invariant]
    pub open spec fn inv(&self) -> bool {
        self@.wf()
    }

    /// Starts the pipeline on `catalog`, with the display time per image that
    /// `config` gives. An empty catalog is rejected; otherwise the first path
    /// is to be asked of the worker.
    pub fn new(catalog: Vec<String>, config: &Config) -> (out: Result<
        (PipelineState, WorkRequest),
        PipelineError,
    >)
        ensures
            catalog@.len() == 0 ==> out == Err::<(PipelineState, WorkRequest), PipelineError>(
                PipelineError::EmptyCatalog,
            ),
            catalog@.len() > 0 ==> (out matches Ok((state, request)) && state@
                == PipelineView::start(catalog@, config.interval_ms) && request
                == WorkRequest::Decode(
                catalog@[0],
            ) && state@.wf()),
    {
        if catalog.len() == 0 {
            return Err(PipelineError::EmptyCatalog);
        }
        let first: String = catalog[0].clone();
        let state = PipelineState {
            catalog,
            phase: Phase::Bootstrap,
            requested: 0,
            awaiting: true,
            failures: 0,
            current_index: 0,
            current: None,
            pending: None,
            interval_ms: config.interval_ms,
            promoted_at: 0,
        };
        Ok((state, WorkRequest::Decode(first)))
    }

    pub fn phase(&self) -> (phase: Phase)
        ensures
            phase == self@.phase,
            self@.wf(),
    {
        proof {
            use_type_invariant(self);
        }
        self.phase
    }

    /// Display time per image, in milliseconds.
    pub fn interval_ms(&self) -> (interval: u64)
        ensures
            interval == self@.interval_ms,
    {
        self.interval_ms
    }

    /// Position in the catalog of the path whose image is on display.
    pub fn current_index(&self) -> (index: usize)
        ensures
            index == self@.current_index,
            index < self@.catalog.len(),
    {
        proof {
            use_type_invariant(self);
        }
        self.current_index
    }

    /// The image on display; none before the first one has been decoded.
    pub fn current_buffer(&self) -> (buffer: Option<&PixelBuffer>)
        ensures
            self@.current == match buffer {
                Some(b) => Some(b@),
                None => None,
            },
            self@.phase == Phase::Running ==> buffer is Some,
    {
        proof {
            use_type_invariant(self);
        }
        self.current.as_ref()
    }

    /// Whether a decoded image waits to be promoted.
    pub fn has_pending(&self) -> (waiting: bool)
        ensures
            waiting == self@.pending is Some,
    {
        self.pending.is_some()
    }

    /// Whether the worker owes the result of a request.
    pub fn is_awaiting(&self) -> (awaiting: bool)
        ensures
            awaiting == self@.awaiting,
    {
        self.awaiting
    }

    /// The following path and the request for it.
    fn next_request(&self) -> (out: (usize, WorkRequest))
        ensures
            out.0 == self@.following(),
            out.0 < self@.catalog.len(),
            out.1 == WorkRequest::Decode(self@.catalog[self@.following()]),
    {
        proof {
            use_type_invariant(self);
        }
        let len: usize = self.catalog.len();
        let next: usize = (self.requested + 1) % len;
        proof {
            if self.requested + 1 == len {
                lemma_mod_self_0(len as int);
            } else {
                lemma_small_mod((self.requested + 1) as nat, len as nat);
            }
        }
        (next, WorkRequest::Decode(self.catalog[next].clone()))
    }

    fn fail(self, error: PipelineError) -> (out: (PipelineState, Action))
        ensures
            out.0@ == self@.fail(error).0,
            out.1 == self@.fail(error).1,
    {
        proof {
            use_type_invariant(&self);
        }
        (PipelineState { phase: Phase::Failed, awaiting: false, ..self }, Action::Fatal(error))
    }

    fn skip_failed(self) -> (out: (PipelineState, Action))
        requires
            self@.phase == Phase::Bootstrap || self@.phase == Phase::Running,
            self@.awaiting,
        ensures
            out.0@ == self@.skip_failed().0,
            out.1 == self@.skip_failed().1,
    {
        proof {
            use_type_invariant(&self);
        }
        let len: usize = self.catalog.len();
        let failures: usize = self.failures + 1;
        if failures >= len {
            (
                PipelineState { failures, phase: Phase::Failed, awaiting: false, ..self },
                Action::Fatal(PipelineError::Exhausted),
            )
        } else {
            let (next, request) = self.next_request();
            (
                PipelineState { failures, requested: next, awaiting: true, ..self },
                Action::Send(request),
            )
        }
    }

    /// Hands over a message from the worker.
    ///
    /// While bootstrapping, the first decoded image goes on display at once
    /// and the following path is asked for. While running, a decoded image
    /// is kept to follow the one on display. A failed decode is skipped:
    /// the following path is asked for, until every path of the catalog has
    /// failed in a row, which is fatal. After an exit signal the outstanding
    /// result is dropped and `Shutdown` sent; `ShutdownAck` then ends the
    /// handshake. A message that cannot follow what was asked is fatal.
    pub fn on_result(self, result: WorkResult, now: u64) -> (out: (PipelineState, Action))
        ensures
            out.0@ == self@.after_result(result, now).0,
            out.1 == self@.after_result(result, now).1,
            out.0@.wf(),
    {
        proof {
            use_type_invariant(&self);
        }
        let out = match self.phase {
            Phase::Bootstrap => match result {
                WorkResult::Ready(Ok(buffer)) => {
                    proof {
                        use_type_invariant(&buffer);
                    }
                    let (next, request) = self.next_request();
                    let shown: usize = self.requested;
                    (
                        PipelineState {
                            phase: Phase::Running,
                            current: Some(buffer),
                            current_index: shown,
                            failures: 0,
                            promoted_at: now,
                            requested: next,
                            awaiting: true,
                            ..self
                        },
                        Action::Send(request),
                    )
                },
                WorkResult::Ready(Err(_)) => self.skip_failed(),
                WorkResult::ShutdownAck => self.fail(PipelineError::Protocol),
            },
            Phase::Running => if !self.awaiting {
                self.fail(PipelineError::Protocol)
            } else {
                match result {
                    WorkResult::Ready(Ok(buffer)) => {
                        proof {
                            use_type_invariant(&buffer);
                        }
                        (
                            PipelineState {
                                pending: Some(buffer),
                                awaiting: false,
                                failures: 0,
                                ..self
                            },
                            Action::Nothing,
                        )
                    },
                    WorkResult::Ready(Err(_)) => self.skip_failed(),
                    WorkResult::ShutdownAck => self.fail(PipelineError::Protocol),
                }
            },
            Phase::Draining => match result {
                WorkResult::Ready(_) => (
                    PipelineState { phase: Phase::Closing, awaiting: false, ..self },
                    Action::Send(WorkRequest::Shutdown),
                ),
                WorkResult::ShutdownAck => self.fail(PipelineError::Protocol),
            },
            Phase::Closing => match result {
                WorkResult::ShutdownAck => (
                    PipelineState { phase: Phase::Done, ..self },
                    Action::Finished,
                ),
                WorkResult::Ready(_) => self.fail(PipelineError::Protocol),
            },
            Phase::Done => (self, Action::Nothing),
            Phase::Failed => (self, Action::Nothing),
        };
        proof {
            use_type_invariant(&out.0);
        }
        out
    }

    /// Hands over the time. Once the interval has elapsed since the last
    /// promotion, the waiting image goes on display and the path after it is
    /// asked for; with no image waiting, the one on display stays.
    pub fn tick(self, now: u64) -> (out: (PipelineState, Action))
        ensures
            out.0@ == self@.after_tick(now).0,
            out.1 == self@.after_tick(now).1,
            out.0@.wf(),
    {
        proof {
            use_type_invariant(&self);
        }
        let elapsed: u64 = if now >= self.promoted_at {
            now - self.promoted_at
        } else {
            0
        };
        let out = if self.phase == Phase::Running && self.pending.is_some() && elapsed
            >= self.interval_ms {
            let (next, request) = self.next_request();
            let shown: usize = self.requested;
            (
                PipelineState {
                    current: self.pending,
                    pending: None,
                    current_index: shown,
                    promoted_at: now,
                    requested: next,
                    awaiting: true,
                    ..self
                },
                Action::Send(request),
            )
        } else {
            (self, Action::Nothing)
        };
        proof {
            use_type_invariant(&out.0);
        }
        out
    }

    /// Hands over a user control: "faster" shortens the interval by a step,
    /// down to the floor; "slower" lengthens it by a step.
    pub fn control(self, control: Control) -> (out: PipelineState)
        ensures
            out@ == self@.after_control(control),
            out@.wf(),
    {
        proof {
            use_type_invariant(&self);
        }
        let interval_ms: u64 = match control {
            Control::Faster => decrease_interval(self.interval_ms),
            Control::Slower => increase_interval(self.interval_ms),
            Control::Neither => self.interval_ms,
        };
        PipelineState { interval_ms, ..self }
    }

    /// Hands over the exit signal. `Shutdown` is sent at once if the worker
    /// owes nothing; otherwise the outstanding result is awaited first.
    pub fn request_exit(self) -> (out: (PipelineState, Action))
        ensures
            out.0@ == self@.after_exit_request().0,
            out.1 == self@.after_exit_request().1,
            out.0@.wf(),
    {
        proof {
            use_type_invariant(&self);
        }
        if self.phase == Phase::Bootstrap || self.phase == Phase::Running {
            if self.awaiting {
                (PipelineState { phase: Phase::Draining, ..self }, Action::Nothing)
            } else {
                (
                    PipelineState { phase: Phase::Closing, ..self },
                    Action::Send(WorkRequest::Shutdown),
                )
            }
        } else {
            (self, Action::Nothing)
        }
    }

    /// One pass of the loop: applies the control, hands over the message
    /// that has arrived, if any, and then the time.
    pub fn frame(self, control: Control, arrived: Option<WorkResult>, now: u64) -> (out: (
        PipelineState,
        Action,
    ))
        ensures
            out.0@ == self@.after_frame(control, arrived, now).0,
            out.1 == self@.after_frame(control, arrived, now).1,
            out.0@.wf(),
    {
        let adjusted = self.control(control);
        let (received, first) = match arrived {
            Some(result) => adjusted.on_result(result, now),
            None => (adjusted, Action::Nothing),
        };
        let (ticked, second) = received.tick(now);
        assert(first is Nothing || second is Nothing);
        match second {
            Action::Nothing => (ticked, first),
            _ => (ticked, second),
        }
    }

    /// The paths that the loop cycles through.
    pub fn catalog(&self) -> (paths: &Vec<String>)
        ensures
            paths@ == self@.catalog,
            paths@.len() > 0,
    {
        proof {
            use_type_invariant(self);
        }
        &self.catalog
    }
}

} // verus!
