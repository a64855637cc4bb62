//! Streaming: events are passed on as they come. Until the first one that
//! means something to the client the target can still be given up for the
//! next; from then on the stream is committed to it.

use crate::canonical::{CanonicalEvent, CanonicalResponseRequest, EventView, RequestView};
use crate::clock::is_clock_second;
use crate::error::{error_of, Error, ErrorKind, ErrorView};
use crate::json::{add_member, member, no_members, object_of, text_value, Json, JsonView};
use crate::relay::attempt::{call_log, is_success, lemma_finished_at_most, log_call, shell_holds};
use crate::relay::context::ResolvedTargetProtocol;
use crate::relay::persist::{persist_response_shell, ResponseShell};
use crate::relay::response::{
    extract_upstream_response_id, finished_items, normalize_downstream_response, normalized,
    upstream_id, DownstreamResponse, ItemIds,
};
use crate::relay::target::{RouteSnapshot, TargetSnapshot};
use crate::relay::upstream::{
    adapter_error, map_adapter_error, map_reqwest_error, map_upstream_status, status_error,
    transport_error, UpstreamError,
};
use crate::store::LogEntry;
use crate::text::{contains_text, decimal, decimal_of, join3, occurs_at, same};
use vstd::prelude::*;

verus! {

/// Which limit a stream ran into.
#[derive(Debug, Clone, Copy, PartialEq, Eq, Structural)]
pub enum StreamTimeoutKind {
    Idle,
    MaxDuration,
}

/// A limit in nanoseconds; zero seconds stand for none.
pub open spec fn limit_of(seconds: u64) -> Option<u128> {
    if seconds == 0 {
        None
    } else {
        Some((seconds * 1_000_000_000) as u128)
    }
}

/// A limit in nanoseconds; zero seconds stand for none.
pub fn duration_from_secs_option(seconds: u64) -> (r: Option<u128>)
    ensures
        r == limit_of(seconds),
{
    if seconds == 0 {
        None
    } else {
        Some(seconds as u128 * 1_000_000_000)
    }
}

/// What is left of a limit.
pub open spec fn remaining_of(limit: u128, elapsed: u128) -> u128 {
    if elapsed >= limit {
        0
    } else {
        (limit - elapsed) as u128
    }
}

/// What is left of a limit.
pub fn saturating_remaining(limit: u128, elapsed: u128) -> (r: u128)
    ensures
        r == remaining_of(limit, elapsed),
{
    if elapsed >= limit {
        0
    } else {
        limit - elapsed
    }
}

/// How long to wait for the next piece of a stream, and which limit it is that
/// ends the wait: the one that runs out first, and of two that run out together
/// the one on the whole stream.
pub open spec fn deadline_of(
    since_start: u128,
    since_activity: u128,
    idle_timeout: Option<u128>,
    max_duration: Option<u128>,
) -> Option<(u128, StreamTimeoutKind)> {
    match (idle_timeout, max_duration) {
        (Some(idle), Some(max)) => {
            let idle_left = remaining_of(idle, since_activity);
            let max_left = remaining_of(max, since_start);
            if max_left <= idle_left {
                Some((max_left, StreamTimeoutKind::MaxDuration))
            } else {
                Some((idle_left, StreamTimeoutKind::Idle))
            }
        },
        (Some(idle), None) => Some((remaining_of(idle, since_activity), StreamTimeoutKind::Idle)),
        (None, Some(max)) => Some(
            (remaining_of(max, since_start), StreamTimeoutKind::MaxDuration),
        ),
        (None, None) => None,
    }
}

/// How long to wait for the next piece of a stream, in nanoseconds, and which
/// limit ends the wait.
pub fn next_stream_deadline(
    since_start: u128,
    since_activity: u128,
    idle_timeout: Option<u128>,
    max_duration: Option<u128>,
) -> (r: Option<(u128, StreamTimeoutKind)>)
    ensures
        r == deadline_of(since_start, since_activity, idle_timeout, max_duration),
{
    match (idle_timeout, max_duration) {
        (Some(idle), Some(max)) => {
            let idle_left: u128 = saturating_remaining(idle, since_activity);
            let max_left: u128 = saturating_remaining(max, since_start);
            if max_left <= idle_left {
                Some((max_left, StreamTimeoutKind::MaxDuration))
            } else {
                Some((idle_left, StreamTimeoutKind::Idle))
            }
        },
        (Some(idle), None) => Some(
            (saturating_remaining(idle, since_activity), StreamTimeoutKind::Idle),
        ),
        (None, Some(max)) => Some(
            (saturating_remaining(max, since_start), StreamTimeoutKind::MaxDuration),
        ),
        (None, None) => None,
    }
}

/// A wait never outlasts either limit.
pub proof fn deadline_respects_both_limits(
    since_start: u128,
    since_activity: u128,
    idle_timeout: Option<u128>,
    max_duration: Option<u128>,
)
    ensures
        deadline_of(since_start, since_activity, idle_timeout, max_duration) matches Some((
            wait,
            kind,
        )) ==> {
            &&& idle_timeout matches Some(idle) ==> wait <= remaining_of(idle, since_activity)
            &&& max_duration matches Some(max) ==> wait <= remaining_of(max, since_start)
        },
        deadline_of(since_start, since_activity, idle_timeout, max_duration) is None
            <==> idle_timeout is None && max_duration is None,
{
}

/// The error of a stream that ran into a limit.
pub open spec fn timeout_error(
    kind: StreamTimeoutKind,
    idle_secs: u64,
    max_secs: u64,
) -> ErrorView {
    error_of(
        ErrorKind::UpstreamTimeout,
        match kind {
            StreamTimeoutKind::Idle => "Upstream stream idle timeout after "@ + decimal(
                idle_secs as nat,
            ) + "s"@,
            StreamTimeoutKind::MaxDuration => "Upstream stream exceeded max duration "@ + decimal(
                max_secs as nat,
            ) + "s"@,
        },
    )
}

/// The error of a stream that ran into a limit.
pub fn stream_timeout_error(kind: StreamTimeoutKind, idle_secs: u64, max_secs: u64) -> (r: Error)
    ensures
        r.deep_view() == timeout_error(kind, idle_secs, max_secs),
{
    let message = match kind {
        StreamTimeoutKind::Idle => {
            let secs = decimal_of(idle_secs);
            join3("Upstream stream idle timeout after ", secs.as_str(), "s")
        },
        StreamTimeoutKind::MaxDuration => {
            let secs = decimal_of(max_secs);
            join3("Upstream stream exceeded max duration ", secs.as_str(), "s")
        },
    };
    Error { kind: ErrorKind::UpstreamTimeout, message }
}

/// Whether an event means something to the client, so that it commits the
/// stream.
pub open spec fn is_semantic(event: EventView) -> bool {
    event !is Other
}

/// Whether an event means something to the client.
pub fn event_is_semantic(event: &CanonicalEvent) -> (r: bool)
    ensures
        r == is_semantic(event.deep_view()),
{
    match event {
        CanonicalEvent::Other => false,
        _ => true,
    }
}

/// Whether a frame is the marker that ends a stream, which carries no event.
pub fn is_done_marker(event_name: Option<&str>) -> (r: bool)
    ensures
        r == (event_name.deep_view() == Some("[DONE]"@)),
{
    match event_name {
        Some(name) => same(name, "[DONE]"),
        None => false,
    }
}

/// What happens on a stream.
#[derive(Debug)]
pub enum StreamSignal {
    /// A frame was read: an event, or nothing of interest.
    Frame { event: Option<CanonicalEvent> },
    /// A frame could not be read.
    BadFrame { error: UpstreamError },
    /// A limit ran out.
    TimedOut { kind: StreamTimeoutKind, idle_secs: u64, max_secs: u64 },
    /// The connection failed.
    Broken { timed_out: bool, detail: String },
    /// The stream ended.
    End,
}

/// The mathematical value of a [`StreamSignal`]: an event, nothing of interest,
/// a failure with its error, or the end.
#[verifier::ext_equal]
pub enum SignalView {
    Event { event: EventView },
    Nothing,
    Failure { error: ErrorView },
    End,
}

impl DeepView for StreamSignal {
    type V = SignalView;

    open spec fn deep_view(&self) -> SignalView {
        match self {
            StreamSignal::Frame { event: Some(event) } => SignalView::Event {
                event: event.deep_view(),
            },
            StreamSignal::Frame { event: None } => SignalView::Nothing,
            StreamSignal::BadFrame { error } => SignalView::Failure {
                error: adapter_error(error.deep_view()),
            },
            StreamSignal::TimedOut { kind, idle_secs, max_secs } => SignalView::Failure {
                error: timeout_error(*kind, *idle_secs, *max_secs),
            },
            StreamSignal::Broken { timed_out, detail } => SignalView::Failure {
                error: transport_error(*timed_out, detail@),
            },
            StreamSignal::End => SignalView::End,
        }
    }
}

/// What is to be done after a signal.
#[derive(Debug)]
pub enum StreamStep {
    /// Go on; the event, where there is one, is passed on to the client.
    Continue { forward: bool },
    /// Stop reading and finish the stream.
    Stop,
    /// Give the target up with this error.
    GiveUp { error: Error },
}

/// The mathematical value of a [`StreamStep`].
#[verifier::ext_equal]
pub enum StreamStepView {
    Continue { forward: bool },
    Stop,
    GiveUp { error: ErrorView },
}

impl DeepView for StreamStep {
    type V = StreamStepView;

    open spec fn deep_view(&self) -> StreamStepView {
        match self {
            StreamStep::Continue { forward } => StreamStepView::Continue { forward: *forward },
            StreamStep::Stop => StreamStepView::Stop,
            StreamStep::GiveUp { error } => StreamStepView::GiveUp { error: error.deep_view() },
        }
    }
}

/// The state of a stream: the events so far, whether they commit it, and the
/// failure that ended it after that.
#[derive(Debug)]
pub struct StreamRelay {
    committed: bool,
    events: Vec<CanonicalEvent>,
    failure: Option<Error>,
}

/// The mathematical value of a [`StreamRelay`].
#[verifier::ext_equal]
pub struct StreamView {
    pub committed: bool,
    pub events: Seq<EventView>,
    pub failure: Option<ErrorView>,
}

/// A stream on which nothing has happened.
pub open spec fn fresh_stream() -> StreamView {
    StreamView { committed: false, events: Seq::empty(), failure: None }
}

/// The stream after a signal, and what is to be done.
pub open spec fn stream_on(stream: StreamView, signal: SignalView) -> (StreamView, StreamStepView) {
    match signal {
        SignalView::Event { event } => (
            StreamView {
                committed: stream.committed || is_semantic(event),
                events: stream.events.push(event),
                ..stream
            },
            StreamStepView::Continue { forward: true },
        ),
        SignalView::Nothing => (stream, StreamStepView::Continue { forward: false }),
        SignalView::Failure { error } => if stream.committed {
            (StreamView { failure: Some(error), ..stream }, StreamStepView::Stop)
        } else {
            (stream, StreamStepView::GiveUp { error })
        },
        SignalView::End => (stream, StreamStepView::Stop),
    }
}

/// The refusal of a stream that ended before it said anything.
pub open spec fn silent_stream_error() -> ErrorView {
    error_of(
        ErrorKind::UpstreamUnavailable,
        "Upstream stream ended before first semantic event"@,
    )
}

/// The frame that tells the client of a failure after the commit.
pub open spec fn failure_frame(error: ErrorView) -> JsonView {
    JsonView::Object(
        seq![
            (
                "error"@,
                JsonView::Object(
                    seq![
                        ("code"@, JsonView::Text(error.kind.name())),
                        ("message"@, JsonView::Text(error.message)),
                        ("type"@, JsonView::Text(error.kind.name())),
                    ],
                ),
            ),
        ],
    )
}

/// A finished stream: the frame for a failure after the commit, where there was
/// one, the response, and the rows to store.
#[derive(Debug)]
pub struct FinishedStream {
    pub failure_frame: Option<Json>,
    pub response: DownstreamResponse,
    pub shell: ResponseShell,
}

impl StreamRelay {
    /// The mathematical value of this stream.
    pub closed spec fn view(&self) -> StreamView {
        StreamView {
            committed: self.committed,
            events: self.events.deep_view(),
            failure: self.failure.deep_view(),
        }
    }

    /// A stream on which nothing has happened.
    pub fn new() -> (r: StreamRelay)
        ensures
            r@ == fresh_stream(),
    {
        let events: Vec<CanonicalEvent> = Vec::new();
        assert(events.deep_view() =~= Seq::empty());
        StreamRelay { committed: false, events, failure: None }
    }

    /// Takes note of a signal.
    pub fn advance(&mut self, signal: StreamSignal) -> (r: StreamStep)
        ensures
            (final(self)@, r.deep_view()) == stream_on(old(self)@, signal.deep_view()),
    {
        let error = match signal {
            StreamSignal::End => {
                return StreamStep::Stop;
            },
            StreamSignal::Frame { event: None } => {
                return StreamStep::Continue { forward: false };
            },
            StreamSignal::Frame { event: Some(event) } => {
                if event_is_semantic(&event) {
                    self.committed = true;
                }
                let ghost before = self.events.deep_view();
                let ghost shown = event.deep_view();
                self.events.push(event);
                assert(self.events.deep_view() =~= before.push(shown));
                return StreamStep::Continue { forward: true };
            },
            StreamSignal::BadFrame { error } => map_adapter_error(error),
            StreamSignal::TimedOut { kind, idle_secs, max_secs } => stream_timeout_error(
                kind,
                idle_secs,
                max_secs,
            ),
            StreamSignal::Broken { timed_out, detail } => map_reqwest_error(
                timed_out,
                detail.as_str(),
            ),
        };
        if self.committed {
            self.failure = Some(error);
            StreamStep::Stop
        } else {
            StreamStep::GiveUp { error }
        }
    }

    /// The events so far.
    pub fn events(&self) -> (r: &Vec<CanonicalEvent>)
        ensures
            r.deep_view() == self@.events,
    {
        &self.events
    }

    /// Finishes a stream that was stopped. One that was never committed is
    /// given up. `ids` are fresh ids for the output items, `usage_json` is the
    /// usage that the events report as it is to be stored.
    pub fn finish(
        &self,
        request: &CanonicalResponseRequest,
        route: &RouteSnapshot,
        target: &TargetSnapshot,
        resolved: &ResolvedTargetProtocol,
        response_id: &str,
        ids: &Vec<ItemIds>,
        usage_json: Option<String>,
    ) -> (r: Result<FinishedStream, Error>)
        requires
            ids.len() >= finished_items(self@.events).len(),
            self@.events.len() <= i64::MAX,
        ensures
            match r {
                Ok(finished) => {
                    &&& self@.committed
                    &&& finished.failure_frame.deep_view() == (match self@.failure {
                        Some(error) => Some(failure_frame(error)),
                        None => None,
                    })
                    &&& finished.response.deep_view() == normalized(
                        route.downstream_model@,
                        self@.events,
                        response_id@,
                        ids.deep_view(),
                        finished.response.created_at,
                    )
                    &&& is_clock_second(finished.response.created_at)
                    &&& shell_holds(
                        finished.shell,
                        request.deep_view(),
                        route.deep_view(),
                        target.deep_view(),
                        resolved.deep_view(),
                        finished.response.deep_view(),
                        usage_json.deep_view(),
                        upstream_id(self@.events),
                    )
                },
                Err(error) => !self@.committed && error.deep_view() == silent_stream_error(),
            },
    {
        if !self.committed {
            return Err(
                Error::new(
                    ErrorKind::UpstreamUnavailable,
                    "Upstream stream ended before first semantic event",
                ),
            );
        }
        let failure_frame = match &self.failure {
            Some(error) => Some(make_failure_frame(error)),
            None => None,
        };
        let response = normalize_downstream_response(
            route.downstream_model.as_str(),
            &self.events,
            response_id,
            ids,
        );
        proof {
            lemma_finished_at_most(self.events.deep_view());
            assert(response.output.deep_view().len() == response.output@.len());
        }
        let upstream_response_id = extract_upstream_response_id(&self.events);
        let shell = persist_response_shell(
            request.request_id.as_str(),
            route,
            target,
            resolved,
            &response,
            usage_json,
            &upstream_response_id,
            &request.previous_response_id,
        );
        Ok(FinishedStream { failure_frame, response, shell })
    }
}

/// The frame that tells the client of a failure after the commit.
fn make_failure_frame(error: &Error) -> (r: Json)
    ensures
        r@ == failure_frame(error.deep_view()),
{
    let mut detail = no_members();
    add_member(&mut detail, "code", text_value(error.kind.as_str()));
    add_member(&mut detail, "message", text_value(error.message.as_str()));
    add_member(&mut detail, "type", text_value(error.kind.as_str()));
    let inner = object_of(detail);
    assert(inner@->Object_0 =~= failure_frame(error.deep_view())->Object_0[0].1->Object_0);
    let mut members = no_members();
    add_member(&mut members, "error", inner);
    assert(members.deep_view() =~= failure_frame(error.deep_view())->Object_0);
    object_of(members)
}

/// What the answer to a streaming request comes to before any of it is read:
/// nothing where it reports success, or else an error, and a log line where the
/// body came.
pub fn check_stream_answer(
    request: &CanonicalResponseRequest,
    route: &RouteSnapshot,
    target: &TargetSnapshot,
    resolved: &ResolvedTargetProtocol,
    status: u16,
    body: &Vec<u8>,
) -> (r: Result<(), (Error, LogEntry)>)
    ensures
        match r {
            Ok(_) => is_success(status),
            Err((error, log)) => {
                &&& !is_success(status)
                &&& error.deep_view() == status_error(status, body@)
                &&& log.deep_view() == call_log(
                    request.request_id@,
                    None,
                    route.deep_view(),
                    target.deep_view(),
                    Some(resolved.wire_api.name()),
                    Some(status as i32),
                    Some("upstream_error"@),
                    None,
                    None,
                )
            },
        },
{
    if 200 <= status && status < 300 {
        return Ok(());
    }
    let log = log_call(
        request.request_id.as_str(),
        None,
        route,
        target,
        Some(resolved.wire_api),
        Some(status as i32),
        Some("upstream_error"),
        None,
        None,
    );
    Err((map_upstream_status(status, body), log))
}

/// The stream after all signals, up to the first that ends it, and the last
/// step.
pub open spec fn stream_all(stream: StreamView, signals: Seq<SignalView>) -> (
    StreamView,
    StreamStepView,
)
    decreases signals.len(),
{
    if signals.len() == 0 {
        (stream, StreamStepView::Continue { forward: false })
    } else {
        let (next, step) = stream_on(stream, signals[0]);
        if step is Continue {
            stream_all(next, signals.drop_first())
        } else {
            (next, step)
        }
    }
}

/// A request as it is sent for a stream.
pub fn streaming_request(request: CanonicalResponseRequest) -> (r: CanonicalResponseRequest)
    ensures
        r.deep_view() == (RequestView { stream: true, ..request.deep_view() }),
{
    let mut request = request;
    request.stream = true;
    request
}

/// A stream that is committed to a target is never given up for another one,
/// whatever happens on it.
pub proof fn commit_is_final(stream: StreamView, signals: Seq<SignalView>)
    requires
        stream.committed,
    ensures
        stream_all(stream, signals).0.committed,
        stream_all(stream, signals).1 !is GiveUp,
    decreases signals.len(),
{
    if signals.len() > 0 {
        let (next, step) = stream_on(stream, signals[0]);
        if step is Continue {
            commit_is_final(next, signals.drop_first());
        }
    }
}

/// A failure before the commit gives the target up with just that error, so the
/// next target can serve the request in full.
pub proof fn failure_before_commit_gives_up(signals: Seq<SignalView>, k: int, error: ErrorView)
    requires
        0 <= k < signals.len(),
        signals[k] == (SignalView::Failure { error }),
        forall|i: int|
            0 <= i < k ==> match #[trigger] signals[i] {
                SignalView::Nothing => true,
                SignalView::Event { event } => !is_semantic(event),
                _ => false,
            },
    ensures
        stream_all(fresh_stream(), signals).1 == (StreamStepView::GiveUp { error }),
{
    lemma_uncommitted_run(fresh_stream(), signals, k, error);
}

proof fn lemma_uncommitted_run(
    stream: StreamView,
    signals: Seq<SignalView>,
    k: int,
    error: ErrorView,
)
    requires
        !stream.committed,
        0 <= k < signals.len(),
        signals[k] == (SignalView::Failure { error }),
        forall|i: int|
            0 <= i < k ==> match #[trigger] signals[i] {
                SignalView::Nothing => true,
                SignalView::Event { event } => !is_semantic(event),
                _ => false,
            },
    ensures
        stream_all(stream, signals).1 == (StreamStepView::GiveUp { error }),
    decreases k,
{
    if k > 0 {
        let first = signals[0];
        let rest = signals.drop_first();
        assert forall|i: int| 0 <= i < k - 1 implies match #[trigger] rest[i] {
            SignalView::Nothing => true,
            SignalView::Event { event } => !is_semantic(event),
            _ => false,
        } by {
            assert(rest[i] == signals[i + 1]);
        }
        assert(rest[k - 1] == signals[k]);
        lemma_uncommitted_run(stream_on(stream, first).0, rest, k - 1, error);
    }
}

/// The events of the signals, in order.
pub open spec fn events_among(signals: Seq<SignalView>) -> Seq<EventView>
    decreases signals.len(),
{
    if signals.len() == 0 {
        Seq::empty()
    } else {
        match signals[0] {
            SignalView::Event { event } => seq![event] + events_among(signals.drop_first()),
            _ => events_among(signals.drop_first()),
        }
    }
}

/// While a stream goes on, every event is kept, in order.
pub proof fn stream_keeps_all_events(stream: StreamView, signals: Seq<SignalView>)
    requires
        forall|i: int|
            0 <= i < signals.len() ==> (#[trigger] signals[i] is Event || signals[i] is Nothing),
    ensures
        stream_all(stream, signals).0.events == stream.events + events_among(signals),
    decreases signals.len(),
{
    if signals.len() > 0 {
        let rest = signals.drop_first();
        assert forall|i: int| 0 <= i < rest.len() implies (#[trigger] rest[i] is Event
            || rest[i] is Nothing) by {
            assert(rest[i] == signals[i + 1]);
        }
        assert(signals[0] is Event || signals[0] is Nothing);
        let next = stream_on(stream, signals[0]).0;
        stream_keeps_all_events(next, rest);
        if let SignalView::Event { event } = signals[0] {
            assert(stream.events.push(event) + events_among(rest) =~= stream.events + (seq![event]
                + events_among(rest)));
        }
    } else {
        assert(stream.events + events_among(signals) =~= stream.events);
    }
}

/// An event goes on to the client as it comes, before the commit and after it. It
/// is kept behind those before it, and any but one of an unknown kind commits the
/// stream.
pub proof fn every_event_is_forwarded(stream: StreamView, event: EventView)
    ensures
        stream_on(stream, SignalView::Event { event }).1 == (StreamStepView::Continue {
            forward: true,
        }),
        stream_on(stream, SignalView::Event { event }).0.events == stream.events.push(event),
        stream_on(stream, SignalView::Event { event }).0.failure == stream.failure,
        stream_on(stream, SignalView::Event { event }).0.committed <==> (stream.committed || !(
        event is Other)),
{
}

/// Nothing but an event is forwarded, and nothing but an event changes what a
/// stream holds, but for a failure after the commit, which is noted. Such a failure
/// stops the stream, as its end does; one before the commit gives the target up
/// with its error.
pub proof fn only_events_are_forwarded(stream: StreamView, signal: SignalView)
    ensures
        stream_on(stream, signal).1 == (StreamStepView::Continue { forward: true })
            <==> signal is Event,
        signal is Nothing ==> stream_on(stream, signal) == (
            stream,
            StreamStepView::Continue { forward: false },
        ),
        signal is End ==> stream_on(stream, signal) == (stream, StreamStepView::Stop),
        signal matches SignalView::Failure { error } ==> {
            let (after, step) = stream_on(stream, signal);
            &&& after.events == stream.events && after.committed == stream.committed
            &&& step == if stream.committed {
                StreamStepView::Stop
            } else {
                StreamStepView::GiveUp { error }
            }
            &&& after.failure == if stream.committed {
                Some(error)
            } else {
                stream.failure
            }
        },
{
}

/// The events of the signals that a run of a stream forwards, in order.
pub open spec fn forwarded_events(stream: StreamView, signals: Seq<SignalView>) -> Seq<EventView>
    decreases signals.len(),
{
    if signals.len() == 0 {
        Seq::empty()
    } else {
        let (next, step) = stream_on(stream, signals[0]);
        let first = match (step, signals[0]) {
            (StreamStepView::Continue { forward: true }, SignalView::Event { event }) => seq![event],
            _ => Seq::empty(),
        };
        if step is Continue {
            first + forwarded_events(next, signals.drop_first())
        } else {
            first
        }
    }
}

/// As long as a stream neither fails nor ends, what is forwarded of its signals is
/// the events among them, all of them and in their order, whether the stream was
/// committed before or not.
pub proof fn run_forwards_its_events(stream: StreamView, signals: Seq<SignalView>)
    requires
        forall|i: int|
            0 <= i < signals.len() ==> (#[trigger] signals[i] is Event || signals[i] is Nothing),
    ensures
        forwarded_events(stream, signals) == signals.filter(
            |signal: SignalView| signal is Event,
        ).map_values(|signal: SignalView| signal->event),
    decreases signals.len(),
{
    let is_event = |signal: SignalView| signal is Event;
    let event_of = |signal: SignalView| signal->event;
    reveal(Seq::filter);
    if signals.len() > 0 {
        let first = seq![signals[0]];
        let rest = signals.drop_first();
        assert forall|i: int| 0 <= i < rest.len() implies (#[trigger] rest[i] is Event
            || rest[i] is Nothing) by {
            assert(rest[i] == signals[i + 1]);
        }
        assert(signals[0] is Event || signals[0] is Nothing);
        run_forwards_its_events(stream_on(stream, signals[0]).0, rest);
        assert(signals =~= first + rest);
        Seq::filter_distributes_over_add(first, rest, is_event);
        assert(first.drop_last() =~= Seq::empty());
        assert(first.drop_last().filter(is_event) =~= Seq::empty());
        if signals[0] is Event {
            assert(first.filter(is_event) =~= first);
            assert((first + rest.filter(is_event)).map_values(event_of) =~= seq![signals[0]->event]
                + rest.filter(is_event).map_values(event_of));
        } else {
            assert(first.filter(is_event) =~= Seq::empty());
            assert(Seq::empty() + rest.filter(is_event) =~= rest.filter(is_event));
            assert(Seq::<EventView>::empty() + rest.filter(is_event).map_values(event_of)
                =~= rest.filter(is_event).map_values(event_of));
        }
    } else {
        assert(signals.filter(is_event).map_values(event_of) =~= Seq::empty());
    }
}

/// The wait for the next piece of a stream ends when the limit that it names has
/// run out, counted from the start of the stream or from the last piece, and no
/// limit that is set runs out before. Of two that run out together the one on the
/// whole stream is named.
pub proof fn wait_ends_with_the_nearest_limit(
    since_start: u128,
    since_activity: u128,
    idle_timeout: Option<u128>,
    max_duration: Option<u128>,
)
    ensures
        deadline_of(since_start, since_activity, idle_timeout, max_duration) matches Some((
            wait,
            kind,
        )) ==> {
            &&& kind is Idle ==> (idle_timeout matches Some(idle) && (since_activity + wait == idle
                || (wait == 0 && since_activity >= idle)))
            &&& kind is MaxDuration ==> (max_duration matches Some(max) && (since_start + wait
                == max || (wait == 0 && since_start >= max)))
            &&& kind is Idle ==> (max_duration matches Some(max) ==> since_start + wait < max)
            &&& kind is MaxDuration ==> (idle_timeout matches Some(idle) ==> since_activity + wait
                <= idle || wait == 0)
        },
{
}

/// A limit of so many seconds is as many thousand million nanoseconds; zero
/// seconds stand for no limit.
pub proof fn limit_is_in_nanoseconds(seconds: u64)
    ensures
        limit_of(seconds) is None <==> seconds == 0,
        limit_of(seconds) matches Some(limit) ==> limit == seconds as int * 1_000_000_000,
{
}

/// A stream that ran into a limit is reported as a timeout, with the seconds of
/// the limit that it ran into.
pub proof fn timeout_names_its_limit(kind: StreamTimeoutKind, idle_secs: u64, max_secs: u64)
    ensures
        timeout_error(kind, idle_secs, max_secs).kind == ErrorKind::UpstreamTimeout,
        contains_text(
            timeout_error(kind, idle_secs, max_secs).message,
            decimal(
                if kind is Idle {
                    idle_secs as nat
                } else {
                    max_secs as nat
                },
            ),
        ),
{
    let message = timeout_error(kind, idle_secs, max_secs).message;
    let idle = "Upstream stream idle timeout after "@;
    let max = "Upstream stream exceeded max duration "@;
    if kind is Idle {
        let seconds = decimal(idle_secs as nat);
        assert(message.subrange(idle.len() as int, (idle.len() + seconds.len()) as int)
            =~= seconds);
        assert(occurs_at(message, seconds, idle.len() as int));
    } else {
        let seconds = decimal(max_secs as nat);
        assert(message.subrange(max.len() as int, (max.len() + seconds.len()) as int) =~= seconds);
        assert(occurs_at(message, seconds, max.len() as int));
    }
}

/// A failure after the commit is told to the client with its message as it is,
/// under the name of its kind.
pub proof fn failure_frame_tells_the_error(error: ErrorView)
    ensures
        failure_frame(error).get("error"@) matches Some(detail) && {
            &&& detail.get_str("message"@) == Some(error.message)
            &&& detail.get_str("code"@) == Some(error.kind.name())
            &&& detail.get_str("type"@) == Some(error.kind.name())
        },
{
    reveal_strlit("code");
    reveal_strlit("message");
    reveal_strlit("type");
    reveal_with_fuel(member, 4);
    assert("code"@.len() == 4 && "message"@.len() == 7 && "type"@.len() == 4);
    assert("code"@[0] != "type"@[0]);
}

/// What reaches a stream is taken for what it is: a frame with an event for that event,
/// one without for nothing, and a bad frame, a timeout and a break for failures with
/// their own errors.
pub proof fn signals_are_taken_for_what_they_are(signal: StreamSignal)
    ensures
        match signal {
            StreamSignal::Frame { event: Some(event) } => signal.deep_view() == (
            SignalView::Event { event: event.deep_view() }),
            StreamSignal::Frame { event: None } => signal.deep_view() is Nothing,
            StreamSignal::BadFrame { error } => signal.deep_view() == (SignalView::Failure {
                error: adapter_error(error.deep_view()),
            }),
            StreamSignal::TimedOut { kind, idle_secs, max_secs } => signal.deep_view() == (
            SignalView::Failure { error: timeout_error(kind, idle_secs, max_secs) }),
            StreamSignal::Broken { timed_out, detail } => signal.deep_view() == (
            SignalView::Failure { error: transport_error(timed_out, detail@) }),
            StreamSignal::End => signal.deep_view() is End,
        },
{
}

/// Nothing has happened on a fresh stream; one that ends so is an upstream that cannot
/// be reached.
pub proof fn fresh_stream_holds_nothing()
    ensures
        !fresh_stream().committed,
        fresh_stream().events.len() == 0,
        fresh_stream().failure is None,
        silent_stream_error().kind == ErrorKind::UpstreamUnavailable,
{
}

} // verus!
