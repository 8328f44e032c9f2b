//! A performance log owned by the client session: markers along the path of
//! an input event and of a frame, and a queue of messages for the log's
//! printer.

use vstd::prelude::*;
use std::time::{Duration, Instant};

verus! {

#[verifier::external_type_specification]
#[verifier::external_body]
pub struct ExInstant(std::time::Instant);

/// Relies on `Instant::now`: a reading of the monotonic clock. Nothing is
/// known of its value.
#[verifier::external_body]
fn now() -> (r: Instant) {
    Instant::now()
}

/// Correlation id of an input event or an update batch.
pub type LogId = u64;

/// Timings of the background thread for one update batch.
#[derive(Clone, Debug)]
pub struct BackgroundThreadMetrics {
    pub log_ids: Option<Vec<LogId>>,
    pub get_noria_message: Option<Instant>,
    pub send_transaction: Option<Instant>,
    pub get_wake_up: Option<Instant>,
    pub cpu_backend_time: Option<Duration>,
}

/// Timings of one frame, from the input event that started it.
#[derive(Debug)]
pub struct FrameMetrics {
    pub frame_start: Instant,
    pub after_hit_test: Option<Instant>,
    pub frame_ready: Option<Instant>,
    pub frame_rendered: Option<Instant>,
    pub frame_done: Option<Instant>,
    pub background_thread_metrics: Option<BackgroundThreadMetrics>,
}

/// A message for the log's printer.
#[derive(Debug)]
pub enum LogMessage {
    Raw(String),
    FrameMetrics(FrameMetrics, Vec<LogId>),
}

/// The performance log of a session.
#[derive(Debug)]
pub struct PerfLog {
    next_log_id: LogId,
    frame_rendered: Option<Instant>,
    messages: Vec<LogMessage>,
}

impl PerfLog {
    /// The id that the next input event gets.
    pub closed spec fn next_id(&self) -> LogId {
        self.next_log_id
    }

    /// The messages waiting for the printer, oldest first.
    pub closed spec fn queued(&self) -> Seq<LogMessage> {
        self.messages@
    }

    /// Whether a frame was rendered since the log was made.
    pub closed spec fn rendered(&self) -> bool {
        self.frame_rendered is Some
    }
}

/// The id after `id`, wrapping around.
pub open spec fn next_log_id(id: LogId) -> LogId {
    if id == u64::MAX { 0 } else { (id + 1) as u64 }
}

/// A new log: ids start at zero, no message is queued, no frame rendered.
pub fn init() -> (r: PerfLog)
    ensures
        r.next_id() == 0,
        r.queued() == Seq::<LogMessage>::empty(),
        !r.rendered(),
{
    PerfLog { next_log_id: 0, frame_rendered: None, messages: Vec::new() }
}

/// Queues a message for the printer.
pub fn log(perf: &mut PerfLog, msg: LogMessage)
    ensures
        final(perf).queued() == old(perf).queued().push(msg),
        final(perf).next_id() == old(perf).next_id(),
        final(perf).rendered() == old(perf).rendered(),
{
    perf.messages.push(msg);
}

/// Takes the oldest queued message.
pub fn pop_message(perf: &mut PerfLog) -> (r: Option<LogMessage>)
    ensures
        old(perf).queued().len() == 0 ==> r is None && final(perf).queued() == old(perf).queued(),
        old(perf).queued().len() > 0 ==> r == Some(old(perf).queued()[0])
            && final(perf).queued() == old(perf).queued().drop_first(),
        final(perf).next_id() == old(perf).next_id(),
        final(perf).rendered() == old(perf).rendered(),
{
    if perf.messages.len() == 0 {
        None
    } else {
        let m = perf.messages.remove(0);
        assert(perf.messages@ =~= old(perf).messages@.drop_first());
        Some(m)
    }
}

/// Marks a wheel event coming in, and gives it the next id.
pub fn on_get_mouse_wheel(perf: &mut PerfLog) -> (r: LogId)
    ensures
        r == old(perf).next_id(),
        final(perf).next_id() == next_log_id(old(perf).next_id()),
        final(perf).queued() == old(perf).queued(),
        final(perf).rendered() == old(perf).rendered(),
{
    let id = perf.next_log_id;
    perf.next_log_id = if id == u64::MAX { 0 } else { id + 1 };
    id
}

/// Marks the messages of a wheel event sent; this records nothing.
pub fn on_send_mouse_wheel(perf: &mut PerfLog, log_id: LogId)
    ensures
        *final(perf) == *old(perf),
{
}

/// Marks an update batch received; this records nothing.
pub fn on_get_noria_message(perf: &mut PerfLog, log_ids: Vec<LogId>)
    ensures
        *final(perf) == *old(perf),
{
}

/// Marks a transaction sent to the renderer; this records nothing.
pub fn on_send_transaction(perf: &mut PerfLog, log_ids: &Vec<LogId>)
    ensures
        *final(perf) == *old(perf),
{
}

/// Marks the renderer waking up; this records nothing.
pub fn on_wake_up(perf: &mut PerfLog, d: Duration)
    ensures
        *final(perf) == *old(perf),
{
}

/// Marks a new frame ready; this records nothing.
pub fn on_new_frame_ready(perf: &mut PerfLog)
    ensures
        *final(perf) == *old(perf),
{
}

/// Marks a frame rendered, at the present time.
pub fn on_frame_rendered(perf: &mut PerfLog)
    ensures
        final(perf).rendered(),
        final(perf).next_id() == old(perf).next_id(),
        final(perf).queued() == old(perf).queued(),
{
    perf.frame_rendered = Some(now());
}

/// Marks a frame done; this records nothing.
pub fn on_new_frame_done(perf: &mut PerfLog)
    ensures
        *final(perf) == *old(perf),
{
}

} // verus!
