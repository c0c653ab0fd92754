//! Telemetry: the bounded queue of outcome events, the request that reports
//! one, and what becomes of an event once a delivery has been tried.
//!
//! Delivery is best effort. An event whose delivery failed goes back to the
//! end of the queue if there is room and is lost otherwise.

use vstd::prelude::*;
use vstd::string::StringExecFns;
use vstd::utf8::{decode_utf8, encode_utf8, valid_utf8};
use embassy_sync::blocking_mutex::raw::NoopRawMutex;
use embassy_sync::channel::Channel;

verus! {

/// Number of events that the queue holds.
pub const MAX_QUEUE_LEN: usize = 32;

/// Pause after a failed delivery, in milliseconds.
pub const RETRY_COOLDOWN_MS: u64 = 60_000;

/// Longest URL that the firmware can send, in bytes.
pub const MAX_URL_LEN: usize = 128;

/// An outcome to report. Each but `ERROR` carries the identity of the card.
#[derive(Debug, Eq, PartialEq, Clone, Copy)]
pub enum LogEvent {
    ACTIVATED([u8; 32]),
    DEACTIVATED([u8; 32]),
    LOGINFAIL([u8; 32]),
    ERROR,
}

/// Why a delivery failed.
#[derive(Debug, Eq, PartialEq, Clone, Copy)]
pub enum LogError {
    /// The network link is not up.
    WifiNotConnected,
    /// The connection could not be made, or broke.
    ConnectionError,
    /// The server did not answer in time.
    Timeout,
    /// The server answered with this status, which is not a success.
    RemoteServerError(u16),
}

/// How the POST of one event ended.
#[derive(Debug, Eq, PartialEq, Clone, Copy)]
pub enum PostOutcome {
    /// No connection within the timeout.
    RequestTimedOut,
    /// The connection could not be made, or broke.
    ConnectionFailed,
    /// The request was sent and no answer came within the timeout.
    SendTimedOut,
    /// The server answered with this status.
    Response(u16),
}

/// What became of an event after one delivery attempt.
#[derive(Debug, Eq, PartialEq, Clone, Copy)]
pub enum DispatchStep {
    /// Delivered; the event is dropped.
    Delivered,
    /// Not delivered; the event is back at the end of the queue. Wait
    /// before the next attempt.
    Requeued { wait_ms: u64 },
    /// Not delivered, and the queue was full: the event is lost. Wait
    /// before the next attempt.
    Lost { wait_ms: u64 },
}

/// The telemetry queue: an `embassy_sync::channel::Channel` of thirty-two
/// events, first in, first out. [`queued`] names what waits in it.
#[verifier::external_body]
pub struct LogQueue {
    channel: Channel<NoopRawMutex, LogEvent, 32>,
}

/// The events that wait in a queue, oldest first.
pub uninterp spec fn queued(queue: LogQueue) -> Seq<LogEvent>;

/// `embassy_sync::channel::Channel::new`: a queue in which nothing waits.
#[verifier::external_body]
fn channel_new() -> (queue: LogQueue)
    ensures
        queued(queue).len() == 0,
{
    LogQueue { channel: Channel::new() }
}

/// `embassy_sync::channel::Channel::try_send`: puts the event behind those
/// that wait, unless thirty-two wait already; then the queue stays as it
/// was.
#[verifier::external_body]
pub(crate) fn channel_try_send(queue: &mut LogQueue, event: LogEvent) -> (sent: bool)
    ensures
        sent == (queued(*old(queue)).len() < 32),
        sent ==> queued(*final(queue)) == queued(*old(queue)).push(event),
        !sent ==> queued(*final(queue)) == queued(*old(queue)),
{
    queue.channel.try_send(event).is_ok()
}

/// `embassy_sync::channel::Channel::try_receive`: takes the event that has
/// waited longest, if any waits.
#[verifier::external_body]
fn channel_try_receive(queue: &mut LogQueue) -> (event: Option<LogEvent>)
    ensures
        match event {
            Some(e) => queued(*old(queue)).len() > 0 && e == queued(*old(queue))[0] && queued(
                *final(queue),
            ) == queued(*old(queue)).skip(1),
            None => queued(*old(queue)).len() == 0 && queued(*final(queue)) == queued(
                *old(queue),
            ),
        },
{
    queue.channel.try_receive().ok()
}

/// `embassy_sync::channel::Channel::len`: the number of events that wait,
/// which is never more than the capacity.
#[verifier::external_body]
fn channel_len(queue: &LogQueue) -> (n: usize)
    ensures
        n == queued(*queue).len(),
        n <= 32,
{
    queue.channel.len()
}

/// `core::str::from_utf8`: the text that the bytes encode, where they are
/// well-formed UTF-8.
#[verifier::external_body]
fn text_of(bytes: &[u8]) -> (text: Option<&str>)
    ensures
        match text {
            Some(s) => valid_utf8(bytes@) && s@ == decode_utf8(bytes@),
            None => !valid_utf8(bytes@),
        },
{
    core::str::from_utf8(bytes).ok()
}

/// The name under which the logging service knows the event.
pub open spec fn event_name(event: LogEvent) -> Seq<char> {
    match event {
        LogEvent::ACTIVATED(_) => "Activated"@,
        LogEvent::DEACTIVATED(_) => "Deactivated"@,
        LogEvent::LOGINFAIL(_) => "LoginFail"@,
        LogEvent::ERROR => "ERROR"@,
    }
}

/// The identity as it is reported: its text where it is well-formed UTF-8,
/// a fixed notice where it is not, and the literal `N/A` where the event
/// carries none.
pub open spec fn hash_text(event: LogEvent) -> Seq<char> {
    match event {
        LogEvent::ACTIVATED(hash) | LogEvent::DEACTIVATED(hash) | LogEvent::LOGINFAIL(hash) => {
            if valid_utf8(hash@) {
                decode_utf8(hash@)
            } else {
                " Non-ascii bytes in hash"@
            }
        },
        LogEvent::ERROR => "N/A"@,
    }
}

/// The JSON body that reports `event`.
pub open spec fn log_body(event: LogEvent) -> Seq<char> {
    "{ \"type\": \""@ + event_name(event) + "\", \"hash\": \""@ + hash_text(event) + "\"}"@
}

/// The result of a delivery, as the dispatcher sees it.
pub open spec fn delivery_of(outcome: PostOutcome) -> Result<(), LogError> {
    match outcome {
        PostOutcome::RequestTimedOut => Err(LogError::Timeout),
        PostOutcome::ConnectionFailed => Err(LogError::ConnectionError),
        PostOutcome::SendTimedOut => Err(LogError::Timeout),
        PostOutcome::Response(status) => if 200 <= status <= 299 {
            Ok(())
        } else {
            Err(LogError::RemoteServerError(status))
        },
    }
}

/// The queue and the step after a delivery of `event` has ended with
/// `delivery`, `queue` being what waited meanwhile.
pub open spec fn settle(queue: Seq<LogEvent>, event: LogEvent, delivery: Result<(), LogError>) -> (
    Seq<LogEvent>,
    DispatchStep,
) {
    match delivery {
        Ok(_) => (queue, DispatchStep::Delivered),
        Err(_) => if queue.len() < MAX_QUEUE_LEN {
            (queue.push(event), DispatchStep::Requeued { wait_ms: RETRY_COOLDOWN_MS })
        } else {
            (queue, DispatchStep::Lost { wait_ms: RETRY_COOLDOWN_MS })
        },
    }
}

/// Number of times that `event` waits in `queue`.
pub open spec fn occurrences(queue: Seq<LogEvent>, event: LogEvent) -> nat {
    queue.to_multiset().count(event)
}

/// A failed delivery with room in the queue puts the event back exactly
/// once, behind everything that waits, and loses nothing; a successful one
/// leaves the queue alone. Either way the queue stays within its bound.
pub proof fn lemma_failed_delivery_requeues_once(
    queue: Seq<LogEvent>,
    event: LogEvent,
    delivery: Result<(), LogError>,
)
    requires
        queue.len() <= MAX_QUEUE_LEN,
    ensures
        settle(queue, event, delivery).0.len() <= MAX_QUEUE_LEN,
        delivery is Err && queue.len() < MAX_QUEUE_LEN ==> {
            let after = settle(queue, event, delivery).0;
            &&& after == queue.push(event)
            &&& after.last() == event
            &&& occurrences(after, event) == occurrences(queue, event) + 1
            &&& forall|other: LogEvent|
                other != event ==> occurrences(after, other) == occurrences(queue, other)
        },
        delivery is Ok ==> settle(queue, event, delivery).0 == queue,
{
    broadcast use vstd::seq_lib::to_multiset_build;

}

/// The consumer takes an event before it tries to deliver it, so the queue
/// has room when the delivery fails: the event is never lost to the
/// consumer's own turn, and the turn never lengthens the queue.
pub proof fn lemma_turn_rotates(queue: Seq<LogEvent>, delivery: Result<(), LogError>)
    requires
        0 < queue.len() <= MAX_QUEUE_LEN,
    ensures
        settle(queue.skip(1), queue[0], delivery).0 == if delivery is Err {
            queue.skip(1).push(queue[0])
        } else {
            queue.skip(1)
        },
        settle(queue.skip(1), queue[0], delivery).0.len() <= queue.len(),
        !(settle(queue.skip(1), queue[0], delivery).1 is Lost),
{
}

impl LogQueue {
    /// A queue in which nothing waits.
    pub fn new() -> (queue: LogQueue)
        ensures
            queued(queue).len() == 0,
    {
        channel_new()
    }

    /// Number of events that wait.
    pub fn len(&self) -> (n: usize)
        ensures
            n == queued(*self).len(),
            n <= MAX_QUEUE_LEN,
    {
        channel_len(self)
    }

    /// Takes the event that has waited longest; `None` where none waits.
    pub fn take_next(&mut self) -> (event: Option<LogEvent>)
        ensures
            match event {
                Some(e) => queued(*old(self)).len() > 0 && e == queued(*old(self))[0] && queued(
                    *final(self),
                ) == queued(*old(self)).skip(1),
                None => queued(*old(self)).len() == 0 && queued(*final(self)) == queued(
                    *old(self),
                ),
            },
    {
        channel_try_receive(self)
    }
}

/// The name under which the logging service knows the event.
pub fn event_str(event: &LogEvent) -> (name: &'static str)
    ensures
        name@ == event_name(*event),
{
    match event {
        LogEvent::ACTIVATED(_) => "Activated",
        LogEvent::DEACTIVATED(_) => "Deactivated",
        LogEvent::LOGINFAIL(_) => "LoginFail",
        LogEvent::ERROR => "ERROR",
    }
}

/// Prepares the report of one event: the JSON body to POST, or the refusal
/// to try while the network link is down.
pub fn log_event(event: &LogEvent, network_up: bool) -> (body: Result<String, LogError>)
    ensures
        match body {
            Ok(json) => network_up && json@ == log_body(*event),
            Err(e) => !network_up && e == LogError::WifiNotConnected,
        },
{
    if !network_up {
        return Err(LogError::WifiNotConnected);
    }
    let name = event_str(event);
    let json = String::from_str("{ \"type\": \"").concat(name).concat("\", \"hash\": \"");
    let json = match event {
        LogEvent::ACTIVATED(hash) | LogEvent::DEACTIVATED(hash) | LogEvent::LOGINFAIL(hash) => {
            match text_of(hash.as_slice()) {
                Some(text) => json.concat(text),
                None => json.concat(" Non-ascii bytes in hash"),
            }
        },
        LogEvent::ERROR => json.concat("N/A"),
    };
    Ok(json.concat("\"}"))
}

/// Judges how a POST ended: only an answer with a success status counts as
/// delivered.
pub fn delivery_result(outcome: PostOutcome) -> (delivery: Result<(), LogError>)
    ensures
        delivery == delivery_of(outcome),
{
    match outcome {
        PostOutcome::RequestTimedOut => Err(LogError::Timeout),
        PostOutcome::ConnectionFailed => Err(LogError::ConnectionError),
        PostOutcome::SendTimedOut => Err(LogError::Timeout),
        PostOutcome::Response(status) => if 200 <= status && status <= 299 {
            Ok(())
        } else {
            Err(LogError::RemoteServerError(status))
        },
    }
}

/// Endpoint, device name and prefix, joined with slashes.
pub open spec fn url_text(endpoint: Seq<char>, device_name: Seq<char>, prefix: Seq<char>) -> Seq<
    char,
> {
    endpoint + "/"@ + device_name + "/"@ + prefix
}

/// Joins endpoint, device name and prefix with slashes; `None` where the
/// result, as UTF-8, would not fit the firmware's URL buffer.
pub fn endpoint_url(endpoint: &str, device_name: &str, prefix: &str) -> (url: Option<String>)
    ensures
        match url {
            Some(text) => text@ == url_text(endpoint@, device_name@, prefix@) && encode_utf8(
                text@,
            ).len() <= MAX_URL_LEN,
            None => encode_utf8(url_text(endpoint@, device_name@, prefix@)).len() > MAX_URL_LEN,
        },
{
    let text = String::from_str(endpoint).concat("/").concat(device_name).concat("/").concat(
        prefix,
    );
    if text.as_str().as_bytes().len() > MAX_URL_LEN {
        None
    } else {
        Some(text)
    }
}

/// The consumer of the telemetry queue.
pub struct LogTaskRunner {}

impl LogTaskRunner {
    /// A consumer.
    pub fn new() -> LogTaskRunner {
        LogTaskRunner {  }
    }

    /// Closes one turn of the consumer: `event` was taken from the queue
    /// and its delivery has ended with `delivery`. A delivered event is
    /// dropped; a failed one goes back to the end of the queue, or is lost
    /// if the queue has filled up meanwhile.
    pub fn run(&self, queue: &mut LogQueue, event: LogEvent, delivery: Result<(), LogError>) -> (step:
        DispatchStep)
        ensures
            (queued(*final(queue)), step) == settle(queued(*old(queue)), event, delivery),
    {
        match delivery {
            Ok(_) => DispatchStep::Delivered,
            Err(_) => {
                if channel_try_send(queue, event) {
                    DispatchStep::Requeued { wait_ms: RETRY_COOLDOWN_MS }
                } else {
                    DispatchStep::Lost { wait_ms: RETRY_COOLDOWN_MS }
                }
            },
        }
    }
}

} // verus!
