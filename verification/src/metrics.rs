//! The server's metrics and its readiness rule.
//!
//! | Metric | Type | Description |
//! |--------|------|-------------|
//! | `lynx_connections_active` | Gauge | Current active connections |
//! | `lynx_connections_total` | Counter | Total connections since start |
//! | `lynx_messages_processed_total` | Counter | Messages by type |
//! | `lynx_message_processing_duration_seconds` | Histogram | Processing latency |
//! | `lynx_errors_total` | Counter | Errors by type |
//! | `lynx_connections_rejected_total` | Counter | Rejected (at capacity) |
//! | `lynx_messages_dropped_total` | Counter | Dropped to slow clients |
//! | `lynx_clients_slow_disconnected_total` | Counter | Slow clients disconnected |
//! | `lynx_rate_limited_total` | Counter | Rate-limited messages |

use crate::protocol::{Message, MessageView};
use crate::server::Outcome;
use std::sync::atomic::AtomicBool;
use std::sync::atomic::AtomicUsize;
use std::sync::atomic::Ordering;
use std::sync::Arc;
use vstd::prelude::*;
use vstd::string::*;

verus! {

/// The kind of a metric.
#[derive(Debug, Clone, Copy, PartialEq, Eq, Structural)]
pub enum MetricKind {
    Gauge,
    Counter,
    Histogram,
}

/// A metric's name and help text, as registered with the recorder.
#[derive(Debug, Clone)]
pub struct MetricDescription {
    pub kind: MetricKind,
    pub name: String,
    pub help: String,
}

/// A metric series set to zero at start-up, so that it appears in `/metrics`
/// at once: its kind, name and optional label (key and value).
#[derive(Debug, Clone)]
pub struct MetricInit {
    pub kind: MetricKind,
    pub name: String,
    pub label: Option<(String, String)>,
}

/// The (kind, name, help) of each metric the server describes, in order.
pub open spec fn described_metrics() -> Seq<(MetricKind, Seq<char>, Seq<char>)> {
    seq![
        (MetricKind::Gauge, "lynx_connections_active"@, "Current number of active TCP connections"@),
        (MetricKind::Counter, "lynx_connections_total"@, "Total TCP connections accepted since server start"@),
        (MetricKind::Counter, "lynx_messages_processed_total"@, "Total messages processed by type"@),
        (MetricKind::Histogram, "lynx_message_processing_duration_seconds"@, "Message processing duration in seconds"@),
        (MetricKind::Counter, "lynx_errors_total"@, "Total errors by type"@),
        (MetricKind::Counter, "lynx_connections_rejected_total"@, "Connections rejected due to capacity limit"@),
        (MetricKind::Counter, "lynx_messages_dropped_total"@, "Messages dropped due to slow consumers"@),
        (MetricKind::Counter, "lynx_clients_slow_disconnected_total"@, "Clients disconnected for being slow consumers"@),
        (MetricKind::Counter, "lynx_rate_limited_total"@, "Messages rejected due to rate limiting"@),
    ]
}

/// The message types whose counters start at zero.
pub open spec fn message_types() -> Seq<Seq<char>> {
    seq![
        "connect"@,
        "send_room_message"@,
        "send_private_message"@,
        "join_room"@,
        "list_users"@,
        "disconnect"@,
    ]
}

/// The error types whose counters start at zero.
pub open spec fn error_types() -> Seq<Seq<char>> {
    seq![
        "username_taken"@,
        "not_registered"@,
        "recipient_not_found"@,
        "decode_error"@,
        "already_authenticated"@,
    ]
}

/// The message type a message is counted under.
pub open spec fn message_type_name(m: MessageView) -> Seq<char> {
    match m {
        MessageView::Connect { .. } => "connect"@,
        MessageView::SendRoomMessage { .. } => "send_room_message"@,
        MessageView::SendPrivateMessage { .. } => "send_private_message"@,
        MessageView::JoinRoom { .. } => "join_room"@,
        MessageView::ListUsers => "list_users"@,
        MessageView::Disconnect => "disconnect"@,
    }
}

/// The error type a step's outcome is counted under, for the outcomes that
/// are errors.
pub open spec fn outcome_error_type(o: Outcome) -> Option<Seq<char>> {
    match o {
        Outcome::AlreadyAuthenticated => Some("already_authenticated"@),
        Outcome::UsernameTaken => Some("username_taken"@),
        Outcome::NotRegistered => Some("not_registered"@),
        Outcome::RecipientNotFound => Some("recipient_not_found"@),
        _ => None,
    }
}

/// The error type a frame that cannot be decoded is counted under.
pub open spec fn decode_error_type() -> Seq<char> {
    "decode_error"@
}

/// The `message_type` label of the processed-message counter for `m`.
pub fn message_type(m: &Message) -> (t: String)
    ensures
        t@ == message_type_name(m@),
{
    match m {
        Message::Connect { .. } => String::from_str("connect"),
        Message::SendRoomMessage { .. } => String::from_str("send_room_message"),
        Message::SendPrivateMessage { .. } => String::from_str("send_private_message"),
        Message::JoinRoom { .. } => String::from_str("join_room"),
        Message::ListUsers => String::from_str("list_users"),
        Message::Disconnect => String::from_str("disconnect"),
    }
}

/// The `error_type` label of the error counter for a step's outcome, or
/// `None` when the outcome is not an error.
pub fn error_type(o: Outcome) -> (t: Option<String>)
    ensures
        match t {
            Some(s) => outcome_error_type(o) == Some(s@),
            None => outcome_error_type(o) is None,
        },
{
    match o {
        Outcome::AlreadyAuthenticated => Some(String::from_str("already_authenticated")),
        Outcome::UsernameTaken => Some(String::from_str("username_taken")),
        Outcome::NotRegistered => Some(String::from_str("not_registered")),
        Outcome::RecipientNotFound => Some(String::from_str("recipient_not_found")),
        _ => None,
    }
}

/// The `error_type` label of the error counter for a frame that cannot be
/// decoded.
pub fn decode_error_label() -> (t: String)
    ensures
        t@ == decode_error_type(),
{
    String::from_str("decode_error")
}

/// The labels set to zero at start-up are exactly the ones the server
/// reports: every message type is some message's, every error type is some
/// outcome's or the decode error's, and the other way round.
pub proof fn law_zeroed_labels_are_the_reported_ones(m: MessageView, o: Outcome, t: Seq<char>)
    ensures
        message_types().contains(message_type_name(m)),
        outcome_error_type(o) matches Some(e) ==> error_types().contains(e),
        error_types().contains(decode_error_type()),
        message_types().contains(t) ==> exists|m2: MessageView| message_type_name(m2) == t,
        error_types().contains(t) ==> t == decode_error_type() || exists|o2: Outcome|
            outcome_error_type(o2) == Some(t),
{
    let ms = message_types();
    let es = error_types();
    assert(ms[0] == "connect"@ && ms[1] == "send_room_message"@ && ms[2] == "send_private_message"@
        && ms[3] == "join_room"@ && ms[4] == "list_users"@ && ms[5] == "disconnect"@);
    assert(es[0] == "username_taken"@ && es[1] == "not_registered"@ && es[2] == "recipient_not_found"@
        && es[3] == "decode_error"@ && es[4] == "already_authenticated"@);
    if message_types().contains(t) {
        let i = choose|i: int| 0 <= i < ms.len() && ms[i] == t;
        let e = Seq::<char>::empty();
        if i == 0 {
            assert(message_type_name(MessageView::Connect { username: e }) == t);
        } else if i == 1 {
            assert(message_type_name(MessageView::SendRoomMessage { text: e }) == t);
        } else if i == 2 {
            assert(message_type_name(MessageView::SendPrivateMessage { to: e, text: e }) == t);
        } else if i == 3 {
            assert(message_type_name(MessageView::JoinRoom { room_name: e }) == t);
        } else if i == 4 {
            assert(message_type_name(MessageView::ListUsers) == t);
        } else {
            assert(message_type_name(MessageView::Disconnect) == t);
        }
    }
    if error_types().contains(t) {
        let i = choose|i: int| 0 <= i < es.len() && es[i] == t;
        if i == 0 {
            assert(outcome_error_type(Outcome::UsernameTaken) == Some(t));
        } else if i == 1 {
            assert(outcome_error_type(Outcome::NotRegistered) == Some(t));
        } else if i == 2 {
            assert(outcome_error_type(Outcome::RecipientNotFound) == Some(t));
        } else if i == 4 {
            assert(outcome_error_type(Outcome::AlreadyAuthenticated) == Some(t));
        }
    }
}

/// The series set to zero at start-up, in order: (kind, name, label).
pub open spec fn initialized_metrics() -> Seq<(MetricKind, Seq<char>, Option<(Seq<char>, Seq<char>)>)> {
    seq![
        (MetricKind::Gauge, "lynx_connections_active"@, None),
        (MetricKind::Counter, "lynx_connections_total"@, None),
    ] + message_types().map_values(
        |t: Seq<char>| (MetricKind::Counter, "lynx_messages_processed_total"@, Some(("message_type"@, t))),
    ) + error_types().map_values(
        |t: Seq<char>| (MetricKind::Counter, "lynx_errors_total"@, Some(("error_type"@, t))),
    ) + seq![
        (MetricKind::Counter, "lynx_connections_rejected_total"@, None),
        (MetricKind::Counter, "lynx_messages_dropped_total"@, None),
        (MetricKind::Counter, "lynx_clients_slow_disconnected_total"@, None),
        (MetricKind::Counter, "lynx_rate_limited_total"@, None),
    ]
}

/// The view of a description.
pub open spec fn description_view(d: MetricDescription) -> (MetricKind, Seq<char>, Seq<char>) {
    (d.kind, d.name@, d.help@)
}

/// The view of an initial series.
pub open spec fn init_view(m: MetricInit) -> (MetricKind, Seq<char>, Option<(Seq<char>, Seq<char>)>) {
    (
        m.kind,
        m.name@,
        match m.label {
            Some((k, v)) => Some((k@, v@)),
            None => None,
        },
    )
}

fn describe(out: &mut Vec<MetricDescription>, kind: MetricKind, name: &str, help: &str)
    ensures
        final(out)@.len() == old(out)@.len() + 1,
        forall|i: int| 0 <= i < old(out)@.len() ==> final(out)@[i] == old(out)@[i],
        description_view(final(out)@[old(out)@.len() as int]) == (kind, name@, help@),
{
    out.push(MetricDescription { kind, name: String::from_str(name), help: String::from_str(help) });
}

/// The metrics the server describes to the recorder: each one's kind, name
/// and help text.
pub fn describe_metrics() -> (ds: Vec<MetricDescription>)
    ensures
        ds@.map_values(|d: MetricDescription| description_view(d)) == described_metrics(),
{
    let mut ds: Vec<MetricDescription> = Vec::new();
    describe(&mut ds, MetricKind::Gauge, "lynx_connections_active", "Current number of active TCP connections");
    describe(&mut ds, MetricKind::Counter, "lynx_connections_total", "Total TCP connections accepted since server start");
    describe(&mut ds, MetricKind::Counter, "lynx_messages_processed_total", "Total messages processed by type");
    describe(&mut ds, MetricKind::Histogram, "lynx_message_processing_duration_seconds", "Message processing duration in seconds");
    describe(&mut ds, MetricKind::Counter, "lynx_errors_total", "Total errors by type");
    describe(&mut ds, MetricKind::Counter, "lynx_connections_rejected_total", "Connections rejected due to capacity limit");
    describe(&mut ds, MetricKind::Counter, "lynx_messages_dropped_total", "Messages dropped due to slow consumers");
    describe(&mut ds, MetricKind::Counter, "lynx_clients_slow_disconnected_total", "Clients disconnected for being slow consumers");
    describe(&mut ds, MetricKind::Counter, "lynx_rate_limited_total", "Messages rejected due to rate limiting");
    assert(ds@.map_values(|d: MetricDescription| description_view(d)) =~= described_metrics());
    ds
}

fn init(out: &mut Vec<MetricInit>, kind: MetricKind, name: &str, label: Option<(&str, &str)>)
    ensures
        final(out)@.len() == old(out)@.len() + 1,
        forall|i: int| 0 <= i < old(out)@.len() ==> final(out)@[i] == old(out)@[i],
        init_view(final(out)@[old(out)@.len() as int]) == (
            kind,
            name@,
            match label {
                Some((k, v)) => Some((k@, v@)),
                None => None,
            },
        ),
{
    let label = match label {
        Some((k, v)) => Some((String::from_str(k), String::from_str(v))),
        None => None,
    };
    out.push(MetricInit { kind, name: String::from_str(name), label });
}

/// The series that start at zero, so that they appear in `/metrics` at once:
/// the connection gauge and counter, the processed-message counter for each
/// message type, the error counter for each error type, and the resource
/// counters.
pub fn initialize_metrics() -> (ms: Vec<MetricInit>)
    ensures
        ms@.map_values(|m: MetricInit| init_view(m)) == initialized_metrics(),
{
    let mut ms: Vec<MetricInit> = Vec::new();
    init(&mut ms, MetricKind::Gauge, "lynx_connections_active", None);
    init(&mut ms, MetricKind::Counter, "lynx_connections_total", None);
    init(&mut ms, MetricKind::Counter, "lynx_messages_processed_total", Some(("message_type", "connect")));
    init(&mut ms, MetricKind::Counter, "lynx_messages_processed_total", Some(("message_type", "send_room_message")));
    init(&mut ms, MetricKind::Counter, "lynx_messages_processed_total", Some(("message_type", "send_private_message")));
    init(&mut ms, MetricKind::Counter, "lynx_messages_processed_total", Some(("message_type", "join_room")));
    init(&mut ms, MetricKind::Counter, "lynx_messages_processed_total", Some(("message_type", "list_users")));
    init(&mut ms, MetricKind::Counter, "lynx_messages_processed_total", Some(("message_type", "disconnect")));
    init(&mut ms, MetricKind::Counter, "lynx_errors_total", Some(("error_type", "username_taken")));
    init(&mut ms, MetricKind::Counter, "lynx_errors_total", Some(("error_type", "not_registered")));
    init(&mut ms, MetricKind::Counter, "lynx_errors_total", Some(("error_type", "recipient_not_found")));
    init(&mut ms, MetricKind::Counter, "lynx_errors_total", Some(("error_type", "decode_error")));
    init(&mut ms, MetricKind::Counter, "lynx_errors_total", Some(("error_type", "already_authenticated")));
    init(&mut ms, MetricKind::Counter, "lynx_connections_rejected_total", None);
    init(&mut ms, MetricKind::Counter, "lynx_messages_dropped_total", None);
    init(&mut ms, MetricKind::Counter, "lynx_clients_slow_disconnected_total", None);
    init(&mut ms, MetricKind::Counter, "lynx_rate_limited_total", None);
    assert(ms@.map_values(|m: MetricInit| init_view(m)) =~= initialized_metrics());
    ms
}

/// Shared state for the health endpoints.
pub struct HealthState {
    /// Current active connection count.
    pub active_connections: Arc<AtomicUsize>,
    /// Maximum allowed connections.
    pub max_connections: usize,
    /// Whether the server is accepting new connections.
    pub accepting: Arc<AtomicBool>,
}

/// The readiness probe's answer: 503 "Server shutting down" when not
/// accepting, 503 "At connection limit" at capacity, else 200 "Ready".
pub open spec fn readiness(accepting: bool, active: usize, max: usize) -> (u16, Seq<char>) {
    if !accepting {
        (503, "Server shutting down"@)
    } else if active >= max {
        (503, "At connection limit"@)
    } else {
        (200, "Ready"@)
    }
}

/// The readiness probe's status code and body for the given state.
pub fn ready_check(accepting: bool, active: usize, max: usize) -> (res: (u16, String))
    ensures
        (res.0, res.1@) == readiness(accepting, active, max),
{
    if !accepting {
        (503, String::from_str("Server shutting down"))
    } else if active >= max {
        (503, String::from_str("At connection limit"))
    } else {
        (200, String::from_str("Ready"))
    }
}

impl HealthState {
    /// The readiness probe's answer for the current state: the flag and the
    /// counter are read once each; whatever they hold, the answer is the
    /// readiness rule applied to what was read.
    pub fn ready(&self) -> (res: (u16, String))
        ensures
            exists|accepting: bool, active: usize|
                (res.0, res.1@) == readiness(accepting, active, self.max_connections),
    {
        let accepting = self.accepting.load(Ordering::Relaxed);
        let active = self.active_connections.load(Ordering::Relaxed);
        ready_check(accepting, active, self.max_connections)
    }
}

} // verus!
