use lynx::metrics::{
    decode_error_label, describe_metrics, error_type, initialize_metrics, message_type,
    ready_check, HealthState, MetricKind,
};
use lynx::server::Outcome;
use lynx::Message;
use std::sync::atomic::{AtomicBool, AtomicUsize};
use std::sync::Arc;

#[test]
fn described_metrics_table() {
    let ds = describe_metrics();
    assert_eq!(ds.len(), 9);
    assert_eq!(ds[0].kind, MetricKind::Gauge);
    assert_eq!(ds[0].name, "lynx_connections_active");
    assert_eq!(ds[3].kind, MetricKind::Histogram);
    assert_eq!(ds[3].name, "lynx_message_processing_duration_seconds");
    assert_eq!(ds[8].name, "lynx_rate_limited_total");
    assert_eq!(ds[8].help, "Messages rejected due to rate limiting");
}

#[test]
fn initialized_series() {
    let ms = initialize_metrics();
    assert_eq!(ms.len(), 17);
    assert_eq!(ms[0].name, "lynx_connections_active");
    assert_eq!(ms[0].kind, MetricKind::Gauge);
    let processed: Vec<&str> = ms
        .iter()
        .filter(|m| m.name == "lynx_messages_processed_total")
        .map(|m| m.label.as_ref().unwrap().1.as_str())
        .collect();
    assert_eq!(
        processed,
        vec![
            "connect",
            "send_room_message",
            "send_private_message",
            "join_room",
            "list_users",
            "disconnect"
        ]
    );
    let errors = ms.iter().filter(|m| m.name == "lynx_errors_total").count();
    assert_eq!(errors, 5);
    assert_eq!(ms[16].name, "lynx_rate_limited_total");
}

#[test]
fn readiness_rule() {
    assert_eq!(ready_check(false, 0, 10), (503, "Server shutting down".to_string()));
    assert_eq!(ready_check(true, 10, 10), (503, "At connection limit".to_string()));
    assert_eq!(ready_check(true, 9, 10), (200, "Ready".to_string()));
}

#[test]
fn health_state_reads_its_counters() {
    let state = HealthState {
        active_connections: Arc::new(AtomicUsize::new(2)),
        max_connections: 2,
        accepting: Arc::new(AtomicBool::new(true)),
    };
    assert_eq!(state.ready(), (503, "At connection limit".to_string()));
}

#[test]
fn reported_labels_are_the_zeroed_ones() {
    assert_eq!(message_type(&Message::ListUsers), "list_users");
    assert_eq!(
        message_type(&Message::SendPrivateMessage {
            to: "b".to_string(),
            text: "t".to_string()
        }),
        "send_private_message"
    );
    assert_eq!(error_type(Outcome::UsernameTaken).as_deref(), Some("username_taken"));
    assert_eq!(error_type(Outcome::AlreadyAuthenticated).as_deref(), Some("already_authenticated"));
    assert_eq!(error_type(Outcome::RoomMessage), None);
    assert_eq!(decode_error_label(), "decode_error");
    let zeroed: Vec<String> = initialize_metrics()
        .into_iter()
        .filter_map(|m| m.label.map(|(_, v)| v))
        .collect();
    for label in ["username_taken", "not_registered", "recipient_not_found", "already_authenticated", "decode_error", "connect", "disconnect"] {
        assert!(zeroed.contains(&label.to_string()), "{label}");
    }
}
