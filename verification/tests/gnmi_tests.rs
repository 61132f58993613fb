use carbide::gnmi::{
    gnmi_client_credentials, gnmi_metric_name, gnmi_metric_names, ConnectionState, StreamAction, StreamCounters,
    StreamEvent,
};
use carbide::nvue::BmcCredentials;
use prometheus::{Gauge, Opts, Registry};

type Labels = std::collections::HashMap<String, String>;

fn labels(ip: &str) -> Labels {
    let mut l = Labels::new();
    l.insert("switch_id".to_string(), "test-switch".to_string());
    l.insert("switch_ip".to_string(), ip.to_string());
    l
}

/// Registers one gauge per metric name of the stream, as the collector does.
fn register_stream(registry: &Registry, prefix: &str, stream: &str, l: &Labels) -> Result<(), prometheus::Error> {
    for name in gnmi_metric_names(prefix, stream) {
        let gauge = Gauge::with_opts(Opts::new(name, "help").const_labels(l.clone()))?;
        registry.register(Box::new(gauge))?;
    }
    Ok(())
}

#[test]
fn test_stream_metrics_registers_all_counters() {
    let names = gnmi_metric_names("test", "");
    assert_eq!(names.len(), 10);
    assert!(names.contains(&"test_nvue_gnmi_reconnections_total".to_string()));
    assert!(names.contains(&"test_nvue_gnmi_server_initiated_closures_total".to_string()));
    assert!(names.contains(&"test_nvue_gnmi_stream_errors_total".to_string()));

    let mut c = StreamCounters::new();
    c.step(StreamEvent::ConnectFailed);
    assert_eq!(c.reconnections_total, 1);
    c.step(StreamEvent::BackoffElapsed);
    c.step(StreamEvent::Connected);
    c.step(StreamEvent::ServerClosed);
    assert_eq!(c.server_initiated_closures_total, 1);
    c.step(StreamEvent::BackoffElapsed);
    c.step(StreamEvent::Connected);
    c.step(StreamEvent::StreamFailed);
    assert_eq!(c.stream_errors_total, 1);
}

#[test]
fn test_stream_metrics_server_closures_independent_from_reconnections() {
    let mut c = StreamCounters::new();
    c.step(StreamEvent::Connected);
    c.step(StreamEvent::ServerClosed);
    c.step(StreamEvent::BackoffElapsed);
    c.step(StreamEvent::Connected);
    c.step(StreamEvent::ServerClosed);
    assert_eq!(c.server_initiated_closures_total, 2);
    assert_eq!(c.reconnections_total, 0);

    c.step(StreamEvent::BackoffElapsed);
    c.step(StreamEvent::ConnectFailed);
    assert_eq!(c.reconnections_total, 1);
    assert_eq!(c.server_initiated_closures_total, 2);
}

#[test]
fn test_stream_metrics_duplicate_registration_fails() {
    let registry = Registry::new();
    register_stream(&registry, "test", "", &labels("10.0.0.1")).unwrap();
    let result = register_stream(&registry, "test", "", &labels("10.0.0.1"));
    assert!(result.is_err());
}

#[test]
fn test_stream_metrics_distinct_stream_names_coexist() {
    let registry = Registry::new();
    register_stream(&registry, "test", "", &labels("10.0.0.1")).unwrap();
    register_stream(&registry, "test", "_events", &labels("10.0.0.2")).unwrap();
    let sample = gnmi_metric_names("test", "");
    let events = gnmi_metric_names("test", "_events");
    assert!(sample.iter().all(|n| !events.contains(n)));
    assert!(events.contains(&"test_nvue_gnmi_events_server_initiated_closures_total".to_string()));
}

#[test]
fn metric_name_layout() {
    assert_eq!(gnmi_metric_name("carbide", "", "connection_state"), "carbide_nvue_gnmi_connection_state");
    assert_eq!(gnmi_metric_name("p", "_x", "monitored_entities"), "p_nvue_gnmi_x_monitored_entities");
}

#[test]
fn loop_actions_follow_the_events() {
    let mut c = StreamCounters::new();
    assert_eq!(c.connection_state, ConnectionState::Connecting);
    assert_eq!(c.step(StreamEvent::Connected), StreamAction::Read { reset_backoff: true });
    assert!(c.connected);
    assert_eq!(c.connection_state.gauge_value(), 3);
    assert_eq!(c.step(StreamEvent::Notification), StreamAction::ProcessAndRead);
    assert!(c.connected);
    assert_eq!(c.step(StreamEvent::ServerClosed), StreamAction::Backoff { reset_backoff: true });
    assert!(!c.connected);
    assert_eq!(c.connection_state.gauge_value(), 1);
    assert_eq!(c.step(StreamEvent::BackoffElapsed), StreamAction::Subscribe);
    assert_eq!(c.connection_state.gauge_value(), 2);
    assert_eq!(c.step(StreamEvent::StreamFailed), StreamAction::Backoff { reset_backoff: false });
    assert_eq!(c.connection_state.gauge_value(), 4);
    assert_eq!(c.step(StreamEvent::Cancelled), StreamAction::Stop);
    assert_eq!(c.connection_state.gauge_value(), 5);
    assert_eq!(ConnectionState::Unknown.gauge_value(), 0);
}

#[test]
fn gnmi_refuses_session_tokens() {
    let err = gnmi_client_credentials(BmcCredentials::SessionToken { token: "t".to_string() }).unwrap_err();
    assert_eq!(err, "gNMI collector does not support SessionToken credentials; expected UsernamePassword");
    let (user, pass) = gnmi_client_credentials(BmcCredentials::UsernamePassword {
        username: "admin".to_string(),
        password: None,
    })
    .unwrap();
    assert_eq!(user.as_deref(), Some("admin"));
    assert_eq!(pass, None);
}

use carbide::gnmi::{gnmi_backoff, Backoff, GNMI_BACKOFF_INITIAL_SECS, GNMI_BACKOFF_MAX_SECS};

#[test]
fn gnmi_backoff_doubles_up_to_the_cap_and_resets() {
    assert_eq!((GNMI_BACKOFF_INITIAL_SECS, GNMI_BACKOFF_MAX_SECS), (2, 60));
    let mut b = gnmi_backoff();
    let delays: Vec<u64> = (0..8).map(|_| b.next_delay()).collect();
    assert_eq!(delays, vec![2, 4, 8, 16, 32, 60, 60, 60]);
    b.reset();
    assert_eq!(b.next_delay(), 2);
    assert_eq!(b.next_delay(), 4);
    // A cap below the initial delay holds every delay at the cap; a cap
    // near the top of the range does not overflow.
    let mut low = Backoff::new(10, 3);
    assert_eq!((low.next_delay(), low.next_delay()), (3, 3));
    let mut high = Backoff::new(u64::MAX / 2 + 1, u64::MAX);
    assert_eq!((high.next_delay(), high.next_delay()), (u64::MAX / 2 + 1, u64::MAX));
}
