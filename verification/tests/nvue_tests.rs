use carbide::nvue::{
    app_status_to_state, credential_timeout_message, diagnostic_opcode_is_fault, fan_led_to_state,
    ok_states_list, partition_health_to_state, rest_client_credentials, skipped_iteration_result,
    summarize_iteration, system_health_states_list, system_health_to_state, temp_state_to_state, BmcCredentials,
    CollectorEvent, FetchOutcome, NvueRestCollector, NvueRestCollectorConfig, UsernamePassword,
};
use carbide::nvue_config::NvueRevision;

#[test]
fn test_system_health_mapping() {
    assert_eq!(system_health_to_state(Some("OK")), "ok");
    assert_eq!(system_health_to_state(Some("Not OK")), "not_ok");
    assert_eq!(system_health_to_state(None), "unknown");
    assert_eq!(system_health_to_state(Some("unknown_value")), "unknown");
}

#[test]
fn test_partition_health_mapping() {
    assert_eq!(partition_health_to_state(Some("unknown")), "unknown");
    assert_eq!(partition_health_to_state(Some("healthy")), "healthy");
    assert_eq!(partition_health_to_state(Some("degraded_bandwidth")), "degraded_bandwidth");
    assert_eq!(partition_health_to_state(Some("degraded")), "degraded");
    assert_eq!(partition_health_to_state(Some("unhealthy")), "unhealthy");
    assert_eq!(partition_health_to_state(None), "unknown");
}

#[test]
fn test_app_status_mapping() {
    assert_eq!(app_status_to_state(Some("ok")), "ok");
    assert_eq!(app_status_to_state(Some("not ok")), "not_ok");
    assert_eq!(app_status_to_state(None), "unknown");
    assert_eq!(app_status_to_state(Some("other")), "unknown");
}

fn diagnostic_opcode_value(code: &str) -> f64 {
    if diagnostic_opcode_is_fault(code) {
        1.0
    } else {
        0.0
    }
}

#[test]
fn test_diagnostic_opcode_mapping() {
    assert_eq!(diagnostic_opcode_value("0"), 0.0);
    assert_eq!(diagnostic_opcode_value("2"), 1.0);
    assert_eq!(diagnostic_opcode_value("1024"), 1.0);
    assert_eq!(diagnostic_opcode_value("57"), 1.0);
}

#[test]
fn test_temp_state_to_state_mapping() {
    assert_eq!(temp_state_to_state(Some("ok")), Some("ok"));
    assert_eq!(temp_state_to_state(Some("OK")), Some("ok"));
    assert_eq!(temp_state_to_state(Some(" ok ")), Some("ok"));
    assert_eq!(temp_state_to_state(Some("warning")), Some("not_ok"));
    assert_eq!(temp_state_to_state(Some("")), Some("not_ok"));
    assert_eq!(temp_state_to_state(None), None);
}

#[test]
fn test_fan_led_to_state_mapping() {
    assert_eq!(fan_led_to_state(Some("green")), Some("ok"));
    assert_eq!(fan_led_to_state(Some("GREEN")), Some("ok"));
    assert_eq!(fan_led_to_state(Some(" green ")), Some("ok"));
    assert_eq!(fan_led_to_state(Some("ok")), Some("ok"));
    assert_eq!(fan_led_to_state(Some("OK")), Some("ok"));
    assert_eq!(fan_led_to_state(Some("amber")), Some("not_ok"));
    assert_eq!(fan_led_to_state(Some("red")), Some("not_ok"));
    assert_eq!(fan_led_to_state(Some("")), None);
    assert_eq!(fan_led_to_state(Some("   ")), None);
    assert_eq!(fan_led_to_state(None), None);
}

#[test]
fn debug_redacts_password() {
    let creds = UsernamePassword { username: "admin".to_string(), password: Some("hunter2".to_string()) };
    let rendered = creds.redacted_debug();
    assert!(!rendered.contains("hunter2"), "Debug must not leak the password; got: {rendered}");
    assert!(rendered.contains("admin"));
    assert!(rendered.contains("<redacted>"));

    let no_password = UsernamePassword { username: "admin".to_string(), password: None };
    let rendered = no_password.redacted_debug();
    assert!(!rendered.contains("<redacted>"), "missing password must not show as redacted; got: {rendered}");
}

#[test]
fn refresh_rejects_session_token_credentials() {
    let error = match rest_client_credentials(BmcCredentials::SessionToken { token: "irrelevant".to_string() }) {
        Err(msg) => msg,
        Ok(_) => panic!("session-token credentials are not usable for NVUE basic auth"),
    };
    assert!(error.contains("requires username/password"), "expected explicit message, got: {error}");
}

#[test]
fn refresh_accepts_username_password_credentials() {
    let creds = rest_client_credentials(BmcCredentials::UsernamePassword {
        username: "admin".to_string(),
        password: Some("hunter2".to_string()),
    })
    .ok()
    .expect("username/password credentials are used as they are");
    assert_eq!(creds.username, "admin");
    assert_eq!(creds.password.as_deref(), Some("hunter2"));
}

#[test]
fn credential_timeout_message_names_the_timeout() {
    let msg = credential_timeout_message(30);
    assert_eq!(msg, "Timed out after 30s fetching NVUE REST credentials");
    assert!(msg.contains("Timed out"));
}

#[test]
fn state_set_flags_exactly_the_current_state() {
    let collector = NvueRestCollector::new("sw-1".to_string(), NvueRestCollectorConfig { has_data_sink: true });
    let labels = vec![("switch_id".to_string(), "sw-1".to_string())];
    let series = collector.emit_state_set("system_health", None, "not_ok", &system_health_states_list(), &labels);
    assert_eq!(series.len(), 3);
    let flagged: Vec<&str> = series.iter().filter(|(_, on)| *on).map(|(s, _)| s.key.as_str()).collect();
    assert_eq!(flagged, vec!["system_health:not_ok"]);
    assert_eq!(series[0].0.labels.last().unwrap(), &("state".to_string(), "ok".to_string()));
    assert_eq!(series[0].0.unit, "state");
    assert_eq!(series[0].0.name, "nvue_rest");

    let fan = collector.emit_state_set("fan_led", Some("FAN1"), "ok", &ok_states_list(), &labels);
    assert_eq!(fan[0].0.key, "fan_led:FAN1:ok");
    assert!(fan[0].1);
    assert!(!fan[1].1);
}

#[test]
fn events_reach_the_sink_only_when_one_is_configured() {
    let with_sink = NvueRestCollector::new("sw".to_string(), NvueRestCollectorConfig { has_data_sink: true });
    let without = NvueRestCollector::new("sw".to_string(), NvueRestCollectorConfig { has_data_sink: false });
    assert_eq!(with_sink.emit_event(CollectorEvent::CollectorRemoved), Some(CollectorEvent::CollectorRemoved));
    assert_eq!(without.emit_event(CollectorEvent::CollectorRemoved), None);
}

#[test]
fn metric_keys_carry_the_entity_qualifier() {
    let collector = NvueRestCollector::new("sw".to_string(), NvueRestCollectorConfig { has_data_sink: true });
    let s = collector.emit_metric("fan_max_speed", Some("FAN1/1"), "rpm", vec![]);
    assert_eq!(s.key, "fan_max_speed:FAN1/1");
    let t = collector.emit_metric("fan_led", None, "state", vec![]);
    assert_eq!(t.key, "fan_led");
}

#[test]
fn skipped_iteration_reports_one_failure() {
    let skipped = skipped_iteration_result();
    assert!(!skipped.refresh_triggered);
    assert_eq!(skipped.entity_count, Some(0));
    assert_eq!(skipped.fetch_failures, 1);
    let recovered = summarize_iteration(&vec![]).expect("an iteration without fetches runs");
    assert_eq!(recovered.0.fetch_failures, 0);
    assert!(!recovered.1);
}

#[test]
fn iteration_summary_counts_failures_and_auth_refusals() {
    let outcomes = vec![
        FetchOutcome::Fetched(3),
        FetchOutcome::Failed { auth_error: false },
        FetchOutcome::Failed { auth_error: true },
    ];
    let (result, clear_credentials) = summarize_iteration(&outcomes).unwrap();
    assert!(result.refresh_triggered);
    assert_eq!(result.entity_count, Some(3));
    assert_eq!(result.fetch_failures, 2);
    assert!(clear_credentials);
}

#[test]
fn revision_id_is_the_single_key_of_the_reply() {
    let one = NvueRevision::from_object_keys(Some(vec!["42".to_string()]));
    assert_eq!(one.get_revision_id(), Some("42".to_string()));
    let two = NvueRevision::from_object_keys(Some(vec!["1".to_string(), "2".to_string()]));
    assert_eq!(two.get_revision_id(), None);
    let none = NvueRevision::from_object_keys(None);
    assert_eq!(none.get_revision_id(), None);
    let empty = NvueRevision::from_object_keys(Some(vec![]));
    assert_eq!(empty.get_revision_id(), None);
}

#[test]
fn partition_series_carry_id_name_and_gpu_count() {
    let c = NvueRestCollector::new("sw".to_string(), NvueRestCollectorConfig { has_data_sink: true });
    let (health, gpus, count) = c.collect_partition("p1", None, Some("degraded"), Some(4));
    assert_eq!(health.len(), 5);
    assert_eq!(health.iter().filter(|(_, on)| *on).count(), 1);
    assert!(health[2].1);
    assert_eq!(health[2].0.key, "partition_health:p1:degraded");
    assert_eq!(gpus.key, "partition_gpu:p1");
    assert_eq!(gpus.unit, "count");
    assert_eq!(
        gpus.labels,
        vec![("partition_id".to_string(), "p1".to_string()), ("partition_name".to_string(), "p1".to_string())]
    );
    assert_eq!(count, 4);
    let (_, named, zero) = c.collect_partition("p2", Some("tenant"), None, None);
    assert_eq!(named.labels[1], ("partition_name".to_string(), "tenant".to_string()));
    assert_eq!(zero, 0);
}

#[test]
fn link_diagnostics_are_keyed_by_interface_and_opcode() {
    let c = NvueRestCollector::new("sw".to_string(), NvueRestCollectorConfig { has_data_sink: true });
    let (series, fault) = c.collect_link_diagnostic("swp1", "1024", "cable fault");
    assert_eq!(series.key, "link_diagnostic:swp1:1024");
    assert_eq!(series.labels.len(), 3);
    assert!(fault);
    let (_, ok) = c.collect_link_diagnostic("swp2", "0", "ok");
    assert!(!ok);
}

#[test]
fn switch_level_sets_and_sensor_states() {
    let c = NvueRestCollector::new("sw".to_string(), NvueRestCollectorConfig { has_data_sink: true });
    let system = c.collect_system_health(Some("OK"));
    assert_eq!(system[0].0.key, "system_health:ok");
    assert!(system[0].1);
    let led = c.collect_fan_led(Some("amber")).expect("amber maps to not_ok");
    assert_eq!(led[1].0.key, "fan_led:not_ok");
    assert!(led[1].1);
    assert!(c.collect_fan_led(Some("  ")).is_none());
    let temp = c.collect_temperature_state("ASIC1", Some("OK")).unwrap();
    assert_eq!(temp[0].0.key, "platform_temperature_state:ASIC1:ok");
    assert_eq!(temp[0].0.labels[0], ("sensor".to_string(), "ASIC1".to_string()));
    assert!(c.collect_temperature_state("ASIC1", None).is_none());
    let app = c.collect_cluster_app("nmx-c", Some("not ok"));
    assert_eq!(app[1].0.key, "cluster_app:nmx-c:not_ok");
    assert!(app[1].1);
}

use carbide::nvue::{IterationAction, IterationInput, IterationPhase, IterationRun, NVUE_REST_FETCHES};

fn run_iteration(
    collector: &NvueRestCollector,
    has_credentials: bool,
    refresh_ok: bool,
    outcomes: Vec<FetchOutcome>,
) -> Vec<IterationAction> {
    let mut run = IterationRun::new();
    let mut actions = vec![collector.iteration_step(&mut run, IterationInput::Begin { has_credentials })];
    if !has_credentials {
        actions.push(collector.iteration_step(&mut run, IterationInput::Refreshed { ok: refresh_ok }));
    }
    for o in outcomes {
        actions.push(collector.iteration_step(&mut run, IterationInput::Fetched(o)));
    }
    assert_eq!(run.phase(), IterationPhase::Done);
    actions
}

#[test]
fn first_iteration_lazy_fetches_credentials_then_runs() {
    let c = NvueRestCollector::new("sw".to_string(), NvueRestCollectorConfig { has_data_sink: true });
    let outcomes = (0..NVUE_REST_FETCHES).map(|_| FetchOutcome::Empty).collect();
    let actions = run_iteration(&c, false, true, outcomes);
    assert_eq!(actions[0], IterationAction::RefreshCredentials);
    assert_eq!(actions[1], IterationAction::Fetch { path: 0, event: Some(CollectorEvent::MetricCollectionStart) });
    assert_eq!(actions[7], IterationAction::Fetch { path: 6, event: None });
    assert_eq!(
        actions[8],
        IterationAction::Finish {
            clear_credentials: false,
            event: Some(CollectorEvent::MetricCollectionEnd),
            summary: Some(carbide::nvue::IterationResult {
                refresh_triggered: true,
                entity_count: Some(0),
                fetch_failures: 0
            }),
        }
    );
    assert_eq!(actions.len(), 9);
}

#[test]
fn iteration_is_skipped_when_credential_fetch_fails() {
    let c = NvueRestCollector::new("sw".to_string(), NvueRestCollectorConfig { has_data_sink: true });
    let actions = run_iteration(&c, false, false, vec![]);
    assert_eq!(actions[1], IterationAction::Skip { result: skipped_iteration_result() });
    assert_eq!(actions.len(), 2);
}

#[test]
fn iteration_with_credentials_counts_and_clears_on_auth_failure() {
    let c = NvueRestCollector::new("sw".to_string(), NvueRestCollectorConfig { has_data_sink: false });
    let outcomes = vec![
        FetchOutcome::Fetched(1),
        FetchOutcome::Fetched(2),
        FetchOutcome::Failed { auth_error: true },
        FetchOutcome::Empty,
        FetchOutcome::Failed { auth_error: false },
        FetchOutcome::Fetched(4),
        FetchOutcome::Empty,
    ];
    let actions = run_iteration(&c, true, true, outcomes);
    assert_eq!(actions[0], IterationAction::Fetch { path: 0, event: None });
    match &actions[7] {
        IterationAction::Finish { clear_credentials, event, summary } => {
            assert!(*clear_credentials);
            assert_eq!(*event, None);
            let r = summary.unwrap();
            assert_eq!(r.entity_count, Some(7));
            assert_eq!(r.fetch_failures, 2);
        }
        other => panic!("unexpected action: {other:?}"),
    }
    let mut done = IterationRun::new();
    c.iteration_step(&mut done, IterationInput::Begin { has_credentials: true });
    assert_eq!(c.iteration_step(&mut done, IterationInput::Refreshed { ok: true }), IterationAction::Ignore);
}

/// The fan LED state set for a `FAN_STATUS` state: `None` when the status is
/// absent, as the switch reports no such entry.
fn fan_led_samples(c: &NvueRestCollector, status: Option<&str>) -> Vec<(carbide::nvue::MetricSeries, bool)> {
    match status {
        Some(state) => c.collect_fan_led(Some(state)).unwrap_or_default(),
        None => Vec::new(),
    }
}

#[test]
fn test_fan_led_emit() {
    let states = ok_states_list();
    let cases: [(&str, Option<&str>, Option<&str>); 4] = [
        ("green LED => ok", Some("green"), Some("ok")),
        ("ok LED => ok", Some("ok"), Some("ok")),
        ("amber LED => not_ok", Some("amber"), Some("not_ok")),
        ("absent FAN_STATUS emits nothing", None, None),
    ];
    for (name, status, expected) in cases {
        let c = NvueRestCollector::new("sw".to_string(), NvueRestCollectorConfig { has_data_sink: true });
        let samples = fan_led_samples(&c, status);
        match expected {
            Some(current) => {
                assert_eq!(samples.len(), states.len(), "case '{name}': one series per state");
                for state in &states {
                    let (series, on) = samples
                        .iter()
                        .find(|(s, _)| s.labels.iter().any(|(k, v)| k == "state" && v == state))
                        .unwrap_or_else(|| panic!("case '{name}': missing series for state {state}"));
                    assert_eq!(series.unit, "state", "case '{name}'");
                    assert_eq!(*on, *state == current, "case '{name}' state {state}");
                }
                for (series, _) in &samples {
                    assert_eq!(series.name, "nvue_rest", "case '{name}'");
                    let state = series
                        .labels
                        .iter()
                        .find(|(k, _)| k == "state")
                        .map(|(_, v)| v.clone())
                        .expect("state label present");
                    assert_eq!(series.key, format!("fan_led:{state}"), "case '{name}'");
                    assert_eq!(series.labels.len(), 1, "case '{name}': fan_led is switch-level");
                }
            }
            None => assert_eq!(samples.len(), 0, "case '{name}': absent FAN_STATUS must not emit a sample"),
        }
    }
}

#[test]
fn state_sets_flag_one_series_with_distinct_keys() {
    let c = NvueRestCollector::new("sw".to_string(), NvueRestCollectorConfig { has_data_sink: true });
    let labels = vec![("app_name".to_string(), "x".to_string())];
    let states = system_health_states_list();
    for current in &states {
        for key_base in [None, Some("x")] {
            let set = c.emit_state_set("system_health", key_base, current, &states, &labels);
            assert_eq!(set.iter().filter(|(_, on)| *on).count(), 1);
            let mut keys: Vec<&String> = set.iter().map(|(s, _)| &s.key).collect();
            keys.sort();
            keys.dedup();
            assert_eq!(keys.len(), states.len());
        }
    }
}
