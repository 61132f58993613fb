use carbide::health_report::{
    aggregate_health_status, build_insert_request, build_table, format_health_alerts, format_health_sources,
    health_report_modes, resolve_health_report_source, HealthProbeAlert, HealthReport, HealthReportApplyMode,
    HealthReportSource, HealthSourceOrigin, ListedHealthReportEntry, PowerShelfSummary,
};
use prettytable::{Cell, Row, Table};

fn healthy_report() -> HealthReport {
    HealthReport {
        source: "aggregate-health".to_string(),
        triggered_by: None,
        observed_at: None,
        successes: vec![],
        alerts: vec![],
    }
}

fn unhealthy_report() -> HealthReport {
    HealthReport {
        alerts: vec![HealthProbeAlert {
            id: "FanFailure".to_string(),
            target: Some("fan-1".to_string()),
            in_alert_since: None,
            message: "Fan failed".to_string(),
            tenant_message: None,
            classifications: vec!["Hardware".to_string()],
        }],
        ..healthy_report()
    }
}

#[test]
fn aggregate_health_status_covers_report_states() {
    let cases = [
        ("missing report is unknown", None, "Unknown"),
        ("report without alerts is healthy", Some(healthy_report()), "Healthy"),
        ("report with alerts is unhealthy", Some(unhealthy_report()), "Unhealthy"),
    ];
    for (scenario, input, expected) in cases {
        assert_eq!(aggregate_health_status(input.as_ref()).to_string(), expected.to_string(), "{scenario}");
    }
}

#[test]
fn format_health_alerts_covers_report_states() {
    let cases = [
        ("missing report", None, "N/A"),
        ("healthy report", Some(healthy_report()), "None"),
        (
            "unhealthy report",
            Some(unhealthy_report()),
            "FanFailure [Target: fan-1]: Fan failed [Classifications: Hardware]",
        ),
    ];
    for (scenario, input, expected) in cases {
        assert_eq!(format_health_alerts(input.as_ref()), expected.to_string(), "{scenario}");
    }
}

#[test]
fn format_health_sources_renders_source_names() {
    let sources = vec![
        HealthSourceOrigin { mode: HealthReportApplyMode::Merge, source: "rack-controller".to_string() },
        HealthSourceOrigin { mode: HealthReportApplyMode::Replace, source: "internal-maintenance".to_string() },
    ];

    assert_eq!(format_health_sources(&sources), "rack-controller\ninternal-maintenance");
    assert_eq!(format_health_sources(&vec![]), "None");
}

#[test]
fn format_health_alerts_joins_several_alerts() {
    let report = HealthReport {
        source: "s".to_string(),
        triggered_by: None,
        observed_at: None,
        successes: vec![],
        alerts: vec![
            HealthProbeAlert {
                id: "A".to_string(),
                target: None,
                in_alert_since: None,
                message: "first".to_string(),
                tenant_message: None,
                classifications: vec![],
            },
            HealthProbeAlert {
                id: "B".to_string(),
                target: Some("t".to_string()),
                in_alert_since: None,
                message: "second".to_string(),
                tenant_message: None,
                classifications: vec!["X".to_string(), "Y".to_string()],
            },
        ],
    };
    let text = format_health_alerts(Some(&report));
    assert!(text.contains("A: first"));
    assert!(text.contains("B [Target: t]: second [Classifications: X, Y]"));
}

fn table_to_string(rows: &[Vec<String>]) -> String {
    let mut table = Table::new();
    let mut iter = rows.iter();
    if let Some(header) = iter.next() {
        table.set_titles(Row::new(header.iter().map(|c| Cell::new(c)).collect()));
    }
    for row in iter {
        table.add_row(Row::new(row.iter().map(|c| Cell::new(c)).collect()));
    }
    table.to_string()
}

#[test]
fn table_renders_aggregate_health() {
    let shelf = PowerShelfSummary {
        id: Some("ps100htjtiaehv1n5vh67tbmqq4eabcjdng40f7jupsadbedhruh6rag1l0".to_string()),
        name: None,
        metadata_name: None,
        capacity: None,
        voltage: None,
        power_state: None,
        hardware_health: Some("ok".to_string()),
        health: Some(HealthReport {
            source: "power-shelf-aggregate-health".to_string(),
            triggered_by: None,
            observed_at: None,
            successes: vec![],
            alerts: vec![HealthProbeAlert {
                id: "PowerSupplyFailure".to_string(),
                target: Some("psu-1".to_string()),
                in_alert_since: None,
                message: "Power supply failed".to_string(),
                tenant_message: None,
                classifications: vec!["Hardware".to_string()],
            }],
        }),
        health_sources: vec![HealthSourceOrigin {
            mode: HealthReportApplyMode::Merge,
            source: "operator-override".to_string(),
        }],
        controller_state: String::new(),
        bmc_ip: None,
        bmc_mac: None,
        bmc_interface_id: None,
    };

    let rendered = table_to_string(&build_table(&vec![shelf]));
    assert!(rendered.contains("Hardware Health"));
    assert!(rendered.contains("Aggregate Health"));
    assert!(rendered.contains("ok"));
    assert!(rendered.contains("Unhealthy"));
    assert!(rendered.contains("PowerSupplyFailure"));
    assert!(rendered.contains("Classifications: Hardware"));
    assert!(rendered.contains("operator-override"));
}

#[test]
fn build_insert_request_maps_apply_mode_and_payload() {
    let cases = [
        ("merge with existing reports", false, HealthReportApplyMode::Merge),
        ("replace existing reports", true, HealthReportApplyMode::Replace),
    ];
    for (scenario, replace, mode) in cases {
        let request = build_insert_request(
            "rack-123".to_string(),
            HealthReport {
                source: "smoke-report".to_string(),
                triggered_by: None,
                observed_at: None,
                successes: vec![],
                alerts: vec![],
            },
            replace,
        );
        let entry = request.health_report_entry.expect("request should contain a health report entry");
        assert_eq!(request.rack_id.expect("request should contain a rack ID"), "rack-123".to_string(), "{scenario}");
        assert_eq!(entry.report.expect("entry should contain a report").source, "smoke-report".to_string(), "{scenario}");
        assert_eq!(entry.mode, mode, "{scenario}");
    }
}

#[test]
fn resolve_health_report_source_prefers_template_then_json() {
    match resolve_health_report_source(Some(7u8), Some("{}".to_string())) {
        Ok(HealthReportSource::Template(t)) => assert_eq!(t, 7),
        _ => panic!("template expected"),
    }
    match resolve_health_report_source::<u8>(None, Some("{\"source\":\"smoke\"}".to_string())) {
        Ok(HealthReportSource::Json(j)) => assert_eq!(j, "{\"source\":\"smoke\"}"),
        _ => panic!("json expected"),
    }
    match resolve_health_report_source::<u8>(None, None) {
        Err(e) => assert_eq!(e, "Either health_report or template name must be provided."),
        _ => panic!("error expected"),
    }
}

#[test]
fn health_report_modes_names_modes_and_refuses_bad_entries() {
    let ok = vec![
        ListedHealthReportEntry { has_report: true, mode: Some(HealthReportApplyMode::Merge) },
        ListedHealthReportEntry { has_report: true, mode: Some(HealthReportApplyMode::Replace) },
    ];
    assert_eq!(health_report_modes(&ok), Ok(vec!["Merge", "Replace"]));
    let missing = vec![ListedHealthReportEntry { has_report: false, mode: Some(HealthReportApplyMode::Merge) }];
    assert_eq!(health_report_modes(&missing), Err("missing response".to_string()));
    let invalid = vec![ListedHealthReportEntry { has_report: true, mode: None }];
    assert_eq!(health_report_modes(&invalid), Err("invalid response".to_string()));
}

#[test]
fn build_insert_request_keeps_every_report_field() {
    let report = HealthReport {
        source: "smoke-report".to_string(),
        triggered_by: Some("operator".to_string()),
        observed_at: Some(carbide::health_report::Timestamp { seconds: 1_700_000_000, nanos: 5 }),
        successes: vec![carbide::health_report::HealthProbeSuccess { id: "Psu".to_string(), target: None }],
        alerts: vec![HealthProbeAlert {
            id: "FanFailure".to_string(),
            target: Some("fan-1".to_string()),
            in_alert_since: Some(carbide::health_report::Timestamp { seconds: 1_699_999_000, nanos: 0 }),
            message: "Fan failed".to_string(),
            tenant_message: Some("Cooling degraded".to_string()),
            classifications: vec!["Hardware".to_string()],
        }],
    };
    let request = build_insert_request("rack-1".to_string(), report.clone(), false);
    assert_eq!(request.health_report_entry.unwrap().report, Some(report));
}
