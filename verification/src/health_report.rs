//! Operator-facing rendering of health reports: aggregate status, alert and
//! source summaries, power-shelf table rows, and rack health-report requests.

use vstd::prelude::*;
use crate::text::{extend_chars, join_seq, join_strings, string_of};

verus! {

/// A point in time: seconds and nanoseconds since the Unix epoch.
#[derive(Clone, Copy, Debug, PartialEq, Eq)]
pub struct Timestamp {
    pub seconds: i64,
    pub nanos: i32,
}

/// One probe of a health report that passed.
#[derive(Clone, Debug, PartialEq, Eq)]
pub struct HealthProbeSuccess {
    pub id: String,
    pub target: Option<String>,
}

/// One alert of a health report.
#[derive(Clone, Debug, PartialEq, Eq)]
pub struct HealthProbeAlert {
    pub id: String,
    pub target: Option<String>,
    pub in_alert_since: Option<Timestamp>,
    pub message: String,
    pub tenant_message: Option<String>,
    pub classifications: Vec<String>,
}

/// A health report: its source, what triggered it and when it was observed,
/// the probes that passed and its alerts.
#[derive(Clone, Debug, PartialEq, Eq)]
pub struct HealthReport {
    pub source: String,
    pub triggered_by: Option<String>,
    pub observed_at: Option<Timestamp>,
    pub successes: Vec<HealthProbeSuccess>,
    pub alerts: Vec<HealthProbeAlert>,
}

#[derive(Clone, Copy, Debug, PartialEq, Eq)]
pub enum HealthReportApplyMode {
    Merge,
    Replace,
}

/// A source whose report contributed to an aggregate.
#[derive(Clone, Debug, PartialEq, Eq)]
pub struct HealthSourceOrigin {
    pub mode: HealthReportApplyMode,
    pub source: String,
}

/// Missing is Unknown; a report without alerts is Healthy; one with alerts Unhealthy.
pub open spec fn health_status(health: Option<HealthReport>) -> Seq<char> {
    match health {
        Some(h) => if h.alerts@.len() == 0 {
            "Healthy"@
        } else {
            "Unhealthy"@
        },
        None => "Unknown"@,
    }
}

/// The operator-facing status of an aggregate health report.
pub fn aggregate_health_status(health: Option<&HealthReport>) -> (r: &'static str)
    ensures
        r@ == health_status(match health {
            Some(h) => Some(*h),
            None => None,
        }),
{
    match health {
        Some(h) => if h.alerts.len() == 0 {
            "Healthy"
        } else {
            "Unhealthy"
        },
        None => "Unknown",
    }
}

/// `{id}[ [Target: {target}]]: {message}[ [Classifications: {a, b}]]`
pub open spec fn alert_line(a: HealthProbeAlert) -> Seq<char> {
    a.id@ + match a.target {
        Some(t) => " [Target: "@ + t@ + "]"@,
        None => Seq::empty(),
    } + ": "@ + a.message@ + if a.classifications@.len() == 0 {
        Seq::<char>::empty()
    } else {
        " [Classifications: "@ + join_seq(a.classifications.deep_view(), ", "@) + "]"@
    }
}

/// The alert lines of a report, one per line; `N/A` without a report,
/// `None` without alerts.
pub open spec fn alerts_text(health: Option<HealthReport>) -> Seq<char> {
    match health {
        None => "N/A"@,
        Some(h) => if h.alerts@.len() == 0 {
            "None"@
        } else {
            join_seq(h.alerts@.map_values(|a: HealthProbeAlert| alert_line(a)), "\n"@)
        },
    }
}

fn format_alert(a: &HealthProbeAlert) -> (s: String)
    ensures
        s@ == alert_line(*a),
{
    let mut out: Vec<char> = Vec::new();
    extend_chars(&mut out, a.id.as_str());
    match &a.target {
        Some(t) => {
            extend_chars(&mut out, " [Target: ");
            extend_chars(&mut out, t.as_str());
            extend_chars(&mut out, "]");
        },
        None => {},
    }
    extend_chars(&mut out, ": ");
    extend_chars(&mut out, a.message.as_str());
    if a.classifications.len() > 0 {
        extend_chars(&mut out, " [Classifications: ");
        let joined = join_strings(&a.classifications, ", ");
        extend_chars(&mut out, joined.as_str());
        extend_chars(&mut out, "]");
    }
    assert(out@ =~= alert_line(*a));
    string_of(&out)
}

/// Aggregate health alerts for human-readable component output.
pub fn format_health_alerts(health: Option<&HealthReport>) -> (s: String)
    ensures
        s@ == alerts_text(match health {
            Some(h) => Some(*h),
            None => None,
        }),
{
    let h = match health {
        Some(h) => h,
        None => {
            return "N/A".to_owned();
        },
    };
    if h.alerts.len() == 0 {
        return "None".to_owned();
    }
    let mut lines: Vec<String> = Vec::new();
    let mut i: usize = 0;
    while i < h.alerts.len()
        invariant
            i <= h.alerts.len(),
            lines.deep_view() == h.alerts@.take(i as int).map_values(|a: HealthProbeAlert| alert_line(a)),
        decreases h.alerts.len() - i,
    {
        let line = format_alert(&h.alerts[i]);
        let ghost before = lines.deep_view();
        lines.push(line);
        assert(lines.deep_view() =~= before.push(alert_line(h.alerts@[i as int])));
        assert(h.alerts@.take(i + 1).map_values(|a: HealthProbeAlert| alert_line(a)) =~= h.alerts@.take(
            i as int,
        ).map_values(|a: HealthProbeAlert| alert_line(a)).push(alert_line(h.alerts@[i as int])));
        i = i + 1;
    }
    assert(h.alerts@.take(h.alerts.len() as int) =~= h.alerts@);
    join_strings(&lines, "\n")
}

/// The source names in response order, one per line; `None` when there are none.
pub open spec fn sources_text(sources: Seq<HealthSourceOrigin>) -> Seq<char> {
    if sources.len() == 0 {
        "None"@
    } else {
        join_seq(sources.map_values(|s: HealthSourceOrigin| s.source@), "\n"@)
    }
}

/// Health report source names in response order.
pub fn format_health_sources(sources: &Vec<HealthSourceOrigin>) -> (s: String)
    ensures
        s@ == sources_text(sources@),
{
    if sources.len() == 0 {
        return "None".to_owned();
    }
    let mut names: Vec<String> = Vec::new();
    let mut i: usize = 0;
    while i < sources.len()
        invariant
            i <= sources.len(),
            names.deep_view() == sources@.take(i as int).map_values(|s: HealthSourceOrigin| s.source@),
        decreases sources.len() - i,
    {
        let ghost before = names.deep_view();
        names.push(sources[i].source.clone());
        assert(names.deep_view() =~= before.push(sources@[i as int].source@));
        assert(sources@.take(i + 1).map_values(|s: HealthSourceOrigin| s.source@) =~= sources@.take(
            i as int,
        ).map_values(|s: HealthSourceOrigin| s.source@).push(sources@[i as int].source@));
        i = i + 1;
    }
    assert(sources@.take(sources.len() as int) =~= sources@);
    join_strings(&names, "\n")
}

/// Where a health report comes from: a predefined template, or raw JSON.
pub enum HealthReportSource<T> {
    Template(T),
    Json(String),
}

pub const NO_REPORT_SOURCE: &'static str = "Either health_report or template name must be provided.";

/// The template when one is given, else the raw JSON, else an error.
pub fn resolve_health_report_source<T>(template: Option<T>, health_report_json: Option<String>) -> (res: Result<HealthReportSource<T>, String>)
    ensures
        template is Some ==> res == Ok::<HealthReportSource<T>, String>(HealthReportSource::Template(template->0)),
        template is None && health_report_json is Some ==> res == Ok::<HealthReportSource<T>, String>(
            HealthReportSource::Json(health_report_json->0),
        ),
        template is None && health_report_json is None ==> (res matches Err(e) && e@ == NO_REPORT_SOURCE@),
{
    match template {
        Some(t) => Ok(HealthReportSource::Template(t)),
        None => match health_report_json {
            Some(j) => Ok(HealthReportSource::Json(j)),
            None => Err(NO_REPORT_SOURCE.to_owned()),
        },
    }
}

/// A rack health report entry to insert.
#[derive(Clone, Debug, PartialEq, Eq)]
pub struct HealthReportEntry {
    pub report: Option<HealthReport>,
    pub mode: HealthReportApplyMode,
}

/// The request inserting a health report for a rack.
#[derive(Clone, Debug, PartialEq, Eq)]
pub struct InsertRackHealthReportRequest {
    pub rack_id: Option<String>,
    pub health_report_entry: Option<HealthReportEntry>,
}

/// Carries the rack and report unchanged, and maps `replace` to the
/// Replace apply mode (Merge otherwise).
pub fn build_insert_request(rack_id: String, report: HealthReport, replace: bool) -> (r: InsertRackHealthReportRequest)
    ensures
        r == (InsertRackHealthReportRequest {
            rack_id: Some(rack_id),
            health_report_entry: Some(
                HealthReportEntry {
                    report: Some(report),
                    mode: if replace {
                        HealthReportApplyMode::Replace
                    } else {
                        HealthReportApplyMode::Merge
                    },
                },
            ),
        }),
{
    InsertRackHealthReportRequest {
        rack_id: Some(rack_id),
        health_report_entry: Some(
            HealthReportEntry {
                report: Some(report),
                mode: if replace {
                    HealthReportApplyMode::Replace
                } else {
                    HealthReportApplyMode::Merge
                },
            },
        ),
    }
}

/// A listed health report entry as the API returns it: whether it holds a
/// report, and its mode (`None` for a value this client does not know).
pub struct ListedHealthReportEntry {
    pub has_report: bool,
    pub mode: Option<HealthReportApplyMode>,
}

pub open spec fn entry_ok(e: ListedHealthReportEntry) -> bool {
    e.has_report && e.mode is Some
}

/// The mode column of a health report listing, `Merge` or `Replace` per
/// entry; refuses a listing at its first entry without a report
/// (`missing response`) or with an unknown mode (`invalid response`).
pub fn health_report_modes(entries: &Vec<ListedHealthReportEntry>) -> (res: Result<Vec<&'static str>, String>)
    ensures
        match res {
            Ok(modes) => modes@.len() == entries@.len() && forall|i: int|
                0 <= i < entries@.len() ==> entry_ok(#[trigger] entries@[i]) && modes@[i]@ == match entries@[i].mode {
                    Some(HealthReportApplyMode::Merge) => "Merge"@,
                    _ => "Replace"@,
                },
            Err(e) => exists|i: int|
                0 <= i < entries@.len() && !entry_ok(#[trigger] entries@[i]) && (forall|k: int|
                    0 <= k < i ==> entry_ok(#[trigger] entries@[k])) && e@ == (if !entries@[i].has_report {
                    "missing response"@
                } else {
                    "invalid response"@
                }),
        },
{
    let mut modes: Vec<&'static str> = Vec::new();
    let mut i: usize = 0;
    while i < entries.len()
        invariant
            i <= entries.len(),
            modes@.len() == i,
            forall|k: int|
                0 <= k < i ==> entry_ok(#[trigger] entries@[k]) && modes@[k]@ == match entries@[k].mode {
                    Some(HealthReportApplyMode::Merge) => "Merge"@,
                    _ => "Replace"@,
                },
        decreases entries.len() - i,
    {
        let e = &entries[i];
        if !e.has_report {
            assert(!entry_ok(entries@[i as int]));
            return Err("missing response".to_owned());
        }
        match e.mode {
            Some(HealthReportApplyMode::Merge) => modes.push("Merge"),
            Some(HealthReportApplyMode::Replace) => modes.push("Replace"),
            None => {
                assert(!entry_ok(entries@[i as int]));
                return Err("invalid response".to_owned());
            },
        }
        i = i + 1;
    }
    Ok(modes)
}

/// What a power shelf listing shows of a shelf.
pub struct PowerShelfSummary {
    pub id: Option<String>,
    pub name: Option<String>,
    pub metadata_name: Option<String>,
    pub capacity: Option<String>,
    pub voltage: Option<String>,
    pub power_state: Option<String>,
    pub hardware_health: Option<String>,
    pub health: Option<HealthReport>,
    pub health_sources: Vec<HealthSourceOrigin>,
    pub controller_state: String,
    pub bmc_ip: Option<String>,
    pub bmc_mac: Option<String>,
    pub bmc_interface_id: Option<String>,
}

pub open spec fn or_na(s: Option<String>) -> Seq<char> {
    match s {
        Some(x) => x@,
        None => "N/A"@,
    }
}

/// The headers of the power shelf table.
pub open spec fn power_shelf_headers() -> Seq<Seq<char>> {
    seq![
        "ID"@,
        "Name"@,
        "Metadata Name"@,
        "Capacity(W)"@,
        "Voltage(V)"@,
        "Power State"@,
        "Hardware Health"@,
        "Aggregate Health"@,
        "Health Alerts"@,
        "Health Reports"@,
        "State"@,
        "BMC IP"@,
        "BMC MAC"@,
        "BMC Interface ID"@,
    ]
}

/// One row of the power shelf table: each field or `N/A`, with the legacy
/// hardware health beside the aggregate health, its alerts and sources.
pub open spec fn power_shelf_cells(s: PowerShelfSummary) -> Seq<Seq<char>> {
    seq![
        or_na(s.id),
        or_na(s.name),
        or_na(s.metadata_name),
        or_na(s.capacity),
        or_na(s.voltage),
        or_na(s.power_state),
        or_na(s.hardware_health),
        health_status(s.health),
        alerts_text(s.health),
        sources_text(s.health_sources@),
        s.controller_state@,
        or_na(s.bmc_ip),
        or_na(s.bmc_mac),
        or_na(s.bmc_interface_id),
    ]
}

fn na(s: &Option<String>) -> (r: String)
    ensures
        r@ == or_na(*s),
{
    match s {
        Some(x) => x.clone(),
        None => "N/A".to_owned(),
    }
}

fn push_cell(v: &mut Vec<String>, s: String)
    ensures
        final(v).deep_view() == old(v).deep_view().push(s@),
{
    let ghost before = v.deep_view();
    v.push(s);
    assert(v.deep_view() =~= before.push(s@));
}

pub fn power_shelf_headers_row() -> (r: Vec<String>)
    ensures
        r.deep_view() == power_shelf_headers(),
{
    let mut r: Vec<String> = Vec::new();
    push_cell(&mut r, "ID".to_owned());
    push_cell(&mut r, "Name".to_owned());
    push_cell(&mut r, "Metadata Name".to_owned());
    push_cell(&mut r, "Capacity(W)".to_owned());
    push_cell(&mut r, "Voltage(V)".to_owned());
    push_cell(&mut r, "Power State".to_owned());
    push_cell(&mut r, "Hardware Health".to_owned());
    push_cell(&mut r, "Aggregate Health".to_owned());
    push_cell(&mut r, "Health Alerts".to_owned());
    push_cell(&mut r, "Health Reports".to_owned());
    push_cell(&mut r, "State".to_owned());
    push_cell(&mut r, "BMC IP".to_owned());
    push_cell(&mut r, "BMC MAC".to_owned());
    push_cell(&mut r, "BMC Interface ID".to_owned());
    assert(r.deep_view() =~= power_shelf_headers());
    r
}

/// The cells of one power shelf's row.
pub fn power_shelf_row(s: &PowerShelfSummary) -> (r: Vec<String>)
    ensures
        r.deep_view() == power_shelf_cells(*s),
{
    let mut r: Vec<String> = Vec::new();
    push_cell(&mut r, na(&s.id));
    push_cell(&mut r, na(&s.name));
    push_cell(&mut r, na(&s.metadata_name));
    push_cell(&mut r, na(&s.capacity));
    push_cell(&mut r, na(&s.voltage));
    push_cell(&mut r, na(&s.power_state));
    push_cell(&mut r, na(&s.hardware_health));
    let health = match &s.health {
        Some(h) => Some(h),
        None => None,
    };
    push_cell(&mut r, aggregate_health_status(health).to_owned());
    push_cell(&mut r, format_health_alerts(health));
    push_cell(&mut r, format_health_sources(&s.health_sources));
    push_cell(&mut r, s.controller_state.clone());
    push_cell(&mut r, na(&s.bmc_ip));
    push_cell(&mut r, na(&s.bmc_mac));
    push_cell(&mut r, na(&s.bmc_interface_id));
    assert(r.deep_view() =~= power_shelf_cells(*s));
    r
}

/// The rows of the power shelf table, in order.
pub fn build_table(shelves: &Vec<PowerShelfSummary>) -> (t: Vec<Vec<String>>)
    ensures
        t@.len() == shelves@.len() + 1,
        t@[0].deep_view() == power_shelf_headers(),
        forall|i: int| 0 <= i < shelves@.len() ==> (#[trigger] t@[i + 1]).deep_view() == power_shelf_cells(shelves@[i]),
{
    let mut t: Vec<Vec<String>> = Vec::new();
    t.push(power_shelf_headers_row());
    let mut i: usize = 0;
    while i < shelves.len()
        invariant
            i <= shelves.len(),
            t@.len() == i + 1,
            t@[0].deep_view() == power_shelf_headers(),
            forall|k: int| 0 <= k < i ==> (#[trigger] t@[k + 1]).deep_view() == power_shelf_cells(shelves@[k]),
        decreases shelves.len() - i,
    {
        t.push(power_shelf_row(&shelves[i]));
        i = i + 1;
    }
    t
}

} // verus!
