//! NVUE REST health collection: mapping switch-reported statuses to
//! OpenMetrics state sets, building metric series, and summarizing one
//! collection iteration.

use vstd::prelude::*;
use crate::text::{
    chars_of, dec_nat, dec_u64_vec, eq_ignore_ascii_case, extend_chars, opt_str, str_eq, string_of, trim_vec, trim_ws,
    vec_eq_ignore_ascii_case,
};

verus! {

pub const COLLECTOR_NAME: &'static str = "nvue_rest";

/// The states of the `system_health` state set.
pub open spec fn system_health_states() -> Seq<Seq<char>> {
    seq!["ok"@, "not_ok"@, "unknown"@]
}

/// The states of the `partition_health` state set.
pub open spec fn partition_health_states() -> Seq<Seq<char>> {
    seq!["healthy"@, "degraded_bandwidth"@, "degraded"@, "unhealthy"@, "unknown"@]
}

/// The states of the `cluster_app` state set.
pub open spec fn app_status_states() -> Seq<Seq<char>> {
    seq!["ok"@, "not_ok"@, "unknown"@]
}

/// The states of the temperature-sensor and fan-LED state sets.
pub open spec fn ok_states() -> Seq<Seq<char>> {
    seq!["ok"@, "not_ok"@]
}

pub fn system_health_states_list() -> (v: Vec<&'static str>)
    ensures
        v@.map_values(|s: &str| s@) == system_health_states(),
{
    let v = vec!["ok", "not_ok", "unknown"];
    assert(v@.map_values(|s: &str| s@) =~= system_health_states());
    v
}

pub fn partition_health_states_list() -> (v: Vec<&'static str>)
    ensures
        v@.map_values(|s: &str| s@) == partition_health_states(),
{
    let v = vec!["healthy", "degraded_bandwidth", "degraded", "unhealthy", "unknown"];
    assert(v@.map_values(|s: &str| s@) =~= partition_health_states());
    v
}

pub fn app_status_states_list() -> (v: Vec<&'static str>)
    ensures
        v@.map_values(|s: &str| s@) == app_status_states(),
{
    let v = vec!["ok", "not_ok", "unknown"];
    assert(v@.map_values(|s: &str| s@) =~= app_status_states());
    v
}

pub fn ok_states_list() -> (v: Vec<&'static str>)
    ensures
        v@.map_values(|s: &str| s@) == ok_states(),
{
    let v = vec!["ok", "not_ok"];
    assert(v@.map_values(|s: &str| s@) =~= ok_states());
    v
}

/// System health: `OK` is ok, `Not OK` is not_ok, anything else unknown.
pub open spec fn system_health_state(status: Option<Seq<char>>) -> Seq<char> {
    if status == Some("OK"@) {
        "ok"@
    } else if status == Some("Not OK"@) {
        "not_ok"@
    } else {
        "unknown"@
    }
}

pub fn system_health_to_state(status: Option<&str>) -> (r: &'static str)
    ensures
        r@ == system_health_state(opt_str(status)),
{
    match status {
        Some(s) => {
            if str_eq(s, "OK") {
                "ok"
            } else if str_eq(s, "Not OK") {
                "not_ok"
            } else {
                "unknown"
            }
        },
        None => "unknown",
    }
}

/// Partition health: the four known states map to themselves, anything else is unknown.
pub open spec fn partition_health_state(status: Option<Seq<char>>) -> Seq<char> {
    match status {
        Some(s) => if s == "healthy"@ || s == "degraded_bandwidth"@ || s == "degraded"@ || s
            == "unhealthy"@ {
            s
        } else {
            "unknown"@
        },
        None => "unknown"@,
    }
}

pub fn partition_health_to_state(status: Option<&str>) -> (r: &'static str)
    ensures
        r@ == partition_health_state(opt_str(status)),
{
    match status {
        Some(s) => {
            if str_eq(s, "healthy") {
                "healthy"
            } else if str_eq(s, "degraded_bandwidth") {
                "degraded_bandwidth"
            } else if str_eq(s, "degraded") {
                "degraded"
            } else if str_eq(s, "unhealthy") {
                "unhealthy"
            } else {
                "unknown"
            }
        },
        None => "unknown",
    }
}

/// Cluster application status: `ok` is ok, `not ok` is not_ok, anything else unknown.
pub open spec fn app_status_state(status: Option<Seq<char>>) -> Seq<char> {
    if status == Some("ok"@) {
        "ok"@
    } else if status == Some("not ok"@) {
        "not_ok"@
    } else {
        "unknown"@
    }
}

pub fn app_status_to_state(status: Option<&str>) -> (r: &'static str)
    ensures
        r@ == app_status_state(opt_str(status)),
{
    match status {
        Some(s) => {
            if str_eq(s, "ok") {
                "ok"
            } else if str_eq(s, "not ok") {
                "not_ok"
            } else {
                "unknown"
            }
        },
        None => "unknown",
    }
}

/// A link diagnostic opcode other than `0` reports a problem.
pub fn diagnostic_opcode_is_fault(code: &str) -> (r: bool)
    ensures
        r == (code@ != "0"@),
{
    !str_eq(code, "0")
}

/// Sensor state: `ok` in any case, surrounding whitespace ignored, is ok;
/// any other present value is not_ok; absent stays absent.
pub open spec fn temp_state(state: Option<Seq<char>>) -> Option<Seq<char>> {
    match state {
        Some(s) => if eq_ignore_ascii_case(trim_ws(s), "ok"@) {
            Some("ok"@)
        } else {
            Some("not_ok"@)
        },
        None => None,
    }
}

pub fn temp_state_to_state(state: Option<&str>) -> (r: Option<&'static str>)
    ensures
        opt_str(r) == temp_state(opt_str(state)),
{
    match state {
        Some(s) => {
            let cs = chars_of(s);
            let t = trim_vec(&cs);
            if vec_eq_ignore_ascii_case(&t, "ok") {
                Some("ok")
            } else {
                Some("not_ok")
            }
        },
        None => None,
    }
}

/// `FAN_STATUS` LED: `green` or `ok` (any case, whitespace ignored) is ok;
/// another non-blank value is not_ok; absent or blank gives nothing.
pub open spec fn fan_led_state(state: Option<Seq<char>>) -> Option<Seq<char>> {
    match state {
        Some(s) => {
            let t = trim_ws(s);
            if t.len() == 0 {
                None
            } else if eq_ignore_ascii_case(t, "green"@) || eq_ignore_ascii_case(t, "ok"@) {
                Some("ok"@)
            } else {
                Some("not_ok"@)
            }
        },
        None => None,
    }
}

pub fn fan_led_to_state(state: Option<&str>) -> (r: Option<&'static str>)
    ensures
        opt_str(r) == fan_led_state(opt_str(state)),
{
    let s = match state {
        Some(s) => s,
        None => {
            return None;
        },
    };
    let cs = chars_of(s);
    let t = trim_vec(&cs);
    if t.len() == 0 {
        return None;
    }
    if vec_eq_ignore_ascii_case(&t, "green") || vec_eq_ignore_ascii_case(&t, "ok") {
        Some("ok")
    } else {
        Some("not_ok")
    }
}

/// One metric series as handed to the data sink; the numeric value is
/// carried beside it.
#[derive(Clone, Debug, PartialEq, Eq)]
pub struct MetricSeries {
    pub key: String,
    pub name: String,
    pub metric_type: String,
    pub unit: String,
    pub labels: Vec<(String, String)>,
}

pub struct MetricSeriesView {
    pub key: Seq<char>,
    pub name: Seq<char>,
    pub metric_type: Seq<char>,
    pub unit: Seq<char>,
    pub labels: Seq<(Seq<char>, Seq<char>)>,
}

impl View for MetricSeries {
    type V = MetricSeriesView;

    open spec fn view(&self) -> MetricSeriesView {
        MetricSeriesView {
            key: self.key@,
            name: self.name@,
            metric_type: self.metric_type@,
            unit: self.unit@,
            labels: self.labels.deep_view(),
        }
    }
}

/// The per-series key: the metric type, then `:` and the qualifier when there is one.
pub open spec fn metric_key(metric_type: Seq<char>, qualifier: Option<Seq<char>>) -> Seq<char> {
    match qualifier {
        Some(q) => metric_type + seq![':'] + q,
        None => metric_type,
    }
}

/// The series of a metric sample of this collector.
pub open spec fn metric_series(
    metric_type: Seq<char>,
    qualifier: Option<Seq<char>>,
    unit: Seq<char>,
    labels: Seq<(Seq<char>, Seq<char>)>,
) -> MetricSeriesView {
    MetricSeriesView {
        key: metric_key(metric_type, qualifier),
        name: COLLECTOR_NAME@,
        metric_type,
        unit,
        labels,
    }
}

/// One series of a state set: the labels plus a `state` label; the key is
/// suffixed with the state (switch-level sets use the state alone).
pub open spec fn state_series(
    metric_type: Seq<char>,
    key_base: Option<Seq<char>>,
    state: Seq<char>,
    labels: Seq<(Seq<char>, Seq<char>)>,
) -> MetricSeriesView {
    let qualifier = match key_base {
        Some(b) => b + seq![':'] + state,
        None => state,
    };
    metric_series(metric_type, Some(qualifier), "state"@, labels.push(("state"@, state)))
}

/// Events delivered to the data sink.
#[derive(Clone, Debug, PartialEq, Eq)]
pub enum CollectorEvent {
    MetricCollectionStart,
    MetricCollectionEnd,
    CollectorRemoved,
}

/// The NVUE REST collector of one switch.
pub struct NvueRestCollector {
    pub switch_id: String,
    pub has_data_sink: bool,
}

/// The configuration of a collector: whether samples go to a data sink.
pub struct NvueRestCollectorConfig {
    pub has_data_sink: bool,
}

fn clone_labels(labels: &Vec<(String, String)>) -> (r: Vec<(String, String)>)
    ensures
        r.deep_view() == labels.deep_view(),
{
    let mut r: Vec<(String, String)> = Vec::new();
    let mut i: usize = 0;
    while i < labels.len()
        invariant
            i <= labels.len(),
            r.deep_view() == labels.deep_view().take(i as int),
        decreases labels.len() - i,
    {
        let ghost before = r.deep_view();
        let (k, v) = &labels[i];
        r.push((k.clone(), v.clone()));
        assert(r.deep_view() =~= before.push(labels.deep_view()[i as int]));
        assert(labels.deep_view().take(i + 1) =~= labels.deep_view().take(i as int).push(
            labels.deep_view()[i as int],
        ));
        i = i + 1;
    }
    assert(labels.deep_view().take(labels.len() as int) =~= labels.deep_view());
    r
}

impl NvueRestCollector {
    /// A collector for `switch_id`.
    pub fn new(switch_id: String, config: NvueRestCollectorConfig) -> (c: Self)
        ensures
            c.switch_id == switch_id,
            c.has_data_sink == config.has_data_sink,
    {
        NvueRestCollector { switch_id, has_data_sink: config.has_data_sink }
    }

    /// The event to deliver: the event itself when a data sink is
    /// configured, nothing otherwise.
    pub fn emit_event(&self, event: CollectorEvent) -> (delivered: Option<CollectorEvent>)
        ensures
            delivered == (if self.has_data_sink { Some(event) } else { None::<CollectorEvent> }),
    {
        if self.has_data_sink {
            Some(event)
        } else {
            None
        }
    }

    /// The series of one metric sample.
    pub fn emit_metric(
        &self,
        metric_type: &str,
        entity_qualifier: Option<&str>,
        unit: &str,
        labels: Vec<(String, String)>,
    ) -> (s: MetricSeries)
        ensures
            s@ == metric_series(metric_type@, opt_str(entity_qualifier), unit@, labels.deep_view()),
    {
        let mut key: Vec<char> = Vec::new();
        extend_chars(&mut key, metric_type);
        match entity_qualifier {
            Some(q) => {
                key.push(':');
                extend_chars(&mut key, q);
            },
            None => {},
        }
        assert(key@ =~= metric_key(metric_type@, opt_str(entity_qualifier)));
        MetricSeries {
            key: string_of(&key),
            name: COLLECTOR_NAME.to_owned(),
            metric_type: metric_type.to_owned(),
            unit: unit.to_owned(),
            labels,
        }
    }

    /// An OpenMetrics state set: one series per state, in order, each with
    /// the labels plus a `state` label, flagged when it is the current state
    /// (value 1, the others 0).
    pub fn emit_state_set(
        &self,
        metric_type: &str,
        key_base: Option<&str>,
        current_state: &str,
        all_states: &Vec<&str>,
        labels: &Vec<(String, String)>,
    ) -> (series: Vec<(MetricSeries, bool)>)
        ensures
            series@.len() == all_states@.len(),
            forall|i: int|
                0 <= i < series@.len() ==> (#[trigger] series@[i]).0@ == state_series(
                    metric_type@,
                    opt_str(key_base),
                    all_states@[i]@,
                    labels.deep_view(),
                ) && series@[i].1 == (all_states@[i]@ == current_state@),
            is_state_set(
                series@,
                metric_type@,
                opt_str(key_base),
                current_state@,
                all_states@.map_values(|s: &str| s@),
                labels.deep_view(),
            ),
    {
        let mut series: Vec<(MetricSeries, bool)> = Vec::new();
        let mut i: usize = 0;
        while i < all_states.len()
            invariant
                i <= all_states.len(),
                series@.len() == i,
                forall|k: int|
                    0 <= k < i ==> (#[trigger] series@[k]).0@ == state_series(
                        metric_type@,
                        opt_str(key_base),
                        all_states@[k]@,
                        labels.deep_view(),
                    ) && series@[k].1 == (all_states@[k]@ == current_state@),
            decreases all_states.len() - i,
        {
            let state = all_states[i];
            let mut series_labels = clone_labels(labels);
            let ghost before = series_labels.deep_view();
            series_labels.push(("state".to_owned(), state.to_owned()));
            proof {
                reveal_strlit("state");
            }
            assert(series_labels.deep_view() =~= before.push(("state"@, state@)));
            let mut qualifier: Vec<char> = Vec::new();
            match key_base {
                Some(base) => {
                    extend_chars(&mut qualifier, base);
                    qualifier.push(':');
                },
                None => {},
            }
            extend_chars(&mut qualifier, state);
            let q = string_of(&qualifier);
            let s = self.emit_metric(metric_type, Some(q.as_str()), "state", series_labels);
            proof {
                reveal_strlit("state");
                assert(q@ =~= (match opt_str(key_base) {
                    Some(b) => b + seq![':'] + state@,
                    None => state@,
                }));
            }
            let current = str_eq(state, current_state);
            series.push((s, current));
            i = i + 1;
        }
        assert forall|k: int| 0 <= k < series@.len() implies all_states@.map_values(|s: &str| s@)[k]
            == all_states@[k]@ by {}
        series
    }
}

/// `series` is the state set `metric_type` of the given states, in order,
/// with `current` flagged.
pub open spec fn is_state_set(
    series: Seq<(MetricSeries, bool)>,
    metric_type: Seq<char>,
    key_base: Option<Seq<char>>,
    current: Seq<char>,
    states: Seq<Seq<char>>,
    labels: Seq<(Seq<char>, Seq<char>)>,
) -> bool {
    &&& series.len() == states.len()
    &&& forall|i: int|
        0 <= i < series.len() ==> (#[trigger] series[i]).0@ == state_series(metric_type, key_base, states[i], labels)
            && series[i].1 == (states[i] == current)
}

/// A state set of distinct states flags exactly one series, the current
/// state's, when the current state is one of them; and no two of its
/// series share a key.
pub proof fn lemma_state_set_flags_one(
    series: Seq<(MetricSeries, bool)>,
    metric_type: Seq<char>,
    key_base: Option<Seq<char>>,
    current: Seq<char>,
    states: Seq<Seq<char>>,
    labels: Seq<(Seq<char>, Seq<char>)>,
)
    requires
        is_state_set(series, metric_type, key_base, current, states, labels),
        states.no_duplicates(),
        states.contains(current),
    ensures
        exists|i: int|
            0 <= i < series.len() && (#[trigger] series[i]).1 && forall|j: int|
                0 <= j < series.len() && j != i ==> !(#[trigger] series[j]).1,
        forall|i: int, j: int|
            0 <= i < series.len() && 0 <= j < series.len() && i != j ==> (#[trigger] series[i]).0@.key
                != (#[trigger] series[j]).0@.key,
{
    let i = choose|i: int| 0 <= i < states.len() && states[i] == current;
    assert(series[i].1);
    assert forall|j: int| 0 <= j < series.len() && j != i implies !(#[trigger] series[j]).1 by {
        assert(states[j] != states[i]);
    }
    let head = match key_base {
        Some(b) => metric_type + seq![':'] + b + seq![':'],
        None => metric_type + seq![':'],
    };
    assert forall|a: int, b: int|
        0 <= a < series.len() && 0 <= b < series.len() && a != b implies (#[trigger] series[a]).0@.key
        != (#[trigger] series[b]).0@.key by {
        assert(series[a].0@.key =~= head + states[a]);
        assert(series[b].0@.key =~= head + states[b]);
        if series[a].0@.key == series[b].0@.key {
            assert((head + states[a]).subrange(head.len() as int, (head + states[a]).len() as int) =~= states[a]);
            assert((head + states[b]).subrange(head.len() as int, (head + states[b]).len() as int) =~= states[b]);
        }
    }
}

/// Each state list holds distinct states, and every state a status maps to
/// is one of its list: so each state set flags exactly one series.
pub proof fn lemma_state_lists_are_sets(status: Option<Seq<char>>)
    ensures
        system_health_states().no_duplicates(),
        system_health_states().contains(system_health_state(status)),
        partition_health_states().no_duplicates(),
        partition_health_states().contains(partition_health_state(status)),
        app_status_states().no_duplicates(),
        app_status_states().contains(app_status_state(status)),
        ok_states().no_duplicates(),
        temp_state(status) matches Some(t) ==> ok_states().contains(t),
        fan_led_state(status) matches Some(t) ==> ok_states().contains(t),
{
    reveal_strlit("ok");
    reveal_strlit("not_ok");
    reveal_strlit("unknown");
    reveal_strlit("healthy");
    reveal_strlit("degraded_bandwidth");
    reveal_strlit("degraded");
    reveal_strlit("unhealthy");
    assert(system_health_states()[0] == "ok"@);
    assert(system_health_states()[1] == "not_ok"@);
    assert(system_health_states()[2] == "unknown"@);
    assert(partition_health_states()[0] == "healthy"@);
    assert(partition_health_states()[1] == "degraded_bandwidth"@);
    assert(partition_health_states()[2] == "degraded"@);
    assert(partition_health_states()[3] == "unhealthy"@);
    assert(partition_health_states()[4] == "unknown"@);
    assert("healthy"@[0] != "unknown"@[0]);
    assert forall|i: int, j: int|
        0 <= i < 5 && 0 <= j < 5 && i != j implies #[trigger] partition_health_states()[i]
        != #[trigger] partition_health_states()[j] by {
        let p = partition_health_states();
        if p[i].len() == p[j].len() {
            assert(p[i][0] != p[j][0]);
        }
    }
    assert(app_status_states()[0] == "ok"@);
    assert(app_status_states()[1] == "not_ok"@);
    assert(app_status_states()[2] == "unknown"@);
    assert(ok_states()[0] == "ok"@);
    assert(ok_states()[1] == "not_ok"@);
}

/// The labels of a partition's series: its id, and its name (the id when it
/// has none).
pub open spec fn partition_labels(part_id: Seq<char>, name: Option<Seq<char>>) -> Seq<(Seq<char>, Seq<char>)> {
    seq![("partition_id"@, part_id), ("partition_name"@, match name {
        Some(n) => n,
        None => part_id,
    })]
}

/// The labels of a link diagnostic's series.
pub open spec fn diagnostic_labels(interface: Seq<char>, code: Seq<char>, status: Seq<char>) -> Seq<(Seq<char>, Seq<char>)> {
    seq![("interface_name"@, interface), ("opcode"@, code), ("diagnostic_status"@, status)]
}

fn label(name: &str, value: &str) -> (r: (String, String))
    ensures
        r.0@ == name@,
        r.1@ == value@,
{
    (name.to_owned(), value.to_owned())
}

impl NvueRestCollector {
    fn state_set_of(
        &self,
        metric_type: &str,
        key_base: Option<&str>,
        current: &str,
        states: &Vec<&str>,
        labels: &Vec<(String, String)>,
        Ghost(expected): Ghost<Seq<Seq<char>>>,
    ) -> (s: Vec<(MetricSeries, bool)>)
        requires
            states@.map_values(|x: &str| x@) == expected,
        ensures
            is_state_set(s@, metric_type@, opt_str(key_base), current@, expected, labels.deep_view()),
    {
        let s = self.emit_state_set(metric_type, key_base, current, states, labels);
        assert forall|i: int| 0 <= i < s@.len() implies expected[i] == states@[i]@ by {
            assert(states@.map_values(|x: &str| x@)[i] == states@[i]@);
        }
        s
    }

    /// The `system_health` state set of the switch.
    pub fn collect_system_health(&self, status: Option<&str>) -> (s: Vec<(MetricSeries, bool)>)
        ensures
            is_state_set(s@, "system_health"@, None, system_health_state(opt_str(status)), system_health_states(), seq![]),
    {
        let labels: Vec<(String, String)> = Vec::new();
        assert(labels.deep_view() =~= Seq::<(Seq<char>, Seq<char>)>::empty());
        self.state_set_of(
            "system_health",
            None,
            system_health_to_state(status),
            &system_health_states_list(),
            &labels,
            Ghost(system_health_states()),
        )
    }

    /// The `cluster_app` state set of one application.
    pub fn collect_cluster_app(&self, name: &str, status: Option<&str>) -> (s: Vec<(MetricSeries, bool)>)
        ensures
            is_state_set(s@, "cluster_app"@, Some(name@), app_status_state(opt_str(status)), app_status_states(), seq![("app_name"@, name@)]),
    {
        let mut labels: Vec<(String, String)> = Vec::new();
        labels.push(label("app_name", name));
        assert(labels.deep_view() =~= seq![("app_name"@, name@)]);
        self.state_set_of(
            "cluster_app",
            Some(name),
            app_status_to_state(status),
            &app_status_states_list(),
            &labels,
            Ghost(app_status_states()),
        )
    }

    /// The series of one SDN partition: its `partition_health` state set,
    /// its `partition_gpu` series, and the GPU count (0 when unreported).
    pub fn collect_partition(
        &self,
        part_id: &str,
        name: Option<&str>,
        health: Option<&str>,
        num_gpus: Option<u32>,
    ) -> (r: (Vec<(MetricSeries, bool)>, MetricSeries, u32))
        ensures
            is_state_set(
                r.0@,
                "partition_health"@,
                Some(part_id@),
                partition_health_state(opt_str(health)),
                partition_health_states(),
                partition_labels(part_id@, opt_str(name)),
            ),
            r.1@ == metric_series("partition_gpu"@, Some(part_id@), "count"@, partition_labels(part_id@, opt_str(name))),
            r.2 == (match num_gpus {
                Some(n) => n,
                None => 0,
            }),
    {
        let part_name = match name {
            Some(n) => n,
            None => part_id,
        };
        let mut labels: Vec<(String, String)> = Vec::new();
        labels.push(label("partition_id", part_id));
        labels.push(label("partition_name", part_name));
        assert(labels.deep_view() =~= partition_labels(part_id@, opt_str(name)));
        let health_set = self.state_set_of(
            "partition_health",
            Some(part_id),
            partition_health_to_state(health),
            &partition_health_states_list(),
            &labels,
            Ghost(partition_health_states()),
        );
        let gpus = self.emit_metric("partition_gpu", Some(part_id), "count", clone_labels(&labels));
        let count = match num_gpus {
            Some(n) => n,
            None => 0,
        };
        (health_set, gpus, count)
    }

    /// The `link_diagnostic` series of one diagnostic, keyed by interface and
    /// opcode, and whether it reports a fault.
    pub fn collect_link_diagnostic(&self, interface: &str, code: &str, status: &str) -> (r: (MetricSeries, bool))
        ensures
            r.0@ == metric_series(
                "link_diagnostic"@,
                Some(interface@ + seq![':'] + code@),
                "state"@,
                diagnostic_labels(interface@, code@, status@),
            ),
            r.1 == (code@ != "0"@),
    {
        let mut q: Vec<char> = Vec::new();
        extend_chars(&mut q, interface);
        q.push(':');
        extend_chars(&mut q, code);
        let qualifier = string_of(&q);
        let mut labels: Vec<(String, String)> = Vec::new();
        labels.push(label("interface_name", interface));
        labels.push(label("opcode", code));
        labels.push(label("diagnostic_status", status));
        assert(labels.deep_view() =~= diagnostic_labels(interface@, code@, status@));
        assert(qualifier@ =~= interface@ + seq![':'] + code@);
        let series = self.emit_metric("link_diagnostic", Some(qualifier.as_str()), "state", labels);
        (series, diagnostic_opcode_is_fault(code))
    }

    /// The switch-level `fan_led` state set, when the LED state is present
    /// and maps to one.
    pub fn collect_fan_led(&self, state: Option<&str>) -> (r: Option<Vec<(MetricSeries, bool)>>)
        ensures
            r is None <==> fan_led_state(opt_str(state)) is None,
            r matches Some(s) ==> is_state_set(s@, "fan_led"@, None, fan_led_state(opt_str(state))->0, ok_states(), seq![]),
    {
        match fan_led_to_state(state) {
            Some(current) => {
                let labels: Vec<(String, String)> = Vec::new();
                assert(labels.deep_view() =~= Seq::<(Seq<char>, Seq<char>)>::empty());
                Some(self.state_set_of("fan_led", None, current, &ok_states_list(), &labels, Ghost(ok_states())))
            },
            None => None,
        }
    }

    /// The `platform_temperature_state` state set of one sensor, when its
    /// state is present.
    pub fn collect_temperature_state(&self, sensor: &str, state: Option<&str>) -> (r: Option<Vec<(MetricSeries, bool)>>)
        ensures
            r is None <==> state is None,
            r matches Some(s) ==> is_state_set(
                s@,
                "platform_temperature_state"@,
                Some(sensor@),
                temp_state(opt_str(state))->0,
                ok_states(),
                seq![("sensor"@, sensor@)],
            ),
    {
        match temp_state_to_state(state) {
            Some(current) => {
                let mut labels: Vec<(String, String)> = Vec::new();
                labels.push(label("sensor", sensor));
                assert(labels.deep_view() =~= seq![("sensor"@, sensor@)]);
                Some(
                    self.state_set_of(
                        "platform_temperature_state",
                        Some(sensor),
                        current,
                        &ok_states_list(),
                        &labels,
                        Ghost(ok_states()),
                    ),
                )
            },
            None => None,
        }
    }
}

/// The outcome of one REST fetch of a collection iteration.
pub enum FetchOutcome {
    /// The endpoint answered; this many entities were reported.
    Fetched(usize),
    /// The endpoint is disabled or returned nothing.
    Empty,
    /// The request failed; `auth_error` when it was refused for credentials.
    Failed { auth_error: bool },
}

/// What one collection iteration reports.
#[derive(Clone, Copy, Debug, PartialEq, Eq)]
pub struct IterationResult {
    pub refresh_triggered: bool,
    pub entity_count: Option<usize>,
    pub fetch_failures: usize,
}

/// The iteration result when credentials could not be fetched: nothing
/// collected, one failure.
pub fn skipped_iteration_result() -> (r: IterationResult)
    ensures
        r == (IterationResult { refresh_triggered: false, entity_count: Some(0), fetch_failures: 1 }),
{
    IterationResult { refresh_triggered: false, entity_count: Some(0), fetch_failures: 1 }
}

pub open spec fn entities_of(o: Seq<FetchOutcome>) -> int
    decreases o.len(),
{
    if o.len() == 0 {
        0
    } else {
        entities_of(o.drop_last()) + match o.last() {
            FetchOutcome::Fetched(n) => n as int,
            _ => 0,
        }
    }
}

pub open spec fn failures_of(o: Seq<FetchOutcome>) -> int
    decreases o.len(),
{
    if o.len() == 0 {
        0
    } else {
        failures_of(o.drop_last()) + match o.last() {
            FetchOutcome::Failed { .. } => 1int,
            _ => 0int,
        }
    }
}

pub open spec fn saw_auth_failure(o: Seq<FetchOutcome>) -> bool {
    exists|i: int| 0 <= i < o.len() && (#[trigger] o[i]) matches FetchOutcome::Failed { auth_error: true }
}

/// Sums up the fetches of one iteration: the entities reported, the failed
/// fetches, and whether cached credentials must be cleared (some fetch was
/// refused for credentials).
pub fn summarize_iteration(outcomes: &Vec<FetchOutcome>) -> (res: Option<(IterationResult, bool)>)
    ensures
        match res {
            Some((r, clear)) => r.refresh_triggered && entities_of(outcomes@) <= usize::MAX && r.entity_count == Some(entities_of(outcomes@) as usize)
                && r.fetch_failures == failures_of(outcomes@) && clear == saw_auth_failure(outcomes@),
            None => entities_of(outcomes@) > usize::MAX,
        },
{
    let mut entities: usize = 0;
    let mut failures: usize = 0;
    let mut auth = false;
    let mut i: usize = 0;
    while i < outcomes.len()
        invariant
            i <= outcomes.len(),
            entities == entities_of(outcomes@.take(i as int)),
            failures == failures_of(outcomes@.take(i as int)),
            failures <= i,
            auth == saw_auth_failure(outcomes@.take(i as int)),
        decreases outcomes.len() - i,
    {
        let ghost t = outcomes@.take(i + 1);
        assert(t.drop_last() =~= outcomes@.take(i as int));
        assert(t.last() == outcomes@[i as int]);
        match &outcomes[i] {
            FetchOutcome::Fetched(n) => {
                if entities > usize::MAX - *n {
                    proof {
                        lemma_entities_prefix(outcomes@, i + 1);
                    }
                    return None;
                }
                entities = entities + *n;
            },
            FetchOutcome::Empty => {},
            FetchOutcome::Failed { auth_error } => {
                failures = failures + 1;
                if *auth_error {
                    auth = true;
                }
            },
        }
        assert(auth == saw_auth_failure(t)) by {
            if saw_auth_failure(t) && !saw_auth_failure(outcomes@.take(i as int)) {
                let k = choose|k: int| 0 <= k < t.len() && (#[trigger] t[k]) matches FetchOutcome::Failed { auth_error: true };
                if k < i {
                    assert(outcomes@.take(i as int)[k] == t[k]);
                }
            }
            if saw_auth_failure(outcomes@.take(i as int)) {
                let k = choose|k: int| 0 <= k < i && (#[trigger] outcomes@.take(i as int)[k]) matches FetchOutcome::Failed { auth_error: true };
                assert(t[k] == outcomes@.take(i as int)[k]);
            }
        }
        i = i + 1;
    }
    assert(outcomes@.take(outcomes.len() as int) =~= outcomes@);
    Some((IterationResult { refresh_triggered: true, entity_count: Some(entities), fetch_failures: failures }, auth))
}

proof fn lemma_entities_prefix(o: Seq<FetchOutcome>, k: int)
    requires
        0 <= k <= o.len(),
    ensures
        entities_of(o.take(k)) <= entities_of(o),
    decreases o.len() - k,
{
    if k < o.len() {
        assert(o.drop_last().take(k) =~= o.take(k));
        lemma_entities_prefix(o.drop_last(), k);
    } else {
        assert(o.take(k) =~= o);
    }
}

/// The number of REST fetches of one iteration: system health, cluster
/// apps, SDN partitions, link diagnostics, fans, temperatures and the
/// platform environment, in that order.
pub const NVUE_REST_FETCHES: usize = 7;

/// Where a collection iteration stands.
#[derive(Clone, Copy, Debug, PartialEq, Eq)]
pub enum IterationPhase {
    /// Not started.
    Idle,
    /// Waiting for the credential fetch.
    Refreshing,
    /// Waiting for the outcome of a REST fetch.
    Fetching,
    /// Over.
    Done,
}

/// What the caller reports to an iteration.
pub enum IterationInput {
    /// The iteration starts; whether the client already holds credentials.
    Begin { has_credentials: bool },
    /// The credential fetch ended; whether it gave usable credentials.
    Refreshed { ok: bool },
    /// The current REST fetch ended with this outcome.
    Fetched(FetchOutcome),
}

/// What the caller does next.
#[derive(Clone, Debug, PartialEq, Eq)]
pub enum IterationAction {
    /// Fetch the switch credentials.
    RefreshCredentials,
    /// Deliver `event` to the data sink when there is one, then run REST
    /// fetch number `path` (from 0, in the fixed order).
    Fetch { path: usize, event: Option<CollectorEvent> },
    /// Clear the client's credentials when asked, deliver `event`, and
    /// report the summary (none when the entity count does not fit).
    Finish { clear_credentials: bool, event: Option<CollectorEvent>, summary: Option<IterationResult> },
    /// Credentials could not be had: report `result`, deliver nothing.
    Skip { result: IterationResult },
    /// The input does not belong to this phase; nothing changes.
    Ignore,
}

/// The summary of a finished iteration: the entities reported and the
/// failed fetches, or none when the entity count does not fit.
pub open spec fn iteration_summary(o: Seq<FetchOutcome>) -> Option<IterationResult> {
    if entities_of(o) <= usize::MAX {
        Some(
            IterationResult {
                refresh_triggered: true,
                entity_count: Some(entities_of(o) as usize),
                fetch_failures: failures_of(o) as usize,
            },
        )
    } else {
        None
    }
}

/// The event a sink gets, when there is one.
pub open spec fn sink_event(has_sink: bool, e: CollectorEvent) -> Option<CollectorEvent> {
    if has_sink {
        Some(e)
    } else {
        None
    }
}

/// One step of an iteration: from its phase and the outcomes so far, and
/// what the caller reports, to the new phase and outcomes and the action.
/// Without credentials they are fetched first, and a failed fetch skips the
/// iteration. Otherwise the sink gets `MetricCollectionStart` before the
/// first REST fetch, the seven fetches run in order, and after the last one
/// the credentials are cleared when some fetch was refused for them and the
/// sink gets `MetricCollectionEnd`.
pub open spec fn iteration_next(
    phase: IterationPhase,
    o: Seq<FetchOutcome>,
    input: IterationInput,
    has_sink: bool,
) -> (IterationPhase, Seq<FetchOutcome>, IterationAction) {
    match (phase, input) {
        (IterationPhase::Idle, IterationInput::Begin { has_credentials }) => if has_credentials {
            (
                IterationPhase::Fetching,
                Seq::empty(),
                IterationAction::Fetch { path: 0, event: sink_event(has_sink, CollectorEvent::MetricCollectionStart) },
            )
        } else {
            (IterationPhase::Refreshing, o, IterationAction::RefreshCredentials)
        },
        (IterationPhase::Refreshing, IterationInput::Refreshed { ok }) => if ok {
            (
                IterationPhase::Fetching,
                Seq::empty(),
                IterationAction::Fetch { path: 0, event: sink_event(has_sink, CollectorEvent::MetricCollectionStart) },
            )
        } else {
            (
                IterationPhase::Done,
                o,
                IterationAction::Skip {
                    result: IterationResult { refresh_triggered: false, entity_count: Some(0), fetch_failures: 1 },
                },
            )
        },
        (IterationPhase::Fetching, IterationInput::Fetched(f)) => {
            let n = o.push(f);
            if n.len() < NVUE_REST_FETCHES {
                (IterationPhase::Fetching, n, IterationAction::Fetch { path: n.len() as usize, event: None })
            } else {
                (
                    IterationPhase::Done,
                    n,
                    IterationAction::Finish {
                        clear_credentials: saw_auth_failure(n),
                        event: sink_event(has_sink, CollectorEvent::MetricCollectionEnd),
                        summary: iteration_summary(n),
                    },
                )
            }
        },
        _ => (phase, o, IterationAction::Ignore),
    }
}

/// One collection iteration in progress.
pub struct IterationRun {
    phase: IterationPhase,
    outcomes: Vec<FetchOutcome>,
}

impl IterationRun {
    /// The iteration's phase.
    pub closed spec fn phase_of(&self) -> IterationPhase {
        self.phase
    }

    /// The outcomes of the REST fetches so far.
    pub closed spec fn outcomes_of(&self) -> Seq<FetchOutcome> {
        self.outcomes@
    }

    /// An iteration that has not started.
    pub fn new() -> (r: IterationRun)
        ensures
            r.phase_of() == IterationPhase::Idle,
            r.outcomes_of() == Seq::<FetchOutcome>::empty(),
    {
        IterationRun { phase: IterationPhase::Idle, outcomes: Vec::new() }
    }

    /// The iteration's phase.
    pub fn phase(&self) -> (p: IterationPhase)
        ensures
            p == self.phase_of(),
    {
        self.phase
    }
}

proof fn lemma_failures_bounded(o: Seq<FetchOutcome>)
    ensures
        0 <= failures_of(o) <= o.len(),
        entities_of(o) >= 0,
    decreases o.len(),
{
    if o.len() > 0 {
        lemma_failures_bounded(o.drop_last());
    }
}

impl NvueRestCollector {
    /// Advances `run` by what the caller reports and says what to do next.
    pub fn iteration_step(&self, run: &mut IterationRun, input: IterationInput) -> (action: IterationAction)
        ensures
            (final(run).phase_of(), final(run).outcomes_of(), action) == iteration_next(
                old(run).phase_of(),
                old(run).outcomes_of(),
                input,
                self.has_data_sink,
            ),
    {
        let ghost spec_input = input;
        match (run.phase, input) {
            (IterationPhase::Idle, IterationInput::Begin { has_credentials }) => {
                if has_credentials {
                    run.phase = IterationPhase::Fetching;
                    run.outcomes = Vec::new();
                    IterationAction::Fetch { path: 0, event: self.emit_event(CollectorEvent::MetricCollectionStart) }
                } else {
                    run.phase = IterationPhase::Refreshing;
                    IterationAction::RefreshCredentials
                }
            },
            (IterationPhase::Refreshing, IterationInput::Refreshed { ok }) => {
                if ok {
                    run.phase = IterationPhase::Fetching;
                    run.outcomes = Vec::new();
                    IterationAction::Fetch { path: 0, event: self.emit_event(CollectorEvent::MetricCollectionStart) }
                } else {
                    run.phase = IterationPhase::Done;
                    IterationAction::Skip { result: skipped_iteration_result() }
                }
            },
            (IterationPhase::Fetching, IterationInput::Fetched(f)) => {
                run.outcomes.push(f);
                if run.outcomes.len() < NVUE_REST_FETCHES {
                    IterationAction::Fetch { path: run.outcomes.len(), event: None }
                } else {
                    run.phase = IterationPhase::Done;
                    proof {
                        lemma_failures_bounded(run.outcomes@);
                    }
                    let (clear_credentials, summary) = match summarize_iteration(&run.outcomes) {
                        Some((r, clear)) => (clear, Some(r)),
                        None => (saw_auth_failure_in(&run.outcomes), None),
                    };
                    IterationAction::Finish {
                        clear_credentials,
                        event: self.emit_event(CollectorEvent::MetricCollectionEnd),
                        summary,
                    }
                }
            },
            _ => IterationAction::Ignore,
        }
    }
}

/// Whether some fetch of `outcomes` was refused for credentials.
fn saw_auth_failure_in(outcomes: &Vec<FetchOutcome>) -> (r: bool)
    ensures
        r == saw_auth_failure(outcomes@),
{
    let mut i: usize = 0;
    while i < outcomes.len()
        invariant
            i <= outcomes@.len(),
            forall|k: int| 0 <= k < i ==> !((#[trigger] outcomes@[k]) matches FetchOutcome::Failed { auth_error: true }),
        decreases outcomes@.len() - i,
    {
        if let FetchOutcome::Failed { auth_error: true } = outcomes[i] {
            return true;
        }
        i = i + 1;
    }
    false
}

/// From any phase an iteration can be in (a fetching iteration has fewer
/// than seven outcomes, and keeps having fewer): the sink gets
/// `MetricCollectionStart` with the first REST fetch and with no later one,
/// and that fetch only follows the start or a successful credential fetch;
/// it gets `MetricCollectionEnd` only with the end, which only follows the
/// seventh fetch; a skipped iteration delivers nothing; and each later fetch
/// asked for is the next one in order.
pub proof fn lemma_iteration_event_order(phase: IterationPhase, o: Seq<FetchOutcome>, input: IterationInput, has_sink: bool)
    requires
        phase == IterationPhase::Fetching ==> o.len() < NVUE_REST_FETCHES,
    ensures
        ({
            let (p, n, a) = iteration_next(phase, o, input, has_sink);
            &&& a matches IterationAction::Fetch { path: idx, event: ev } ==> ((idx == 0 && n.len() == 0 && ev
                == sink_event(has_sink, CollectorEvent::MetricCollectionStart) && (phase == IterationPhase::Idle || phase
                == IterationPhase::Refreshing)) || (idx == n.len() && 0 < idx < NVUE_REST_FETCHES && ev is None && phase
                == IterationPhase::Fetching))
            &&& (a matches IterationAction::Finish { .. }) ==> phase == IterationPhase::Fetching && n.len()
                == NVUE_REST_FETCHES && p == IterationPhase::Done
            &&& a matches IterationAction::Finish { event: ev, .. } ==> ev == sink_event(
                has_sink,
                CollectorEvent::MetricCollectionEnd,
            )
            &&& (a matches IterationAction::Skip { .. }) ==> phase == IterationPhase::Refreshing && p == IterationPhase::Done
            &&& phase == IterationPhase::Done ==> a == IterationAction::Ignore && p == IterationPhase::Done
            &&& p == IterationPhase::Fetching ==> n.len() < NVUE_REST_FETCHES
        }),
{
}

/// A finished iteration counts at most one failure per fetch, and clears
/// the credentials exactly when some fetch was refused for them.
pub proof fn lemma_iteration_summary(o: Seq<FetchOutcome>, f: FetchOutcome, has_sink: bool)
    requires
        o.len() + 1 == NVUE_REST_FETCHES,
    ensures
        ({
            let n = o.push(f);
            let (_, _, a) = iteration_next(IterationPhase::Fetching, o, IterationInput::Fetched(f), has_sink);
            a matches IterationAction::Finish { clear_credentials, summary, .. } && clear_credentials == saw_auth_failure(n)
                && (summary matches Some(r) ==> r.fetch_failures <= NVUE_REST_FETCHES && r.refresh_triggered)
        }),
{
    lemma_failures_bounded(o.push(f));
}

/// The phase, outcomes and actions after feeding `inputs`, in order, to an
/// iteration in `phase` with outcomes `o`.
pub open spec fn run_iteration_inputs(
    phase: IterationPhase,
    o: Seq<FetchOutcome>,
    inputs: Seq<IterationInput>,
    has_sink: bool,
) -> (IterationPhase, Seq<FetchOutcome>, Seq<IterationAction>)
    decreases inputs.len(),
{
    if inputs.len() == 0 {
        (phase, o, Seq::empty())
    } else {
        let (p, n, a) = iteration_next(phase, o, inputs[0], has_sink);
        let (q, m, rest) = run_iteration_inputs(p, n, inputs.drop_first(), has_sink);
        (q, m, seq![a] + rest)
    }
}

/// The inputs that report the REST fetches `fs`, in order.
pub open spec fn fetched_inputs(fs: Seq<FetchOutcome>) -> Seq<IterationInput> {
    fs.map_values(|f: FetchOutcome| IterationInput::Fetched(f))
}

/// The inputs that open an iteration: its start, and when the client holds
/// no credentials, a credential fetch that succeeded.
pub open spec fn opening_inputs(has_credentials: bool) -> Seq<IterationInput> {
    if has_credentials {
        seq![IterationInput::Begin { has_credentials: true }]
    } else {
        seq![IterationInput::Begin { has_credentials: false }, IterationInput::Refreshed { ok: true }]
    }
}

/// The action that ends an iteration whose fetches gave `o`.
pub open spec fn finish_action(o: Seq<FetchOutcome>, has_sink: bool) -> IterationAction {
    IterationAction::Finish {
        clear_credentials: saw_auth_failure(o),
        event: sink_event(has_sink, CollectorEvent::MetricCollectionEnd),
        summary: iteration_summary(o),
    }
}

proof fn lemma_fetch_phase(o: Seq<FetchOutcome>, rest: Seq<FetchOutcome>, has_sink: bool)
    requires
        o.len() + rest.len() == NVUE_REST_FETCHES,
        rest.len() > 0,
    ensures
        ({
            let (p, n, acts) = run_iteration_inputs(IterationPhase::Fetching, o, fetched_inputs(rest), has_sink);
            &&& p == IterationPhase::Done
            &&& n == o + rest
            &&& acts.len() == rest.len()
            &&& forall|k: int|
                0 <= k < rest.len() - 1 ==> #[trigger] acts[k] == IterationAction::Fetch {
                    path: (o.len() + k + 1) as usize,
                    event: None,
                }
            &&& acts[rest.len() - 1] == finish_action(o + rest, has_sink)
        }),
    decreases rest.len(),
{
    reveal_with_fuel(run_iteration_inputs, 2);
    let inputs = fetched_inputs(rest);
    assert(inputs[0] == IterationInput::Fetched(rest[0]));
    let n1 = o.push(rest[0]);
    let tail = rest.drop_first();
    assert(inputs.drop_first() =~= fetched_inputs(tail));
    assert(n1 + tail =~= o + rest);
    if rest.len() > 1 {
        lemma_fetch_phase(n1, tail, has_sink);
        let (_, _, acts1) = run_iteration_inputs(IterationPhase::Fetching, n1, fetched_inputs(tail), has_sink);
        let (_, _, acts) = run_iteration_inputs(IterationPhase::Fetching, o, inputs, has_sink);
        assert forall|k: int| 0 <= k < rest.len() - 1 implies #[trigger] acts[k] == IterationAction::Fetch {
            path: (o.len() + k + 1) as usize,
            event: None,
        } by {
            if k > 0 {
                assert(acts[k] == acts1[k - 1]);
            }
        }
    } else {
        assert(fetched_inputs(tail).len() == 0);
    }
}

/// A whole iteration whose client holds credentials, or gets them from a
/// credential fetch: after the fetch of credentials when one is needed, the
/// sink gets `MetricCollectionStart` with the first REST fetch; the seven
/// fetches are asked for in order, and no other one carries an event; the
/// last action ends the iteration, delivers `MetricCollectionEnd`, clears
/// the credentials exactly when some fetch was refused for them, and
/// reports the entities and failed fetches (at most one per fetch).
pub proof fn lemma_whole_iteration(has_credentials: bool, fs: Seq<FetchOutcome>, has_sink: bool)
    requires
        fs.len() == NVUE_REST_FETCHES,
    ensures
        ({
            let off: int = if has_credentials { 0 } else { 1 };
            let (p, n, acts) = run_iteration_inputs(
                IterationPhase::Idle,
                Seq::empty(),
                opening_inputs(has_credentials) + fetched_inputs(fs),
                has_sink,
            );
            &&& p == IterationPhase::Done
            &&& n == fs
            &&& acts.len() == off + NVUE_REST_FETCHES + 1
            &&& !has_credentials ==> acts[0] == IterationAction::RefreshCredentials
            &&& acts[off] == IterationAction::Fetch {
                path: 0,
                event: sink_event(has_sink, CollectorEvent::MetricCollectionStart),
            }
            &&& forall|k: int|
                1 <= k < NVUE_REST_FETCHES ==> #[trigger] acts[off + k] == IterationAction::Fetch {
                    path: k as usize,
                    event: None,
                }
            &&& acts[off + NVUE_REST_FETCHES] == finish_action(fs, has_sink)
            &&& iteration_summary(fs) matches Some(r) ==> r.fetch_failures == failures_of(fs) && failures_of(fs)
                <= NVUE_REST_FETCHES
        }),
{
    reveal_with_fuel(run_iteration_inputs, 3);
    let e = Seq::<FetchOutcome>::empty();
    let f = fetched_inputs(fs);
    lemma_fetch_phase(e, fs, has_sink);
    assert(e + fs =~= fs);
    lemma_failures_bounded(fs);
    let (_, _, acts1) = run_iteration_inputs(IterationPhase::Fetching, e, f, has_sink);
    if has_credentials {
        let inputs = opening_inputs(true) + f;
        assert(inputs.drop_first() =~= f);
        let (_, _, acts) = run_iteration_inputs(IterationPhase::Idle, e, inputs, has_sink);
        assert forall|k: int| 1 <= k < NVUE_REST_FETCHES implies #[trigger] acts[0 + k] == IterationAction::Fetch {
            path: k as usize,
            event: None,
        } by {
            assert(acts[k] == acts1[k - 1]);
        }
    } else {
        let inputs = opening_inputs(false) + f;
        let second = inputs.drop_first();
        assert(second[0] == IterationInput::Refreshed { ok: true });
        assert(second.drop_first() =~= f);
        let (_, _, acts2) = run_iteration_inputs(IterationPhase::Refreshing, e, second, has_sink);
        let (_, _, acts) = run_iteration_inputs(IterationPhase::Idle, e, inputs, has_sink);
        assert forall|k: int| 1 <= k < NVUE_REST_FETCHES implies #[trigger] acts[1 + k] == IterationAction::Fetch {
            path: k as usize,
            event: None,
        } by {
            assert(acts[1 + k] == acts2[k]);
            assert(acts2[k] == acts1[k - 1]);
        }
    }
}

/// The credentials a BMC endpoint offers.
pub enum BmcCredentials {
    UsernamePassword { username: String, password: Option<String> },
    SessionToken { token: String },
}

/// Basic-auth credentials of the NVUE REST client.
pub struct UsernamePassword {
    pub username: String,
    pub password: Option<String>,
}

/// How credentials are shown in logs and debug output: the username, and
/// only whether a password is set. The password itself is no argument, so
/// it cannot appear.
pub open spec fn redacted_text(username: Seq<char>, has_password: bool) -> Seq<char> {
    "UsernamePassword { username: \""@ + username + "\", password: "@ + (if has_password {
        "Some(\"<redacted>\")"@
    } else {
        "None"@
    }) + " }"@
}

impl UsernamePassword {
    /// The debug rendering of the credentials, with the password redacted.
    pub fn redacted_debug(&self) -> (r: String)
        ensures
            r@ == redacted_text(self.username@, self.password is Some),
    {
        let mut out = String::from_str("UsernamePassword { username: \"");
        out.append(self.username.as_str());
        out.append("\", password: ");
        match &self.password {
            Some(_) => out.append("Some(\"<redacted>\")"),
            None => out.append("None"),
        }
        out.append(" }");
        out
    }
}

/// The REST collector's refusal of credentials other than username and
/// password.
pub open spec fn rest_credentials_refusal() -> Seq<char> {
    "NVUE REST collector requires username/password credentials"@
}

/// The credentials the REST client is given after a fetch: those of
/// username/password credentials; anything else is refused.
pub fn rest_client_credentials(creds: BmcCredentials) -> (r: Result<UsernamePassword, String>)
    ensures
        match creds {
            BmcCredentials::UsernamePassword { username, password } => r is Ok && r->Ok_0.username@ == username@
                && r->Ok_0.password == password,
            BmcCredentials::SessionToken { .. } => r is Err && r->Err_0@ == rest_credentials_refusal(),
        },
{
    match creds {
        BmcCredentials::UsernamePassword { username, password } => Ok(UsernamePassword { username, password }),
        BmcCredentials::SessionToken { .. } => Err(
            String::from_str("NVUE REST collector requires username/password credentials"),
        ),
    }
}

/// The message of a credential fetch that did not finish within
/// `timeout_secs` seconds.
pub open spec fn credential_timeout_text(timeout_secs: u64) -> Seq<char> {
    "Timed out after "@ + dec_nat(timeout_secs as nat) + "s fetching NVUE REST credentials"@
}

/// The error message of a credential fetch that timed out.
pub fn credential_timeout_message(timeout_secs: u64) -> (r: String)
    ensures
        r@ == credential_timeout_text(timeout_secs),
{
    let mut out = String::from_str("Timed out after ");
    let digits = dec_u64_vec(timeout_secs);
    let d = string_of(&digits);
    out.append(d.as_str());
    out.append("s fetching NVUE REST credentials");
    out
}

} // verus!
