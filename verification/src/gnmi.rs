//! The gNMI SAMPLE stream of an NVUE switch: the names of its metrics and
//! the decisions of its connection loop.
//!
//! The loop subscribes, reads notifications until the stream ends, backs
//! off and subscribes again, until it is cancelled. Each turn of the loop
//! is a step from the stream's counters and an event (what the last
//! subscribe, read or sleep gave) to the new counters and the next action;
//! the caller performs the action and reports its event.

use vstd::prelude::*;

use crate::nvue::BmcCredentials;

verus! {

/// The per-stream metrics, by the suffix of their names, in registration
/// order.
pub open spec fn metric_suffixes() -> Seq<Seq<char>> {
    seq![
        "connection_state"@,
        "stream_connected"@,
        "reconnections_total"@,
        "server_initiated_closures_total"@,
        "connection_established_timestamp"@,
        "notifications_received_total"@,
        "last_notification_timestamp"@,
        "notification_processing_seconds"@,
        "stream_errors_total"@,
        "monitored_entities"@,
    ]
}

/// The full name of a stream metric: `<prefix>_nvue_gnmi<stream>_<suffix>`.
pub open spec fn metric_name(prefix: Seq<char>, stream: Seq<char>, suffix: Seq<char>) -> Seq<char> {
    prefix + "_nvue_gnmi"@ + stream + "_"@ + suffix
}

/// The full name of one stream metric.
pub fn gnmi_metric_name(prefix: &str, stream_name: &str, suffix: &str) -> (r: String)
    ensures
        r@ == metric_name(prefix@, stream_name@, suffix@),
{
    let mut name = String::from_str(prefix);
    name.append("_nvue_gnmi");
    name.append(stream_name);
    name.append("_");
    name.append(suffix);
    name
}

fn metric_suffix_list() -> (v: Vec<&'static str>)
    ensures
        v@.map_values(|s: &str| s@) == metric_suffixes(),
{
    let v = vec![
        "connection_state",
        "stream_connected",
        "reconnections_total",
        "server_initiated_closures_total",
        "connection_established_timestamp",
        "notifications_received_total",
        "last_notification_timestamp",
        "notification_processing_seconds",
        "stream_errors_total",
        "monitored_entities",
    ];
    assert(v@.map_values(|s: &str| s@) =~= metric_suffixes());
    v
}

/// The names of all metrics of the stream `stream_name`, in registration
/// order.
pub fn gnmi_metric_names(prefix: &str, stream_name: &str) -> (r: Vec<String>)
    ensures
        r@.len() == metric_suffixes().len(),
        forall|i: int| 0 <= i < r@.len() ==> (#[trigger] r@[i])@ == metric_name(prefix@, stream_name@, metric_suffixes()[i]),
{
    let suffixes = metric_suffix_list();
    let mut names: Vec<String> = Vec::new();
    let mut i: usize = 0;
    while i < suffixes.len()
        invariant
            i <= suffixes@.len(),
            suffixes@.map_values(|s: &str| s@) == metric_suffixes(),
            names@.len() == i,
            forall|j: int| 0 <= j < i ==> (#[trigger] names@[j])@ == metric_name(prefix@, stream_name@, metric_suffixes()[j]),
        decreases suffixes@.len() - i,
    {
        let name = gnmi_metric_name(prefix, stream_name, suffixes[i]);
        assert(suffixes@.map_values(|s: &str| s@)[i as int] == suffixes@[i as int]@);
        names.push(name);
        i = i + 1;
    }
    names
}

/// Two streams of different names under one prefix never share a metric
/// name, so both can be registered side by side.
pub proof fn lemma_stream_names_distinct(prefix: Seq<char>, s1: Seq<char>, s2: Seq<char>, suffix: Seq<char>)
    requires
        s1 != s2,
    ensures
        metric_name(prefix, s1, suffix) != metric_name(prefix, s2, suffix),
{
    let head = prefix + "_nvue_gnmi"@;
    let tail = "_"@ + suffix;
    assert(metric_name(prefix, s1, suffix) =~= head + s1 + tail);
    assert(metric_name(prefix, s2, suffix) =~= head + s2 + tail);
    if metric_name(prefix, s1, suffix) == metric_name(prefix, s2, suffix) {
        let a = head + s1 + tail;
        let b = head + s2 + tail;
        assert(a.len() == b.len());
        assert(s1.len() == s2.len());
        assert forall|i: int| 0 <= i < s1.len() implies s1[i] == s2[i] by {
            assert(a[head.len() + i] == b[head.len() + i]);
        }
        assert(s1 =~= s2);
    }
}

/// Within one stream, different metrics have different names.
pub proof fn lemma_metric_names_distinct(prefix: Seq<char>, stream: Seq<char>, m1: Seq<char>, m2: Seq<char>)
    requires
        m1 != m2,
    ensures
        metric_name(prefix, stream, m1) != metric_name(prefix, stream, m2),
{
    let head = prefix + "_nvue_gnmi"@ + stream + "_"@;
    assert(metric_name(prefix, stream, m1) =~= head + m1);
    assert(metric_name(prefix, stream, m2) =~= head + m2);
    if metric_name(prefix, stream, m1) == metric_name(prefix, stream, m2) {
        let a = head + m1;
        let b = head + m2;
        assert forall|i: int| 0 <= i < m1.len() implies m1[i] == m2[i] by {
            assert(a[head.len() + i] == b[head.len() + i]);
        }
        assert(m1 =~= m2);
    }
}

/// The gRPC connectivity state that the `connection_state` gauge shows.
#[derive(Clone, Copy, Debug, PartialEq, Eq)]
pub enum ConnectionState {
    Unknown,
    Idle,
    Connecting,
    Ready,
    TransientFailure,
    Shutdown,
}

/// The gauge value of a connectivity state (gRPC's numbering).
pub open spec fn state_number(s: ConnectionState) -> i64 {
    match s {
        ConnectionState::Unknown => 0,
        ConnectionState::Idle => 1,
        ConnectionState::Connecting => 2,
        ConnectionState::Ready => 3,
        ConnectionState::TransientFailure => 4,
        ConnectionState::Shutdown => 5,
    }
}

impl ConnectionState {
    /// The value the `connection_state` gauge is set to.
    pub fn gauge_value(&self) -> (r: i64)
        ensures
            r == state_number(*self),
    {
        match self {
            ConnectionState::Unknown => 0,
            ConnectionState::Idle => 1,
            ConnectionState::Connecting => 2,
            ConnectionState::Ready => 3,
            ConnectionState::TransientFailure => 4,
            ConnectionState::Shutdown => 5,
        }
    }
}

/// The gauges and counters a stream's loop maintains.
#[derive(Clone, Copy, Debug, PartialEq, Eq)]
pub struct StreamCounters {
    pub connection_state: ConnectionState,
    /// Whether the stream is live right now.
    pub connected: bool,
    pub reconnections_total: u64,
    pub server_initiated_closures_total: u64,
    pub stream_errors_total: u64,
}

/// What the loop's last operation gave.
#[derive(Clone, Copy, Debug, PartialEq, Eq)]
pub enum StreamEvent {
    /// The subscribe attempt failed.
    ConnectFailed,
    /// The subscribe attempt opened a stream.
    Connected,
    /// A notification arrived on the stream.
    Notification,
    /// The server closed the stream cleanly.
    ServerClosed,
    /// Reading the stream failed.
    StreamFailed,
    /// The back-off wait ended.
    BackoffElapsed,
    /// The loop was cancelled while it waited.
    Cancelled,
}

/// The first delay between reconnection attempts, and the delay after a
/// reset, in seconds.
pub const GNMI_BACKOFF_INITIAL_SECS: u64 = 2;

/// The longest delay between reconnection attempts, in seconds.
pub const GNMI_BACKOFF_MAX_SECS: u64 = 60;

/// The delay before the attempt that follows `n` delays since the last
/// reset: the initial delay doubled `n` times, never more than `max`.
pub open spec fn backoff_delay(initial: nat, max: nat, n: nat) -> nat
    decreases n,
{
    if n == 0 {
        if initial <= max {
            initial
        } else {
            max
        }
    } else {
        let d = 2 * backoff_delay(initial, max, (n - 1) as nat);
        if d <= max {
            d
        } else {
            max
        }
    }
}

/// An exponential back-off between reconnection attempts: each delay
/// doubles the one before, up to a cap, and a reset starts again from the
/// initial delay.
pub struct Backoff {
    initial: u64,
    max: u64,
    upcoming: u64,
    taken: Ghost<nat>,
}

impl Backoff {
    #[verifier::type_invariant]
    spec fn schedule_kept(self) -> bool {
        self.upcoming == backoff_delay(self.initial as nat, self.max as nat, self.taken@)
    }

    /// The delay after a reset.
    pub closed spec fn initial_delay(&self) -> nat {
        self.initial as nat
    }

    /// The cap on the delay.
    pub closed spec fn max_delay(&self) -> nat {
        self.max as nat
    }

    /// How many delays were taken since the last reset.
    pub closed spec fn delays_taken(&self) -> nat {
        self.taken@
    }

    /// A back-off that starts at `initial` and doubles up to `max`.
    pub fn new(initial: u64, max: u64) -> (b: Backoff)
        ensures
            b.initial_delay() == initial,
            b.max_delay() == max,
            b.delays_taken() == 0,
    {
        let upcoming = if initial <= max {
            initial
        } else {
            max
        };
        Backoff { initial, max, upcoming, taken: Ghost(0) }
    }

    /// The next delay to wait out, in the back-off's unit; the one after it
    /// is doubled, up to the cap.
    pub fn next_delay(&mut self) -> (d: u64)
        ensures
            d == backoff_delay(old(self).initial_delay(), old(self).max_delay(), old(self).delays_taken()),
            final(self).initial_delay() == old(self).initial_delay(),
            final(self).max_delay() == old(self).max_delay(),
            final(self).delays_taken() == old(self).delays_taken() + 1,
    {
        proof {
            use_type_invariant(&*self);
        }
        let d = self.upcoming;
        let following = if d > self.max / 2 {
            self.max
        } else if 2 * d <= self.max {
            2 * d
        } else {
            self.max
        };
        let ghost n = self.taken@ + 1;
        assert(following == backoff_delay(self.initial as nat, self.max as nat, n));
        *self = Backoff { initial: self.initial, max: self.max, upcoming: following, taken: Ghost(n) };
        d
    }

    /// Starts the schedule again from the initial delay.
    pub fn reset(&mut self)
        ensures
            final(self).initial_delay() == old(self).initial_delay(),
            final(self).max_delay() == old(self).max_delay(),
            final(self).delays_taken() == 0,
    {
        *self = Backoff::new(self.initial, self.max);
    }
}

/// The back-off of the gNMI SAMPLE stream: 2 s, doubling up to 60 s, in
/// seconds.
pub fn gnmi_backoff() -> (b: Backoff)
    ensures
        b.initial_delay() == GNMI_BACKOFF_INITIAL_SECS,
        b.max_delay() == GNMI_BACKOFF_MAX_SECS,
        b.delays_taken() == 0,
{
    Backoff::new(GNMI_BACKOFF_INITIAL_SECS, GNMI_BACKOFF_MAX_SECS)
}

/// The delays of a back-off never exceed its cap and never shrink until a
/// reset; the first is the initial delay when that is within the cap.
pub proof fn lemma_backoff_schedule(initial: nat, max: nat, n: nat, m: nat)
    requires
        initial <= max,
        n <= m,
    ensures
        backoff_delay(initial, max, 0) == initial,
        backoff_delay(initial, max, m) <= max,
        backoff_delay(initial, max, n) <= backoff_delay(initial, max, m),
    decreases m,
{
    if m > 0 {
        lemma_backoff_schedule(initial, max, if n == m { (m - 1) as nat } else { n }, (m - 1) as nat);
    }
}

/// What the loop does next.
#[derive(Clone, Copy, Debug, PartialEq, Eq)]
pub enum StreamAction {
    /// Subscribe to the switch.
    Subscribe,
    /// Process the notification just received, then read the next one.
    ProcessAndRead,
    /// Read the next message, after resetting the back-off when asked.
    Read { reset_backoff: bool },
    /// Wait out the back-off delay, after resetting it when asked.
    Backoff { reset_backoff: bool },
    /// Stop the loop.
    Stop,
}

/// `n + 1`, held at the counter's largest value.
pub open spec fn bump(n: u64) -> u64 {
    if n < u64::MAX {
        (n + 1) as u64
    } else {
        n
    }
}

fn bump_exec(n: u64) -> (r: u64)
    ensures
        r == bump(n),
{
    if n < u64::MAX {
        n + 1
    } else {
        n
    }
}

/// The counters of a stream that has not run yet, about to subscribe.
pub open spec fn initial_counters() -> StreamCounters {
    StreamCounters {
        connection_state: ConnectionState::Connecting,
        connected: false,
        reconnections_total: 0,
        server_initiated_closures_total: 0,
        stream_errors_total: 0,
    }
}

/// The counters after `event`.
pub open spec fn next_counters(c: StreamCounters, event: StreamEvent) -> StreamCounters {
    match event {
        StreamEvent::ConnectFailed => StreamCounters {
            connection_state: ConnectionState::TransientFailure,
            connected: false,
            reconnections_total: bump(c.reconnections_total),
            ..c
        },
        StreamEvent::Connected => StreamCounters {
            connection_state: ConnectionState::Ready,
            connected: true,
            ..c
        },
        StreamEvent::Notification => c,
        StreamEvent::ServerClosed => StreamCounters {
            connection_state: ConnectionState::Idle,
            connected: false,
            server_initiated_closures_total: bump(c.server_initiated_closures_total),
            ..c
        },
        StreamEvent::StreamFailed => StreamCounters {
            connection_state: ConnectionState::TransientFailure,
            connected: false,
            stream_errors_total: bump(c.stream_errors_total),
            reconnections_total: bump(c.reconnections_total),
            ..c
        },
        StreamEvent::BackoffElapsed => StreamCounters {
            connection_state: ConnectionState::Connecting,
            connected: false,
            ..c
        },
        StreamEvent::Cancelled => StreamCounters {
            connection_state: ConnectionState::Shutdown,
            connected: false,
            ..c
        },
    }
}

/// The action after `event`.
pub open spec fn next_action(event: StreamEvent) -> StreamAction {
    match event {
        StreamEvent::ConnectFailed => StreamAction::Backoff { reset_backoff: false },
        StreamEvent::Connected => StreamAction::Read { reset_backoff: true },
        StreamEvent::Notification => StreamAction::ProcessAndRead,
        StreamEvent::ServerClosed => StreamAction::Backoff { reset_backoff: true },
        StreamEvent::StreamFailed => StreamAction::Backoff { reset_backoff: false },
        StreamEvent::BackoffElapsed => StreamAction::Subscribe,
        StreamEvent::Cancelled => StreamAction::Stop,
    }
}

impl StreamCounters {
    /// The counters of a stream about to make its first subscribe.
    pub fn new() -> (r: StreamCounters)
        ensures
            r == initial_counters(),
    {
        StreamCounters {
            connection_state: ConnectionState::Connecting,
            connected: false,
            reconnections_total: 0,
            server_initiated_closures_total: 0,
            stream_errors_total: 0,
        }
    }

    /// One turn of the loop: updates the counters for `event` and returns
    /// what to do next. A clean close by the server counts as a closure,
    /// not as a reconnection; a failed subscribe or read counts as a
    /// reconnection.
    pub fn step(&mut self, event: StreamEvent) -> (action: StreamAction)
        ensures
            *final(self) == next_counters(*old(self), event),
            action == next_action(event),
    {
        match event {
            StreamEvent::ConnectFailed => {
                self.connection_state = ConnectionState::TransientFailure;
                self.connected = false;
                self.reconnections_total = bump_exec(self.reconnections_total);
                StreamAction::Backoff { reset_backoff: false }
            },
            StreamEvent::Connected => {
                self.connection_state = ConnectionState::Ready;
                self.connected = true;
                StreamAction::Read { reset_backoff: true }
            },
            StreamEvent::Notification => StreamAction::ProcessAndRead,
            StreamEvent::ServerClosed => {
                self.connection_state = ConnectionState::Idle;
                self.connected = false;
                self.server_initiated_closures_total = bump_exec(self.server_initiated_closures_total);
                StreamAction::Backoff { reset_backoff: true }
            },
            StreamEvent::StreamFailed => {
                self.connection_state = ConnectionState::TransientFailure;
                self.connected = false;
                self.stream_errors_total = bump_exec(self.stream_errors_total);
                self.reconnections_total = bump_exec(self.reconnections_total);
                StreamAction::Backoff { reset_backoff: false }
            },
            StreamEvent::BackoffElapsed => {
                self.connection_state = ConnectionState::Connecting;
                self.connected = false;
                StreamAction::Subscribe
            },
            StreamEvent::Cancelled => {
                self.connection_state = ConnectionState::Shutdown;
                self.connected = false;
                StreamAction::Stop
            },
        }
    }
}

/// The counters after a run of events from `c`.
pub open spec fn run_events(c: StreamCounters, events: Seq<StreamEvent>) -> StreamCounters
    decreases events.len(),
{
    if events.len() == 0 {
        c
    } else {
        next_counters(run_events(c, events.drop_last()), events.last())
    }
}

/// How many of `events` equal `e`.
pub open spec fn occurrences(events: Seq<StreamEvent>, e: StreamEvent) -> nat
    decreases events.len(),
{
    if events.len() == 0 {
        0
    } else {
        occurrences(events.drop_last(), e) + if events.last() == e {
            1nat
        } else {
            0nat
        }
    }
}

proof fn lemma_occurrences_bound(events: Seq<StreamEvent>, e: StreamEvent)
    ensures
        occurrences(events, e) <= events.len(),
    decreases events.len(),
{
    if events.len() > 0 {
        lemma_occurrences_bound(events.drop_last(), e);
    }
}

/// Over any run from a fresh stream, the closure counter counts exactly the
/// clean closes by the server, the reconnection counter exactly the failed
/// subscribes and reads, and the error counter exactly the failed reads:
/// closures and reconnections never count each other's events.
pub proof fn lemma_counters_count_events(events: Seq<StreamEvent>)
    requires
        events.len() < u64::MAX,
    ensures
        run_events(initial_counters(), events).server_initiated_closures_total == occurrences(events, StreamEvent::ServerClosed),
        run_events(initial_counters(), events).reconnections_total == occurrences(events, StreamEvent::ConnectFailed) + occurrences(
            events,
            StreamEvent::StreamFailed,
        ),
        run_events(initial_counters(), events).stream_errors_total == occurrences(events, StreamEvent::StreamFailed),
    decreases events.len(),
{
    if events.len() > 0 {
        let d = events.drop_last();
        lemma_counters_count_events(d);
        lemma_occurrences_bound(d, StreamEvent::ServerClosed);
        lemma_occurrences_bound(d, StreamEvent::StreamFailed);
        lemma_occurrences_bound(d, StreamEvent::ConnectFailed);
        assert(occurrences(d, StreamEvent::ConnectFailed) + occurrences(d, StreamEvent::StreamFailed) <= d.len()) by {
            lemma_failures_bound(d);
        }
    }
}

proof fn lemma_failures_bound(events: Seq<StreamEvent>)
    ensures
        occurrences(events, StreamEvent::ConnectFailed) + occurrences(events, StreamEvent::StreamFailed) <= events.len(),
    decreases events.len(),
{
    if events.len() > 0 {
        lemma_failures_bound(events.drop_last());
    }
}

/// The stream counts as connected exactly while its state is `Ready`: this
/// holds of a fresh stream and every step keeps it.
pub proof fn lemma_connected_iff_ready(c: StreamCounters, event: StreamEvent)
    requires
        c.connected <==> c.connection_state == ConnectionState::Ready,
    ensures
        initial_counters().connected <==> initial_counters().connection_state == ConnectionState::Ready,
        next_counters(c, event).connected <==> next_counters(c, event).connection_state == ConnectionState::Ready,
{
}

/// Once cancelled, the loop stops and the gauge shows `Shutdown`.
pub proof fn lemma_cancel_stops(c: StreamCounters)
    ensures
        next_action(StreamEvent::Cancelled) == StreamAction::Stop,
        next_counters(c, StreamEvent::Cancelled).connection_state == ConnectionState::Shutdown,
        !next_counters(c, StreamEvent::Cancelled).connected,
{
}

/// The gNMI collector's refusal of session-token credentials.
pub open spec fn gnmi_session_token_refusal() -> Seq<char> {
    "gNMI collector does not support SessionToken credentials; expected UsernamePassword"@
}

/// The username and password a gNMI client is made with: those of
/// username/password credentials; session tokens are refused.
pub fn gnmi_client_credentials(creds: BmcCredentials) -> (r: Result<(Option<String>, Option<String>), String>)
    ensures
        match creds {
            BmcCredentials::UsernamePassword { username, password } => r is Ok && r->Ok_0.0 is Some
                && r->Ok_0.0->Some_0@ == username@ && r->Ok_0.1 == password,
            BmcCredentials::SessionToken { .. } => r is Err && r->Err_0@ == gnmi_session_token_refusal(),
        },
{
    match creds {
        BmcCredentials::UsernamePassword { username, password } => Ok((Some(username), password)),
        BmcCredentials::SessionToken { .. } => Err(
            String::from_str("gNMI collector does not support SessionToken credentials; expected UsernamePassword"),
        ),
    }
}

} // verus!
