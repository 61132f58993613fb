//! Outcome accounting of the operations of the secrets backend.
//!
//! An operation counts as a request when it starts and ends with exactly
//! one outcome: a success when it is declared successful, a failure in any
//! other way out (the caller's guard reports that on drop). Each outcome
//! carries the operation's duration in milliseconds. With metrics disabled
//! nothing is counted or recorded.

use std::time::Instant;

use vstd::prelude::*;

use crate::clock::{clock_now, nanos_since};

verus! {

/// How an operation ended.
#[derive(Clone, Copy, Debug, PartialEq, Eq)]
pub enum OperationOutcome {
    Succeeded,
    Failed,
}

/// One recorded outcome: the operation label, the outcome and the duration.
#[derive(Clone, Copy, Debug, PartialEq, Eq)]
pub struct OperationSample {
    pub operation: &'static str,
    pub outcome: OperationOutcome,
    pub elapsed_ms: u64,
}

/// Whole milliseconds in a count of nanoseconds.
pub fn whole_millis(nanos: u64) -> (ms: u64)
    ensures
        ms == nanos / 1_000_000,
{
    nanos / 1_000_000
}

/// Times one operation of the secrets backend.
pub struct OperationTimer {
    metrics_enabled: bool,
    operation: &'static str,
    started: Instant,
}

impl OperationTimer {
    /// Whether this operation's outcome is recorded at all.
    pub closed spec fn records(&self) -> bool {
        self.metrics_enabled
    }

    /// The operation label (`get`, `set`, `create`, `delete`).
    pub closed spec fn label(&self) -> Seq<char> {
        self.operation@
    }

    /// Starts timing `operation`. The second result says whether a request
    /// is to be counted now: only when metrics are enabled.
    pub fn start(metrics_enabled: bool, operation: &'static str) -> (r: (OperationTimer, bool))
        ensures
            r.1 == metrics_enabled,
            r.0.records() == metrics_enabled,
            r.0.label() == operation@,
    {
        (OperationTimer { metrics_enabled, operation, started: clock_now() }, metrics_enabled)
    }

    fn finish(self, outcome: OperationOutcome) -> (r: Option<OperationSample>)
        ensures
            r is Some <==> self.records(),
            r matches Some(s) ==> s.outcome == outcome && s.operation@ == self.label(),
    {
        if self.metrics_enabled {
            let elapsed_ms = whole_millis(nanos_since(&self.started));
            Some(OperationSample { operation: self.operation, outcome, elapsed_ms })
        } else {
            None
        }
    }

    /// Ends the operation as a success; the sample to record, if metrics
    /// are enabled. The timer is consumed, so no second outcome follows.
    pub fn succeed(self) -> (r: Option<OperationSample>)
        ensures
            r is Some <==> self.records(),
            r matches Some(s) ==> s.outcome == OperationOutcome::Succeeded && s.operation@ == self.label(),
    {
        self.finish(OperationOutcome::Succeeded)
    }

    /// Ends the operation any other way: a failure. The timer is consumed,
    /// so no second outcome follows.
    pub fn fail(self) -> (r: Option<OperationSample>)
        ensures
            r is Some <==> self.records(),
            r matches Some(s) ==> s.outcome == OperationOutcome::Failed && s.operation@ == self.label(),
    {
        self.finish(OperationOutcome::Failed)
    }
}

} // verus!
