//! How the web UI shows the last Site Explorer run.

use vstd::prelude::*;
use crate::text::str_eq;

verus! {

/// The last Site Explorer run, as the API reports it.
#[derive(Clone, Debug, PartialEq, Eq)]
pub struct SiteExplorerLastRun {
    pub success: bool,
    pub started_at: String,
    pub finished_at: String,
    pub endpoint_explorations: i64,
    pub endpoint_explorations_success: i64,
    pub endpoint_explorations_failed: i64,
    pub failure_category: Option<String>,
    pub last_successful_finished_at: Option<String>,
    pub last_failed_finished_at: Option<String>,
    pub error: Option<String>,
}

/// The error shown for a run: credential failures get an operator-facing
/// explanation, any other failure shows the run's error (or nothing).
pub open spec fn error_text(run: SiteExplorerLastRun) -> Seq<char> {
    match run.failure_category {
        Some(c) => if c@ == "missing_credentials"@ || c@ == "set_credentials"@ {
            "Site Explorer credentials are missing or invalid"@
        } else if c@ == "secrets_engine"@ {
            "Site Explorer could not access credentials"@
        } else {
            match run.error {
                Some(e) => e@,
                None => Seq::empty(),
            }
        },
        None => match run.error {
            Some(e) => e@,
            None => Seq::empty(),
        },
    }
}

pub fn display_error(run: &SiteExplorerLastRun) -> (s: String)
    ensures
        s@ == error_text(*run),
{
    match &run.failure_category {
        Some(c) => {
            if str_eq(c.as_str(), "missing_credentials") || str_eq(c.as_str(), "set_credentials") {
                return "Site Explorer credentials are missing or invalid".to_owned();
            }
            if str_eq(c.as_str(), "secrets_engine") {
                return "Site Explorer could not access credentials".to_owned();
            }
        },
        None => {},
    }
    match &run.error {
        Some(e) => e.clone(),
        None => String::new(),
    }
}

/// The last run as the page shows it.
pub struct SiteExplorerLastRunDisplay {
    pub status_label: &'static str,
    pub status_class: &'static str,
    pub started_at: String,
    pub finished_at: String,
    pub endpoint_explorations: i64,
    pub endpoint_explorations_success: i64,
    pub endpoint_explorations_failed: i64,
    pub failure_category: String,
    pub last_successful_finished_at: String,
    pub last_failed_finished_at: String,
    pub error: String,
}

pub open spec fn or_never(s: Option<String>) -> Seq<char> {
    match s {
        Some(x) => x@,
        None => "Never"@,
    }
}

impl SiteExplorerLastRunDisplay {
    /// Success or Failed (with its CSS class), the run's times and counters,
    /// `Never` for a missing last success or failure, and the error text.
    pub fn from_run(run: &SiteExplorerLastRun) -> (d: Self)
        ensures
            d.status_label@ == (if run.success { "Success"@ } else { "Failed"@ }),
            d.status_class@ == (if run.success { "success"@ } else { "error"@ }),
            d.started_at@ == run.started_at@,
            d.finished_at@ == run.finished_at@,
            d.endpoint_explorations == run.endpoint_explorations,
            d.endpoint_explorations_success == run.endpoint_explorations_success,
            d.endpoint_explorations_failed == run.endpoint_explorations_failed,
            d.failure_category@ == (match run.failure_category {
                Some(c) => c@,
                None => Seq::empty(),
            }),
            d.last_successful_finished_at@ == or_never(run.last_successful_finished_at),
            d.last_failed_finished_at@ == or_never(run.last_failed_finished_at),
            d.error@ == error_text(*run),
    {
        let (status_label, status_class) = if run.success {
            ("Success", "success")
        } else {
            ("Failed", "error")
        };
        SiteExplorerLastRunDisplay {
            status_label,
            status_class,
            started_at: run.started_at.clone(),
            finished_at: run.finished_at.clone(),
            endpoint_explorations: run.endpoint_explorations,
            endpoint_explorations_success: run.endpoint_explorations_success,
            endpoint_explorations_failed: run.endpoint_explorations_failed,
            failure_category: match &run.failure_category {
                Some(c) => c.clone(),
                None => String::new(),
            },
            last_successful_finished_at: match &run.last_successful_finished_at {
                Some(x) => x.clone(),
                None => "Never".to_owned(),
            },
            last_failed_finished_at: match &run.last_failed_finished_at {
                Some(x) => x.clone(),
                None => "Never".to_owned(),
            },
            error: display_error(run),
        }
    }
}

} // verus!
