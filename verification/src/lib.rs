//! Verified core logic of the bare-metal provisioning services: DNS reverse
//! zones, DPU flavor construction, health reporting, switch and DPA state
//! handling, and related rules.

pub mod text;
pub mod clock;
pub mod compute_tray;
pub mod dns;
pub mod dpa;
pub mod firmware;
pub mod flavor;
pub mod gnmi;
pub mod health_report;
pub mod machine;
pub mod measured_boot;
pub mod negative_cache;
pub mod nvue;
pub mod nvue_config;
pub mod secrets;
pub mod secrets_metrics;
pub mod site_explorer;
pub mod switch;
