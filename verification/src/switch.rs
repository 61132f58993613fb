//! Switch controller decisions: the Ready state (deletion, maintenance and
//! reprovisioning requests, observed power state) and the Maintenance state
//! (power operations sent to the rack manager service, RMS).

use vstd::prelude::*;
use crate::compute_tray::{BmcCredentialStep, CredentialError, CredentialLookup};
use crate::text::{
    dec_int, extend_chars, push_dec_i64, starts_with, str_eq, str_starts_with, string_of,
    to_lowercase, unicode_lowercase,
};

verus! {

/// The port of a switch BMC's Redfish endpoint.
pub const SWITCH_BMC_PORT: u32 = 443;

/// The RMS return code of a successful request.
pub const RETURN_CODE_SUCCESS: i32 = 0;

#[derive(Clone, Copy, Debug, PartialEq, Eq)]
pub enum SwitchMaintenanceOperation {
    PowerOn,
    PowerOff,
    Reset,
}

/// Power operations of the rack manager service.
#[derive(Clone, Copy, Debug, PartialEq, Eq)]
pub enum RmsPowerOperation {
    On,
    Off,
    Reset,
}

/// Whether a Ready switch is powered.
#[derive(Clone, Copy, Debug, PartialEq, Eq)]
pub enum ReadyState {
    On,
    Off,
}

#[derive(Clone, Copy, Debug, PartialEq, Eq)]
pub enum ReProvisioningState {
    WaitingForRackFirmwareUpgrade,
}

#[derive(Clone, Debug, PartialEq, Eq)]
pub enum SwitchControllerState {
    Ready { ready_state: ReadyState },
    Maintenance { operation: SwitchMaintenanceOperation },
    ReProvisioning { reprovisioning_state: ReProvisioningState },
    Deleting,
    Error { cause: String },
}

/// The ready state an observed power state calls for: `off` is Off, any
/// other observation On.
pub open spec fn ready_state_for(power_state: Seq<char>) -> ReadyState {
    if power_state == "off"@ {
        ReadyState::Off
    } else {
        ReadyState::On
    }
}

impl ReadyState {
    pub fn from_power_state(power_state: &str) -> (r: ReadyState)
        ensures
            r == ready_state_for(power_state@),
    {
        if str_eq(power_state, "off") {
            ReadyState::Off
        } else {
            ReadyState::On
        }
    }
}

/// The last observed status of a switch.
#[derive(Clone, Debug, PartialEq, Eq)]
pub struct SwitchStatus {
    pub switch_name: String,
    pub power_state: String,
    pub health_status: String,
}

/// A posted maintenance request.
#[derive(Clone, Debug, PartialEq, Eq)]
pub struct MaintenanceRequest {
    pub operation: SwitchMaintenanceOperation,
    pub initiator: String,
}

/// A posted reprovisioning request.
#[derive(Clone, Debug, PartialEq, Eq)]
pub struct ReprovisioningRequest {
    pub initiator: String,
}

/// What the Ready handler does first.
#[derive(Clone, Debug, PartialEq, Eq)]
pub enum ReadyDecision {
    /// Move to this state.
    Transition(SwitchControllerState),
    /// Observe the power state through RMS, then settle the ready state.
    ObservePowerState,
}

pub open spec fn unknown_initiator_cause(initiator: Seq<char>) -> Seq<char> {
    "unknown initiator for switch reprovisioning request: "@ + initiator
}

/// A switch marked for deletion goes to Deleting; a posted maintenance
/// request to Maintenance with its operation; a reprovisioning request to
/// waiting for the rack firmware upgrade when a rack (`rack-...`) asked for
/// it, to Error otherwise. With none of these, the power state is observed.
pub fn ready_decision(
    marked_deleted: bool,
    maintenance: &Option<MaintenanceRequest>,
    reprovisioning: &Option<ReprovisioningRequest>,
) -> (d: ReadyDecision)
    ensures
        marked_deleted ==> d == ReadyDecision::Transition(SwitchControllerState::Deleting),
        !marked_deleted && maintenance is Some ==> d == ReadyDecision::Transition(
            SwitchControllerState::Maintenance { operation: maintenance->0.operation },
        ),
        !marked_deleted && maintenance is None && reprovisioning is Some ==> (if starts_with(
            reprovisioning->0.initiator@,
            "rack-"@,
        ) {
            d == ReadyDecision::Transition(
                SwitchControllerState::ReProvisioning {
                    reprovisioning_state: ReProvisioningState::WaitingForRackFirmwareUpgrade,
                },
            )
        } else {
            d matches ReadyDecision::Transition(SwitchControllerState::Error { cause })
                && cause@ == unknown_initiator_cause(reprovisioning->0.initiator@)
        }),
        !marked_deleted && maintenance is None && reprovisioning is None ==> d
            == ReadyDecision::ObservePowerState,
{
    if marked_deleted {
        return ReadyDecision::Transition(SwitchControllerState::Deleting);
    }
    if let Some(req) = maintenance {
        return ReadyDecision::Transition(SwitchControllerState::Maintenance { operation: req.operation });
    }
    if let Some(req) = reprovisioning {
        if str_starts_with(req.initiator.as_str(), "rack-") {
            return ReadyDecision::Transition(
                SwitchControllerState::ReProvisioning {
                    reprovisioning_state: ReProvisioningState::WaitingForRackFirmwareUpgrade,
                },
            );
        }
        let mut cause: Vec<char> = Vec::new();
        extend_chars(&mut cause, "unknown initiator for switch reprovisioning request: ");
        extend_chars(&mut cause, req.initiator.as_str());
        return ReadyDecision::Transition(SwitchControllerState::Error { cause: string_of(&cause) });
    }
    ReadyDecision::ObservePowerState
}

/// After observing, a Ready switch whose ready state disagrees with its
/// observed power state moves to the ready state the power state calls for.
pub fn ready_state_correction(current: &SwitchControllerState, status: &Option<SwitchStatus>) -> (t: Option<SwitchControllerState>)
    ensures
        match (current, status) {
            (SwitchControllerState::Ready { ready_state }, Some(s)) => if *ready_state != ready_state_for(s.power_state@) {
                t == Some(SwitchControllerState::Ready { ready_state: ready_state_for(s.power_state@) })
            } else {
                t is None
            },
            _ => t is None,
        },
{
    match (current, status) {
        (SwitchControllerState::Ready { ready_state }, Some(s)) => {
            let desired = ReadyState::from_power_state(s.power_state.as_str());
            let differs = match (ready_state, desired) {
                (ReadyState::On, ReadyState::On) => false,
                (ReadyState::Off, ReadyState::Off) => false,
                _ => true,
            };
            if differs {
                Some(SwitchControllerState::Ready { ready_state: desired })
            } else {
                None
            }
        },
        _ => None,
    }
}

/// The power state RMS reported for one node.
#[derive(Clone, Debug, PartialEq, Eq)]
pub struct NodePowerState {
    pub node_id: String,
    pub pstate: String,
}

/// The status to persist after RMS reported power states: the first report
/// for this switch, its power state lower-cased, with the name and health
/// of the current status (or the configured name and no health when there
/// is none). Nothing when RMS did not report on this switch or the power
/// state is unchanged.
pub fn observed_status_update(
    switch_id: &str,
    status: &Option<SwitchStatus>,
    config_name: &String,
    node_power_states: &Vec<NodePowerState>,
) -> (res: Option<SwitchStatus>)
    ensures
        match res {
            None => (forall|i: int| 0 <= i < node_power_states@.len() ==> (#[trigger] node_power_states@[i]).node_id@ != switch_id@)
                || (exists|i: int|
                    0 <= i < node_power_states@.len() && (#[trigger] node_power_states@[i]).node_id@ == switch_id@
                    && (forall|k: int| 0 <= k < i ==> (#[trigger] node_power_states@[k]).node_id@ != switch_id@)
                    && status is Some && status->0.power_state@ == unicode_lowercase(node_power_states@[i].pstate@)),
            Some(s) => exists|i: int|
                0 <= i < node_power_states@.len() && (#[trigger] node_power_states@[i]).node_id@ == switch_id@
                && (forall|k: int| 0 <= k < i ==> (#[trigger] node_power_states@[k]).node_id@ != switch_id@)
                && s.power_state@ == unicode_lowercase(node_power_states@[i].pstate@)
                && !(status is Some && status->0.power_state@ == s.power_state@)
                && match status {
                    Some(old) => s.switch_name@ == old.switch_name@ && s.health_status@ == old.health_status@,
                    None => s.switch_name@ == config_name@ && s.health_status@.len() == 0,
                },
        },
{
    let mut i: usize = 0;
    while i < node_power_states.len()
        invariant
            i <= node_power_states.len(),
            forall|k: int| 0 <= k < i ==> (#[trigger] node_power_states@[k]).node_id@ != switch_id@,
        decreases node_power_states.len() - i,
    {
        if str_eq(node_power_states[i].node_id.as_str(), switch_id) {
            let power_state = to_lowercase(node_power_states[i].pstate.as_str());
            let new_status = match status {
                Some(existing) => SwitchStatus {
                    switch_name: existing.switch_name.clone(),
                    power_state,
                    health_status: existing.health_status.clone(),
                },
                None => SwitchStatus {
                    switch_name: config_name.clone(),
                    power_state,
                    health_status: String::new(),
                },
            };
            if let Some(existing) = status {
                if existing.power_state == new_status.power_state {
                    return None;
                }
            }
            return Some(new_status);
        }
        i = i + 1;
    }
    None
}

/// The counters of an RMS batch response.
#[derive(Clone, Copy, Debug, PartialEq, Eq, Default)]
pub struct BatchStats {
    pub successful_nodes: i32,
    pub failed_nodes: i32,
}

/// The result RMS reported for one node of a batch.
#[derive(Clone, Debug, PartialEq, Eq)]
pub struct NodeResult {
    pub status: i32,
    pub error_message: String,
}

/// The batch part of an RMS power response; absent parts read as defaults.
#[derive(Clone, Debug, PartialEq, Eq)]
pub struct BatchResponse {
    pub status: i32,
    pub stats: Option<BatchStats>,
    pub message: String,
    pub node_results: Vec<NodeResult>,
}

pub open spec fn failed_nodes_of(b: Option<BatchResponse>) -> i32 {
    match b {
        Some(batch) => match batch.stats {
            Some(s) => s.failed_nodes,
            None => 0,
        },
        None => 0,
    }
}

pub open spec fn status_of(b: Option<BatchResponse>) -> i32 {
    match b {
        Some(batch) => batch.status,
        None => 0,
    }
}

/// A batch succeeded when its status is Success and no node failed (an
/// absent batch reads as the default, all zero).
pub open spec fn batch_success(b: Option<BatchResponse>) -> bool {
    status_of(b) == RETURN_CODE_SUCCESS && failed_nodes_of(b) == 0
}

pub fn batch_succeeded(batch: &Option<BatchResponse>) -> (r: bool)
    ensures
        r == batch_success(*batch),
{
    match batch {
        Some(b) => {
            let failed = match b.stats {
                Some(s) => s.failed_nodes,
                None => 0,
            };
            b.status == RETURN_CODE_SUCCESS && failed == 0
        },
        None => RETURN_CODE_SUCCESS == 0,
    }
}

pub open spec fn node_failed(r: NodeResult) -> bool {
    r.status != RETURN_CODE_SUCCESS || r.error_message@.len() > 0
}

/// Why a batch failed: the batch message when there is one; else the first
/// failed node's error message (or its status when it has none); else the
/// batch status and failed-node count.
pub open spec fn failure_summary(batch: BatchResponse) -> Seq<char> {
    if batch.message@.len() > 0 {
        batch.message@
    } else if exists|i: int| 0 <= i < batch.node_results@.len() && node_failed(#[trigger] batch.node_results@[i]) {
        let i = choose|i: int| 0 <= i < batch.node_results@.len() && node_failed(#[trigger] batch.node_results@[i])
            && forall|k: int| 0 <= k < i ==> !node_failed(#[trigger] batch.node_results@[k]);
        let r = batch.node_results@[i];
        if r.error_message@.len() == 0 {
            "status="@ + dec_int(r.status as int)
        } else {
            r.error_message@
        }
    } else {
        "batch status "@ + dec_int(batch.status as int) + ", failed_nodes "@ + dec_int(
            failed_nodes_of(Some(batch)) as int,
        )
    }
}

/// The failure summary of a batch; an absent batch reads as the default.
pub open spec fn failure_summary_of(b: Option<BatchResponse>) -> Seq<char> {
    match b {
        Some(x) => failure_summary(x),
        None => "batch status "@ + dec_int(0) + ", failed_nodes "@ + dec_int(0),
    }
}

#[verifier::loop_isolation(false)]
pub fn summarize_batch_failure(batch: &BatchResponse) -> (s: String)
    ensures
        s@ == failure_summary(*batch),
{
    if !batch.message.as_str().is_empty() {
        return batch.message.clone();
    }
    let mut i: usize = 0;
    while i < batch.node_results.len()
        invariant
            i <= batch.node_results.len(),
            forall|k: int| 0 <= k < i ==> !node_failed(#[trigger] batch.node_results@[k]),
        decreases batch.node_results.len() - i,
    {
        let r = &batch.node_results[i];
        if r.status != RETURN_CODE_SUCCESS || !r.error_message.as_str().is_empty() {
            assert(node_failed(batch.node_results@[i as int]));
            let ghost j = choose|j: int| 0 <= j < batch.node_results@.len() && node_failed(#[trigger] batch.node_results@[j])
                && forall|k: int| 0 <= k < j ==> !node_failed(#[trigger] batch.node_results@[k]);
            assert(j == i) by {
                if j < i {
                    assert(!node_failed(batch.node_results@[j]));
                }
                if j > i {
                    assert(!node_failed(batch.node_results@[i as int]));
                }
            }
            if r.error_message.as_str().is_empty() {
                let mut m: Vec<char> = Vec::new();
                extend_chars(&mut m, "status=");
                push_dec_i64(&mut m, r.status as i64);
                return string_of(&m);
            }
            return r.error_message.clone();
        }
        i = i + 1;
    }
    let failed = match batch.stats {
        Some(s) => s.failed_nodes,
        None => 0,
    };
    let mut m: Vec<char> = Vec::new();
    extend_chars(&mut m, "batch status ");
    push_dec_i64(&mut m, batch.status as i64);
    extend_chars(&mut m, ", failed_nodes ");
    push_dec_i64(&mut m, failed as i64);
    string_of(&m)
}

/// The RMS operation, its label and the state reached on success, for a
/// maintenance operation: power-on and reset return to Ready (on), power-off
/// to Ready (off).
pub open spec fn maintenance_target(op: SwitchMaintenanceOperation) -> (RmsPowerOperation, Seq<char>, SwitchControllerState) {
    match op {
        SwitchMaintenanceOperation::PowerOn => (
            RmsPowerOperation::On,
            "PowerOn"@,
            SwitchControllerState::Ready { ready_state: ReadyState::On },
        ),
        SwitchMaintenanceOperation::PowerOff => (
            RmsPowerOperation::Off,
            "PowerOff"@,
            SwitchControllerState::Ready { ready_state: ReadyState::Off },
        ),
        SwitchMaintenanceOperation::Reset => (
            RmsPowerOperation::Reset,
            "Reset"@,
            SwitchControllerState::Ready { ready_state: ReadyState::On },
        ),
    }
}

/// The power operation RMS is asked for is the one requested: power-on
/// sends On, power-off Off and reset Reset, so distinct requests send
/// distinct operations; and the switch ends Ready powered off exactly when
/// RMS was asked to power it off.
pub proof fn lemma_maintenance_sends_the_requested_operation(op: SwitchMaintenanceOperation)
    ensures
        (maintenance_target(op).0 == RmsPowerOperation::On) <==> (op == SwitchMaintenanceOperation::PowerOn),
        (maintenance_target(op).0 == RmsPowerOperation::Off) <==> (op == SwitchMaintenanceOperation::PowerOff),
        (maintenance_target(op).0 == RmsPowerOperation::Reset) <==> (op == SwitchMaintenanceOperation::Reset),
        maintenance_target(op).2 == (SwitchControllerState::Ready {
            ready_state: if maintenance_target(op).0 == RmsPowerOperation::Off {
                ReadyState::Off
            } else {
                ReadyState::On
            },
        }),
        maintenance_target(op).1 == (match op {
            SwitchMaintenanceOperation::PowerOn => "PowerOn"@,
            SwitchMaintenanceOperation::PowerOff => "PowerOff"@,
            SwitchMaintenanceOperation::Reset => "Reset"@,
        }),
{
}

pub fn maintenance_plan(op: SwitchMaintenanceOperation) -> (r: (RmsPowerOperation, &'static str, SwitchControllerState))
    ensures
        r.0 == maintenance_target(op).0,
        r.1@ == maintenance_target(op).1,
        r.2 == maintenance_target(op).2,
        op == SwitchMaintenanceOperation::PowerOn ==> r.0 == RmsPowerOperation::On && r.1@ == "PowerOn"@ && r.2
            == (SwitchControllerState::Ready { ready_state: ReadyState::On }),
        op == SwitchMaintenanceOperation::PowerOff ==> r.0 == RmsPowerOperation::Off && r.1@ == "PowerOff"@ && r.2
            == (SwitchControllerState::Ready { ready_state: ReadyState::Off }),
        op == SwitchMaintenanceOperation::Reset ==> r.0 == RmsPowerOperation::Reset && r.1@ == "Reset"@ && r.2
            == (SwitchControllerState::Ready { ready_state: ReadyState::On }),
{
    match op {
        SwitchMaintenanceOperation::PowerOn => (
            RmsPowerOperation::On,
            "PowerOn",
            SwitchControllerState::Ready { ready_state: ReadyState::On },
        ),
        SwitchMaintenanceOperation::PowerOff => (
            RmsPowerOperation::Off,
            "PowerOff",
            SwitchControllerState::Ready { ready_state: ReadyState::Off },
        ),
        SwitchMaintenanceOperation::Reset => (
            RmsPowerOperation::Reset,
            "Reset",
            SwitchControllerState::Ready { ready_state: ReadyState::On },
        ),
    }
}

/// `Switch {id} maintenance ({label}): {detail}`
pub open spec fn maintenance_cause(switch_id: Seq<char>, label: Seq<char>, detail: Seq<char>) -> Seq<char> {
    "Switch "@ + switch_id + " maintenance ("@ + label + "): "@ + detail
}

pub fn maintenance_error_cause(switch_id: &str, label: &str, detail: &str) -> (c: String)
    ensures
        c@ == maintenance_cause(switch_id@, label@, detail@),
{
    let mut m: Vec<char> = Vec::new();
    extend_chars(&mut m, "Switch ");
    extend_chars(&mut m, switch_id);
    extend_chars(&mut m, " maintenance (");
    extend_chars(&mut m, label);
    extend_chars(&mut m, "): ");
    extend_chars(&mut m, detail);
    assert(m@ =~= maintenance_cause(switch_id@, label@, detail@));
    string_of(&m)
}

/// What RMS answered a power request: its batch, or the transport error.
pub enum RmsReply {
    Response(Option<BatchResponse>),
    TransportError(String),
}

/// The state a maintenance operation ends in once RMS answered: the success
/// state when the batch succeeded, Error with the failure summary (or the
/// transport error) otherwise. Either way the maintenance request is
/// cleared.
pub fn maintenance_outcome(
    switch_id: &str,
    label: &str,
    reply: &RmsReply,
    success_state: SwitchControllerState,
) -> (s: SwitchControllerState)
    ensures
        match reply {
            RmsReply::Response(b) => if batch_success(*b) {
                s == success_state
            } else {
                s matches SwitchControllerState::Error { cause } && cause@ == maintenance_cause(
                    switch_id@,
                    label@,
                    "RMS BatchSetPowerState failed: "@ + failure_summary_of(*b),
                )
            },
            RmsReply::TransportError(e) => s matches SwitchControllerState::Error { cause } && cause@
                == maintenance_cause(switch_id@, label@, "RMS BatchSetPowerState failed: "@ + e@),
        },
{
    match reply {
        RmsReply::Response(b) => {
            if batch_succeeded(b) {
                return success_state;
            }
            let summary = match b {
                Some(x) => summarize_batch_failure(x),
                None => {
                    let mut m: Vec<char> = Vec::new();
                    extend_chars(&mut m, "batch status ");
                    push_dec_i64(&mut m, 0);
                    extend_chars(&mut m, ", failed_nodes ");
                    push_dec_i64(&mut m, 0);
                    string_of(&m)
                },
            };
            let mut detail: Vec<char> = Vec::new();
            extend_chars(&mut detail, "RMS BatchSetPowerState failed: ");
            extend_chars(&mut detail, summary.as_str());
            let d = string_of(&detail);
            SwitchControllerState::Error { cause: maintenance_error_cause(switch_id, label, d.as_str()) }
        },
        RmsReply::TransportError(e) => {
            let mut detail: Vec<char> = Vec::new();
            extend_chars(&mut detail, "RMS BatchSetPowerState failed: ");
            extend_chars(&mut detail, e.as_str());
            let d = string_of(&detail);
            SwitchControllerState::Error { cause: maintenance_error_cause(switch_id, label, d.as_str()) }
        },
    }
}

/// The preconditions of an RMS power operation: an RMS client and a rack
/// association. The error is the cause the switch moves to Error with.
pub fn maintenance_precheck(
    switch_id: &str,
    label: &str,
    rms_configured: bool,
    rack_id: &Option<String>,
) -> (res: Result<(), String>)
    ensures
        !rms_configured ==> (res matches Err(c) && c@ == maintenance_cause(switch_id@, label@, "RMS client not configured"@)),
        rms_configured && rack_id is None ==> (res matches Err(c) && c@ == maintenance_cause(
            switch_id@,
            label@,
            "switch has no rack association"@,
        )),
        rms_configured && rack_id is Some ==> res is Ok,
{
    if !rms_configured {
        return Err(maintenance_error_cause(switch_id, label, "RMS client not configured"));
    }
    if rack_id.is_none() {
        return Err(maintenance_error_cause(switch_id, label, "switch has no rack association"));
    }
    Ok(())
}

/// The endpoint row recorded for a switch.
#[derive(Clone, Debug, PartialEq, Eq)]
pub struct SwitchEndpointRow {
    pub switch_id: String,
    pub bmc_ip: String,
    pub nvos_mac: Option<String>,
    pub nvos_ip: Option<String>,
}

/// The addresses RMS needs for a switch: its BMC, and its NVOS host interface.
#[derive(Clone, Debug, PartialEq, Eq)]
pub struct SwitchAddresses {
    pub bmc_mac: String,
    pub bmc_ip: String,
    pub nvos_mac: String,
    pub nvos_ip: String,
}

pub open spec fn first_row_for(switch_id: Seq<char>, rows: Seq<SwitchEndpointRow>, i: int) -> bool {
    0 <= i < rows.len() && rows[i].switch_id@ == switch_id && forall|k: int| 0 <= k < i ==> (#[trigger] rows[k]).switch_id@ != switch_id
}

/// Picks the switch's addresses from its BMC MAC and the endpoint rows
/// looked up for it (the first row for this switch); the error explains
/// what is missing.
#[verifier::loop_isolation(false)]
pub fn switch_addresses(
    switch_id: &str,
    bmc_mac: &Option<String>,
    rows: &Result<Vec<SwitchEndpointRow>, String>,
) -> (res: Result<SwitchAddresses, String>)
    ensures
        bmc_mac is None ==> (res matches Err(e) && e@ == "switch "@ + switch_id@ + " has no BMC MAC address recorded"@),
        bmc_mac is Some && rows is Err ==> (res matches Err(e) && e@ == "failed to look up switch endpoints: "@ + rows->Err_0@),
        bmc_mac is Some && rows is Ok && (forall|i: int| 0 <= i < rows->Ok_0@.len() ==> (#[trigger] rows->Ok_0@[i]).switch_id@ != switch_id@)
            ==> (res matches Err(e) && e@ == "no endpoint info found for switch "@ + switch_id@),
        bmc_mac is Some && rows is Ok ==> forall|i: int| #[trigger] first_row_for(switch_id@, rows->Ok_0@, i) ==> {
            let r = rows->Ok_0@[i];
            if r.nvos_mac is Some && r.nvos_ip is Some {
                res matches Ok(a) && a.bmc_mac@ == bmc_mac->0@ && a.bmc_ip@ == r.bmc_ip@ && a.nvos_mac@ == r.nvos_mac->0@
                    && a.nvos_ip@ == r.nvos_ip->0@
            } else {
                res matches Err(e) && e@ == "switch "@ + switch_id@ + " is missing NVOS MAC or IP required for RMS power control"@
            }
        },
{
    let mac = match bmc_mac {
        Some(m) => m,
        None => {
            let mut e: Vec<char> = Vec::new();
            extend_chars(&mut e, "switch ");
            extend_chars(&mut e, switch_id);
            extend_chars(&mut e, " has no BMC MAC address recorded");
            assert(e@ =~= "switch "@ + switch_id@ + " has no BMC MAC address recorded"@);
            return Err(string_of(&e));
        },
    };
    let rows = match rows {
        Ok(r) => r,
        Err(err) => {
            let mut e: Vec<char> = Vec::new();
            extend_chars(&mut e, "failed to look up switch endpoints: ");
            extend_chars(&mut e, err.as_str());
            return Err(string_of(&e));
        },
    };
    let mut i: usize = 0;
    while i < rows.len()
        invariant
            i <= rows.len(),
            forall|k: int| 0 <= k < i ==> (#[trigger] rows@[k]).switch_id@ != switch_id@,
        decreases rows.len() - i,
    {
        let r = &rows[i];
        if str_eq(r.switch_id.as_str(), switch_id) {
            assert(first_row_for(switch_id@, rows@, i as int));
            assert forall|j: int| #[trigger] first_row_for(switch_id@, rows@, j) implies j == i by {
                if j < i {
                    assert(rows@[j].switch_id@ != switch_id@);
                }
                if j > i {
                    assert(rows@[i as int].switch_id@ != switch_id@);
                }
            }
            match (&r.nvos_mac, &r.nvos_ip) {
                (Some(nvos_mac), Some(nvos_ip)) => {
                    return Ok(
                        SwitchAddresses {
                            bmc_mac: mac.clone(),
                            bmc_ip: r.bmc_ip.clone(),
                            nvos_mac: nvos_mac.clone(),
                            nvos_ip: nvos_ip.clone(),
                        },
                    );
                },
                _ => {
                    let mut e: Vec<char> = Vec::new();
                    extend_chars(&mut e, "switch ");
                    extend_chars(&mut e, switch_id);
                    extend_chars(&mut e, " is missing NVOS MAC or IP required for RMS power control");
                    assert(e@ =~= "switch "@ + switch_id@ + " is missing NVOS MAC or IP required for RMS power control"@);
                    return Err(string_of(&e));
                },
            }
        }
        i = i + 1;
    }
    assert forall|j: int| #[trigger] first_row_for(switch_id@, rows@, j) implies false by {
        assert(rows@[j].switch_id@ != switch_id@);
    }
    let mut e: Vec<char> = Vec::new();
    extend_chars(&mut e, "no endpoint info found for switch ");
    extend_chars(&mut e, switch_id);
    Err(string_of(&e))
}

/// Username and password credentials.
#[derive(Clone, Debug, PartialEq, Eq)]
pub struct UsernamePassword {
    pub username: String,
    pub password: String,
}

/// A BMC or host endpoint of an RMS node.
#[derive(Clone, Debug, PartialEq, Eq)]
pub struct RmsEndpoint {
    pub ip_address: String,
    pub mac_address: String,
    pub port: u32,
    pub credentials: UsernamePassword,
    pub dangerously_accept_invalid_certs: bool,
}

/// A switch as RMS addresses it.
#[derive(Clone, Debug, PartialEq, Eq)]
pub struct SwitchNodeInfo {
    pub node_id: String,
    pub rack_id: String,
    pub bmc_endpoint: RmsEndpoint,
    pub host_endpoint: RmsEndpoint,
}

/// The RMS node of a switch: its BMC on port 443 accepting the BMC's
/// self-signed certificate, and its NVOS host interface (port 0) with
/// certificate checks on.
pub fn switch_node_info(
    switch_id: String,
    rack_id: String,
    addresses: SwitchAddresses,
    bmc_credentials: UsernamePassword,
    nvos_credentials: UsernamePassword,
) -> (n: SwitchNodeInfo)
    ensures
        n.node_id == switch_id,
        n.rack_id == rack_id,
        n.bmc_endpoint == (RmsEndpoint {
            ip_address: addresses.bmc_ip,
            mac_address: addresses.bmc_mac,
            port: SWITCH_BMC_PORT,
            credentials: bmc_credentials,
            dangerously_accept_invalid_certs: true,
        }),
        n.host_endpoint == (RmsEndpoint {
            ip_address: addresses.nvos_ip,
            mac_address: addresses.nvos_mac,
            port: 0,
            credentials: nvos_credentials,
            dangerously_accept_invalid_certs: false,
        }),
{
    SwitchNodeInfo {
        node_id: switch_id,
        rack_id,
        bmc_endpoint: RmsEndpoint {
            ip_address: addresses.bmc_ip,
            mac_address: addresses.bmc_mac,
            port: SWITCH_BMC_PORT,
            credentials: bmc_credentials,
            dangerously_accept_invalid_certs: true,
        },
        host_endpoint: RmsEndpoint {
            ip_address: addresses.nvos_ip,
            mac_address: addresses.nvos_mac,
            port: 0,
            credentials: nvos_credentials,
            dangerously_accept_invalid_certs: false,
        },
    }
}

/// The error text of a failed BMC credential lookup for a switch.
pub fn bmc_credential_error(bmc_mac: &str, lookup_error: &Option<String>, site_wide: &Option<CredentialError>) -> (e: String)
    ensures
        lookup_error is Some ==> e@ == "failed to read BMC credentials for "@ + bmc_mac@ + ": "@ + lookup_error->0@,
        lookup_error is None ==> (site_wide matches Some(CredentialError::SiteWideLookupFailed(x)) ==> e@
            == "failed to read site-wide BMC credentials: "@ + x@),
        lookup_error is None && !(site_wide matches Some(CredentialError::SiteWideLookupFailed(_))) ==> e@
            == "no BMC credentials configured for "@ + bmc_mac@ + " or sitewide"@,
{
    let mut m: Vec<char> = Vec::new();
    match lookup_error {
        Some(err) => {
            extend_chars(&mut m, "failed to read BMC credentials for ");
            extend_chars(&mut m, bmc_mac);
            extend_chars(&mut m, ": ");
            extend_chars(&mut m, err.as_str());
        },
        None => match site_wide {
            Some(CredentialError::SiteWideLookupFailed(x)) => {
                extend_chars(&mut m, "failed to read site-wide BMC credentials: ");
                extend_chars(&mut m, x.as_str());
            },
            _ => {
                extend_chars(&mut m, "no BMC credentials configured for ");
                extend_chars(&mut m, bmc_mac);
                extend_chars(&mut m, " or sitewide");
            },
        },
    }
    assert(lookup_error is Some ==> m@ =~= "failed to read BMC credentials for "@ + bmc_mac@ + ": "@ + lookup_error->0@);
    assert(lookup_error is None && !(site_wide matches Some(CredentialError::SiteWideLookupFailed(_))) ==> m@
        =~= "no BMC credentials configured for "@ + bmc_mac@ + " or sitewide"@);
    string_of(&m)
}

/// The NVOS admin credentials of a switch, or why there are none.
pub fn nvos_credentials(bmc_mac: &str, lookup: CredentialLookup<UsernamePassword>) -> (res: Result<UsernamePassword, String>)
    ensures
        match lookup {
            CredentialLookup::Found(c) => res == Ok::<UsernamePassword, String>(c),
            CredentialLookup::NotFound => res matches Err(e) && e@ == "no NVOS admin credentials configured for "@ + bmc_mac@,
            CredentialLookup::Failed(x) => res matches Err(e) && e@ == "failed to read NVOS credentials for "@ + bmc_mac@ + ": "@ + x@,
        },
{
    match lookup {
        CredentialLookup::Found(c) => Ok(c),
        CredentialLookup::NotFound => {
            let mut m: Vec<char> = Vec::new();
            extend_chars(&mut m, "no NVOS admin credentials configured for ");
            extend_chars(&mut m, bmc_mac);
            Err(string_of(&m))
        },
        CredentialLookup::Failed(x) => {
            let mut m: Vec<char> = Vec::new();
            extend_chars(&mut m, "failed to read NVOS credentials for ");
            extend_chars(&mut m, bmc_mac);
            extend_chars(&mut m, ": ");
            extend_chars(&mut m, x.as_str());
            assert(m@ =~= "failed to read NVOS credentials for "@ + bmc_mac@ + ": "@ + x@);
            Err(string_of(&m))
        },
    }
}

} // verus!
