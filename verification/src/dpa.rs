//! DPA interface state handling: the lifecycle of an interface card
//! (provisioning, unlocking, firmware, profile, locking, assignment) and the
//! reconciliation of its SPX attachment with what the card reports.

use vstd::prelude::*;
use crate::text::{extend_chars, string_of};

verus! {

/// The SPX partition id that stands for "no partition".
pub const NULL_SPX_PARTITION_ID: u128 = 0;

#[derive(Clone, Copy, Debug, PartialEq, Eq)]
pub enum DpaInterfaceControllerState {
    Provisioning,
    Ready,
    Unlocking,
    ApplyFirmware,
    ApplyProfile,
    Locking,
    Assigned,
}

#[derive(Clone, Copy, Debug, PartialEq, Eq)]
pub enum DpaLockMode {
    Locked,
    Unlocked,
}

/// The firmware report of a card.
#[derive(Clone, Debug, PartialEq, Eq)]
pub struct FirmwareReport {
    pub flashed: bool,
    pub reset: Option<bool>,
    pub observed_version: Option<String>,
}

/// What the card last reported.
#[derive(Clone, Debug, PartialEq, Eq)]
pub struct CardState {
    pub lockmode: Option<DpaLockMode>,
    pub firmware_report: Option<FirmwareReport>,
    pub profile_synced: Option<bool>,
    pub profile: Option<String>,
}

/// The facts about an interface its handler decides on.
#[derive(Clone, Debug, PartialEq, Eq)]
pub struct DpaInterfaceSnapshot {
    pub use_admin_network: bool,
    pub card_state: Option<CardState>,
}

/// What a state handler decided.
#[derive(Clone, Copy, Debug, PartialEq, Eq)]
pub enum HandlerDecision {
    /// Move the interface to this state.
    Transition(DpaInterfaceControllerState),
    /// Stay, and wait for the next report.
    Wait,
    /// Stay, reconciling the card's attachment for the admin network.
    ReconcileReady,
    /// Stay, reconciling the card's attachment with the instance's SPX config.
    ReconcileAssigned,
}

/// The lifecycle of an interface: provisioning, ready, then unlocking,
/// firmware, profile and locking on the way to assigned, and back to ready
/// when the host returns to the admin network.
pub open spec fn next_state(s: DpaInterfaceControllerState) -> DpaInterfaceControllerState {
    match s {
        DpaInterfaceControllerState::Provisioning => DpaInterfaceControllerState::Ready,
        DpaInterfaceControllerState::Ready => DpaInterfaceControllerState::Unlocking,
        DpaInterfaceControllerState::Unlocking => DpaInterfaceControllerState::ApplyFirmware,
        DpaInterfaceControllerState::ApplyFirmware => DpaInterfaceControllerState::ApplyProfile,
        DpaInterfaceControllerState::ApplyProfile => DpaInterfaceControllerState::Locking,
        DpaInterfaceControllerState::Locking => DpaInterfaceControllerState::Assigned,
        DpaInterfaceControllerState::Assigned => DpaInterfaceControllerState::Ready,
    }
}

/// The decision of the SVPC handler for an interface in `state`.
pub open spec fn svpc_decision(state: DpaInterfaceControllerState, dpa: DpaInterfaceSnapshot) -> HandlerDecision {
    match state {
        DpaInterfaceControllerState::Provisioning => if dpa.use_admin_network {
            HandlerDecision::Wait
        } else {
            HandlerDecision::Transition(DpaInterfaceControllerState::Ready)
        },
        DpaInterfaceControllerState::Ready => if !dpa.use_admin_network {
            HandlerDecision::Transition(DpaInterfaceControllerState::Unlocking)
        } else {
            HandlerDecision::ReconcileReady
        },
        DpaInterfaceControllerState::Unlocking => match dpa.card_state {
            Some(cs) if cs.lockmode == Some(DpaLockMode::Unlocked) => HandlerDecision::Transition(
                DpaInterfaceControllerState::ApplyFirmware,
            ),
            _ => HandlerDecision::Wait,
        },
        DpaInterfaceControllerState::ApplyFirmware => match dpa.card_state {
            Some(cs) => match cs.firmware_report {
                Some(r) if r.flashed && (match r.reset {
                    Some(b) => b,
                    None => true,
                }) => HandlerDecision::Transition(DpaInterfaceControllerState::ApplyProfile),
                _ => HandlerDecision::Wait,
            },
            None => HandlerDecision::Wait,
        },
        DpaInterfaceControllerState::ApplyProfile => match dpa.card_state {
            Some(cs) if cs.profile_synced == Some(true) => HandlerDecision::Transition(
                DpaInterfaceControllerState::Locking,
            ),
            _ => HandlerDecision::Wait,
        },
        DpaInterfaceControllerState::Locking => match dpa.card_state {
            Some(cs) if cs.lockmode == Some(DpaLockMode::Locked) => HandlerDecision::Transition(
                DpaInterfaceControllerState::Assigned,
            ),
            _ => HandlerDecision::Wait,
        },
        DpaInterfaceControllerState::Assigned => if dpa.use_admin_network {
            HandlerDecision::Transition(DpaInterfaceControllerState::Ready)
        } else {
            HandlerDecision::ReconcileAssigned
        },
    }
}

/// The handler for SVPC interface cards.
pub struct SvpcInterfaceHandler;

impl SvpcInterfaceHandler {
    /// Provisioning ends once the host leaves the admin network.
    pub fn handle_provisioning(&self, dpa: &DpaInterfaceSnapshot) -> (d: HandlerDecision)
        ensures
            d == svpc_decision(DpaInterfaceControllerState::Provisioning, *dpa),
    {
        if dpa.use_admin_network {
            HandlerDecision::Wait
        } else {
            HandlerDecision::Transition(DpaInterfaceControllerState::Ready)
        }
    }

    /// Off the admin network the card is unlocked; on it, its attachment is reconciled.
    pub fn handle_ready(&self, dpa: &DpaInterfaceSnapshot) -> (d: HandlerDecision)
        ensures
            d == svpc_decision(DpaInterfaceControllerState::Ready, *dpa),
    {
        if !dpa.use_admin_network {
            HandlerDecision::Transition(DpaInterfaceControllerState::Unlocking)
        } else {
            HandlerDecision::ReconcileReady
        }
    }

    /// Firmware is applied once the card reports it unlocked.
    pub fn handle_unlocking(&self, dpa: &DpaInterfaceSnapshot) -> (d: HandlerDecision)
        ensures
            d == svpc_decision(DpaInterfaceControllerState::Unlocking, *dpa),
            d == if dpa.card_state is Some && dpa.card_state->0.lockmode == Some(DpaLockMode::Unlocked) {
                HandlerDecision::Transition(DpaInterfaceControllerState::ApplyFirmware)
            } else {
                HandlerDecision::Wait
            },
    {
        match &dpa.card_state {
            Some(cs) => match cs.lockmode {
                Some(DpaLockMode::Unlocked) => HandlerDecision::Transition(DpaInterfaceControllerState::ApplyFirmware),
                _ => HandlerDecision::Wait,
            },
            None => HandlerDecision::Wait,
        }
    }

    /// The profile is applied once the firmware report shows a flash and a
    /// reset (a report without reset information counts as reset).
    pub fn handle_apply_firmware(&self, dpa: &DpaInterfaceSnapshot) -> (d: HandlerDecision)
        ensures
            d == svpc_decision(DpaInterfaceControllerState::ApplyFirmware, *dpa),
            d == if dpa.card_state is Some && dpa.card_state->0.firmware_report is Some
                && dpa.card_state->0.firmware_report->0.flashed && dpa.card_state->0.firmware_report->0.reset
                != Some(false) {
                HandlerDecision::Transition(DpaInterfaceControllerState::ApplyProfile)
            } else {
                HandlerDecision::Wait
            },
    {
        match &dpa.card_state {
            Some(cs) => match &cs.firmware_report {
                Some(r) => {
                    let reset_ok = match r.reset {
                        Some(b) => b,
                        None => true,
                    };
                    if r.flashed && reset_ok {
                        HandlerDecision::Transition(DpaInterfaceControllerState::ApplyProfile)
                    } else {
                        HandlerDecision::Wait
                    }
                },
                None => HandlerDecision::Wait,
            },
            None => HandlerDecision::Wait,
        }
    }

    /// The card is locked once its profile is synced.
    pub fn handle_apply_profile(&self, dpa: &DpaInterfaceSnapshot) -> (d: HandlerDecision)
        ensures
            d == svpc_decision(DpaInterfaceControllerState::ApplyProfile, *dpa),
            d == if dpa.card_state is Some && dpa.card_state->0.profile_synced == Some(true) {
                HandlerDecision::Transition(DpaInterfaceControllerState::Locking)
            } else {
                HandlerDecision::Wait
            },
    {
        match &dpa.card_state {
            Some(cs) => match cs.profile_synced {
                Some(true) => HandlerDecision::Transition(DpaInterfaceControllerState::Locking),
                _ => HandlerDecision::Wait,
            },
            None => HandlerDecision::Wait,
        }
    }

    /// The interface is assigned once the card reports it locked.
    pub fn handle_locking(&self, dpa: &DpaInterfaceSnapshot) -> (d: HandlerDecision)
        ensures
            d == svpc_decision(DpaInterfaceControllerState::Locking, *dpa),
            d == if dpa.card_state is Some && dpa.card_state->0.lockmode == Some(DpaLockMode::Locked) {
                HandlerDecision::Transition(DpaInterfaceControllerState::Assigned)
            } else {
                HandlerDecision::Wait
            },
    {
        match &dpa.card_state {
            Some(cs) => match cs.lockmode {
                Some(DpaLockMode::Locked) => HandlerDecision::Transition(DpaInterfaceControllerState::Assigned),
                _ => HandlerDecision::Wait,
            },
            None => HandlerDecision::Wait,
        }
    }

    /// Back on the admin network the interface returns to ready; otherwise
    /// its attachment is reconciled with the instance.
    pub fn handle_assigned(&self, dpa: &DpaInterfaceSnapshot) -> (d: HandlerDecision)
        ensures
            d == svpc_decision(DpaInterfaceControllerState::Assigned, *dpa),
    {
        if dpa.use_admin_network {
            HandlerDecision::Transition(DpaInterfaceControllerState::Ready)
        } else {
            HandlerDecision::ReconcileAssigned
        }
    }

    /// The decision for an interface in `state`.
    pub fn handle(&self, state: DpaInterfaceControllerState, dpa: &DpaInterfaceSnapshot) -> (d: HandlerDecision)
        ensures
            d == svpc_decision(state, *dpa),
    {
        match state {
            DpaInterfaceControllerState::Provisioning => self.handle_provisioning(dpa),
            DpaInterfaceControllerState::Ready => self.handle_ready(dpa),
            DpaInterfaceControllerState::Unlocking => self.handle_unlocking(dpa),
            DpaInterfaceControllerState::ApplyFirmware => self.handle_apply_firmware(dpa),
            DpaInterfaceControllerState::ApplyProfile => self.handle_apply_profile(dpa),
            DpaInterfaceControllerState::Locking => self.handle_locking(dpa),
            DpaInterfaceControllerState::Assigned => self.handle_assigned(dpa),
        }
    }
}

/// The SVPC handler only ever moves an interface one step along its
/// lifecycle, and reconciles only in Ready (on the admin network) and
/// Assigned (off it).
pub proof fn lemma_svpc_follows_lifecycle(state: DpaInterfaceControllerState, dpa: DpaInterfaceSnapshot)
    ensures
        svpc_decision(state, dpa) matches HandlerDecision::Transition(t) ==> t == next_state(state),
        svpc_decision(state, dpa) == HandlerDecision::ReconcileReady ==> state == DpaInterfaceControllerState::Ready
            && dpa.use_admin_network,
        svpc_decision(state, dpa) == HandlerDecision::ReconcileAssigned ==> state
            == DpaInterfaceControllerState::Assigned && !dpa.use_admin_network,
{
}

/// The SVPC handler moves a card on only when the card itself reports the
/// step done, and otherwise waits: it leaves Unlocking only once the card
/// reports itself unlocked, ApplyFirmware only once the firmware is flashed
/// and not reported un-reset, ApplyProfile only once the profile is synced,
/// and Locking only once the card reports itself locked. The admin network
/// alone decides Provisioning, Ready and Assigned. No lock-mode report lets
/// a card through both Unlocking and Locking.
pub proof fn lemma_svpc_waits_for_card_reports(state: DpaInterfaceControllerState, dpa: DpaInterfaceSnapshot)
    ensures
        ({
            let d = svpc_decision(state, dpa);
            let cs = dpa.card_state->0;
            &&& state == DpaInterfaceControllerState::Unlocking ==> (d == HandlerDecision::Transition(
                DpaInterfaceControllerState::ApplyFirmware,
            ) <==> dpa.card_state is Some && cs.lockmode == Some(DpaLockMode::Unlocked))
            &&& state == DpaInterfaceControllerState::ApplyFirmware ==> (d == HandlerDecision::Transition(
                DpaInterfaceControllerState::ApplyProfile,
            ) <==> dpa.card_state is Some && cs.firmware_report is Some && cs.firmware_report->0.flashed
                && cs.firmware_report->0.reset != Some(false))
            &&& state == DpaInterfaceControllerState::ApplyProfile ==> (d == HandlerDecision::Transition(
                DpaInterfaceControllerState::Locking,
            ) <==> dpa.card_state is Some && cs.profile_synced == Some(true))
            &&& state == DpaInterfaceControllerState::Locking ==> (d == HandlerDecision::Transition(
                DpaInterfaceControllerState::Assigned,
            ) <==> dpa.card_state is Some && cs.lockmode == Some(DpaLockMode::Locked))
            &&& (state == DpaInterfaceControllerState::Unlocking || state == DpaInterfaceControllerState::ApplyFirmware
                || state == DpaInterfaceControllerState::ApplyProfile || state == DpaInterfaceControllerState::Locking)
                ==> (d == HandlerDecision::Wait || d == HandlerDecision::Transition(next_state(state)))
            &&& state == DpaInterfaceControllerState::Provisioning ==> d == (if dpa.use_admin_network {
                HandlerDecision::Wait
            } else {
                HandlerDecision::Transition(DpaInterfaceControllerState::Ready)
            })
            &&& state == DpaInterfaceControllerState::Ready ==> d == (if dpa.use_admin_network {
                HandlerDecision::ReconcileReady
            } else {
                HandlerDecision::Transition(DpaInterfaceControllerState::Unlocking)
            })
            &&& state == DpaInterfaceControllerState::Assigned ==> d == (if dpa.use_admin_network {
                HandlerDecision::Transition(DpaInterfaceControllerState::Ready)
            } else {
                HandlerDecision::ReconcileAssigned
            })
        }),
        !(svpc_decision(DpaInterfaceControllerState::Unlocking, dpa) is Transition && svpc_decision(
            DpaInterfaceControllerState::Locking,
            dpa,
        ) is Transition),
{
}

/// The handler for Astra interface cards, which does not act yet: every
/// state waits.
pub struct AstraInterfaceHandler;

impl AstraInterfaceHandler {
    pub fn handle(&self, state: DpaInterfaceControllerState, dpa: &DpaInterfaceSnapshot) -> (d: HandlerDecision)
        ensures
            d == HandlerDecision::Wait,
    {
        HandlerDecision::Wait
    }
}

/// An SPX attachment in an instance's configuration.
#[derive(Clone, Debug, PartialEq, Eq)]
pub struct ConfiguredAttachment {
    pub mac_address: Option<String>,
    pub spx_partition_id: u128,
}

/// An SPX attachment a host reports.
#[derive(Clone, Debug, PartialEq, Eq)]
pub struct ObservedAttachment {
    pub mac_address: String,
    pub partition_id: Option<u128>,
    pub config_version: Option<String>,
}

/// What to tell the card.
#[derive(Clone, Debug, PartialEq, Eq)]
pub enum AttachmentAction {
    /// Nothing to do.
    Nothing,
    /// Set the card's VNI (0 detaches it), recording this config version.
    SetVni { vni: u32, version: String },
    /// The card is as configured: send a heartbeat with its VNI.
    Heartbeat { vni: u32 },
}

/// After the configured attachment of this card was looked at.
#[derive(Clone, Debug, PartialEq, Eq)]
pub enum AssignedPlan {
    /// No attachment is configured for this card.
    Act(AttachmentAction),
    /// This partition is configured; look it up, then decide with what was observed.
    LookUpPartition { partition_id: u128, observed: Option<ObservedAttachment> },
}

pub open spec fn configured_for(a: Seq<ConfiguredAttachment>, mac: Seq<char>) -> Seq<ConfiguredAttachment> {
    a.filter(|x: ConfiguredAttachment| x.mac_address.deep_view() == Some(mac))
}

pub open spec fn observed_for(a: Seq<ObservedAttachment>, mac: Seq<char>) -> Seq<ObservedAttachment> {
    a.filter(|x: ObservedAttachment| x.mac_address@ == mac)
}

pub const TOO_MANY_CONFIGURED: &'static str = "reconcile_assigned_state this_nic_configured_attachments length is greater than 1";

pub const TOO_MANY_OBSERVED: &'static str = "reconcile_assigned_state this_nic_observed_attachments length is greater than 1";

fn clone_opt_string(s: &Option<String>) -> (r: Option<String>)
    ensures
        r == *s,
{
    match s {
        Some(x) => Some(x.clone()),
        None => None,
    }
}

fn clone_configured(a: &ConfiguredAttachment) -> (r: ConfiguredAttachment)
    ensures
        r == *a,
{
    ConfiguredAttachment { mac_address: clone_opt_string(&a.mac_address), spx_partition_id: a.spx_partition_id }
}

fn clone_observed(a: &ObservedAttachment) -> (r: ObservedAttachment)
    ensures
        r == *a,
{
    ObservedAttachment {
        mac_address: a.mac_address.clone(),
        partition_id: a.partition_id,
        config_version: clone_opt_string(&a.config_version),
    }
}

fn filter_configured(a: &Vec<ConfiguredAttachment>, mac: &String) -> (r: Vec<ConfiguredAttachment>)
    ensures
        r@ == configured_for(a@, mac@),
{
    let ghost pred = |x: ConfiguredAttachment| x.mac_address.deep_view() == Some(mac@);
    let mut r: Vec<ConfiguredAttachment> = Vec::new();
    let mut i: usize = 0;
    proof {
        reveal(Seq::filter);
    }
    assert(a@.take(0) =~= Seq::<ConfiguredAttachment>::empty());
    while i < a.len()
        invariant
            i <= a.len(),
            pred == (|x: ConfiguredAttachment| x.mac_address.deep_view() == Some(mac@)),
            r@ == a@.take(i as int).filter(pred),
        decreases a.len() - i,
    {
        assert(a@.take(i + 1) =~= a@.take(i as int).push(a@[i as int]));
        proof {
            a@.take(i as int).lemma_filter_push(a@[i as int], pred);
        }
        let same = match &a[i].mac_address {
            Some(m) => *m == *mac,
            None => false,
        };
        if same {
            r.push(clone_configured(&a[i]));
        }
        i = i + 1;
    }
    assert(a@.take(a.len() as int) =~= a@);
    r
}

fn filter_observed(a: &Vec<ObservedAttachment>, mac: &String) -> (r: Vec<ObservedAttachment>)
    ensures
        r@ == observed_for(a@, mac@),
{
    let ghost pred = |x: ObservedAttachment| x.mac_address@ == mac@;
    let mut r: Vec<ObservedAttachment> = Vec::new();
    let mut i: usize = 0;
    proof {
        reveal(Seq::filter);
    }
    assert(a@.take(0) =~= Seq::<ObservedAttachment>::empty());
    while i < a.len()
        invariant
            i <= a.len(),
            pred == (|x: ObservedAttachment| x.mac_address@ == mac@),
            r@ == a@.take(i as int).filter(pred),
        decreases a.len() - i,
    {
        assert(a@.take(i + 1) =~= a@.take(i as int).push(a@[i as int]));
        proof {
            a@.take(i as int).lemma_filter_push(a@[i as int], pred);
        }
        if a[i].mac_address == *mac {
            r.push(clone_observed(&a[i]));
        }
        i = i + 1;
    }
    assert(a@.take(a.len() as int) =~= a@);
    r
}

pub open spec fn observed_list(observed: Option<Vec<ObservedAttachment>>) -> Seq<ObservedAttachment> {
    match observed {
        Some(v) => v@,
        None => Seq::empty(),
    }
}

/// The first step of reconciling an assigned card (`mac`): at most one
/// configured and one observed attachment may name it. Nothing configured:
/// detach (VNI 0, the card's own config version) when something is
/// observed, nothing otherwise. Otherwise the configured partition is looked up.
pub fn plan_assigned(
    mac: &String,
    configured: &Vec<ConfiguredAttachment>,
    observed: &Option<Vec<ObservedAttachment>>,
    nic_version: &String,
) -> (res: Result<AssignedPlan, String>)
    ensures
        ({
            let c = configured_for(configured@, mac@);
            let o = observed_for(observed_list(*observed), mac@);
            if c.len() > 1 {
                res matches Err(e) && e@ == TOO_MANY_CONFIGURED@
            } else if o.len() > 1 {
                res matches Err(e) && e@ == TOO_MANY_OBSERVED@
            } else if c.len() == 0 {
                if o.len() == 0 {
                    res == Ok::<AssignedPlan, String>(AssignedPlan::Act(AttachmentAction::Nothing))
                } else {
                    res == Ok::<AssignedPlan, String>(
                        AssignedPlan::Act(AttachmentAction::SetVni { vni: 0, version: *nic_version }),
                    )
                }
            } else {
                res == Ok::<AssignedPlan, String>(
                    AssignedPlan::LookUpPartition {
                        partition_id: c[0].spx_partition_id,
                        observed: if o.len() == 0 { None } else { Some(o[0]) },
                    },
                )
            }
        }),
{
    let c = filter_configured(configured, mac);
    if c.len() > 1 {
        return Err(TOO_MANY_CONFIGURED.to_owned());
    }
    let o = match observed {
        Some(list) => filter_observed(list, mac),
        None => Vec::new(),
    };
    assert(o@ == observed_for(observed_list(*observed), mac@)) by {
        if observed.is_none() {
            reveal(Seq::filter);
            assert(observed_for(Seq::empty(), mac@) =~= Seq::<ObservedAttachment>::empty());
        }
    }
    if o.len() > 1 {
        return Err(TOO_MANY_OBSERVED.to_owned());
    }
    if c.len() == 0 {
        if o.len() == 0 {
            return Ok(AssignedPlan::Act(AttachmentAction::Nothing));
        }
        return Ok(AssignedPlan::Act(AttachmentAction::SetVni { vni: 0, version: nic_version.clone() }));
    }
    let observed_one = if o.len() == 0 { None } else { Some(clone_observed(&o[0])) };
    Ok(AssignedPlan::LookUpPartition { partition_id: c[0].spx_partition_id, observed: observed_one })
}

/// `SPX partition {id} is not found`
pub open spec fn partition_not_found(partition_id_text: Seq<char>) -> Seq<char> {
    "SPX partition "@ + partition_id_text + " is not found"@
}

/// The VNI of a partition as the card takes it (the stored value's bits;
/// no VNI reads as 0).
pub open spec fn vni_of(vni: Option<i32>) -> u32 {
    match vni {
        Some(v) => v as u32,
        None => 0,
    }
}

/// The second step: exactly one partition must be found. The card is
/// (re)configured with its VNI and the instance's config version unless it
/// already reports this partition at this version, in which case it gets a
/// heartbeat.
pub fn decide_assigned(
    partition_id: u128,
    partition_id_text: &String,
    found_vnis: &Vec<Option<i32>>,
    observed: &Option<ObservedAttachment>,
    instance_version: &String,
) -> (res: Result<AttachmentAction, String>)
    ensures
        found_vnis@.len() != 1 ==> (res matches Err(e) && e@ == partition_not_found(partition_id_text@)),
        found_vnis@.len() == 1 ==> ({
            let vni = vni_of(found_vnis@[0]);
            match *observed {
                Some(o) => if o.partition_id == Some(partition_id) && o.config_version.deep_view() == Some(instance_version@) {
                    res == Ok::<AttachmentAction, String>(AttachmentAction::Heartbeat { vni })
                } else {
                    res == Ok::<AttachmentAction, String>(AttachmentAction::SetVni { vni, version: *instance_version })
                },
                None => res == Ok::<AttachmentAction, String>(AttachmentAction::SetVni { vni, version: *instance_version }),
            }
        }),
{
    if found_vnis.len() != 1 {
        let mut m: Vec<char> = Vec::new();
        extend_chars(&mut m, "SPX partition ");
        extend_chars(&mut m, partition_id_text.as_str());
        extend_chars(&mut m, " is not found");
        return Err(string_of(&m));
    }
    let vni: u32 = match found_vnis[0] {
        Some(v) => v as u32,
        None => 0,
    };
    match observed {
        Some(o) => {
            let same_partition = match o.partition_id {
                Some(p) => p == partition_id,
                None => false,
            };
            let same_version = match &o.config_version {
                Some(v) => *v == *instance_version,
                None => false,
            };
            if same_partition && same_version {
                Ok(AttachmentAction::Heartbeat { vni })
            } else {
                Ok(AttachmentAction::SetVni { vni, version: instance_version.clone() })
            }
        },
        None => Ok(AttachmentAction::SetVni { vni, version: instance_version.clone() }),
    }
}

/// Reconciling a ready card (`mac`) on the admin network: at most one
/// observed attachment may name it; none means nothing to do; one that is
/// not the null partition at the card's config version is detached (VNI 0),
/// otherwise the card gets a heartbeat.
pub fn decide_ready(
    mac: &String,
    observed: &Option<Vec<ObservedAttachment>>,
    nic_version: &String,
) -> (res: Result<AttachmentAction, String>)
    ensures
        ({
            let o = observed_for(observed_list(*observed), mac@);
            if o.len() > 1 {
                res matches Err(e) && e@ == TOO_MANY_OBSERVED@
            } else if o.len() == 0 {
                res == Ok::<AttachmentAction, String>(AttachmentAction::Nothing)
            } else if o[0].partition_id != Some(NULL_SPX_PARTITION_ID) || o[0].config_version.deep_view() != Some(nic_version@) {
                res == Ok::<AttachmentAction, String>(AttachmentAction::SetVni { vni: 0, version: *nic_version })
            } else {
                res == Ok::<AttachmentAction, String>(AttachmentAction::Heartbeat { vni: 0 })
            }
        }),
{
    let o = match observed {
        Some(list) => filter_observed(list, mac),
        None => Vec::new(),
    };
    assert(o@ == observed_for(observed_list(*observed), mac@)) by {
        if observed.is_none() {
            reveal(Seq::filter);
            assert(observed_for(Seq::empty(), mac@) =~= Seq::<ObservedAttachment>::empty());
        }
    }
    if o.len() > 1 {
        return Err(TOO_MANY_OBSERVED.to_owned());
    }
    if o.len() == 0 {
        return Ok(AttachmentAction::Nothing);
    }
    let a = &o[0];
    let null_partition = match a.partition_id {
        Some(p) => p == NULL_SPX_PARTITION_ID,
        None => false,
    };
    let same_version = match &a.config_version {
        Some(v) => *v == *nic_version,
        None => false,
    };
    if !null_partition || !same_version {
        Ok(AttachmentAction::SetVni { vni: 0, version: nic_version.clone() })
    } else {
        Ok(AttachmentAction::Heartbeat { vni: 0 })
    }
}

} // verus!
