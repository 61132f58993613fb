use carbide::dpa::DpaInterfaceControllerState::{
    ApplyFirmware, ApplyProfile, Assigned, Locking, Provisioning, Ready, Unlocking,
};
use carbide::dpa::{
    AstraInterfaceHandler, CardState, DpaInterfaceControllerState, DpaInterfaceSnapshot, DpaLockMode, FirmwareReport,
    HandlerDecision, SvpcInterfaceHandler,
};
use carbide::switch::{
    batch_succeeded, maintenance_error_cause, maintenance_outcome, maintenance_plan, maintenance_precheck,
    observed_status_update, ready_decision, summarize_batch_failure, BatchResponse, BatchStats, MaintenanceRequest,
    NodePowerState, NodeResult, ReadyDecision, ReadyState, ReprovisioningRequest, RmsPowerOperation, RmsReply,
    SwitchControllerState, SwitchMaintenanceOperation, SwitchStatus,
};

#[test]
fn ready_state_follows_the_observed_power_state() {
    assert_eq!(ReadyState::from_power_state("off"), ReadyState::Off);
    assert_eq!(ReadyState::from_power_state("on"), ReadyState::On);
    assert_eq!(ReadyState::from_power_state("unknown"), ReadyState::On);
}

#[test]
fn ready_handler_priorities() {
    let maint = Some(MaintenanceRequest { operation: SwitchMaintenanceOperation::Reset, initiator: "op".to_string() });
    let rack = Some(ReprovisioningRequest { initiator: "rack-1".to_string() });
    let other = Some(ReprovisioningRequest { initiator: "someone".to_string() });
    assert_eq!(ready_decision(true, &maint, &rack), ReadyDecision::Transition(SwitchControllerState::Deleting));
    assert_eq!(
        ready_decision(false, &maint, &rack),
        ReadyDecision::Transition(SwitchControllerState::Maintenance { operation: SwitchMaintenanceOperation::Reset })
    );
    assert!(matches!(
        ready_decision(false, &None, &rack),
        ReadyDecision::Transition(SwitchControllerState::ReProvisioning { .. })
    ));
    assert_eq!(
        ready_decision(false, &None, &other),
        ReadyDecision::Transition(SwitchControllerState::Error {
            cause: "unknown initiator for switch reprovisioning request: someone".to_string()
        })
    );
    assert_eq!(ready_decision(false, &None, &None), ReadyDecision::ObservePowerState);
}

fn batch(status: i32, failed: i32, message: &str, nodes: Vec<NodeResult>) -> BatchResponse {
    BatchResponse {
        status,
        stats: Some(BatchStats { successful_nodes: 0, failed_nodes: failed }),
        message: message.to_string(),
        node_results: nodes,
    }
}

#[test]
fn batch_success_needs_success_status_and_no_failed_node() {
    assert!(batch_succeeded(&None));
    assert!(batch_succeeded(&Some(batch(0, 0, "", vec![]))));
    assert!(!batch_succeeded(&Some(batch(0, 1, "", vec![]))));
    assert!(!batch_succeeded(&Some(batch(2, 0, "", vec![]))));
}

#[test]
fn batch_failure_summary_prefers_message_then_node_then_counts() {
    assert_eq!(summarize_batch_failure(&batch(2, 1, "boom", vec![])), "boom");
    let nodes = vec![
        NodeResult { status: 0, error_message: String::new() },
        NodeResult { status: 7, error_message: String::new() },
        NodeResult { status: 0, error_message: "later".to_string() },
    ];
    assert_eq!(summarize_batch_failure(&batch(2, 1, "", nodes)), "status=7");
    assert_eq!(summarize_batch_failure(&batch(-3, 2, "", vec![])), "batch status -3, failed_nodes 2");
}

#[test]
fn maintenance_ends_ready_or_in_error() {
    let (op, label, success) = maintenance_plan(SwitchMaintenanceOperation::PowerOff);
    assert_eq!(op, RmsPowerOperation::Off);
    assert_eq!(label, "PowerOff");
    assert_eq!(success, SwitchControllerState::Ready { ready_state: ReadyState::Off });

    let ok = maintenance_outcome("sw1", label, &RmsReply::Response(Some(batch(0, 0, "", vec![]))), success.clone());
    assert_eq!(ok, success);
    let failed = maintenance_outcome("sw1", label, &RmsReply::Response(Some(batch(1, 0, "nope", vec![]))), success.clone());
    assert_eq!(
        failed,
        SwitchControllerState::Error {
            cause: "Switch sw1 maintenance (PowerOff): RMS BatchSetPowerState failed: nope".to_string()
        }
    );
    let transport = maintenance_outcome("sw1", label, &RmsReply::TransportError("down".to_string()), success);
    assert_eq!(
        transport,
        SwitchControllerState::Error {
            cause: "Switch sw1 maintenance (PowerOff): RMS BatchSetPowerState failed: down".to_string()
        }
    );
    assert_eq!(
        maintenance_precheck("sw1", "Reset", false, &None),
        Err(maintenance_error_cause("sw1", "Reset", "RMS client not configured"))
    );
    assert_eq!(
        maintenance_precheck("sw1", "Reset", true, &None),
        Err("Switch sw1 maintenance (Reset): switch has no rack association".to_string())
    );
    assert_eq!(maintenance_precheck("sw1", "Reset", true, &Some("rack-1".to_string())), Ok(()));
}

#[test]
fn observed_power_state_updates_only_on_change() {
    let states = vec![
        NodePowerState { node_id: "other".to_string(), pstate: "ON".to_string() },
        NodePowerState { node_id: "sw1".to_string(), pstate: "OFF".to_string() },
        NodePowerState { node_id: "sw1".to_string(), pstate: "ON".to_string() },
    ];
    let current = Some(SwitchStatus {
        switch_name: "leaf".to_string(),
        power_state: "on".to_string(),
        health_status: "ok".to_string(),
    });
    let update = observed_status_update("sw1", &current, &"cfg".to_string(), &states).unwrap();
    assert_eq!(update.power_state, "off");
    assert_eq!(update.switch_name, "leaf");
    assert_eq!(update.health_status, "ok");
    let unchanged = Some(SwitchStatus { power_state: "off".to_string(), ..current.clone().unwrap() });
    assert_eq!(observed_status_update("sw1", &unchanged, &"cfg".to_string(), &states), None);
    assert_eq!(observed_status_update("sw9", &current, &"cfg".to_string(), &states), None);
    let fresh = observed_status_update("sw1", &None, &"cfg".to_string(), &states).unwrap();
    assert_eq!(fresh.switch_name, "cfg");
    assert_eq!(fresh.health_status, "");
}

fn snapshot(admin: bool, card: Option<CardState>) -> DpaInterfaceSnapshot {
    DpaInterfaceSnapshot { use_admin_network: admin, card_state: card }
}

fn card(lock: Option<DpaLockMode>, fw: Option<FirmwareReport>, synced: Option<bool>) -> Option<CardState> {
    Some(CardState { lockmode: lock, firmware_report: fw, profile_synced: synced, profile: None })
}

#[test]
fn svpc_handler_walks_the_lifecycle() {
    let h = SvpcInterfaceHandler;
    assert_eq!(h.handle(Provisioning, &snapshot(true, None)), HandlerDecision::Wait);
    assert_eq!(h.handle(Provisioning, &snapshot(false, None)), HandlerDecision::Transition(Ready));
    assert_eq!(h.handle(Ready, &snapshot(true, None)), HandlerDecision::ReconcileReady);
    assert_eq!(h.handle(Ready, &snapshot(false, None)), HandlerDecision::Transition(Unlocking));
    assert_eq!(
        h.handle(Unlocking, &snapshot(false, card(Some(DpaLockMode::Unlocked), None, None))),
        HandlerDecision::Transition(ApplyFirmware)
    );
    assert_eq!(h.handle(Unlocking, &snapshot(false, None)), HandlerDecision::Wait);
    let flashed = FirmwareReport { flashed: true, reset: None, observed_version: None };
    assert_eq!(
        h.handle(ApplyFirmware, &snapshot(false, card(None, Some(flashed), None))),
        HandlerDecision::Transition(ApplyProfile)
    );
    let not_reset = FirmwareReport { flashed: true, reset: Some(false), observed_version: None };
    assert_eq!(h.handle(ApplyFirmware, &snapshot(false, card(None, Some(not_reset), None))), HandlerDecision::Wait);
    assert_eq!(
        h.handle(ApplyProfile, &snapshot(false, card(None, None, Some(true)))),
        HandlerDecision::Transition(Locking)
    );
    assert_eq!(
        h.handle(Locking, &snapshot(false, card(Some(DpaLockMode::Locked), None, None))),
        HandlerDecision::Transition(Assigned)
    );
    assert_eq!(h.handle(Assigned, &snapshot(false, None)), HandlerDecision::ReconcileAssigned);
    assert_eq!(h.handle(Assigned, &snapshot(true, None)), HandlerDecision::Transition(Ready));
}

#[test]
fn astra_handler_always_waits() {
    let h = AstraInterfaceHandler;
    assert_eq!(h.handle(DpaInterfaceControllerState::Ready, &snapshot(false, None)), HandlerDecision::Wait);
    assert_eq!(h.handle(DpaInterfaceControllerState::Assigned, &snapshot(true, None)), HandlerDecision::Wait);
}

use carbide::dpa::{
    decide_assigned, decide_ready, plan_assigned, AssignedPlan, AttachmentAction, ConfiguredAttachment,
    ObservedAttachment,
};

fn observed(mac: &str, partition: Option<u128>, version: Option<&str>) -> ObservedAttachment {
    ObservedAttachment {
        mac_address: mac.to_string(),
        partition_id: partition,
        config_version: version.map(str::to_string),
    }
}

#[test]
fn assigned_card_plans_from_its_own_attachments() {
    let mac = "aa:bb".to_string();
    let configured = vec![
        ConfiguredAttachment { mac_address: Some("aa:bb".to_string()), spx_partition_id: 7 },
        ConfiguredAttachment { mac_address: Some("cc:dd".to_string()), spx_partition_id: 8 },
    ];
    let seen = Some(vec![observed("aa:bb", Some(7), Some("v1")), observed("cc:dd", None, None)]);
    assert_eq!(
        plan_assigned(&mac, &configured, &seen, &"nic-v".to_string()),
        Ok(AssignedPlan::LookUpPartition { partition_id: 7, observed: Some(observed("aa:bb", Some(7), Some("v1"))) })
    );
    assert_eq!(
        plan_assigned(&mac, &vec![], &seen, &"nic-v".to_string()),
        Ok(AssignedPlan::Act(AttachmentAction::SetVni { vni: 0, version: "nic-v".to_string() }))
    );
    assert_eq!(
        plan_assigned(&mac, &vec![], &None, &"nic-v".to_string()),
        Ok(AssignedPlan::Act(AttachmentAction::Nothing))
    );
    let twice = vec![configured[0].clone(), configured[0].clone()];
    assert_eq!(
        plan_assigned(&mac, &twice, &None, &"nic-v".to_string()),
        Err("reconcile_assigned_state this_nic_configured_attachments length is greater than 1".to_string())
    );
}

#[test]
fn assigned_card_is_configured_until_it_reports_the_partition() {
    let v = "v2".to_string();
    assert_eq!(
        decide_assigned(7, &"7".to_string(), &vec![], &None, &v),
        Err("SPX partition 7 is not found".to_string())
    );
    assert_eq!(
        decide_assigned(7, &"7".to_string(), &vec![Some(100)], &None, &v),
        Ok(AttachmentAction::SetVni { vni: 100, version: "v2".to_string() })
    );
    assert_eq!(
        decide_assigned(7, &"7".to_string(), &vec![Some(100)], &Some(observed("m", Some(7), Some("v2"))), &v),
        Ok(AttachmentAction::Heartbeat { vni: 100 })
    );
    assert_eq!(
        decide_assigned(7, &"7".to_string(), &vec![None], &Some(observed("m", Some(7), Some("v1"))), &v),
        Ok(AttachmentAction::SetVni { vni: 0, version: "v2".to_string() })
    );
}

#[test]
fn ready_card_is_detached_until_it_reports_the_null_partition() {
    let mac = "aa:bb".to_string();
    let v = "nic-v".to_string();
    assert_eq!(decide_ready(&mac, &None, &v), Ok(AttachmentAction::Nothing));
    assert_eq!(
        decide_ready(&mac, &Some(vec![observed("aa:bb", Some(5), Some("nic-v"))]), &v),
        Ok(AttachmentAction::SetVni { vni: 0, version: "nic-v".to_string() })
    );
    assert_eq!(
        decide_ready(&mac, &Some(vec![observed("aa:bb", Some(0), Some("nic-v"))]), &v),
        Ok(AttachmentAction::Heartbeat { vni: 0 })
    );
    assert_eq!(
        decide_ready(&mac, &Some(vec![observed("aa:bb", Some(0), None), observed("aa:bb", None, None)]), &v),
        Err("reconcile_assigned_state this_nic_observed_attachments length is greater than 1".to_string())
    );
}
