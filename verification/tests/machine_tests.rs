use carbide::compute_tray::{
    after_bmc_credential_lookup, after_site_wide_credential_lookup, compute_tray_manager_for, compute_tray_route,
    validate_compute_tray_power_result, BmcCredentialStep, ComputeTrayBackend, ComputeTrayManagerChoice,
    ComputeTrayPowerFault, ComputeTrayResult, ComputeTrayRoute, CredentialError, CredentialLookup,
};
use carbide::dns::IpAddress;
use carbide::machine::{
    boot_interface_target, did_dpu_finish_booting, should_attempt_tpm_recovery_for_attest_key_failure,
    BootInterfaceTarget, BootProgress, BootProgressType,
};
use carbide::site_explorer::{display_error, SiteExplorerLastRun, SiteExplorerLastRunDisplay};

#[test]
fn compute_tray_route_uses_rms_only_for_rack_machines() {
    let cases = [
        ("standalone with RMS configured", false, Some(ComputeTrayBackend::Rms), ComputeTrayRoute::Core),
        ("rack with RMS configured", true, Some(ComputeTrayBackend::Rms), ComputeTrayRoute::ConfiguredRms),
        ("rack with Core configured", true, Some(ComputeTrayBackend::Core), ComputeTrayRoute::Core),
        ("rack with mock configured", true, Some(ComputeTrayBackend::Mock), ComputeTrayRoute::Core),
        ("rack without component manager", true, None, ComputeTrayRoute::Core),
    ];

    for (scenario, rack_associated, backend, expected) in cases {
        assert_eq!(compute_tray_route(rack_associated, backend), expected, "{scenario}");
    }
}

#[test]
fn compute_tray_power_result_requires_one_matching_success() {
    let expected_ip = IpAddress::V4([192, 0, 2, 10]);
    let other_ip = IpAddress::V4([192, 0, 2, 11]);
    let result = |bmc_ip, success, error: Option<&str>| ComputeTrayResult {
        bmc_ip,
        success,
        error: error.map(str::to_string),
    };
    let cases = [
        ("one matching success", vec![result(expected_ip, true, None)], true),
        ("empty result", vec![], false),
        ("duplicate result", vec![result(expected_ip, true, None), result(expected_ip, true, None)], false),
        ("unexpected BMC", vec![result(other_ip, true, None)], false),
        ("matching backend failure", vec![result(expected_ip, false, Some("rejected"))], false),
    ];

    for (scenario, results, expected) in cases {
        assert_eq!(
            validate_compute_tray_power_result("test", "Machine:test", expected_ip, results).is_ok(),
            expected,
            "{scenario}"
        );
    }
}

#[test]
fn compute_tray_power_errors_name_the_fault() {
    let ip = IpAddress::V4([192, 0, 2, 10]);
    let err = validate_compute_tray_power_result("rms", "m1", ip, vec![]).unwrap_err();
    assert_eq!(err.backend_name, "rms");
    assert_eq!(err.machine_id, "m1");
    assert_eq!(err.fault, ComputeTrayPowerFault::WrongResultCount { count: 0 });
    let failed = validate_compute_tray_power_result(
        "rms",
        "m1",
        ip,
        vec![ComputeTrayResult { bmc_ip: ip, success: false, error: None }],
    )
    .unwrap_err();
    assert_eq!(failed.fault, ComputeTrayPowerFault::Failed { error: "unknown error".to_string() });
    let other = IpAddress::V6([0; 16]);
    let wrong = validate_compute_tray_power_result(
        "rms",
        "m1",
        ip,
        vec![ComputeTrayResult { bmc_ip: other, success: true, error: None }],
    )
    .unwrap_err();
    assert_eq!(wrong.fault, ComputeTrayPowerFault::UnexpectedBmc { bmc_ip: other, expected_bmc_ip: ip });
}

#[test]
fn compute_tray_manager_follows_the_route() {
    assert_eq!(compute_tray_manager_for(true, Some(ComputeTrayBackend::Rms)), ComputeTrayManagerChoice::ComponentManager);
    assert_eq!(compute_tray_manager_for(false, Some(ComputeTrayBackend::Rms)), ComputeTrayManagerChoice::Core);
}

#[test]
fn credential_lookups_fall_back_to_site_wide() {
    assert_eq!(after_bmc_credential_lookup(CredentialLookup::Found(1u8)), BmcCredentialStep::Use(1u8));
    assert_eq!(after_bmc_credential_lookup::<u8>(CredentialLookup::NotFound), BmcCredentialStep::LookUpSiteWide);
    assert_eq!(after_site_wide_credential_lookup::<u8>(CredentialLookup::NotFound), Err(CredentialError::NoneConfigured));
    assert_eq!(
        after_site_wide_credential_lookup::<u8>(CredentialLookup::Failed("down".to_string())),
        Err(CredentialError::SiteWideLookupFailed("down".to_string()))
    );
}

#[test]
fn attest_key_failure_recovery_classification_cases() {
    let cases: &[(&str, bool)] = &[
        ("handle already exists", true),
        ("tpm corruption detected", true),
        ("feature not supported on this device", false),
    ];

    for (message, want_recovery) in cases {
        assert_eq!(
            should_attempt_tpm_recovery_for_attest_key_failure(message),
            *want_recovery,
            "message={message:?}"
        );
    }
    assert!(!should_attempt_tpm_recovery_for_attest_key_failure("Feature NOT SUPPORTED"));
}

#[test]
fn dpu_boot_finishes_when_the_os_runs() {
    assert!(!did_dpu_finish_booting(&None));
    assert!(did_dpu_finish_booting(&Some(BootProgress {
        last_state: Some(BootProgressType::OsRunning),
        oem_last_state: None
    })));
    assert!(did_dpu_finish_booting(&Some(BootProgress {
        last_state: Some(BootProgressType::Other),
        oem_last_state: Some("OsIsRunning".to_string())
    })));
    assert!(!did_dpu_finish_booting(&Some(BootProgress {
        last_state: Some(BootProgressType::Other),
        oem_last_state: Some("Booting".to_string())
    })));
}

#[test]
fn boot_interface_prefers_the_captured_pair() {
    assert_eq!(boot_interface_target(Some(1u8), Some("mac")), Some(BootInterfaceTarget::Pair(1u8)));
    assert_eq!(boot_interface_target::<u8, &str>(None, Some("mac")), Some(BootInterfaceTarget::MacOnly("mac")));
    assert_eq!(boot_interface_target::<u8, &str>(None, None), None);
}

fn run(success: bool, category: Option<&str>, error: Option<&str>) -> SiteExplorerLastRun {
    SiteExplorerLastRun {
        success,
        started_at: "t0".to_string(),
        finished_at: "t1".to_string(),
        endpoint_explorations: 3,
        endpoint_explorations_success: 2,
        endpoint_explorations_failed: 1,
        failure_category: category.map(str::to_string),
        last_successful_finished_at: None,
        last_failed_finished_at: Some("t1".to_string()),
        error: error.map(str::to_string),
    }
}

#[test]
fn site_explorer_display_explains_credential_failures() {
    assert_eq!(
        display_error(&run(false, Some("missing_credentials"), Some("raw"))),
        "Site Explorer credentials are missing or invalid"
    );
    assert_eq!(
        display_error(&run(false, Some("secrets_engine"), None)),
        "Site Explorer could not access credentials"
    );
    assert_eq!(display_error(&run(false, Some("other"), Some("raw"))), "raw");
    let d = SiteExplorerLastRunDisplay::from_run(&run(false, None, None));
    assert_eq!(d.status_label, "Failed");
    assert_eq!(d.status_class, "error");
    assert_eq!(d.last_successful_finished_at, "Never");
    assert_eq!(d.last_failed_finished_at, "t1");
    assert_eq!(d.error, "");
}
