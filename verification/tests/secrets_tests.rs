use carbide::secrets::{
    catch_all_routing, import_action, is_bookkeeping_path, needs_existence_check, tally_import, test_key,
    ImportAction, ImportApproach, ImportResult, NewSecretEntry,
};

#[test]
fn test_key_bytes_count_up_from_the_seed() {
    let key = test_key(1);
    assert_eq!(key[0], 1);
    assert_eq!(key[31], 32);
    let wrapped = test_key(250);
    assert_eq!(wrapped[5], 255);
    assert_eq!(wrapped[6], 0);
    assert_eq!(wrapped[31], 25);
    assert_ne!(test_key(1), test_key(2));
}

#[test]
fn catch_all_routing_builds_a_single_root_route() {
    let routing = catch_all_routing("k1");
    assert_eq!(routing.routes(), &vec![("/".to_string(), "k1".to_string())]);
}

#[test]
fn bookkeeping_paths_start_with_a_slash() {
    assert!(is_bookkeeping_path("/vault-import-complete"));
    assert!(!is_bookkeeping_path("ufm/fab1"));
    assert!(!is_bookkeeping_path(""));
    let entry = NewSecretEntry {
        path: "/marker",
        encrypted_value: &[1, 2],
        nonce: &[3],
        kek_id: "k1",
        encrypted_dek: &[4],
        dek_nonce: &[5],
    };
    assert!(entry.is_bookkeeping());
}

#[test]
fn import_plans_by_approach() {
    assert!(needs_existence_check(ImportApproach::MissingOnly));
    assert!(!needs_existence_check(ImportApproach::All));
    assert_eq!(import_action(ImportApproach::MissingOnly, true), ImportAction::Skip);
    assert_eq!(import_action(ImportApproach::MissingOnly, false), ImportAction::InsertIfMissing);
    assert_eq!(import_action(ImportApproach::All, true), ImportAction::Insert);
}

#[test]
fn import_counts_every_secret_once() {
    // (path found to hold entries, guarded insert wrote it)
    let courses = vec![(true, false), (false, true), (false, false), (false, true)];
    let missing_only = tally_import(ImportApproach::MissingOnly, &courses);
    assert_eq!(missing_only, ImportResult { imported: 2, skipped: 2 });
    let all = tally_import(ImportApproach::All, &courses);
    assert_eq!(all, ImportResult { imported: 4, skipped: 0 });
    let mut r = ImportResult::new();
    r.count(ImportAction::InsertIfMissing, false);
    r.count(ImportAction::Insert, false);
    assert_eq!(r, ImportResult { imported: 1, skipped: 1 });
}

use carbide::secrets_metrics::{whole_millis, OperationOutcome, OperationTimer};

#[test]
fn operation_timer_records_one_outcome_when_enabled() {
    let (timer, count_request) = OperationTimer::start(true, "get");
    assert!(count_request);
    let sample = timer.succeed().expect("enabled metrics record the outcome");
    assert_eq!(sample.operation, "get");
    assert_eq!(sample.outcome, OperationOutcome::Succeeded);

    let (timer, _) = OperationTimer::start(true, "set");
    let failed = timer.fail().unwrap();
    assert_eq!(failed.outcome, OperationOutcome::Failed);
    assert_eq!(failed.operation, "set");
}

#[test]
fn operation_timer_is_silent_when_disabled() {
    let (timer, count_request) = OperationTimer::start(false, "delete");
    assert!(!count_request);
    assert_eq!(timer.succeed(), None);
    let (timer, _) = OperationTimer::start(false, "delete");
    assert_eq!(timer.fail(), None);
}

#[test]
fn durations_are_whole_milliseconds() {
    assert_eq!(whole_millis(0), 0);
    assert_eq!(whole_millis(999_999), 0);
    assert_eq!(whole_millis(1_000_000), 1);
    assert_eq!(whole_millis(2_500_000_000), 2_500);
}

#[test]
fn missing_only_skips_exactly_the_existing_paths() {
    // Every guarded insert of a missing path goes through: the skipped count
    // is the number of paths that already held entries.
    let courses = vec![(true, false), (false, true), (true, true), (false, true), (false, true)];
    let r = tally_import(ImportApproach::MissingOnly, &courses);
    assert_eq!(r, ImportResult { imported: 3, skipped: 2 });
    let none_exist = vec![(false, true), (false, true)];
    assert_eq!(tally_import(ImportApproach::MissingOnly, &none_exist), ImportResult { imported: 2, skipped: 0 });
    let empty: Vec<(bool, bool)> = vec![];
    assert_eq!(tally_import(ImportApproach::MissingOnly, &empty), ImportResult { imported: 0, skipped: 0 });
}
