//! Which of the updater's leftovers are ours, and which are stale.

use fwdslash::gc::{is_owned_update_task_name, is_stale, owned_update_task_inventory, STALE_AFTER};

/// One second, in nanoseconds.
const SECOND: u128 = 1_000_000_000;

#[test]
fn only_the_generated_grammar_and_the_legacy_name_are_owned() {
    for name in [
        "fwdslash-update",
        "\\fwdslash-update",
        "fwdslash-update-watchdog-18784-1",
        "fwdslash-update-apply-4-12",
    ] {
        assert!(is_owned_update_task_name(name), "{name}");
    }
    for name in [
        "fwdslash-update-",
        "fwdslash-updates",
        "fwdslash-update-watchdog",
        "fwdslash-update-watchdog-a-1",
        "fwdslash-update-repair-1-1",
        "fwdslash-update-watchdog-1-1-1",
        "OtherProduct-update",
    ] {
        assert!(!is_owned_update_task_name(name), "{name}");
    }
}

#[test]
fn the_inventory_reads_only_the_first_csv_field() {
    let csv = "\"\\fwdslash-update\",\"N/A\",\"Ready\"\r\n\
               \"\\Microsoft\\Windows\\Something\",\"N/A\",\"Ready\"\r\n\
               \"\\fwdslash-update-apply-77-3\",\"9/5/2026 7:59:00 PM\",\"Running\"\r\n";
    assert_eq!(
        owned_update_task_inventory(csv),
        vec![
            "fwdslash-update".to_string(),
            "fwdslash-update-apply-77-3".to_string()
        ]
    );
}

#[test]
fn a_missing_or_old_sidecar_is_stale_and_a_fresh_one_is_not() {
    assert!(is_stale(None, STALE_AFTER));
    assert!(is_stale(
        Some(STALE_AFTER + SECOND),
        STALE_AFTER
    ));
    assert!(!is_stale(Some(STALE_AFTER), STALE_AFTER));
    assert!(!is_stale(Some(30 * SECOND), STALE_AFTER));
    // Well past the scheduler's one-hour execution limit plus the
    // five-minute trigger delay, so a stale task is never a live one.
    assert!(STALE_AFTER > 65 * 60 * SECOND);
}
