//! Which banner the window offers, how an answer becomes an outcome, and what an
//! install exit code means on screen.

use fwdslash::options::{EXIT_AVAILABLE, EXIT_NEEDS_USER, EXIT_NOTHING, EXIT_OK};
use fwdslash::update::UpdateOutcome;
use fwdslash::update_reply::{
    check_outcome, install_banner_label, install_notice, json_string_field,
    should_restore_broker_after_install, store_product_uri, InfoBarSeverity, NoticeAction,
};

/// A line in the exact shape `render_json` produces.
fn json_line(state: &str, available: &str) -> String {
    format!(
        "{{\"flavor\":\"store\",\"state\":\"{state}\",\"available\":{available},\
         \"autoUpdate\":true,\"lastUpdateCheck\":1730000000,\"route\":null,\
         \"action\":null,\"detail\":null}}"
    )
}

// -- the JSON extractor ------------------------------------------------

#[test]
fn a_string_field_is_read_to_its_closing_quote() {
    let line = json_line("available", "\"0.0.5\"");
    assert_eq!(json_string_field(&line, "state").as_deref(), Some("available"));
    assert_eq!(json_string_field(&line, "available").as_deref(), Some("0.0.5"));
    assert_eq!(json_string_field(&line, "flavor").as_deref(), Some("store"));
}

#[test]
fn null_and_absent_and_numeric_fields_are_all_none() {
    let line = json_line("upToDate", "null");
    assert_eq!(json_string_field(&line, "available"), None);
    assert_eq!(json_string_field(&line, "route"), None);
    assert_eq!(json_string_field(&line, "nosuchfield"), None);
    // A number is not a string, and guessing at one would be worse.
    assert_eq!(json_string_field(&line, "lastUpdateCheck"), None);
}

#[test]
fn escapes_survive_the_extractor() {
    let line = r#"{"detail":"C:\\Users\\me said \"no\"","state":"error"}"#;
    assert_eq!(
        json_string_field(line, "detail").as_deref(),
        Some(r#"C:\Users\me said "no""#)
    );
    assert_eq!(json_string_field(line, "state").as_deref(), Some("error"));
}

#[test]
fn a_malformed_line_never_yields_a_half_value() {
    assert_eq!(json_string_field("", "state"), None);
    assert_eq!(json_string_field("not json at all", "state"), None);
    // Unterminated string.
    assert_eq!(json_string_field(r#"{"state":"upToDa"#, "state"), None);
}

// -- check answers -----------------------------------------------------

#[test]
fn exit_ten_with_a_version_is_the_only_ready() {
    assert_eq!(
        check_outcome(EXIT_AVAILABLE, &json_line("available", "\"0.0.5\"")),
        UpdateOutcome::Ready("0.0.5".to_string())
    );
    // Exit 10 that cannot name a version is nothing to announce.
    assert_eq!(
        check_outcome(EXIT_AVAILABLE, &json_line("available", "null")),
        UpdateOutcome::Unavailable
    );
    assert_eq!(
        check_outcome(EXIT_AVAILABLE, &json_line("available", "\"\"")),
        UpdateOutcome::Unavailable
    );
}

#[test]
fn the_state_field_decides_the_rest() {
    assert_eq!(
        check_outcome(EXIT_OK, &json_line("upToDate", "null")),
        UpdateOutcome::UpToDate
    );
    assert_eq!(
        check_outcome(EXIT_OK, &json_line("notDue", "null")),
        UpdateOutcome::NotDue
    );
    // `disabled` is an unpackaged build; `unavailable` is an unreachable
    // service. Neither is worth a word on screen.
    assert_eq!(
        check_outcome(EXIT_OK, &json_line("disabled", "null")),
        UpdateOutcome::Unavailable
    );
    assert_eq!(
        check_outcome(EXIT_OK, &json_line("unavailable", "null")),
        UpdateOutcome::Unavailable
    );
    // A controller that could not be started prints nothing at all.
    assert_eq!(check_outcome(-1, ""), UpdateOutcome::Unavailable);
}

#[test]
fn only_the_last_line_of_stdout_is_the_json() {
    // Nothing writes to stdout before the JSON today; if something ever
    // does, the contract line is still the last one.
    let stdout = format!("a stray line\n{}\n", json_line("upToDate", "null"));
    assert_eq!(
        check_outcome(EXIT_OK, &stdout),
        UpdateOutcome::UpToDate
    );
}

// -- the install banner matrix ----------------------------------------

#[test]
fn an_unpackaged_build_never_offers_to_install() {
    assert_eq!(install_banner_label(false, false, true, true), None);
    assert_eq!(install_banner_label(false, true, true, true), None);
}

#[test]
fn nothing_to_install_means_no_banner() {
    assert_eq!(install_banner_label(true, true, false, false), None);
    assert_eq!(install_banner_label(true, false, false, false), None);
}

#[test]
fn each_flavor_labels_the_button_for_what_it_does() {
    // Store: a recorded available version is all it ever has locally.
    assert_eq!(
        install_banner_label(true, true, false, true),
        Some("Install now")
    );
    // GitHub: the downloaded bundle, and the check that found it.
    assert_eq!(
        install_banner_label(true, false, true, false),
        Some("Restart to update")
    );
    assert_eq!(
        install_banner_label(true, false, true, true),
        Some("Restart to update")
    );
}

// -- install exit code to what the window shows ------------------------

#[test]
fn a_started_install_leaves_no_notice_because_the_window_closes() {
    assert!(install_notice(EXIT_OK, "").is_none());
}

#[test]
fn failed_or_deferred_installs_restore_only_a_previously_running_broker() {
    for code in [-1, EXIT_AVAILABLE, EXIT_NEEDS_USER, EXIT_NOTHING, 1] {
        assert!(should_restore_broker_after_install(code, true));
    }
    assert!(!should_restore_broker_after_install(
        EXIT_OK,
        true
    ));
    assert!(!should_restore_broker_after_install(
        EXIT_NOTHING,
        false
    ));
}

#[test]
fn only_the_store_hand_off_carries_an_action_button() {
    assert_eq!(
        install_notice(EXIT_NEEDS_USER, "").map(|notice| notice.action),
        Some(Some(NoticeAction::OpenStore))
    );
    for code in [EXIT_AVAILABLE, EXIT_NOTHING, 1] {
        assert_eq!(
            install_notice(code, "").map(|notice| notice.action),
            Some(None),
            "code {code} must not offer an action"
        );
    }
}

#[test]
fn only_a_failure_is_an_error_bar() {
    assert_eq!(
        install_notice(1, "").map(|notice| notice.severity),
        Some(InfoBarSeverity::Error)
    );
    assert_eq!(
        install_notice(EXIT_NOTHING, "").map(|notice| notice.severity),
        Some(InfoBarSeverity::Success)
    );
    assert_eq!(
        install_notice(EXIT_AVAILABLE, "").map(|notice| notice.severity),
        Some(InfoBarSeverity::Informational)
    );
}

#[test]
fn a_failure_carries_the_controllers_own_explanation() {
    assert_eq!(
        install_notice(1, "  ").map(|notice| notice.message),
        Some("The update could not be started.".to_string())
    );
    assert_eq!(
        install_notice(1, "The Store refused (0x80070005).\n").map(|notice| notice.message),
        Some("The update could not be started. The Store refused (0x80070005).".to_string())
    );
}

// -- the Store link ----------------------------------------------------

#[test]
fn the_store_link_addresses_this_product() {
    assert_eq!(
        store_product_uri(),
        "ms-windows-store://pdp/?productid=9P51CM0MTMK2"
    );
}

#[test]
fn an_escape_of_another_kind_is_not_guessed_at() {
    for line in [
        r#"{"detail":"a\nb"}"#,
        r#"{"detail":"a\u0041"}"#,
        r#"{"detail":"a\/b"}"#,
        r#"{"detail":"a\"#,
    ] {
        assert_eq!(json_string_field(line, "detail"), None, "{line}");
    }
    assert_eq!(
        json_string_field(r#"{"detail":"\\\""}"#, "detail").as_deref(),
        Some(r#"\""#)
    );
    assert_eq!(
        check_outcome(EXIT_AVAILABLE, r#"{"state":"available","available":"0.0\n5"}"#),
        UpdateOutcome::Unavailable
    );
}
