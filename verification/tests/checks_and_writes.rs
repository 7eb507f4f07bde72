//! Bundle checks, settings writes, probes and log lines on concrete values.

use fwdslash::options::{parse_args, RelaunchMode, Route, Verb};
use fwdslash::package::STORE_IDENTITY_NAME;
use fwdslash::powershell_policy::{
    native_windows_powershell, probe_windows_powershell, restricted_policy_message,
    ExecutionPolicy, ProbeError, ProbeRun,
};
use fwdslash::settings::{
    get_default_distribution, is_registered_distribution, list_registered_distributions,
    single_registered_distribution, LxssValues,
};
use fwdslash::settings_write::{
    clear_cached_update_tag, dismiss_update, finish_write, is_announced, is_present, merged_settings,
    note_check_attempt, parse_reg_query, persist_disabled, query_arguments,
    set_auto_update_enabled, set_cached_update_tag, settle, sync_settings_to_real_hive,
    write_bare_slash_settings, RawSetting, SettingValue, SettingWrite, StoredSettings,
};
use fwdslash::system::DiagEvent;
use fwdslash::update::{auto_update_from_value, UpdateVerificationError};
use fwdslash::verification::{
    check_staged_path, check_staging_directory, packed_version, verify_bundle_manifest, verify_package_id,
    verify_staged_bundle, BundleManifest, PackageReading, StagedBundle, ARCHITECTURE_ARM64,
    ARCHITECTURE_X64, FILE_ATTRIBUTE_REPARSE_POINT,
};

const PUBLISHER: &str = "CN=Somebody";
const DIGEST: &str = "ba7816bf8f01cfea414140de5dae2223b00361a396177a9cb410ff61f20015ad";
const BUNDLE: &str = r"C:\u\fwdslash-0.0.9.0.msixbundle";

fn package(architecture: u32) -> PackageReading {
    PackageReading {
        name: Some(STORE_IDENTITY_NAME.to_string()),
        publisher: Some(PUBLISHER.to_string()),
        version: Some(9 << 16),
        architecture: Some(architecture),
    }
}

fn staged() -> StagedBundle {
    StagedBundle {
        tag: Some("v0.0.9".to_string()),
        pending: Some(BUNDLE.to_string()),
        directory: Some(r"C:\u".to_string()),
        directory_absolute: true,
        attributes: vec![Some(0x10), Some(0x80), Some(0x80)],
        digest_file: Some(DIGEST.to_string()),
        content: Some(b"abc".to_vec()),
        signature: 0,
        manifest: Ok(BundleManifest {
            bundle: package(0),
            packages: vec![package(ARCHITECTURE_X64), package(ARCHITECTURE_ARM64)],
        }),
    }
}

fn verdict(staged: &StagedBundle) -> Result<(), UpdateVerificationError> {
    verify_staged_bundle(staged, BUNDLE, PUBLISHER)
}

#[test]
fn a_staged_bundle_is_accepted_only_whole() {
    assert_eq!(verdict(&staged()), Ok(()));
    assert_eq!(
        verify_staged_bundle(&staged(), r"C:\u\other.msixbundle", PUBLISHER),
        Err(UpdateVerificationError::AssetNameMismatch)
    );
    for (bundle, error) in [
        (StagedBundle { tag: None, ..staged() }, UpdateVerificationError::VersionMismatch),
        (StagedBundle { pending: None, ..staged() }, UpdateVerificationError::IoFailure),
        (StagedBundle { directory: None, ..staged() }, UpdateVerificationError::IoFailure),
        (
            StagedBundle { directory: Some(r"C:\other".to_string()), ..staged() },
            UpdateVerificationError::AssetNameMismatch,
        ),
        (
            StagedBundle { directory_absolute: false, ..staged() },
            UpdateVerificationError::IoFailure,
        ),
        (
            StagedBundle { attributes: vec![Some(FILE_ATTRIBUTE_REPARSE_POINT)], ..staged() },
            UpdateVerificationError::IoFailure,
        ),
        (
            StagedBundle { attributes: vec![Some(0), None], ..staged() },
            UpdateVerificationError::IoFailure,
        ),
        (
            StagedBundle { content: Some(b"abd".to_vec()), ..staged() },
            UpdateVerificationError::DigestMismatch,
        ),
        (StagedBundle { digest_file: None, ..staged() }, UpdateVerificationError::IoFailure),
        (StagedBundle { signature: 1, ..staged() }, UpdateVerificationError::SignatureFailure),
        (
            StagedBundle { tag: Some("odd".to_string()), ..staged() },
            UpdateVerificationError::VersionMismatch,
        ),
        (
            StagedBundle { manifest: Err(UpdateVerificationError::IoFailure), ..staged() },
            UpdateVerificationError::IoFailure,
        ),
        // The digest is checked before the signature.
        (
            StagedBundle { content: Some(Vec::new()), signature: 1, ..staged() },
            UpdateVerificationError::DigestMismatch,
        ),
    ] {
        assert_eq!(verdict(&bundle), Err(error));
    }
}

#[test]
fn a_bundle_stands_directly_in_the_update_directory() {
    let check = |directory, path| check_staging_directory(Some(directory), true, path);
    for (directory, path) in [
        (r"C:\u", r"C:\u\x"),
        (r"C:\u\", r"C:\u\x"),
        (r"C:\u", "C:/u/x"),
        (r"C:\u", r"C:\u\\x"),
        (r"C:\", r"C:\x"),
    ] {
        assert_eq!(check(directory, path), Ok(()), "{directory} {path}");
    }
    for (directory, path) in [
        (r"C:\u", r"C:\u\v\x"),
        (r"C:\u", r"C:\ux"),
        (r"C:\u", r"C:\u\"),
        (r"C:\u", r"C:\u\."),
        (r"C:\u", "x"),
        ("", "x"),
    ] {
        assert_eq!(
            check(directory, path),
            Err(UpdateVerificationError::AssetNameMismatch),
            "{directory} {path}"
        );
    }
    assert_eq!(
        check_staging_directory(None, true, r"C:\u\x"),
        Err(UpdateVerificationError::IoFailure)
    );
    assert_eq!(
        check_staging_directory(Some("u"), false, r"u\x"),
        Err(UpdateVerificationError::IoFailure)
    );
}

#[test]
fn removing_an_absent_setting_does_nothing_and_succeeds() {
    let printed = "    AvailableUpdate    REG_SZ    v0.0.9\r\n";
    let removal = dismiss_update();
    assert_eq!(removal.real_hive_step(None), None);
    assert_eq!(removal.real_hive_step(Some("")), None);
    assert_eq!(removal.real_hive_step(Some(printed)), Some(removal.reg_arguments()));
    assert!(!removal.own_hive_step(false));
    assert!(removal.own_hive_step(true));
    let write = persist_disabled(true);
    assert_eq!(write.real_hive_step(None), Some(write.reg_arguments()));
    assert!(write.own_hive_step(false));
    for packaged in [false, true] {
        assert_eq!(finish_write(packaged, None, None), (Ok(()), true));
        assert_eq!(finish_write(packaged, None, Some(Err(7))), (Err(7), false));
    }
    assert_eq!(finish_write(true, Some(Err(5)), Some(Err(7))), (Err(5), false));
    assert_eq!(finish_write(true, Some(Err(5)), Some(Ok(()))), (Err(5), false));
    assert_eq!(finish_write(true, Some(Ok(())), Some(Ok(()))), (Ok(()), true));
}

#[test]
fn a_manifest_names_this_package_and_both_architectures() {
    let all = [package(ARCHITECTURE_X64), package(ARCHITECTURE_ARM64)];
    assert_eq!(verify_bundle_manifest("v0.0.9", &package(0), &all, PUBLISHER), Ok(()));
    assert_eq!(
        verify_bundle_manifest("v0.0.9", &package(0), &all[..1], PUBLISHER),
        Err(UpdateVerificationError::ArchitectureMismatch)
    );
    assert_eq!(
        verify_bundle_manifest("v0.0.8", &package(0), &all, PUBLISHER),
        Err(UpdateVerificationError::VersionMismatch)
    );
    for (reading, error) in [
        (PackageReading { name: None, ..package(0) }, UpdateVerificationError::IdentityMismatch),
        (
            PackageReading { publisher: None, ..package(0) },
            UpdateVerificationError::PublisherMismatch,
        ),
        (PackageReading { version: None, ..package(0) }, UpdateVerificationError::VersionMismatch),
        (
            PackageReading { architecture: None, ..package(0) },
            UpdateVerificationError::ArchitectureMismatch,
        ),
    ] {
        assert_eq!(verify_package_id(&reading, PUBLISHER, "0.0.9.0"), Err(error));
    }
    assert_eq!(packed_version(0x0001_0002_0003_ffff), "1.2.3.65535");
    assert_eq!(check_staged_path(Some("v0.0.9"), Some(BUNDLE), BUNDLE), Ok(()));
}

#[test]
fn writes_name_their_value() {
    let write = persist_disabled(true);
    assert_eq!((write.name.as_str(), &write.value), ("Disabled", &Some(SettingValue::Dword(1))));
    assert_eq!(
        write.reg_arguments(),
        vec![
            "add",
            r"HKCU\Software\ForwardSlashWindows\Settings",
            "/v",
            "Disabled",
            "/t",
            "REG_DWORD",
            "/d",
            "1",
            "/f",
        ]
    );
    assert_eq!(
        dismiss_update().reg_arguments(),
        vec![
            "delete",
            r"HKCU\Software\ForwardSlashWindows\Settings",
            "/v",
            "AvailableUpdate",
            "/f",
        ]
    );
    assert_eq!(clear_cached_update_tag(), dismiss_update());
    assert_eq!(
        set_cached_update_tag("v0.0.9").value,
        Some(SettingValue::Sz("v0.0.9".to_string()))
    );
    assert_eq!(note_check_attempt(7).value, Some(SettingValue::Qword(7)));
    assert_eq!(
        query_arguments(None),
        vec!["query", r"HKCU\Software\ForwardSlashWindows\Settings"]
    );
    assert!(is_present(Some("    Disabled    REG_DWORD    0x0\r\n"), "disabled"));
    assert!(!is_present(Some(""), "Disabled"));
    assert!(!is_present(None, "Disabled"));
    let writes = write_bare_slash_settings(true, "Ubuntu", None);
    assert!(writes.iter().any(|write| write.value == Some(SettingValue::Sz("Ubuntu".to_string()))));
    assert!(writes.iter().any(|write| write.value == Some(SettingValue::Dword(1))));
}

#[test]
fn the_switch_reads_back_as_it_was_written() {
    for enabled in [false, true] {
        let Some(SettingValue::Dword(value)) = set_auto_update_enabled(enabled).value else {
            panic!("the switch is a number");
        };
        for store in [false, true] {
            assert_eq!(auto_update_from_value(Some(value), store), enabled);
        }
    }
}

#[test]
fn the_first_failure_is_what_a_caller_hears() {
    assert_eq!(settle(&[Ok(()), Ok(())]), Ok(()));
    assert_eq!(settle(&[Err(5), Err(6)]), Err(5));
    assert_eq!(settle(&[Ok(()), Err(6)]), Err(6));
    assert!(is_announced(&Ok(())));
    assert!(!is_announced(&Err(5)));
}

#[test]
fn mirroring_stops_when_the_hives_agree() {
    let stored = StoredSettings {
        disabled: Some(1),
        last_update_check: Some(0x68b8_c0f1),
        bare_slash_distribution: Some("Ubuntu".to_string()),
        bare_slash_root: Some(String::new()),
        ..StoredSettings::default()
    };
    let writes = sync_settings_to_real_hive(true, &stored, &[]);
    let names: Vec<&str> = writes.iter().map(|write| write.name.as_str()).collect();
    assert_eq!(names, vec!["Disabled", "LastUpdateCheck", "BareSlashDistribution"]);
    assert_eq!(merged_settings(&stored).len(), 3);
    let rendered = |write: &SettingWrite| match write.value.as_ref().expect("a value") {
        SettingValue::Dword(value) => ("REG_DWORD", format!("0x{value:x}")),
        SettingValue::Qword(value) => ("REG_QWORD", format!("0x{value:x}")),
        SettingValue::Sz(value) => ("REG_SZ", value.clone()),
    };
    let actual: Vec<(String, RawSetting)> = writes
        .iter()
        .map(|write| {
            let (kind, data) = rendered(write);
            (write.name.clone(), RawSetting { kind: kind.to_string(), data })
        })
        .collect();
    assert!(sync_settings_to_real_hive(true, &stored, &actual).is_empty());
    let printed: String = actual
        .iter()
        .map(|(name, raw)| format!("    {name}    {}    {}\r\n", raw.kind, raw.data))
        .collect();
    assert_eq!(parse_reg_query(&printed), actual);
}

#[test]
fn the_default_is_registered() {
    let lxss = LxssValues {
        names: vec!["Ubuntu".to_string(), "..".to_string(), "Debian".to_string()],
        default_name: Some("debian".to_string()),
    };
    let names = list_registered_distributions(Some(&lxss));
    assert_eq!(names, vec!["Ubuntu", "Debian"]);
    assert_eq!(get_default_distribution(&names, Some("debian")).as_deref(), Some("debian"));
    assert_eq!(get_default_distribution(&names, Some("Arch")), None);
    assert_eq!(get_default_distribution(&names[..1], None).as_deref(), Some("Ubuntu"));
    assert_eq!(single_registered_distribution(&names), None);
    assert!(is_registered_distribution(&names, "UBUNTU"));
    assert!(list_registered_distributions(None).is_empty());
}

#[test]
fn a_probe_is_read_only_where_it_ended_well() {
    for (run, answer) in [
        (ProbeRun::NotStarted, Err(ProbeError::Unavailable)),
        (ProbeRun::NotWaited, Err(ProbeError::Failed)),
        (ProbeRun::TimedOut, Err(ProbeError::TimedOut)),
        (ProbeRun::Ended { success: false, output: None }, Err(ProbeError::Failed)),
        (ProbeRun::Ended { success: true, output: None }, Err(ProbeError::Failed)),
        (
            ProbeRun::Ended { success: true, output: Some("Bypass\r\n".to_string()) },
            Ok(ExecutionPolicy::Bypass),
        ),
        (
            ProbeRun::Ended { success: true, output: Some("odd".to_string()) },
            Err(ProbeError::MalformedOutput),
        ),
    ] {
        assert_eq!(probe_windows_powershell(&run), answer);
    }
    assert_eq!(ExecutionPolicy::AllSigned.as_str(), "AllSigned");
    assert_eq!(
        native_windows_powershell(r"C:\Windows\system32"),
        r"C:\Windows\system32\WindowsPowerShell\v1.0\powershell.exe"
    );
    assert!(!restricted_policy_message().is_empty());
}

#[test]
fn log_lines_name_a_category_only() {
    assert_eq!(DiagEvent::BrokerStarted.line(), "event=broker_started");
    assert_eq!(DiagEvent::SettingsSynced.line(), "event=settings_synced");
}

#[test]
fn names_read_back() {
    for verb in [Verb::Check, Verb::Install, Verb::Status, Verb::ApplyStore, Verb::ApplyBundle] {
        assert_eq!(Verb::parse(verb.name()), Some(verb));
    }
    let words: Vec<String> = ["install", "--relaunch", "none", "--route", "notify", "--previous"]
        .iter()
        .map(|word| (*word).to_string())
        .chain(["1.2.3.4".to_string()])
        .collect();
    let options = parse_args(&words).expect("well formed");
    assert_eq!(options.relaunch, RelaunchMode::Nothing);
    assert_eq!(options.route, Some(Route::Notify));
    assert_eq!(options.previous.as_deref(), Some("1.2.3.4"));
}
