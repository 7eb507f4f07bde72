//! Releases, downloads and the update directory on concrete values.

use fwdslash::package::{
    is_store_flavor, package_architecture, package_family, package_version, version_defines,
    FSW_VERSION,
};
use fwdslash::settings::{cached_update_tag, last_update_check, read_auto_update_enabled};
use fwdslash::settings_write::{note_check_attempt, StoredSettings};
use fwdslash::sha256::sha256_hex;
use fwdslash::update::{
    begin_check, bundle_name, check_should_run, download_path, expected_bundle_url, expected_bundle_version,
    extract_bundle_digest, extract_tag_name, finish_download, is_newer_available_version, is_newer_github_release,
    is_newer_package_version, is_prunable, parse_package_version, parse_release_tag,
    pending_bundle_path, release_text, run_update_check, sweep_update_directory, update_directory_path,
    verify_download, CheckFacts, CheckStep, PendingBundle, Removal, ResponseBody, UpdateOutcome,
    UpdateVerificationError, Version,
};

const DIGEST: &str = "ba7816bf8f01cfea414140de5dae2223b00361a396177a9cb410ff61f20015ad";
const URL: &str =
    "https://github.com/faratech/fwdslash/releases/download/v0.0.9/fwdslash-0.0.9.0.msixbundle";

fn release(digest: &str) -> String {
    format!(
        "{{\"tag_name\":\"v0.0.9\",\"assets\":[{{\"digest\":\"sha256:{digest}\",\
         \"browser_download_url\":\"{URL}\"}}]}}"
    )
}

fn facts() -> CheckFacts {
    CheckFacts {
        store_flavor: false,
        packaged: true,
        auto_update: true,
        force: false,
        last_check: None,
        now: 1_000_000,
    }
}

#[test]
fn release_tags_are_canonical() {
    assert_eq!(
        parse_release_tag("v1.2.3"),
        Some(Version {
            major: 1,
            minor: 2,
            patch: 3,
        })
    );
    for text in ["1.2.3", "V1.2.3", "vv1.2.3", "v1.2", "v1.2.3.4", "v1.2.3-rc1", ""] {
        assert_eq!(parse_release_tag(text), None, "{text:?}");
    }
    assert_eq!(expected_bundle_version("v0.0.9").as_deref(), Some("0.0.9.0"));
    assert_eq!(expected_bundle_version("0.0.9"), None);
    assert_eq!(expected_bundle_url("v0.0.9").as_deref(), Some(URL));
    assert_eq!(bundle_name("v0.0.9"), "fwdslash-0.0.9.0.msixbundle");
    assert_eq!(bundle_name("odd"), "fwdslash-odd.msixbundle");
}

#[test]
fn the_first_tag_wins_in_either_spelling() {
    for (json, tag) in [
        (r#"{"tag_name": "v0.0.3","prev":{"tag_name":"v0.0.2"}}"#, Some("v0.0.3")),
        (r#"{"tag_name":"v0.0.3","prev":{"tag_name": "v0.0.2"}}"#, Some("v0.0.3")),
        (r#"{"tag_name": "v0.0.3"}"#, Some("v0.0.3")),
        (r#"{"tag_name":"v0.0.3"#, None),
        (r#"{"name":"v0.0.3"}"#, None),
    ] {
        assert_eq!(extract_tag_name(json), tag, "{json}");
    }
    // A later mention of another release changes nothing.
    let quoting = release(DIGEST)
        .replace("\"tag_name\":", "\"tag_name\": ")
        .replace("]}", "],\"body\":{\"tag_name\":\"v9.9.9\"}}");
    assert!(matches!(
        run_update_check(&facts(), Some(&quoting), "0.0.8.0"),
        CheckStep::Download { tag, .. } if tag == "v0.0.9"
    ));
}

#[test]
fn package_versions_compare_by_all_four_numbers() {
    assert_eq!(parse_package_version("1.2.3.65535"), Some([1, 2, 3, 65_535]));
    assert_eq!(parse_package_version("1.2.3.65536"), None);
    assert_eq!(parse_package_version("1.2.3"), None);
    assert!(is_newer_package_version("1.2.3.4", "1.2.3.5"));
    assert!(is_newer_package_version("1.2.3.9", "1.2.3.10"));
    assert!(!is_newer_package_version("1.2.3.4", "1.2.3.4"));
    assert!(!is_newer_package_version("1.2.3", "1.2.3.4"));
    assert!(is_newer_github_release("0.0.8.0", "v0.0.9"));
    assert!(!is_newer_github_release("0.0.9.0", "v0.0.9"));
    assert!(is_newer_available_version("0.0.8.0", "v0.0.9"));
    assert!(is_newer_available_version("0.0.8.0", "0.0.8.1"));
    assert!(!is_newer_available_version("0.0.8.0", "0.0.8.0"));
}

#[test]
fn a_check_runs_when_it_is_due_and_allowed() {
    assert!(check_should_run(&facts()));
    assert!(!check_should_run(&CheckFacts { packaged: false, ..facts() }));
    assert!(!check_should_run(&CheckFacts { store_flavor: true, ..facts() }));
    assert!(!check_should_run(&CheckFacts { last_check: Some(999_999), ..facts() }));
    assert!(check_should_run(&CheckFacts { last_check: Some(999_999), force: true, ..facts() }));
}

#[test]
fn every_check_that_runs_is_recorded_first() {
    assert_eq!(begin_check(&facts()), Some(note_check_attempt(1_000_000)));
    assert_eq!(begin_check(&CheckFacts { packaged: false, ..facts() }), None);
    assert_eq!(begin_check(&CheckFacts { last_check: Some(999_999), ..facts() }), None);
    assert!(begin_check(&CheckFacts { last_check: Some(999_999), force: true, ..facts() }).is_some());
}

#[test]
fn a_release_answer_is_text_or_nothing() {
    assert_eq!(release_text(Some(b"caf\xc3\xa9".to_vec())).as_deref(), Some("caf\u{e9}"));
    assert_eq!(release_text(Some(vec![0xff])), None);
    assert_eq!(release_text(None), None);
}

#[test]
fn a_check_only_ever_downloads_a_newer_release() {
    let json = release(DIGEST);
    assert_eq!(
        run_update_check(&facts(), Some(&json), "0.0.8.0"),
        CheckStep::Download {
            url: URL.to_string(),
            tag: "v0.0.9".to_string(),
            digest: DIGEST.to_string(),
        }
    );
    assert_eq!(run_update_check(&facts(), Some(&json), "0.0.9.0"), CheckStep::Forget);
    assert_eq!(
        run_update_check(&facts(), None, "0.0.8.0"),
        CheckStep::Report(UpdateOutcome::Unavailable)
    );
    assert_eq!(
        run_update_check(&CheckFacts { packaged: false, ..facts() }, Some(&json), "0.0.8.0"),
        CheckStep::Report(UpdateOutcome::NotDue)
    );
    assert_eq!(extract_bundle_digest(&json, URL), Some(DIGEST));
    assert_eq!(extract_bundle_digest(&release("beef"), URL), None);
}

#[test]
fn a_download_is_announced_only_where_it_held() {
    assert_eq!(
        finish_download("v0.0.9", Ok(())),
        UpdateOutcome::Ready("v0.0.9".to_string())
    );
    assert_eq!(
        finish_download("v0.0.9", Err(UpdateVerificationError::DigestMismatch)),
        UpdateOutcome::VerificationFailed(UpdateVerificationError::DigestMismatch)
    );
    assert_eq!(verify_download(b"abc", DIGEST), Ok(()));
    assert_eq!(
        verify_download(b"abd", DIGEST),
        Err(UpdateVerificationError::DigestMismatch)
    );
    assert_eq!(
        download_path(URL, "v0.0.9").as_deref(),
        Ok("/faratech/fwdslash/releases/download/v0.0.9/fwdslash-0.0.9.0.msixbundle")
    );
    assert!(download_path("https://example.com/x", "v0.0.9").is_err());
    assert_eq!(sha256_hex(b"abc").as_deref(), Some(DIGEST));
}

#[test]
fn every_failure_has_its_own_words() {
    let all = [
        UpdateVerificationError::IoFailure,
        UpdateVerificationError::UntrustedOrigin,
        UpdateVerificationError::AssetNameMismatch,
        UpdateVerificationError::SignatureFailure,
        UpdateVerificationError::PublisherMismatch,
        UpdateVerificationError::IdentityMismatch,
        UpdateVerificationError::ArchitectureMismatch,
        UpdateVerificationError::VersionMismatch,
        UpdateVerificationError::DigestMismatch,
        UpdateVerificationError::TimedOut,
    ];
    for (at, error) in all.iter().enumerate() {
        assert!(!error.message().is_empty());
        for other in &all[at + 1..] {
            assert_ne!(error.code(), other.code());
            assert_ne!(error.message(), other.message());
        }
    }
}

#[test]
fn a_body_grows_by_its_chunks_and_a_failed_read_loses_it() {
    let mut body = ResponseBody::new();
    assert!(body.take_chunk(Some(b"ab")));
    assert!(body.take_chunk(Some(b"")), "a read of no bytes is not the end");
    assert!(body.take_chunk(Some(b"c")));
    assert_eq!(body.finish(Some(200)), Some(b"abc".to_vec()));
    let mut body = ResponseBody::new();
    assert!(body.take_chunk(Some(b"ab")));
    assert!(!body.take_chunk(None));
    assert_eq!(body.finish(Some(200)), Some(Vec::new()));
    assert_eq!(ResponseBody::new().finish(Some(404)), None);
    assert_eq!(ResponseBody::new().finish(None), None);
}

#[test]
fn only_bundles_and_their_digests_are_pruned() {
    let keep = Some("fwdslash-0.0.9.0.msixbundle");
    assert!(!is_prunable("fwdslash-0.0.9.0.msixbundle", keep));
    assert!(!is_prunable("fwdslash-0.0.9.0.msixbundle.sha256", keep));
    assert!(is_prunable("fwdslash-0.0.8.0.msixbundle", keep));
    assert!(is_prunable("fwdslash-0.0.8.0.MSIXBUNDLE", keep));
    assert!(is_prunable("fwdslash-0.0.8.0.msixbundle.sha256", keep));
    assert!(is_prunable("fwdslash-0.0.9.0.msixbundle", None));
    assert!(!is_prunable("last-result.txt", None));
    assert!(!is_prunable(".msixbundle", None), "a name without an extension");
}

#[test]
fn a_pending_bundle_is_newer_than_what_runs() {
    assert_eq!(
        pending_bundle_path(Some(r"C:\u"), Some("v0.0.9"), "0.0.8.0"),
        PendingBundle::At(r"C:\u\fwdslash-0.0.9.0.msixbundle".to_string())
    );
    assert_eq!(
        pending_bundle_path(Some(r"C:\u"), Some("v0.0.9"), "0.0.9.0"),
        PendingBundle::Stale
    );
    assert_eq!(pending_bundle_path(Some(r"C:\u"), None, "0.0.8.0"), PendingBundle::Nothing);
    assert_eq!(pending_bundle_path(None, Some("v0.0.9"), "0.0.8.0"), PendingBundle::Nothing);
}

#[test]
fn the_update_directory_and_its_removal() {
    for (folder, path) in [
        (r"C:\Users\me\AppData\Local", r"C:\Users\me\AppData\Local\ForwardSlashWindows\update"),
        (r"C:\local\", r"C:\local\ForwardSlashWindows\update"),
        ("C:", r"C:ForwardSlashWindows\update"),
        ("", r"ForwardSlashWindows\update"),
    ] {
        assert_eq!(update_directory_path(Some(folder)).as_deref(), Some(path));
    }
    assert_eq!(update_directory_path(None), None);
    assert_eq!(sweep_update_directory(None), Ok(()));
    assert_eq!(sweep_update_directory(Some(Removal::Done)), Ok(()));
    assert_eq!(sweep_update_directory(Some(Removal::NotFound)), Ok(()));
    assert_eq!(sweep_update_directory(Some(Removal::Failed(Some(5)))), Err(5));
    assert_eq!(
        sweep_update_directory(Some(Removal::Failed(Some(-2)))),
        Err((-2_i32) as u32)
    );
    assert_eq!(
        sweep_update_directory(Some(Removal::Failed(None))),
        Err((-1_i32) as u32)
    );
}

#[test]
fn stored_update_values() {
    let stored = StoredSettings {
        auto_update: Some(1),
        last_update_check: Some(7),
        available_update: Some("v0.0.9".to_string()),
        ..StoredSettings::default()
    };
    assert!(!read_auto_update_enabled(Some(&stored), false));
    assert!(read_auto_update_enabled(None, false));
    assert!(!read_auto_update_enabled(None, true));
    assert_eq!(cached_update_tag(Some(&stored)).as_deref(), Some("v0.0.9"));
    assert_eq!(last_update_check(Some(&stored)), Some(7));
    let empty = StoredSettings {
        available_update: Some(String::new()),
        ..StoredSettings::default()
    };
    assert_eq!(cached_update_tag(Some(&empty)), None);
    assert_eq!(cached_update_tag(None), None);
    assert_eq!(last_update_check(None), None);
}

#[test]
fn a_full_name_reads_back_as_its_parts() {
    let full = Some("32827MikeFara.fwdslash_0.0.4.0_arm64__t6j5qexy2jpp2");
    assert_eq!(
        package_family(full).as_deref(),
        Some("32827MikeFara.fwdslash_t6j5qexy2jpp2")
    );
    assert_eq!(package_architecture(full).as_deref(), Some("arm64"));
    assert_eq!(package_version(full).as_deref(), Some("0.0.4.0"));
    assert!(is_store_flavor(full));
    assert!(!is_store_flavor(Some("fwdslash_0.0.4.0_x64__abc")));
    assert!(!is_store_flavor(None));
    assert_eq!(package_version(None), None);
}

#[test]
fn version_defines_have_four_fields() {
    assert_eq!(
        version_defines("0.0.4"),
        ("FSW_VER_COMMAS=0,0,4,0".to_string(), "FSW_VER_STR=\"0.0.4\"".to_string())
    );
    assert_eq!(version_defines("1.2.3.4.5").0, "FSW_VER_COMMAS=1,2,3,4");
    assert_eq!(version_defines("").0, "FSW_VER_COMMAS=,0,0,0");
    assert_eq!(FSW_VERSION, "0.0.4");
}
