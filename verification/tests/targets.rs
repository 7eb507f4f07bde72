//! What a user's input names: a drive, a share, a place in a distribution, or
//! nothing that is a path.

use fwdslash::path::{BareSlashMode, Context};
use fwdslash::target::{
    resolve_user_target, TargetBase, TargetError, TargetKind, TargetRejection, UserTarget,
};

fn ubuntu_context() -> Context<'static, [&'static str]> {
    let registry: &'static [&'static str] = &["Ubuntu"];
    Context {
        registry,
        mode: BareSlashMode::DistributionList,
        preferred: None,
        wsl_default: None,
    }
}

#[test]
fn mounted_drive_is_local_even_when_destination_does_not_exist() {
    let target = resolve_user_target(
        "/mnt/c/not-created-yet/release notes.txt",
        None::<&Context<'_, [&str]>>,
        None,
        None,
    )
    .expect("a local mount alias needs no WSL registry");

    assert_eq!(target.kind(), TargetKind::LocalDrive);
    assert_eq!(
        target.native_path(),
        r"C:\not-created-yet\release notes.txt"
    );
    assert_eq!(target.to_wsl_path("Ubuntu"), None);
}

#[test]
fn explicit_distribution_mount_preserves_its_actual_linux_context() {
    let context = ubuntu_context();
    let target = resolve_user_target("/Ubuntu/mnt/c/project/file.txt", Some(&context), None, None)
        .expect("explicit distribution target");

    assert_eq!(target.kind(), TargetKind::WslDistribution);
    assert_eq!(
        target.native_path(),
        r"\\wsl.localhost\Ubuntu\mnt\c\project\file.txt"
    );
    assert_eq!(
        target.to_wsl_path("Ubuntu").as_deref(),
        Some("/mnt/c/project/file.txt")
    );
    assert_eq!(target.to_wsl_path("Debian"), None);
}

#[test]
fn native_drive_and_unc_targets_remain_distinct() {
    let drive = resolve_user_target(
        r"C:\save-destinations\future file.txt",
        None::<&Context<'_, [&str]>>,
        None,
        None,
    )
    .expect("native drive");
    let unc = resolve_user_target(
        r"\\server\share\future file.txt",
        None::<&Context<'_, [&str]>>,
        None,
        None,
    )
    .expect("native UNC");

    assert_eq!(drive.kind(), TargetKind::LocalDrive);
    assert_eq!(unc.kind(), TargetKind::NativeUNC);
    assert_eq!(unc.native_path(), r"\\server\share\future file.txt");
}

#[test]
fn file_uri_round_trips_spaces_unicode_percent_and_hash() {
    let native = r"C:\save destinations\café 100%#.txt";
    let target = resolve_user_target(native, None::<&Context<'_, [&str]>>, None, None)
        .expect("native input");
    let uri = target.file_uri().expect("file URI");

    assert_eq!(
        uri,
        "file:///C:/save%20destinations/caf%C3%A9%20100%25%23.txt"
    );
    let reparsed = resolve_user_target(&uri, None::<&Context<'_, [&str]>>, None, None)
        .expect("file URI input");
    assert_eq!(reparsed.native_path(), native);
}

#[test]
fn malformed_percent_and_encoded_separator_are_rejected() {
    assert!(matches!(
        resolve_user_target(
            "file:///C:/bad%ZZ",
            None::<&Context<'_, [&str]>>,
            None,
            None,
        ),
        Err(TargetError::Rejected(
            TargetRejection::InvalidPercentEncoding
        ))
    ));
    assert!(matches!(
        resolve_user_target(
            "file:///C:%2Fescaped",
            None::<&Context<'_, [&str]>>,
            None,
            None,
        ),
        Err(TargetError::Rejected(TargetRejection::InvalidFileUri))
    ));
}

#[test]
fn devices_relatives_and_https_do_not_enter_navigation() {
    assert!(matches!(
        resolve_user_target(r"\\?\C:\secret", None::<&Context<'_, [&str]>>, None, None,),
        Err(TargetError::Rejected(TargetRejection::DevicePath))
    ));
    assert_eq!(
        resolve_user_target("new-folder", None::<&Context<'_, [&str]>>, None, None,),
        Err(TargetError::NeedsContext)
    );
    assert_eq!(
        resolve_user_target(
            "https://example.test/path",
            None::<&Context<'_, [&str]>>,
            None,
            None,
        ),
        Err(TargetError::NotHandled)
    );
}

fn target(input: &str) -> UserTarget {
    resolve_user_target::<[&str]>(input, None, None, None)
        .unwrap_or_else(|error| panic!("{input:?}: {error:?}"))
}

#[test]
fn native_file_uri_round_trip_matrix() {
    for path in [
        "C:\\",
        r"D:\not-created-by-this-test\save target.txt",
        r"C:\literal%2F.txt",
        r"C:\literal%5c.txt",
        r"C:\literal%252f.txt",
        r"C:\100%#done.txt",
        r"C:\semi;and&plus+equals=bang!.txt",
        r"C:\brackets[1](2)\file.txt",
        "C:\\caf\u{e9}\\\u{65e5}\u{672c}\u{8a9e}\\\u{1f680}.txt",
        "C:\\decomposed-e\u{301}.txt",
        r"\\server\share",
        r"\\server\share\a b\100%#.txt",
        "\\\\server\\share\\caf\u{e9}.txt",
    ] {
        let original = target(path);
        let uri = original.file_uri().expect("native target has file URI");
        let decoded = target(&uri);
        assert_eq!(
            decoded.native_path(),
            original.native_path(),
            "{path:?} -> {uri}"
        );
        assert_eq!(decoded.kind(), original.kind(), "{uri}");
    }
}

#[test]
fn file_scheme_and_local_authority_are_case_insensitive() {
    for uri in [
        "file:///C:/some%20folder/file.txt",
        "FILE:///C:/some%20folder/file.txt",
        "File:///C:/some%20folder/file.txt",
        "file://localhost/C:/some%20folder/file.txt",
        "file://LOCALHOST/C:/some%20folder/file.txt",
    ] {
        let resolved = target(uri);
        assert_eq!(resolved.kind(), TargetKind::LocalDrive, "{uri}");
        assert_eq!(resolved.native_path(), r"C:\some folder\file.txt", "{uri}");
    }
}

#[test]
fn file_uri_never_reinterprets_query_fragment_or_userinfo_as_filename() {
    for uri in [
        "file:///C:/safe.txt?download=1",
        "file:///C:/safe.txt#fragment",
        "file://user@server/share/file.txt",
        "file://server:443/share/file.txt",
    ] {
        assert!(
            resolve_user_target::<[&str]>(uri, None, None, None).is_err(),
            "{uri}"
        );
    }
}

#[test]
fn malformed_and_control_percent_encodings_are_rejected() {
    for uri in [
        "file:///C:/bad%",
        "file:///C:/bad%1",
        "file:///C:/bad%GG",
        "file:///C:/bad%FF",
        "file:///C:/bad%C0%AF",
        "file:///C:/bad%ED%A0%80",
        "file:///C:/bad%00.txt",
        "file:///C:/bad%0A.txt",
        "file:///C:/bad%0D.txt",
        "file:///C:/a%2Fb.txt",
        "file:///C:/a%2fb.txt",
        "file:///C:/a%5Cb.txt",
        "file:///C:/a%5cb.txt",
    ] {
        assert!(
            resolve_user_target::<[&str]>(uri, None, None, None).is_err(),
            "{uri}"
        );
    }
}

#[test]
fn device_namespaces_never_enter_user_target_routing() {
    for path in [
        r"\\?\C:\secret",
        r"\\.\C:\secret",
        r"\\?\UNC\server\share\secret",
        r"\??\C:\secret",
        "//?/C:/secret",
        "//./C:/secret",
        "file://%3F/C:/secret",
        "C:\\bad\0name",
    ] {
        assert!(
            resolve_user_target::<[&str]>(path, None, None, None).is_err(),
            "{path:?}"
        );
    }
}

#[test]
fn ordinary_urls_and_shell_tokens_do_not_become_paths() {
    for input in [
        "https://example.com/mnt/c/path",
        "https://mnt/c/path",
        "http://mnt/c/path",
        "ftp://server/path",
        "mailto:user@example.com",
        "about:blank",
        "javascript:alert(1)",
        "data:text/plain,hello",
        "shell:Downloads",
        "--help",
        "C:relative.txt",
        "relative.txt",
    ] {
        assert!(
            resolve_user_target::<[&str]>(input, None, None, None).is_err(),
            "{input}"
        );
    }
}

#[test]
fn relative_targets_require_explicit_base_namespace() {
    let native = resolve_user_target::<[&str]>(
        "child.txt",
        None,
        None,
        Some(TargetBase::NativePath(r"C:\base")),
    )
    .unwrap();
    assert_eq!(native.kind(), TargetKind::LocalDrive);
    assert_eq!(native.native_path(), r"C:\base\child.txt");

    let distributions = ["Ubuntu", "Debian"];
    let context = Context {
        registry: &distributions[..],
        mode: BareSlashMode::DistributionList,
        preferred: None,
        wsl_default: None,
    };
    let linux = resolve_user_target(
        "child.txt",
        Some(&context),
        None,
        Some(TargetBase::WslDistribution {
            distribution: "Ubuntu",
            linux_path: "/home/user",
        }),
    )
    .unwrap();
    assert_eq!(linux.kind(), TargetKind::WslDistribution);
    assert_eq!(
        linux.to_wsl_path("Ubuntu").as_deref(),
        Some("/home/user/child.txt")
    );
    assert!(linux.to_wsl_path("Debian").is_none());
}

#[test]
fn mnt_drive_is_local_and_keeps_mount_provenance() {
    let target =
        resolve_user_target("/mnt/c/work/a#b", None::<&Context<'_, [&str]>>, None, None)
            .expect("mount target");
    assert_eq!(target.kind(), TargetKind::LocalDrive);
    assert_eq!(target.native_path(), r"C:\work\a#b");
    assert_eq!(target.file_uri().expect("URI"), "file:///C:/work/a%23b");
    assert_eq!(target.to_wsl_path("Ubuntu"), None);
}

#[test]
fn explicit_distribution_mount_stays_wsl() {
    let distributions: &[&str] = &["Ubuntu"];
    let context = Context {
        registry: distributions,
        mode: BareSlashMode::DistributionList,
        preferred: None,
        wsl_default: None,
    };
    let target = resolve_user_target("/Ubuntu/mnt/c/work", Some(&context), None, None)
        .expect("WSL target");
    assert_eq!(target.kind(), TargetKind::WslDistribution);
    assert_eq!(target.native_path(), r"\\wsl.localhost\Ubuntu\mnt\c\work");
}

#[test]
fn native_and_file_uri_round_trip_unicode_and_reserved_characters() {
    let target =
        resolve_user_target(r"C:\café\100%#", None::<&Context<'_, [&str]>>, None, None)
            .expect("native target");
    let uri = target.file_uri().expect("URI");
    assert_eq!(uri, "file:///C:/caf%C3%A9/100%25%23");
    let reparsed = resolve_user_target(&uri, None::<&Context<'_, [&str]>>, None, None)
        .expect("reparsed target");
    assert_eq!(reparsed.native_path(), target.native_path());
}

#[test]
fn relative_requires_base_and_device_paths_are_rejected() {
    assert_eq!(
        resolve_user_target("new-folder", None::<&Context<'_, [&str]>>, None, None),
        Err(TargetError::NeedsContext)
    );
    assert_eq!(
        resolve_user_target(r"\\?\\C:\\secret", None::<&Context<'_, [&str]>>, None, None),
        Err(TargetError::Rejected(TargetRejection::DevicePath))
    );
}

#[test]
fn http_and_shell_forms_are_not_paths() {
    assert_eq!(
        resolve_user_target(
            "https://example.test/a",
            None::<&Context<'_, [&str]>>,
            None,
            None
        ),
        Err(TargetError::NotHandled)
    );
    assert_eq!(
        resolve_user_target("%USERPROFILE%", None::<&Context<'_, [&str]>>, None, None),
        Err(TargetError::NotHandled)
    );
}
