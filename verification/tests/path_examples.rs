//! Paths, roots and targets on concrete values.

use fwdslash::path::{
    eq_ignore_case, is_valid_windows_root, resolve, resolve_strict, resolve_under_root,
    resolve_with_root, simple_upper, single_mapping, BareSlashMode, Context, Registry, RenderBuf,
    ResolveError, Resolved,
};
use fwdslash::target::{
    file_uri_from_native, normalize_native_path, resolve_mnt_drive_resolved, resolve_user_target,
    TargetBase, TargetError, TargetKind, TargetRejection,
};

const REGISTERED: &[&str] = &["Ubuntu", "Debian"];

fn context(mode: BareSlashMode) -> Context<'static, [&'static str]> {
    Context {
        registry: REGISTERED,
        mode,
        preferred: None,
        wsl_default: Some("Debian"),
    }
}

fn strict(input: &str) -> Result<(String, String), ResolveError> {
    let mut buf = RenderBuf::new();
    resolve_strict(input, REGISTERED, &mut buf)
        .map(|path| (path.unc_display().to_string(), path.linux_path().to_string()))
}

#[test]
fn a_linux_path_resolves_to_itself() {
    for input in ["/Ubuntu/a/./b//../c/", "/Ubuntu/", "/ubuntu/x y"] {
        let (_, linux) = strict(input).expect("resolves");
        let again = format!("/Ubuntu{linux}");
        assert_eq!(strict(&again).map(|path| path.1), Ok(linux));
    }
}

#[test]
fn every_display_mirrors_its_linux_path() {
    for input in ["/Ubuntu/a/b", "/Debian/a/b/", "/Ubuntu"] {
        let (unc, linux) = strict(input).expect("resolves");
        let name = &input[1..7];
        let expected = if linux == "/" {
            format!(r"\\wsl.localhost\{name}")
        } else {
            format!(r"\\wsl.localhost\{name}{}", linux.replace('/', "\\"))
        };
        assert_eq!(unc, expected);
    }
}

#[test]
fn the_error_that_comes_first_wins() {
    assert_eq!(strict("x\\\0"), Err(ResolveError::NotASlashPath));
    assert_eq!(strict("//\\\0"), Err(ResolveError::DoubleLeadingSlash));
    assert_eq!(strict("/a\0\\"), Err(ResolveError::EmbeddedNul));
    assert_eq!(strict("/Ubuntu/..\\"), Err(ResolveError::BackslashNotAllowed));
    assert_eq!(strict("/Arch/.."), Err(ResolveError::UnregisteredDistribution));
    assert_eq!(strict("/Ubuntu/.."), Err(ResolveError::TraversalAboveRoot));
    let none: Context<'_, [&str]> = Context {
        wsl_default: None,
        ..context(BareSlashMode::DefaultDistribution)
    };
    let mut buf = RenderBuf::new();
    assert_eq!(
        resolve("/tmp", &none, &mut buf).map(|path| path.unc_display().to_string()),
        Err(ResolveError::NoDefaultDistribution)
    );
    assert!(ResolveError::UnregisteredDistribution.hint_lists_distributions());
    assert!(!ResolveError::EmbeddedNul.hint_lists_distributions());
}

#[test]
fn list_mode_never_picks_a_distribution() {
    for preferred in [None, Some("Ubuntu")] {
        for wsl_default in [None, Some("Debian")] {
            let ctx = Context {
                preferred,
                wsl_default,
                ..context(BareSlashMode::DistributionList)
            };
            let mut buf = RenderBuf::new();
            assert!(matches!(resolve("/", &ctx, &mut buf), Ok(Resolved::WslRoot)));
            assert!(matches!(
                resolve("/etc", &ctx, &mut buf),
                Err(ResolveError::UnregisteredDistribution)
            ));
        }
    }
}

#[test]
fn list_mode_context_has_no_default() {
    let listing = Context::list_mode(REGISTERED);
    let mut buf = RenderBuf::new();
    assert!(matches!(resolve("/", &listing, &mut buf), Ok(Resolved::WslRoot)));
    assert!(resolve("/tmp", &listing, &mut buf).is_err());
}

#[test]
fn roots_are_folders() {
    for root in [r"C:\", "C:", r"C:\code", r"c:\a b", r"\\server\share", r"\\wsl.localhost\Ubuntu\home"] {
        assert!(is_valid_windows_root(root), "{root}");
    }
    for root in [
        "", "code", r"\code", r"\\server", r"\\server\", r"\\?\C:\x", r"\\.\C:\x", "C:/code",
        r"C:\a:b", "C:\\a\0b", "C:\\a\"b",
    ] {
        assert!(!is_valid_windows_root(root), "{root:?}");
    }
}

#[test]
fn what_no_distribution_owns_lands_below_the_root() {
    let mut buf = RenderBuf::new();
    for (input, display) in [
        ("/", r"C:\code"),
        ("/a/b", r"C:\code\a\b"),
        ("/a/", r"C:\code\a\"),
        ("/a/../b", r"C:\code\b"),
    ] {
        let resolved = resolve_under_root(input, r"C:\code", &mut buf).expect("resolves");
        assert_eq!(resolved.unc_display(), display);
        assert_eq!(resolved.distribution(), None);
        assert!(!resolved.is_provider_root());
    }
    assert!(matches!(
        resolve_under_root("/../a", r"C:\code", &mut buf),
        Err(ResolveError::TraversalAboveRoot)
    ));
    // A drive root keeps its separator, and gains no second one.
    let resolved = resolve_under_root("/a", r"C:\", &mut buf).expect("resolves");
    assert_eq!(resolved.unc_display(), r"C:\a");
}

#[test]
fn a_distribution_comes_before_the_root_and_a_malformed_root_is_none() {
    let mut buf = RenderBuf::new();
    for mode in [BareSlashMode::DistributionList, BareSlashMode::DefaultDistribution] {
        let ctx = context(mode);
        let resolved =
            resolve_with_root("/Ubuntu/x", Some(r"C:\code"), &ctx, &mut buf).expect("resolves");
        assert_eq!(resolved.unc_display(), r"\\wsl.localhost\Ubuntu\x");
        let resolved =
            resolve_with_root("/x", Some(r"C:\code"), &ctx, &mut buf).expect("resolves");
        assert_eq!(resolved.unc_display(), r"C:\code\x");
        for malformed in [Some("relative"), None] {
            let with = resolve_with_root("/x", malformed, &ctx, &mut buf)
                .map(|path| path.unc_display().to_string());
            let mut other = RenderBuf::new();
            let without =
                resolve("/x", &ctx, &mut other).map(|path| path.unc_display().to_string());
            assert_eq!(with, without);
        }
    }
}

#[test]
fn folding_takes_single_mappings_only() {
    assert_eq!(simple_upper('a'), 'A');
    assert_eq!(simple_upper('\u{fc}'), '\u{dc}');
    assert_eq!(simple_upper('\u{df}'), '\u{df}', "its mapping has two characters");
    assert_eq!(single_mapping('x', &['S', 'S']), 'x');
    assert_eq!(single_mapping('x', &['Y']), 'Y');
    for (a, b) in [("Ubuntu", "UBUNTU"), ("\u{fc}", "\u{dc}"), ("", "")] {
        assert!(eq_ignore_case(a, a));
        assert!(eq_ignore_case(a, b));
        assert!(eq_ignore_case(b, a));
    }
    assert!(["Ubuntu"].is_registered("uBUNTU"));
    assert!(!["Ubuntu"].is_registered("Ubuntu2"));
}

#[test]
fn a_drive_alias_is_a_folder_and_anything_else_is_not_one() {
    let mut buf = RenderBuf::new();
    let alias = resolve_mnt_drive_resolved("/mnt/d/a/../b/", &mut buf).expect("well formed");
    assert_eq!(alias.expect("an alias").unc_display(), r"D:\b\");
    for input in ["/mnt", "/mnt/", "/mnt/cc/x", "/mnt/1", "/home"] {
        let mut buf = RenderBuf::new();
        assert_eq!(resolve_mnt_drive_resolved(input, &mut buf), Ok(None), "{input}");
    }
    let mut buf = RenderBuf::new();
    assert_eq!(
        resolve_mnt_drive_resolved("/mnt/c/../..", &mut buf),
        Err(ResolveError::TraversalAboveRoot)
    );
}

#[test]
fn normalizing_a_native_path_twice_is_once() {
    for path in [r"C:\a\.\b\..\c", "C:/x//y/", r"\\server\share\a\..", r"C:\"] {
        let chars: Vec<char> = path.chars().collect();
        let once = normalize_native_path(&chars).expect("normal");
        assert_eq!(normalize_native_path(&once), Some(once.clone()), "{path}");
    }
    let chars: Vec<char> = "C:/a/b".chars().collect();
    let once: String = normalize_native_path(&chars).expect("normal").into_iter().collect();
    assert_eq!(once, r"C:\a\b");
}

#[test]
fn every_rejection_has_an_input() {
    let target = |input: &str| resolve_user_target::<[&str]>(input, None, None, None);
    for (input, error) in [
        ("C:\\a\0b", TargetError::Rejected(TargetRejection::InvalidPath)),
        ("file:///C:/x?y", TargetError::Rejected(TargetRejection::InvalidFileUri)),
        ("file:///C:/%", TargetError::Rejected(TargetRejection::InvalidPercentEncoding)),
        (r"\\.\pipe\x", TargetError::Rejected(TargetRejection::DevicePath)),
        ("/Ubuntu", TargetError::NeedsContext),
        ("file:C:/x", TargetError::NeedsContext),
        ("mailto:x", TargetError::NotHandled),
    ] {
        assert_eq!(target(input), Err(error), "{input:?}");
    }
    let ctx = context(BareSlashMode::DistributionList);
    assert_eq!(
        resolve_user_target("/Arch/x", Some(&ctx), None, None),
        Err(TargetError::Rejected(TargetRejection::SlashPath(
            ResolveError::UnregisteredDistribution
        )))
    );
}

#[test]
fn a_slash_target_is_what_the_resolver_makes_of_it() {
    let ctx = context(BareSlashMode::DefaultDistribution);
    let target = resolve_user_target("/tmp/x", Some(&ctx), None, None).expect("resolves");
    assert_eq!(target.kind(), TargetKind::WslDistribution);
    assert_eq!(target.native_path(), r"\\wsl.localhost\Debian\tmp\x");
    assert_eq!(target.to_wsl_path("debian").as_deref(), Some("/tmp/x"));
    assert_eq!(target.to_wsl_path("Ubuntu"), None);
    // A registered distribution comes before the custom root.
    let target =
        resolve_user_target("/Ubuntu/x", Some(&ctx), Some(r"C:\code"), None).expect("resolves");
    assert_eq!(target.native_path(), r"\\wsl.localhost\Ubuntu\x");
    let target =
        resolve_user_target("/tmp", Some(&ctx), Some(r"C:\code"), None).expect("resolves");
    assert_eq!(target.kind(), TargetKind::LocalDrive);
    assert_eq!(target.native_path(), r"C:\code\tmp");
    assert_eq!(target.to_wsl_path("Ubuntu"), None);
    let listing = context(BareSlashMode::DistributionList);
    let root = resolve_user_target("/", Some(&listing), None, None).expect("resolves");
    assert_eq!(root.kind(), TargetKind::NavigationRoot);
    assert_eq!(root.native_path(), r"\\wsl.localhost");
}

#[test]
fn a_relative_base_outside_every_namespace_is_refused() {
    assert!(resolve_user_target::<[&str]>(
        "child",
        None,
        None,
        Some(TargetBase::NativePath("relative"))
    )
    .is_err());
    let ctx = context(BareSlashMode::DistributionList);
    assert!(resolve_user_target(
        "child",
        Some(&ctx),
        None,
        Some(TargetBase::WslDistribution {
            distribution: "Arch",
            linux_path: "/home",
        })
    )
    .is_err());
}

#[test]
fn the_uri_of_a_drive_target_leads_back_to_it() {
    let ctx = context(BareSlashMode::DistributionList);
    for (input, base) in [
        ("/mnt/c/a b/100%#?.txt", None),
        ("/mnt/d", None),
        ("c:/caf\u{e9}/\u{1f680}", None),
        ("file:///C:/a%20b%23", None),
        ("/x/y", None),
        ("child/of base", Some(TargetBase::NativePath(r"c:\base"))),
    ] {
        let target = resolve_user_target(input, Some(&ctx), Some(r"D:\code"), base)
            .unwrap_or_else(|error| panic!("{input}: {error:?}"));
        assert_eq!(target.kind(), TargetKind::LocalDrive, "{input}");
        let uri = target.file_uri().expect("a URI");
        let again = resolve_user_target::<[&str]>(&uri, None, None, None).expect("reads back");
        assert_eq!(again, target, "{input} -> {uri}");
    }
}

#[test]
fn file_uris_are_exact() {
    assert_eq!(file_uri_from_native(r"C:\a b\c#"), "file:///C:/a%20b/c%23");
    assert_eq!(file_uri_from_native(r"\\server\share\x"), "file://server/share/x");
}
