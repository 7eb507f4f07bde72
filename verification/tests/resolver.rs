//! Behavioural contract of the slash-path resolver.

use fwdslash::path::{
    eq_ignore_case, is_valid_distribution_name, resolve, resolve_strict, BareSlashMode, Context,
    RenderBuf, ResolveError, Resolved,
};

const REGISTERED: &[&str] = &["Ubuntu", "Dev Distro", "\u{65e5}\u{672c}\u{8a9e}"];

#[derive(Debug)]
enum Expect {
    /// The provider root that lists distributions.
    Root,
    /// `distribution`, `unc_display`, `linux_path`
    Path(&'static str, &'static str, &'static str),
    Fail(ResolveError),
}

fn check(input: &str, got: &Result<Resolved<'_>, ResolveError>, want: &Expect) {
    match (got, want) {
        (Ok(Resolved::WslRoot), Expect::Root) => {
            assert_eq!(got.as_ref().unwrap().unc_display(), r"\\wsl.localhost");
            assert_eq!(got.as_ref().unwrap().linux_path(), "/");
            assert!(got.as_ref().unwrap().distribution().is_none());
        }
        (Ok(Resolved::Distribution(path)), Expect::Path(distro, unc, linux)) => {
            assert_eq!(path.distribution(), *distro, "distribution for {input:?}");
            assert_eq!(path.unc_display(), *unc, "unc for {input:?}");
            assert_eq!(path.linux_path(), *linux, "linux for {input:?}");
        }
        (Err(error), Expect::Fail(want_error)) => {
            assert_eq!(error, want_error, "error for {input:?}");
        }
        _ => panic!("for {input:?}: got {got:?}, wanted {want:?}"),
    }
}

fn case(
    input: &str,
    mode: BareSlashMode,
    preferred: Option<&str>,
    wsl_default: Option<&str>,
    want: Expect,
) {
    let mut buf = RenderBuf::new();
    let ctx = Context {
        registry: REGISTERED,
        mode,
        preferred,
        wsl_default,
    };
    let got = resolve(input, &ctx, &mut buf);
    check(input, &got, &want);
}

#[test]
fn bare_slash_lists_distributions() {
    case(
        "/", BareSlashMode::DistributionList, None, None,
        Expect::Root,
    );
}

#[test]
fn distribution_root_gains_no_empty_component() {
    case(
        "/Ubuntu/", BareSlashMode::DistributionList, None, None,
        Expect::Path("Ubuntu", r"\\wsl.localhost\Ubuntu", "/"),
    );
}

#[test]
fn dot_segments_normalize_and_trailing_slash_survives() {
    case(
        "/ubuntu/home/me/../project/", BareSlashMode::DistributionList, None, None,
        Expect::Path("ubuntu", r"\\wsl.localhost\ubuntu\home\project\", "/home/project/"),
    );
}

#[test]
fn spaces_resolve() {
    case(
        "/Dev Distro/home/user/My Project", BareSlashMode::DistributionList, None, None,
        Expect::Path("Dev Distro", r"\\wsl.localhost\Dev Distro\home\user\My Project", "/home/user/My Project"),
    );
}

#[test]
fn unicode_resolves() {
    case(
        "/\u{65e5}\u{672c}\u{8a9e}/home/\u{30c6}\u{30b9}\u{30c8}", BareSlashMode::DistributionList, None, None,
        Expect::Path("\u{65e5}\u{672c}\u{8a9e}", "\\\\wsl.localhost\\\u{65e5}\u{672c}\u{8a9e}\\home\\\u{30c6}\u{30b9}\u{30c8}", "/home/\u{30c6}\u{30b9}\u{30c8}"),
    );
}

#[test]
fn drive_letter_is_not_a_slash_path() {
    case(
        "C:/Ubuntu", BareSlashMode::DistributionList, None, None,
        Expect::Fail(ResolveError::NotASlashPath),
    );
}

#[test]
fn double_leading_slash_rejected() {
    case(
        "//Ubuntu", BareSlashMode::DistributionList, None, None,
        Expect::Fail(ResolveError::DoubleLeadingSlash),
    );
}

#[test]
fn unregistered_distribution_rejected() {
    case(
        "/Debian/home", BareSlashMode::DistributionList, None, None,
        Expect::Fail(ResolveError::UnregisteredDistribution),
    );
}

#[test]
fn backslash_rejected() {
    case(
        "/Ubuntu\\home", BareSlashMode::DistributionList, None, None,
        Expect::Fail(ResolveError::BackslashNotAllowed),
    );
}

#[test]
fn traversal_above_distribution_root_rejected() {
    case(
        "/Ubuntu/../Debian", BareSlashMode::DistributionList, None, None,
        Expect::Fail(ResolveError::TraversalAboveRoot),
    );
}

#[test]
fn list_mode_keeps_the_bare_slash_root() {
    case(
        "/", BareSlashMode::DistributionList, None, Some("Ubuntu"),
        Expect::Root,
    );
}

#[test]
fn default_mode_resolves_the_bare_slash() {
    case(
        "/", BareSlashMode::DefaultDistribution, None, Some("Ubuntu"),
        Expect::Path("Ubuntu", r"\\wsl.localhost\Ubuntu", "/"),
    );
}

#[test]
fn registered_pin_wins_over_the_wsl_default() {
    case(
        "/", BareSlashMode::DefaultDistribution, Some("Dev Distro"), Some("Ubuntu"),
        Expect::Path("Dev Distro", r"\\wsl.localhost\Dev Distro", "/"),
    );
}

#[test]
fn bare_slash_pin_preserves_casing() {
    case(
        "/", BareSlashMode::DefaultDistribution, Some("dev distro"), Some("Ubuntu"),
        Expect::Path("dev distro", r"\\wsl.localhost\dev distro", "/"),
    );
}

#[test]
fn unregistered_pin_falls_back_to_the_wsl_default() {
    case(
        "/", BareSlashMode::DefaultDistribution, Some("Debian"), Some("Ubuntu"),
        Expect::Path("Ubuntu", r"\\wsl.localhost\Ubuntu", "/"),
    );
}

#[test]
fn no_usable_default_blocks_the_bare_slash() {
    case(
        "/", BareSlashMode::DefaultDistribution, Some("Debian"), None,
        Expect::Fail(ResolveError::NoDefaultDistribution),
    );
}

#[test]
fn unknown_wsl_default_blocks_the_bare_slash() {
    case(
        "/", BareSlashMode::DefaultDistribution, None, None,
        Expect::Fail(ResolveError::NoDefaultDistribution),
    );
}

#[test]
fn default_mode_leaves_explicit_distribution_paths_alone() {
    case(
        "/Ubuntu/home", BareSlashMode::DefaultDistribution, Some("Ubuntu"), None,
        Expect::Path("Ubuntu", r"\\wsl.localhost\Ubuntu\home", "/home"),
    );
}

#[test]
fn non_distro_path_lands_in_the_default_distribution() {
    case(
        "/tmp/build/log.txt", BareSlashMode::DefaultDistribution, None, Some("Ubuntu"),
        Expect::Path("Ubuntu", r"\\wsl.localhost\Ubuntu\tmp\build\log.txt", "/tmp/build/log.txt"),
    );
}

#[test]
fn non_distro_path_honours_the_pin() {
    case(
        "/tmp", BareSlashMode::DefaultDistribution, Some("Dev Distro"), Some("Ubuntu"),
        Expect::Path("Dev Distro", r"\\wsl.localhost\Dev Distro\tmp", "/tmp"),
    );
}

#[test]
fn non_distro_path_keeps_its_trailing_separator() {
    case(
        "/tmp/", BareSlashMode::DefaultDistribution, None, Some("Ubuntu"),
        Expect::Path("Ubuntu", r"\\wsl.localhost\Ubuntu\tmp\", "/tmp/"),
    );
}

#[test]
fn non_distro_path_normalizes_traversal() {
    case(
        "/tmp/nested/../sibling", BareSlashMode::DefaultDistribution, None, Some("Ubuntu"),
        Expect::Path("Ubuntu", r"\\wsl.localhost\Ubuntu\tmp\sibling", "/tmp/sibling"),
    );
}

#[test]
fn non_distro_path_must_not_escape_the_distribution_root() {
    case(
        "/../escape", BareSlashMode::DefaultDistribution, None, Some("Ubuntu"),
        Expect::Fail(ResolveError::TraversalAboveRoot),
    );
}

#[test]
fn list_mode_still_rejects_an_unregistered_distribution() {
    case(
        "/tmp", BareSlashMode::DistributionList, None, Some("Ubuntu"),
        Expect::Fail(ResolveError::UnregisteredDistribution),
    );
}

#[test]
fn no_usable_default_blocks_a_non_distro_path() {
    case(
        "/tmp", BareSlashMode::DefaultDistribution, Some("Debian"), None,
        Expect::Fail(ResolveError::NoDefaultDistribution),
    );
}

#[test]
fn a_registered_distribution_wins_over_the_default() {
    case(
        "/Dev Distro/home", BareSlashMode::DefaultDistribution, Some("Ubuntu"), Some("Ubuntu"),
        Expect::Path("Dev Distro", r"\\wsl.localhost\Dev Distro\home", "/home"),
    );
}

#[test]
fn empty_input_is_not_a_slash_path() {
    case(
        "", BareSlashMode::DistributionList, None, None,
        Expect::Fail(ResolveError::NotASlashPath),
    );
}

#[test]
fn embedded_nul_rejected() {
    case(
        "/Ubuntu/et\0c", BareSlashMode::DistributionList, None, None,
        Expect::Fail(ResolveError::EmbeddedNul),
    );
}

#[test]
fn double_leading_slash_is_checked_before_nul() {
    case(
        "//\0", BareSlashMode::DistributionList, None, None,
        Expect::Fail(ResolveError::DoubleLeadingSlash),
    );
}

#[test]
fn backslash_is_checked_before_the_distribution_lookup() {
    case(
        "/Debian\\home", BareSlashMode::DistributionList, None, None,
        Expect::Fail(ResolveError::BackslashNotAllowed),
    );
}

#[test]
fn distribution_without_trailing_slash() {
    case(
        "/Ubuntu", BareSlashMode::DistributionList, None, None,
        Expect::Path("Ubuntu", r"\\wsl.localhost\Ubuntu", "/"),
    );
}

#[test]
fn repeated_separators_collapse() {
    case(
        "/Ubuntu//home///project", BareSlashMode::DistributionList, None, None,
        Expect::Path("Ubuntu", r"\\wsl.localhost\Ubuntu\home\project", "/home/project"),
    );
}

#[test]
fn current_directory_segments_vanish() {
    case(
        "/Ubuntu/./home/./.", BareSlashMode::DistributionList, None, None,
        Expect::Path("Ubuntu", r"\\wsl.localhost\Ubuntu\home", "/home"),
    );
}

#[test]
fn traversal_back_to_the_root_is_rejected() {
    case(
        "/Ubuntu/home/../..", BareSlashMode::DistributionList, None, None,
        Expect::Fail(ResolveError::TraversalAboveRoot),
    );
}

#[test]
fn traversal_to_exactly_the_root_is_allowed() {
    case(
        "/Ubuntu/home/..", BareSlashMode::DistributionList, None, None,
        Expect::Path("Ubuntu", r"\\wsl.localhost\Ubuntu", "/"),
    );
}

#[test]
fn three_dots_is_an_ordinary_component() {
    case(
        "/Ubuntu/...", BareSlashMode::DistributionList, None, None,
        Expect::Path("Ubuntu", r"\\wsl.localhost\Ubuntu\...", "/..."),
    );
}

#[test]
fn reserved_characters_pass_through() {
    case(
        "/Ubuntu/a:b", BareSlashMode::DistributionList, None, None,
        Expect::Path("Ubuntu", r"\\wsl.localhost\Ubuntu\a:b", "/a:b"),
    );
}

#[test]
fn an_empty_pin_falls_through_to_the_wsl_default() {
    case(
        "/tmp", BareSlashMode::DefaultDistribution, Some(""), Some("Ubuntu"),
        Expect::Path("Ubuntu", r"\\wsl.localhost\Ubuntu\tmp", "/tmp"),
    );
}

#[test]
fn bare_slash_in_default_mode_reports_a_trailing_separator() {
    // The trailing separator is reported although the root has no component.
    let mut buf = RenderBuf::new();
    let ctx = Context {
        registry: REGISTERED,
        mode: BareSlashMode::DefaultDistribution,
        preferred: None,
        wsl_default: Some("Ubuntu"),
    };
    let Ok(Resolved::Distribution(path)) = resolve("/", &ctx, &mut buf) else {
        panic!("bare slash should resolve in default mode");
    };
    assert!(path.had_trailing_separator());
    assert_eq!(path.unc_display(), r"\\wsl.localhost\Ubuntu");
}

#[test]
fn explicit_distribution_root_without_slash_reports_no_trailing_separator() {
    let mut buf = RenderBuf::new();
    let Ok(Resolved::Distribution(path)) = resolve_strict("/Ubuntu", &REGISTERED, &mut buf) else {
        panic!("should resolve");
    };
    assert!(!path.had_trailing_separator());
}

#[test]
fn win32_normalization_hazard_is_detected() {
    let mut buf = RenderBuf::new();
    for (input, hazard) in [
        ("/Ubuntu/secret ", true),
        ("/Ubuntu/foo.", true),
        ("/Ubuntu/foo.txt", false),
        ("/Ubuntu/plain", false),
    ] {
        let Ok(Resolved::Distribution(path)) = resolve_strict(input, &REGISTERED, &mut buf) else {
            panic!("{input} should resolve");
        };
        assert_eq!(
            path.has_win32_normalization_hazard(),
            hazard,
            "hazard for {input:?} (linux {:?})",
            path.linux_path()
        );
    }
}

#[test]
fn render_buffer_is_reusable_and_results_are_independent() {
    let mut buf = RenderBuf::new();
    for _ in 0..3 {
        let got = resolve_strict("/Ubuntu/home", &REGISTERED, &mut buf);
        assert_eq!(got.unwrap().unc_display(), r"\\wsl.localhost\Ubuntu\home");
    }
}

// ---------------------------------------------------------------------------
// Default mode is a rewrite
// ---------------------------------------------------------------------------

/// Builds `"/" + target + input` and resolves that.
fn reference_rewrite(
    input: &str,
    mode: BareSlashMode,
    preferred: Option<&str>,
    wsl_default: Option<&str>,
    buf: &mut RenderBuf,
) -> Result<(String, String, String), ResolveError> {
    let mut probe = RenderBuf::new();
    let direct = resolve_strict(input, &REGISTERED, &mut probe);
    if mode == BareSlashMode::DistributionList {
        return direct.map(snapshot);
    }
    let passes_through = match &direct {
        Ok(resolved) => !resolved.is_wsl_root(),
        Err(error) => *error != ResolveError::UnregisteredDistribution,
    };
    if passes_through {
        return direct.map(snapshot);
    }

    let target = preferred
        .filter(|name| !name.is_empty() && REGISTERED.is_registered_for_test(name))
        .or_else(|| {
            wsl_default.filter(|name| !name.is_empty() && REGISTERED.is_registered_for_test(name))
        })
        .ok_or(ResolveError::NoDefaultDistribution)?;

    let mut rewritten = String::with_capacity(1 + target.len() + input.len());
    rewritten.push('/');
    rewritten.push_str(target);
    rewritten.push_str(input);
    resolve_strict(&rewritten, &REGISTERED, buf).map(snapshot)
}

fn snapshot(resolved: Resolved<'_>) -> (String, String, String) {
    (
        resolved.distribution().unwrap_or_default().to_owned(),
        resolved.unc_display().to_owned(),
        resolved.linux_path().to_owned(),
    )
}

trait TestRegistry {
    fn is_registered_for_test(&self, name: &str) -> bool;
}
impl TestRegistry for &[&str] {
    fn is_registered_for_test(&self, name: &str) -> bool {
        self.iter().any(|candidate| eq_ignore_case(candidate, name))
    }
}

#[test]
fn rewrite_equivalence() {
    let leading = [
        "",
        "/",
        "/tmp",
        "/tmp/",
        "/Ubuntu",
        "/Ubuntu/",
        "/ubuntu",
        "/Debian",
        "/..",
        "/../..",
        "/.",
        "/./tmp",
        "/tmp/nested/../sibling",
        "/tmp//double",
        "/Dev Distro/x",
        "/a:b",
        "/deep/a/b/c/d/e",
        "/trailing/dot.",
        "/trailing/space ",
    ];
    let pins = [
        None,
        Some("Ubuntu"),
        Some("Dev Distro"),
        Some("dev distro"),
        Some("Debian"),
        Some(""),
    ];
    let defaults = [None, Some("Ubuntu"), Some("Dev Distro"), Some("")];

    let mut checked = 0_u32;
    for input in leading {
        for pref in pins {
            for def in defaults {
                for mode in [BareSlashMode::DistributionList, BareSlashMode::DefaultDistribution] {
                    let mut direct_buf = RenderBuf::new();
                    let mut ref_buf = RenderBuf::new();
                    let ctx = Context {
                        registry: REGISTERED,
                        mode,
                        preferred: pref,
                        wsl_default: def,
                    };
                    let direct = resolve(input, &ctx, &mut direct_buf).map(snapshot);
                    let reference = reference_rewrite(input, mode, pref, def, &mut ref_buf);
                    assert_eq!(
                        direct, reference,
                        "divergence for input={input:?} mode={mode:?} pin={pref:?} default={def:?}"
                    );
                    checked += 1;
                }
            }
        }
    }
    assert!(checked > 500, "corpus shrank unexpectedly: {checked}");
}

// ---------------------------------------------------------------------------
// Helpers
// ---------------------------------------------------------------------------

#[test]
fn case_insensitive_comparison() {
    assert!(eq_ignore_case("Ubuntu", "ubuntu"));
    assert!(eq_ignore_case("UBUNTU", "ubuntu"));
    assert!(eq_ignore_case("Dev Distro", "dev distro"));
    assert!(!eq_ignore_case("Ubuntu", "Debian"));
    assert!(!eq_ignore_case("Ubuntu", "Ubuntu2"));
    assert!(eq_ignore_case("", ""));
    // Non-ASCII, uncased script: unaffected by folding.
    assert!(eq_ignore_case(
        "\u{65e5}\u{672c}\u{8a9e}",
        "\u{65e5}\u{672c}\u{8a9e}"
    ));
    // Non-ASCII, cased.
    assert!(eq_ignore_case("\u{dc}nicode", "\u{fc}nicode"));
}

#[test]
fn distribution_name_validation() {
    assert!(is_valid_distribution_name("Ubuntu"));
    assert!(is_valid_distribution_name("Dev Distro"));
    assert!(is_valid_distribution_name("\u{65e5}\u{672c}\u{8a9e}"));
    assert!(is_valid_distribution_name("openSUSE-Tumbleweed"));
    assert!(!is_valid_distribution_name(""));
    assert!(!is_valid_distribution_name("."));
    assert!(!is_valid_distribution_name(".."));
    assert!(!is_valid_distribution_name("a/b"));
    assert!(!is_valid_distribution_name("a\\b"));
    assert!(!is_valid_distribution_name("a:b"));
    assert!(!is_valid_distribution_name("a\u{1}b"));
}

#[test]
fn error_names_match_the_cpp_wire_values() {
    // These strings are emitted as `reason=<name>` into the diagnostic log.
    for (error, name) in [
        (ResolveError::NotASlashPath, "not_a_slash_path"),
        (ResolveError::DoubleLeadingSlash, "double_leading_slash"),
        (ResolveError::MissingDistribution, "missing_distribution"),
        (
            ResolveError::UnregisteredDistribution,
            "unregistered_distribution",
        ),
        (ResolveError::BackslashNotAllowed, "backslash_not_allowed"),
        (ResolveError::EmbeddedNul, "embedded_nul"),
        (ResolveError::TraversalAboveRoot, "traversal_above_root"),
        (
            ResolveError::NoDefaultDistribution,
            "no_default_distribution",
        ),
    ] {
        assert_eq!(error.name(), name);
        assert!(!error.message().is_empty());
    }
}

#[test]
fn case_folding_matches_the_win32_simple_uppercase_table() {
    // CompareStringOrdinal(.., TRUE) folds through the *simple* uppercase table,
    // which is 1:1 and never changes length. Rust's char::to_uppercase is the
    // *full* mapping and expands some characters, so the resolver takes only the
    // single-character mappings. These are the cases where that matters.

    // Turkish dotted/dotless I: both agree with Win32.
    assert!(
        !eq_ignore_case("\u{130}", "i"),
        "U+0130 has no simple lowercase to 'i'"
    );
    assert!(
        eq_ignore_case("\u{131}", "I"),
        "U+0131 simple-uppercases to 'I'"
    );

    // Full-mapping expansions must NOT collapse, or a distribution named
    // \u{df} would compare equal to one named SS.
    assert!(!eq_ignore_case("\u{df}", "SS"));
    assert!(!eq_ignore_case("stra\u{df}e", "STRASSE"));
    assert!(!eq_ignore_case("\u{fb01}", "FI"), "ligature fi vs FI");

    // Ordinary cased non-ASCII still folds.
    assert!(eq_ignore_case("\u{fc}nicode", "\u{dc}NICODE"));
    assert!(eq_ignore_case("\u{e9}t\u{e9}", "\u{c9}T\u{c9}"));
}
