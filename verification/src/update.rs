//! Release versions, the release description, and the decisions of the update
//! check.
//!
//! The check is a dialogue: the caller reads the settings and the network, this
//! module decides what they mean and what to do next.

use crate::percent::string_from_utf8;
use crate::settings_write::{note_check_attempt, write_of, SettingText, SettingWrite};
use crate::sha256::{digest_text, sha256_hex};
use crate::text::{
    alpha, begins, chars_of, decimal, ends, ends_with, find, find_char, find_from,
    find_last_char, first_occurrence, first_occurrence_from, hex, index_of, is_alpha, is_hex,
    last_index_of, lemma_first_occurrence, lemma_index_of, lemma_last_index_of,
    lemma_trim_front, number_up_to, parse_number, part, push_chars, push_decimal, same,
    same_ignoring_case, same_text_ignoring_case, split, split_chars, starts_with, string_in,
    string_of, trim_front, trim_start,
};
use vstd::prelude::*;
use vstd::utf8::{decode_utf8, valid_utf8};

verus! {

/// The endpoint that describes the latest release.
pub const RELEASES_LATEST_URL: &'static str =
    "https://api.github.com/repos/faratech/fwdslash/releases/latest";

/// The host and the path of that address, as they are requested.
pub const RELEASES_HOST: &'static str = "api.github.com";

pub const RELEASES_PATH: &'static str = "/repos/faratech/fwdslash/releases/latest";

/// One update check per day, at most.
pub const CHECK_CADENCE_SECS: u64 = 24 * 60 * 60;

pub const AUTO_UPDATE_VALUE: &'static str = "AutoUpdate";

pub const LAST_UPDATE_CHECK_VALUE: &'static str = "LastUpdateCheck";

pub const AVAILABLE_UPDATE_VALUE: &'static str = "AvailableUpdate";

/// Optional override for the install ladder: `auto` (the default when absent),
/// `appinstall`, `store`, `winget`, `notify`.
pub const UPDATE_ROUTE_VALUE: &'static str = "UpdateRoute";

/// The file the identity-less update helper reports through.
pub const UPDATE_RESULT_FILE: &'static str = "last-result.txt";

/// The largest response body that is kept, in bytes.
pub const MAX_BODY_BYTES: usize = 128 * 1024 * 1024;

/// The name suffix of the Microsoft Store submission artifact, which is unsigned
/// and must never be picked.
pub const STORE_BUNDLE_SUFFIX: &'static str = "-store-unsigned.msixbundle";

/// A security-relevant update verification failure. The text is stable and holds
/// no URL, filesystem path, certificate subject, or raw error code.
#[derive(Debug, Clone, Copy, PartialEq, Eq, Structural)]
pub enum UpdateVerificationError {
    /// The staged update files or their protected location could not be read.
    IoFailure,
    UntrustedOrigin,
    AssetNameMismatch,
    SignatureFailure,
    PublisherMismatch,
    IdentityMismatch,
    ArchitectureMismatch,
    VersionMismatch,
    DigestMismatch,
    /// Package deployment did not complete within the bounded helper lifetime.
    TimedOut,
}

impl UpdateVerificationError {
    /// The sentence shown to the user.
    pub open spec fn message_text(self) -> Seq<char> {
        match self {
            UpdateVerificationError::IoFailure => "The staged update files could not be read safely."@,
            UpdateVerificationError::UntrustedOrigin => {
                "The update did not come from the trusted release origin."@
            },
            UpdateVerificationError::AssetNameMismatch => {
                "The release asset name does not match the release tag."@
            },
            UpdateVerificationError::SignatureFailure => {
                "The update package signature could not be verified."@
            },
            UpdateVerificationError::PublisherMismatch => {
                "The update package publisher does not match Forward Slash Windows."@
            },
            UpdateVerificationError::IdentityMismatch => {
                "The update package identity does not match Forward Slash Windows."@
            },
            UpdateVerificationError::ArchitectureMismatch => {
                "The update package architecture is not supported by this device."@
            },
            UpdateVerificationError::VersionMismatch => {
                "The update package version does not match the release tag."@
            },
            UpdateVerificationError::DigestMismatch => {
                "The downloaded update does not match the release digest."@
            },
            UpdateVerificationError::TimedOut => "The update package installation timed out."@,
        }
    }

    /// The machine code in helper results.
    pub open spec fn code_text(self) -> Seq<char> {
        match self {
            UpdateVerificationError::IoFailure => "io-failure"@,
            UpdateVerificationError::UntrustedOrigin => "untrusted-origin"@,
            UpdateVerificationError::AssetNameMismatch => "asset-name-mismatch"@,
            UpdateVerificationError::SignatureFailure => "signature-failure"@,
            UpdateVerificationError::PublisherMismatch => "publisher-mismatch"@,
            UpdateVerificationError::IdentityMismatch => "identity-mismatch"@,
            UpdateVerificationError::ArchitectureMismatch => "architecture-mismatch"@,
            UpdateVerificationError::VersionMismatch => "version-mismatch"@,
            UpdateVerificationError::DigestMismatch => "digest-mismatch"@,
            UpdateVerificationError::TimedOut => "timed-out"@,
        }
    }

    #[must_use]
    pub fn message(self) -> (r: &'static str)
        ensures
            r@ == self.message_text(),
    {
        match self {
            UpdateVerificationError::IoFailure => "The staged update files could not be read safely.",
            UpdateVerificationError::UntrustedOrigin => {
                "The update did not come from the trusted release origin."
            },
            UpdateVerificationError::AssetNameMismatch => {
                "The release asset name does not match the release tag."
            },
            UpdateVerificationError::SignatureFailure => {
                "The update package signature could not be verified."
            },
            UpdateVerificationError::PublisherMismatch => {
                "The update package publisher does not match Forward Slash Windows."
            },
            UpdateVerificationError::IdentityMismatch => {
                "The update package identity does not match Forward Slash Windows."
            },
            UpdateVerificationError::ArchitectureMismatch => {
                "The update package architecture is not supported by this device."
            },
            UpdateVerificationError::VersionMismatch => {
                "The update package version does not match the release tag."
            },
            UpdateVerificationError::DigestMismatch => {
                "The downloaded update does not match the release digest."
            },
            UpdateVerificationError::TimedOut => "The update package installation timed out.",
        }
    }

    /// Stable, non-sensitive machine code for helper result reporting.
    #[must_use]
    pub fn code(self) -> (r: &'static str)
        ensures
            r@ == self.code_text(),
    {
        match self {
            UpdateVerificationError::IoFailure => "io-failure",
            UpdateVerificationError::UntrustedOrigin => "untrusted-origin",
            UpdateVerificationError::AssetNameMismatch => "asset-name-mismatch",
            UpdateVerificationError::SignatureFailure => "signature-failure",
            UpdateVerificationError::PublisherMismatch => "publisher-mismatch",
            UpdateVerificationError::IdentityMismatch => "identity-mismatch",
            UpdateVerificationError::ArchitectureMismatch => "architecture-mismatch",
            UpdateVerificationError::VersionMismatch => "version-mismatch",
            UpdateVerificationError::DigestMismatch => "digest-mismatch",
            UpdateVerificationError::TimedOut => "timed-out",
        }
    }
}

// ---------------------------------------------------------------------------
// Versions
// ---------------------------------------------------------------------------

/// A semantic `(major, minor, patch)` triple.
#[derive(Debug, Clone, Copy, PartialEq, Eq, PartialOrd, Ord, Structural)]
pub struct Version {
    pub major: u64,
    pub minor: u64,
    pub patch: u64,
}

/// Whether `candidate` comes strictly after `current`.
pub open spec fn is_after(current: Version, candidate: Version) -> bool {
    ||| candidate.major > current.major
    ||| candidate.major == current.major && candidate.minor > current.minor
    ||| candidate.major == current.major && candidate.minor == current.minor && candidate.patch
        > current.patch
}

/// A text without one leading `v` or `V`.
pub open spec fn without_v(text: Seq<char>) -> Seq<char> {
    if text.len() > 0 && (text[0] == 'v' || text[0] == 'V') {
        text.skip(1)
    } else {
        text
    }
}

/// The version three plain numbers between dots spell.
pub open spec fn three_part_version(text: Seq<char>) -> Option<Version> {
    let groups = split(text, '.');
    let max = u64::MAX as nat;
    if groups.len() == 3 && number_up_to(groups[0], max) is Some && number_up_to(
        groups[1],
        max,
    ) is Some && number_up_to(groups[2], max) is Some {
        Some(
            Version {
                major: number_up_to(groups[0], max)->Some_0 as u64,
                minor: number_up_to(groups[1], max)->Some_0 as u64,
                patch: number_up_to(groups[2], max)->Some_0 as u64,
            },
        )
    } else {
        None
    }
}

/// The version a text names: `MAJOR.MINOR.PATCH` with an optional leading `v`.
pub open spec fn version_of(text: Seq<char>) -> Option<Version> {
    three_part_version(without_v(text))
}

/// The version a release tag names: lower-case `vMAJOR.MINOR.PATCH` exactly.
pub open spec fn tag_version(text: Seq<char>) -> Option<Version> {
    if text.len() > 0 && text[0] == 'v' {
        three_part_version(text.skip(1))
    } else {
        None
    }
}

/// Parses `vMAJOR.MINOR.PATCH` (leading `v`/`V` optional). Anything with a fourth
/// group, a suffix, non-numeric groups, or fewer than three groups is rejected:
/// pre-release and build metadata never trigger updates.
#[must_use]
pub fn parse_version(text: &str) -> (r: Option<Version>)
    ensures
        r == version_of(text@),
{
    let chars = chars_of(text);
    let v = chars.as_slice();
    let body = if v.len() > 0 && (v[0] == 'v' || v[0] == 'V') {
        part(v, 1, v.len())
    } else {
        v
    };
    assert(body@ =~= without_v(text@));
    parse_three_parts(body)
}

fn parse_three_parts(v: &[char]) -> (r: Option<Version>)
    ensures
        r == three_part_version(v@),
{
    let groups = split_chars(v, '.');
    if groups.len() != 3 {
        return None;
    }
    let major = parse_number(groups[0].as_slice(), u64::MAX);
    let minor = parse_number(groups[1].as_slice(), u64::MAX);
    let patch = parse_number(groups[2].as_slice(), u64::MAX);
    match (major, minor, patch) {
        (Some(major), Some(minor), Some(patch)) => Some(Version { major, minor, patch }),
        _ => None,
    }
}

/// Parses the one canonical release identifier accepted at trust boundaries:
/// lower-case `vMAJOR.MINOR.PATCH` exactly.
#[must_use]
pub fn parse_release_tag(text: &str) -> (r: Option<Version>)
    ensures
        r == tag_version(text@),
{
    let chars = chars_of(text);
    let v = chars.as_slice();
    if v.len() == 0 || v[0] != 'v' {
        return None;
    }
    assert(v@.subrange(1, v@.len() as int) =~= text@.skip(1));
    parse_three_parts(part(v, 1, v.len()))
}

/// A version without the last of its four groups; any other text unchanged.
pub open spec fn running_version(version: Seq<char>) -> Seq<char> {
    let groups = split(version, '.');
    if groups.len() == 4 {
        groups[0].push('.') + groups[1].push('.') + groups[2]
    } else {
        version
    }
}

/// Normalizes the running version to three parts, by dropping a four-part
/// version's trailing group. Package versions always have four parts while
/// release tags have three; a three-part input is returned unchanged.
#[must_use]
pub fn normalize_running_version(version: &str) -> (r: String)
    ensures
        r@ == running_version(version@),
{
    let groups = split_chars(chars_of(version).as_slice(), '.');
    if groups.len() != 4 {
        return version.to_owned();
    }
    let mut text: String = String::new();
    push_chars(&mut text, groups[0].as_slice());
    text.push('.');
    push_chars(&mut text, groups[1].as_slice());
    text.push('.');
    push_chars(&mut text, groups[2].as_slice());
    assert(text@ =~= running_version(version@));
    text
}

/// Whether two texts name versions and the second comes strictly after the first.
pub open spec fn names_newer(current: Option<Version>, candidate: Option<Version>) -> bool {
    current is Some && candidate is Some && is_after(current->Some_0, candidate->Some_0)
}

fn comes_after(current: Option<Version>, candidate: Option<Version>) -> (r: bool)
    ensures
        r == names_newer(current, candidate),
{
    match (current, candidate) {
        (Some(a), Some(b)) => b.major > a.major || (b.major == a.major && (b.minor > a.minor || (
        b.minor == a.minor && b.patch > a.patch))),
        _ => false,
    }
}

/// Strictly-greater comparison; equal or older is never an update.
#[must_use]
pub fn is_newer_version(current: &str, candidate: &str) -> (r: bool)
    ensures
        r == names_newer(version_of(current@), version_of(candidate@)),
{
    comes_after(parse_version(current), parse_version(candidate))
}

/// The four numbers of a package version, each at most 65535.
pub open spec fn package_version_of(text: Seq<char>) -> Option<Seq<nat>> {
    let groups = split(text, '.');
    let max = u16::MAX as nat;
    if groups.len() == 4 && forall|i: int|
        0 <= i < 4 ==> number_up_to(#[trigger] groups[i], max) is Some {
        Some(Seq::new(4, |i: int| number_up_to(groups[i], max)->Some_0))
    } else {
        None
    }
}

/// Whether the numbers of `candidate` come strictly after those of `current`, the
/// first difference deciding.
pub open spec fn numbers_after(current: Seq<nat>, candidate: Seq<nat>) -> bool {
    exists|i: int|
        0 <= i < 4 && #[trigger] candidate[i] > current[i] && forall|j: int|
            0 <= j < i ==> candidate[j] == current[j]
}

/// Parses the four numbers of a package version.
pub fn parse_package_version(text: &str) -> (r: Option<[u16; 4]>)
    ensures
        match r {
            Some(numbers) => package_version_of(text@) == Some(
                Seq::new(4, |i: int| numbers@[i] as nat),
            ),
            None => package_version_of(text@) is None,
        },
{
    let groups = split_chars(chars_of(text).as_slice(), '.');
    let ghost parts = split(text@, '.');
    if groups.len() != 4 {
        return None;
    }
    let a = parse_number(groups[0].as_slice(), 65535);
    let b = parse_number(groups[1].as_slice(), 65535);
    let c = parse_number(groups[2].as_slice(), 65535);
    let d = parse_number(groups[3].as_slice(), 65535);
    match (a, b, c, d) {
        (Some(a), Some(b), Some(c), Some(d)) => {
            let numbers: [u16; 4] = [a as u16, b as u16, c as u16, d as u16];
            proof {
                assert forall|i: int| 0 <= i < 4 implies number_up_to(
                    #[trigger] parts[i],
                    u16::MAX as nat,
                ) is Some by {
                    assert(i == 0 || i == 1 || i == 2 || i == 3);
                }
                assert(package_version_of(text@)->Some_0 =~= Seq::new(
                    4,
                    |i: int| numbers@[i] as nat,
                ));
            }
            Some(numbers)
        },
        _ => {
            assert(parts[0] == groups@[0]@ && parts[1] == groups@[1]@ && parts[2] == groups@[2]@
                && parts[3] == groups@[3]@);
            None
        },
    }
}

/// Whether two texts name package versions and the second comes strictly after.
pub open spec fn names_newer_package(current: Seq<char>, candidate: Seq<char>) -> bool {
    package_version_of(current) is Some && package_version_of(candidate) is Some && numbers_after(
        package_version_of(current)->Some_0,
        package_version_of(candidate)->Some_0,
    )
}

/// Compares the exact four-part versions returned by Windows package APIs.
#[must_use]
pub fn is_newer_package_version(current: &str, candidate: &str) -> (r: bool)
    ensures
        r == names_newer_package(current@, candidate@),
{
    match (parse_package_version(current), parse_package_version(candidate)) {
        (Some(a), Some(b)) => {
            let ghost x = package_version_of(current@)->Some_0;
            let ghost y = package_version_of(candidate@)->Some_0;
            for i in 0..4usize
                invariant
                    x == Seq::new(4, |k: int| a@[k] as nat),
                    y == Seq::new(4, |k: int| b@[k] as nat),
                    package_version_of(current@) == Some(x),
                    package_version_of(candidate@) == Some(y),
                    forall|j: int| 0 <= j < i ==> y[j] == x[j],
            {
                if b[i] > a[i] {
                    assert(y[i as int] > x[i as int]);
                    return true;
                }
                if b[i] < a[i] {
                    assert(!numbers_after(x, y)) by {
                        if numbers_after(x, y) {
                            let k = choose|k: int|
                                0 <= k < 4 && #[trigger] y[k] > x[k] && forall|j: int|
                                    0 <= j < k ==> y[j] == x[j];
                            assert(y[i as int] < x[i as int]);
                        }
                    }
                    return false;
                }
            }
            false
        },
        _ => false,
    }
}

/// Whether a release tag comes strictly after the running version.
pub open spec fn is_release_after(current: Seq<char>, tag: Seq<char>) -> bool {
    names_newer(version_of(running_version(current)), tag_version(tag))
}

/// Validates a cached Store four-part version or GitHub release tag against the
/// currently installed four-part package version.
#[must_use]
pub fn is_newer_available_version(current: &str, candidate: &str) -> (r: bool)
    ensures
        r == if candidate@.len() > 0 && candidate@[0] == 'v' {
            is_release_after(current@, candidate@)
        } else {
            names_newer_package(current@, candidate@)
        },
{
    let chars = chars_of(candidate);
    if chars.len() > 0 && chars[0] == 'v' {
        is_newer_github_release(current, candidate)
    } else {
        is_newer_package_version(current, candidate)
    }
}

/// Whether a cached GitHub release can still be applied over `current`. Equal and
/// older tags are rejected: an update that has already landed must never be
/// scheduled again from its cache.
#[must_use]
pub fn is_newer_github_release(current: &str, tag: &str) -> (r: bool)
    ensures
        r == is_release_after(current@, tag@),
{
    comes_after(
        parse_version(normalize_running_version(current).as_str()),
        parse_release_tag(tag),
    )
}

// ---------------------------------------------------------------------------
// The release description
// ---------------------------------------------------------------------------

/// Where the value behind the next key begins, whichever of the two spellings of
/// the key comes first.
pub open spec fn next_value(
    json: Seq<char>,
    compact: Seq<char>,
    spaced: Seq<char>,
    from: int,
) -> Option<int> {
    match (
        first_occurrence_from(json, compact, from),
        first_occurrence_from(json, spaced, from),
    ) {
        (Some(a), Some(b)) => Some(
            if a <= b {
                a + compact.len()
            } else {
                b + spaced.len()
            },
        ),
        (Some(a), None) => Some(a + compact.len()),
        (None, Some(b)) => Some(b + spaced.len()),
        (None, None) => None,
    }
}

/// The tag of a release description: the value of the first `tag_name`, in either
/// spelling of the key, up to its closing quote.
pub open spec fn tag_name_text(json: Seq<char>) -> Option<Seq<char>> {
    match next_value(json, "\"tag_name\":\""@, "\"tag_name\": \""@, 0) {
        None => None,
        Some(start) => {
            let rest = json.skip(start);
            let end = index_of(rest, '"');
            if end < rest.len() {
                Some(rest.take(end))
            } else {
                None
            }
        },
    }
}

/// What a computed slice and a specified text agree on.
pub open spec fn same_slice(r: Option<&str>, text: Option<Seq<char>>) -> bool {
    match r {
        Some(s) => text == Some(s@),
        None => text is None,
    }
}

fn find_value(chars: &[char], compact: &str, spaced: &str, from: usize) -> (r: Option<usize>)
    requires
        from <= chars@.len(),
    ensures
        match r {
            Some(start) => next_value(chars@, compact@, spaced@, from as int) == Some(start as int)
                && from <= start <= chars@.len(),
            None => next_value(chars@, compact@, spaced@, from as int) is None,
        },
{
    let compact = chars_of(compact);
    let spaced = chars_of(spaced);
    let a = find_from(chars, compact.as_slice(), from);
    let b = find_from(chars, spaced.as_slice(), from);
    proof {
        lemma_first_occurrence(chars@, compact@, from as int);
        lemma_first_occurrence(chars@, spaced@, from as int);
    }
    match (a, b) {
        (Some(a), Some(b)) => Some(
            if a <= b {
                a + compact.len()
            } else {
                b + spaced.len()
            },
        ),
        (Some(a), None) => Some(a + compact.len()),
        (None, Some(b)) => Some(b + spaced.len()),
        (None, None) => None,
    }
}

/// The `tag_name` string of a release description: the first occurrence, read to
/// the closing quote. `None` when absent.
#[must_use]
pub fn extract_tag_name(release_json: &str) -> (r: Option<&str>)
    ensures
        same_slice(r, tag_name_text(release_json@)),
{
    let chars = chars_of(release_json);
    let v = chars.as_slice();
    match find_value(v, "\"tag_name\":\"", "\"tag_name\": \"", 0) {
        None => None,
        Some(start) => {
            let rest = part(v, start, v.len());
            assert(rest@ =~= release_json@.skip(start as int));
            let end = find_char(rest, '"');
            if end >= rest.len() {
                return None;
            }
            assert(release_json@.subrange(start as int, start + end) =~= rest@.take(end as int));
            Some(release_json.substring_char(start, start + end))
        },
    }
}

/// Where the value behind the next download-URL key begins.
pub open spec fn next_url_value(json: Seq<char>, from: int) -> Option<int> {
    next_value(json, "\"browser_download_url\":\""@, "\"browser_download_url\": \""@, from)
}

/// A bundle that may be installed: not the unsigned Store artifact.
pub open spec fn is_bundle_url(url: Seq<char>) -> bool {
    ends(url, ".msixbundle"@) && !ends(url, STORE_BUNDLE_SUFFIX@)
}

/// The first installable bundle among the download URLs from `from` on.
pub open spec fn bundle_url_from(json: Seq<char>, from: int) -> Option<Seq<char>>
    decreases json.len() - from,
    via bundle_url_decreases
{
    if from < 0 || from >= json.len() {
        None
    } else {
        match next_url_value(json, from) {
            None => None,
            Some(start) => {
                let rest = json.skip(start);
                let end = index_of(rest, '"');
                if end >= rest.len() {
                    None
                } else if is_bundle_url(rest.take(end)) {
                    Some(rest.take(end))
                } else {
                    bundle_url_from(json, start + end)
                }
            },
        }
    }
}

#[via_fn]
proof fn bundle_url_decreases(json: Seq<char>, from: int) {
    if 0 <= from < json.len() && next_url_value(json, from) is Some {
        lemma_next_url_value(json, from);
        let start = next_url_value(json, from)->Some_0;
        lemma_index_of(json.skip(start), '"');
    }
}

proof fn lemma_next_url_value(json: Seq<char>, from: int)
    requires
        0 <= from,
        next_url_value(json, from) is Some,
    ensures
        from < next_url_value(json, from)->Some_0 <= json.len(),
{
    reveal_strlit("\"browser_download_url\":\"");
    reveal_strlit("\"browser_download_url\": \"");
    lemma_first_occurrence(json, "\"browser_download_url\":\""@, from);
    lemma_first_occurrence(json, "\"browser_download_url\": \""@, from);
}

fn find_url_value(chars: &[char], from: usize) -> (r: Option<usize>)
    requires
        from <= chars@.len(),
    ensures
        match r {
            Some(start) => next_url_value(chars@, from as int) == Some(start as int) && from < start
                <= chars@.len(),
            None => next_url_value(chars@, from as int) is None,
        },
{
    proof {
        if next_url_value(chars@, from as int) is Some {
            lemma_next_url_value(chars@, from as int);
        }
    }
    find_value(chars, "\"browser_download_url\":\"", "\"browser_download_url\": \"", from)
}

/// The first `browser_download_url` whose value ends in `.msixbundle` but is not
/// the unsigned Store submission artifact.
#[must_use]
pub fn extract_bundle_url(release_json: &str) -> (r: Option<&str>)
    ensures
        same_slice(r, bundle_url_from(release_json@, 0)),
{
    let chars = chars_of(release_json);
    let v = chars.as_slice();
    let n: usize = v.len();
    let mut from: usize = 0;
    while from < n
        invariant
            v@ == release_json@,
            n == v@.len(),
            from <= n,
            bundle_url_from(release_json@, 0) == bundle_url_from(release_json@, from as int),
        decreases n - from,
    {
        let start = match find_url_value(v, from) {
            Some(start) => start,
            None => {
                return None;
            },
        };
        let rest = part(v, start, n);
        assert(rest@ =~= release_json@.skip(start as int));
        let end = find_char(rest, '"');
        if end >= rest.len() {
            return None;
        }
        let url = part(rest, 0, end);
        assert(url@ =~= rest@.take(end as int));
        if ends_with(url, ".msixbundle") && !ends_with(url, STORE_BUNDLE_SUFFIX) {
            assert(release_json@.subrange(start as int, start + end) =~= url@);
            return Some(release_json.substring_char(start, start + end));
        }
        from = start + end;
    }
    None
}

/// The four-part package version a release tag stands for.
pub open spec fn bundle_version_text(tag: Seq<char>) -> Option<Seq<char>> {
    match tag_version(tag) {
        Some(v) => Some(
            decimal(v.major as nat).push('.') + decimal(v.minor as nat).push('.') + decimal(
                v.patch as nat,
            ) + ".0"@,
        ),
        None => None,
    }
}

/// The only asset URL an update may be downloaded from.
pub open spec fn bundle_url_text(tag: Seq<char>) -> Option<Seq<char>> {
    match bundle_version_text(tag) {
        Some(version) => Some(
            "https://github.com/faratech/fwdslash/releases/download/"@ + tag + "/fwdslash-"@
                + version + ".msixbundle"@,
        ),
        None => None,
    }
}

/// A computed string and a specified text agree.
pub open spec fn same_string(r: Option<String>, text: Option<Seq<char>>) -> bool {
    match r {
        Some(s) => text == Some(s@),
        None => text is None,
    }
}

/// The exact four-part package version carried by the bundle for `tag`.
#[must_use]
pub fn expected_bundle_version(tag: &str) -> (r: Option<String>)
    ensures
        same_string(r, bundle_version_text(tag@)),
{
    match parse_release_tag(tag) {
        None => None,
        Some(version) => {
            let mut text: String = String::new();
            push_decimal(&mut text, version.major);
            text.push('.');
            push_decimal(&mut text, version.minor);
            text.push('.');
            push_decimal(&mut text, version.patch);
            text.push_str(".0");
            assert(text@ =~= bundle_version_text(tag@)->Some_0);
            Some(text)
        },
    }
}

/// The only asset an update is permitted to download: derived from the tag, never
/// selected from the release description.
#[must_use]
pub fn expected_bundle_url(tag: &str) -> (r: Option<String>)
    ensures
        same_string(r, bundle_url_text(tag@)),
{
    match expected_bundle_version(tag) {
        None => None,
        Some(version) => {
            let mut text: String =
                "https://github.com/faratech/fwdslash/releases/download/".to_owned();
            text.push_str(tag);
            text.push_str("/fwdslash-");
            text.push_str(version.as_str());
            text.push_str(".msixbundle");
            Some(text)
        },
    }
}

/// A digest: sixty-four hexadecimal digits.
pub open spec fn is_digest(text: Seq<char>) -> bool {
    text.len() == 64 && forall|i: int| 0 <= i < text.len() ==> is_hex(#[trigger] text[i])
}

/// What stands behind the key `"digest"` of an asset, from the colon on, without
/// white space: the value where it is a quoted SHA-256 digest.
pub open spec fn digest_value(after_key: Seq<char>) -> Option<Seq<char>> {
    let colon = trim_front(after_key);
    if !begins(colon, ":"@) {
        None
    } else {
        let value = trim_front(colon.skip(1));
        if !begins(value, "\"sha256:"@) {
            None
        } else {
            let rest = value.skip(8);
            let end = index_of(rest, '"');
            if end < rest.len() && is_digest(rest.take(end)) {
                Some(rest.take(end))
            } else {
                None
            }
        }
    }
}

/// The JSON object around the first occurrence of an asset URL, without its
/// braces.
pub open spec fn asset_object(json: Seq<char>, url: Seq<char>) -> Option<Seq<char>> {
    match first_occurrence(json, url) {
        None => None,
        Some(at) => {
            let close = at + index_of(json.skip(at), '}');
            let open = last_index_of(json.take(at), '{');
            if close < json.len() && open >= 0 {
                Some(json.subrange(open + 1, close))
            } else {
                None
            }
        },
    }
}

/// The digest a release description gives for an asset, inside the asset's own
/// object.
pub open spec fn bundle_digest_text(json: Seq<char>, url: Seq<char>) -> Option<Seq<char>> {
    match asset_object(json, url) {
        None => None,
        Some(asset) => match first_occurrence(asset, "\"digest\":"@) {
            None => None,
            Some(at) => digest_value(asset.skip(at + 8)),
        },
    }
}

/// The digest behind the key of an asset: where it begins, counted from the end
/// of the text, and how long it is.
fn find_digest(after_key: &[char]) -> (r: Option<(usize, usize)>)
    ensures
        match r {
            Some((start, end)) => {
                &&& start <= end <= after_key@.len()
                &&& digest_value(after_key@) == Some(after_key@.subrange(start as int, end as int))
            },
            None => digest_value(after_key@) is None,
        },
{
    let n: usize = after_key.len();
    let colon = trim_start(after_key);
    proof {
        reveal_strlit(":");
        reveal_strlit("\"sha256:");
        lemma_trim_front(after_key@);
    }
    if !starts_with(colon, ":") {
        return None;
    }
    let behind_colon = part(colon, 1, colon.len());
    assert(behind_colon@ =~= colon@.skip(1));
    let value = trim_start(behind_colon);
    proof {
        lemma_trim_front(behind_colon@);
    }
    if !starts_with(value, "\"sha256:") {
        return None;
    }
    let rest = part(value, 8, value.len());
    assert(rest@ =~= value@.skip(8));
    let end = find_char(rest, '"');
    if end >= rest.len() || end != 64 {
        return None;
    }
    for i in 0..end
        invariant
            end < rest@.len(),
            forall|j: int| 0 <= j < i ==> is_hex(#[trigger] rest@[j]),
            end == index_of(rest@, '"'),
            digest_value(after_key@) is Some ==> is_digest(rest@.take(end as int)),
    {
        if !hex(rest[i]) {
            assert(!is_hex(rest@.take(end as int)[i as int]));
            return None;
        }
    }
    let start: usize = n - rest.len();
    proof {
        assert(is_digest(rest@.take(end as int)));
        assert(rest@ =~= after_key@.skip(start as int));
        assert(after_key@.subrange(start as int, start + end) =~= rest@.take(end as int));
    }
    Some((start, start + end))
}

/// The SHA-256 value associated with the exact selected asset. The search stays
/// inside the asset's own object rather than accepting an unrelated `digest`
/// field in the release notes; the object is bounded backward to the enclosing
/// `{` and forward to the `}`, because the digest may stand on either side of the
/// URL.
#[must_use]
pub fn extract_bundle_digest<'a>(release_json: &'a str, asset_url: &str) -> (r: Option<&'a str>)
    ensures
        same_slice(r, bundle_digest_text(release_json@, asset_url@)),
{
    let chars = chars_of(release_json);
    let v = chars.as_slice();
    let n: usize = v.len();
    let url = chars_of(asset_url);
    let at = match find(v, url.as_slice()) {
        Some(at) => at,
        None => {
            return None;
        },
    };
    let tail = part(v, at, n);
    let head = part(v, 0, at);
    proof {
        assert(tail@ =~= release_json@.skip(at as int));
        assert(head@ =~= release_json@.take(at as int));
        lemma_last_index_of(head@, '{');
    }
    let close = find_char(tail, '}');
    if close >= tail.len() {
        return None;
    }
    let open = match find_last_char(head, '{') {
        Some(open) => open,
        None => {
            return None;
        },
    };
    let asset = part(v, open + 1, at + close);
    let key = chars_of("\"digest\":");
    let key_at = match find(asset, key.as_slice()) {
        Some(key_at) => key_at,
        None => {
            return None;
        },
    };
    proof {
        reveal_strlit("\"digest\":");
    }
    let after_key = part(asset, key_at + 8, asset.len());
    assert(after_key@ =~= asset@.skip(key_at + 8));
    match find_digest(after_key) {
        None => None,
        Some((start, end)) => {
            let from: usize = open + 1 + key_at + 8;
            assert(release_json@.subrange(from + start, from + end) =~= after_key@.subrange(
                start as int,
                end as int,
            ));
            Some(release_json.substring_char(from + start, from + end))
        },
    }
}

// ---------------------------------------------------------------------------
// The check
// ---------------------------------------------------------------------------

/// Whether a day has passed since the last check, or its time lies ahead.
pub open spec fn is_due(last_check: Option<u64>, now: u64) -> bool {
    match last_check {
        Some(last) => last > now || now - last >= CHECK_CADENCE_SECS,
        None => true,
    }
}

/// Whether an update check should run now. `None` means a check has never run. A
/// stored time in the future counts as due: it would otherwise suppress every
/// automatic check until real time catches up.
#[must_use]
pub fn check_is_due(last_check: Option<u64>, now: u64) -> (r: bool)
    ensures
        r == is_due(last_check, now),
{
    match last_check {
        Some(last) => last > now || now.saturating_sub(last) >= CHECK_CADENCE_SECS,
        None => true,
    }
}

/// When to allow an automatic check: a packaged build whose Automatic updates
/// switch is on.
#[must_use]
pub fn update_check_allowed(packaged: bool, auto_update: bool) -> (r: bool)
    ensures
        r == (packaged && auto_update),
{
    packaged && auto_update
}

/// What the Automatic updates switch means when nothing is stored: on for the
/// GitHub flavor, off for the Store flavor.
#[must_use]
pub fn default_auto_update(store_flavor: bool) -> (r: bool)
    ensures
        r == !store_flavor,
{
    !store_flavor
}

/// The Automatic updates switch for a stored value.
pub open spec fn auto_update_setting(stored: Option<u32>, store_flavor: bool) -> bool {
    match stored {
        Some(value) => value == 0,
        None => !store_flavor,
    }
}

/// The Automatic updates switch, from the raw stored value. The stored value is
/// the *inverted* flag: `1` means auto-update off. Only the absent case consults
/// the flavor.
#[must_use]
pub fn auto_update_from_value(stored: Option<u32>, store_flavor: bool) -> (r: bool)
    ensures
        r == auto_update_setting(stored, store_flavor),
{
    match stored {
        Some(value) => value == 0,
        None => default_auto_update(store_flavor),
    }
}

/// `count` of a unit, as an age.
pub open spec fn age_text(count: nat, unit: Seq<char>) -> Seq<char> {
    if count == 1 {
        "1 "@ + unit + " ago"@
    } else {
        decimal(count).push(' ') + unit + "s ago"@
    }
}

/// How long ago the last check was.
pub open spec fn last_check_text(now: u64, last: Option<u64>) -> Seq<char> {
    match last {
        None => "never"@,
        Some(last) => {
            let elapsed: int = if now >= last {
                now - last
            } else {
                0
            };
            if elapsed < 60 {
                "just now"@
            } else if elapsed < 3600 {
                age_text((elapsed / 60) as nat, "minute"@)
            } else if elapsed < 86400 {
                age_text((elapsed / 3600) as nat, "hour"@)
            } else {
                age_text((elapsed / 86400) as nat, "day"@)
            }
        },
    }
}

fn age(count: u64, unit: &str) -> (r: String)
    ensures
        r@ == age_text(count as nat, unit@),
{
    if count == 1 {
        let mut text: String = "1 ".to_owned();
        text.push_str(unit);
        text.push_str(" ago");
        text
    } else {
        let mut text: String = String::new();
        push_decimal(&mut text, count);
        text.push(' ');
        text.push_str(unit);
        text.push_str("s ago");
        assert(text@ =~= age_text(count as nat, unit@));
        text
    }
}

/// "never" / "just now" / "N minutes ago" / "N hours ago" / "N days ago". A `last`
/// in the future reads as "just now" rather than as a negative age.
#[must_use]
pub fn format_last_check(now: u64, last: Option<u64>) -> (r: String)
    ensures
        r@ == last_check_text(now, last),
{
    match last {
        None => "never".to_owned(),
        Some(last) => {
            let elapsed: u64 = now.saturating_sub(last);
            if elapsed < 60 {
                "just now".to_owned()
            } else if elapsed < 60 * 60 {
                age(elapsed / 60, "minute")
            } else if elapsed < 24 * 60 * 60 {
                age(elapsed / (60 * 60), "hour")
            } else {
                age(elapsed / (24 * 60 * 60), "day")
            }
        },
    }
}

/// The outcome of one update-check attempt.
#[derive(Debug, Clone, PartialEq, Eq)]
pub enum UpdateOutcome {
    /// Not due yet, disabled, or not allowed: silently do nothing.
    NotDue,
    /// The service could not be reached or returned nothing usable.
    Unavailable,
    /// A release was reached, but a required trust check failed. This is not
    /// retried as an ordinary network outage and no package is registered.
    VerificationFailed(UpdateVerificationError),
    /// The running version is current.
    UpToDate,
    /// A newer release exists; the tag names it.
    Ready(String),
}

/// An outcome as plain text.
pub enum OutcomeText {
    NotDue,
    Unavailable,
    VerificationFailed(UpdateVerificationError),
    UpToDate,
    Ready(Seq<char>),
}

impl View for UpdateOutcome {
    type V = OutcomeText;

    open spec fn view(&self) -> OutcomeText {
        match self {
            UpdateOutcome::NotDue => OutcomeText::NotDue,
            UpdateOutcome::Unavailable => OutcomeText::Unavailable,
            UpdateOutcome::VerificationFailed(error) => OutcomeText::VerificationFailed(*error),
            UpdateOutcome::UpToDate => OutcomeText::UpToDate,
            UpdateOutcome::Ready(tag) => OutcomeText::Ready(tag@),
        }
    }
}

/// What is known of this installation when a check starts.
#[derive(Debug, Clone, Copy, PartialEq, Eq)]
pub struct CheckFacts {
    pub store_flavor: bool,
    pub packaged: bool,
    pub auto_update: bool,
    /// The user pressed "Check now".
    pub force: bool,
    pub last_check: Option<u64>,
    pub now: u64,
}

/// Whether the GitHub check runs: a packaged build that is not the Store flavor,
/// and either the user asked or the switch is on and a day has passed.
pub open spec fn check_runs(facts: CheckFacts) -> bool {
    !facts.store_flavor && facts.packaged && (facts.force || (facts.auto_update && is_due(
        facts.last_check,
        facts.now,
    )))
}

/// Whether the GitHub check runs at all. Asking bypasses the daily cadence and the
/// switch, but never the two facts that decide whether this route exists.
pub fn check_should_run(facts: &CheckFacts) -> (r: bool)
    ensures
        r == check_runs(*facts),
{
    if facts.store_flavor || !(facts.packaged && (facts.force || update_check_allowed(
        facts.packaged,
        facts.auto_update,
    ))) {
        return false;
    }
    facts.force || check_is_due(facts.last_check, facts.now)
}

/// Starts a check: the write that records the attempt, to be performed before
/// anything is fetched and whatever comes of it, or `None` where no check runs.
pub fn begin_check(facts: &CheckFacts) -> (r: Option<SettingWrite>)
    ensures
        match r {
            Some(write) => check_runs(*facts) && write@ == write_of(
                LAST_UPDATE_CHECK_VALUE@,
                SettingText::Qword(facts.now),
            ),
            None => !check_runs(*facts),
        },
{
    if check_should_run(facts) {
        Some(note_check_attempt(facts.now))
    } else {
        None
    }
}

/// The text of a release description, from the body of the answer. `None` where
/// there was none, or where it is no text.
pub fn release_text(body: Option<Vec<u8>>) -> (r: Option<String>)
    ensures
        string_in(r) == match body {
            Some(bytes) => if valid_utf8(bytes@) {
                Some(decode_utf8(bytes@))
            } else {
                None
            },
            None => None,
        },
{
    match body {
        Some(bytes) => string_from_utf8(bytes),
        None => None,
    }
}

/// What the caller does next in a check.
#[derive(Debug, Clone, PartialEq, Eq)]
pub enum CheckStep {
    /// Report the outcome.
    Report(UpdateOutcome),
    /// Clear the cached tag, discard every downloaded bundle, and report that the
    /// running version is current.
    Forget,
    /// Download the bundle, hold it against the digest, then `finish_download`.
    Download { url: String, tag: String, digest: String },
    /// Record the tag and report that the release is ready.
    Announce { tag: String },
}

/// A step as plain text.
pub enum StepText {
    Report(OutcomeText),
    Forget,
    Download { url: Seq<char>, tag: Seq<char>, digest: Seq<char> },
    Announce { tag: Seq<char> },
}

impl View for CheckStep {
    type V = StepText;

    open spec fn view(&self) -> StepText {
        match self {
            CheckStep::Report(outcome) => StepText::Report(outcome@),
            CheckStep::Forget => StepText::Forget,
            CheckStep::Download { url, tag, digest } => StepText::Download {
                url: url@,
                tag: tag@,
                digest: digest@,
            },
            CheckStep::Announce { tag } => StepText::Announce { tag: tag@ },
        }
    }
}

pub open spec fn verification_report(error: UpdateVerificationError) -> StepText {
    StepText::Report(OutcomeText::VerificationFailed(error))
}

/// What a release description means for a running version.
pub open spec fn release_step(json: Seq<char>, current: Seq<char>, auto_update: bool) -> StepText {
    match tag_name_text(json) {
        None => verification_report(UpdateVerificationError::VersionMismatch),
        Some(tag) => if tag_version(tag) is None {
            verification_report(UpdateVerificationError::VersionMismatch)
        } else if !names_newer(version_of(running_version(current)), version_of(tag)) {
            StepText::Forget
        } else {
            let url = bundle_url_text(tag)->Some_0;
            if first_occurrence(json, url) is None {
                verification_report(UpdateVerificationError::AssetNameMismatch)
            } else {
                match bundle_digest_text(json, url) {
                    None => verification_report(UpdateVerificationError::DigestMismatch),
                    Some(digest) => if auto_update {
                        StepText::Download { url, tag, digest }
                    } else {
                        StepText::Announce { tag }
                    },
                }
            }
        },
    }
}

fn plan_release(json: &str, current: &str, auto_update: bool) -> (r: CheckStep)
    ensures
        r@ == release_step(json@, current@, auto_update),
{
    let tag = match extract_tag_name(json) {
        Some(tag) => tag,
        None => {
            return CheckStep::Report(
                UpdateOutcome::VerificationFailed(UpdateVerificationError::VersionMismatch),
            );
        },
    };
    let url = match expected_bundle_url(tag) {
        Some(url) => url,
        None => {
            return CheckStep::Report(
                UpdateOutcome::VerificationFailed(UpdateVerificationError::VersionMismatch),
            );
        },
    };
    if !is_newer_version(normalize_running_version(current).as_str(), tag) {
        return CheckStep::Forget;
    }
    if find(chars_of(json).as_slice(), chars_of(url.as_str()).as_slice()).is_none() {
        return CheckStep::Report(
            UpdateOutcome::VerificationFailed(UpdateVerificationError::AssetNameMismatch),
        );
    }
    match extract_bundle_digest(json, url.as_str()) {
        None => CheckStep::Report(
            UpdateOutcome::VerificationFailed(UpdateVerificationError::DigestMismatch),
        ),
        Some(digest) => if auto_update {
            CheckStep::Download { tag: tag.to_owned(), digest: digest.to_owned(), url }
        } else {
            CheckStep::Announce { tag: tag.to_owned() }
        },
    }
}

/// What one update-check attempt comes to.
pub open spec fn check_step(
    facts: CheckFacts,
    release_json: Option<Seq<char>>,
    current: Seq<char>,
) -> StepText {
    if !check_runs(facts) {
        StepText::Report(OutcomeText::NotDue)
    } else {
        match release_json {
            None => StepText::Report(OutcomeText::Unavailable),
            Some(json) => release_step(json, current, facts.auto_update),
        }
    }
}

/// Decides one update-check attempt, from the facts and the release description
/// that was fetched (`None` where the service could not be reached).
///
/// `begin_check` says beforehand whether to fetch at all, and gives the write that
/// records the attempt before the fetch: even an offline attempt counts.
#[must_use]
pub fn run_update_check(facts: &CheckFacts, release_json: Option<&str>, current: &str) -> (r:
    CheckStep)
    ensures
        r@ == if !check_runs(*facts) {
            StepText::Report(OutcomeText::NotDue)
        } else {
            match release_json {
                None => StepText::Report(OutcomeText::Unavailable),
                Some(json) => release_step(json@, current@, facts.auto_update),
            }
        },
        r@ == check_step(*facts, crate::path::text_in(release_json), current@),
{
    if !check_should_run(facts) {
        return CheckStep::Report(UpdateOutcome::NotDue);
    }
    match release_json {
        None => CheckStep::Report(UpdateOutcome::Unavailable),
        Some(json) => plan_release(json, current, facts.auto_update),
    }
}

/// The outcome of a check whose bundle was downloaded, or was refused. The tag is
/// recorded exactly where the outcome is that the release is ready.
pub fn finish_download(tag: &str, downloaded: Result<(), UpdateVerificationError>) -> (r:
    UpdateOutcome)
    ensures
        r@ == match downloaded {
            Ok(_) => OutcomeText::Ready(tag@),
            Err(error) => OutcomeText::VerificationFailed(error),
        },
{
    match downloaded {
        Ok(_) => UpdateOutcome::Ready(tag.to_owned()),
        Err(error) => UpdateOutcome::VerificationFailed(error),
    }
}

// ---------------------------------------------------------------------------
// Downloads
// ---------------------------------------------------------------------------

/// The host every bundle is downloaded from.
pub const DOWNLOAD_HOST: &'static str = "github.com";

/// The local name of a tag's bundle.
pub open spec fn bundle_name_text(tag: Seq<char>) -> Seq<char> {
    match bundle_version_text(tag) {
        Some(version) => "fwdslash-"@ + version + ".msixbundle"@,
        None => "fwdslash-"@ + tag + ".msixbundle"@,
    }
}

/// The local download name for a tag's bundle: the same four-part form the
/// release carries.
pub fn bundle_name(tag: &str) -> (r: String)
    ensures
        r@ == bundle_name_text(tag@),
{
    let mut name: String = "fwdslash-".to_owned();
    match expected_bundle_version(tag) {
        Some(version) => {
            name.push_str(version.as_str());
        },
        None => {
            name.push_str(tag);
        },
    }
    name.push_str(".msixbundle");
    name
}

/// The path on the download host of a tag's bundle.
pub open spec fn download_path_text(tag: Seq<char>) -> Seq<char> {
    "/faratech/fwdslash/releases/download/"@ + tag + "/fwdslash-"@ + bundle_version_text(
        tag,
    )->Some_0 + ".msixbundle"@
}

/// The path to request for a tag's bundle, where the offered URL is the one the
/// tag stands for. There is one source for the address: the allow-listed one.
pub fn download_path(url: &str, tag: &str) -> (r: Result<String, UpdateVerificationError>)
    ensures
        match r {
            Ok(path) => bundle_url_text(tag@) == Some(url@) && path@ == download_path_text(tag@),
            Err(UpdateVerificationError::VersionMismatch) => bundle_url_text(tag@) is None,
            Err(UpdateVerificationError::UntrustedOrigin) => bundle_url_text(tag@) is Some
                && bundle_url_text(tag@) != Some(url@),
            Err(_) => false,
        },
{
    match (expected_bundle_url(tag), expected_bundle_version(tag)) {
        (Some(expected), Some(version)) => {
            if !same(url, expected.as_str()) {
                return Err(UpdateVerificationError::UntrustedOrigin);
            }
            let mut path: String = "/faratech/fwdslash/releases/download/".to_owned();
            path.push_str(tag);
            path.push_str("/fwdslash-");
            path.push_str(version.as_str());
            path.push_str(".msixbundle");
            Ok(path)
        },
        _ => Err(UpdateVerificationError::VersionMismatch),
    }
}

/// What holding a downloaded body against a digest gives.
pub open spec fn download_result(body: Seq<u8>, digest: Seq<char>) -> Result<
    (),
    UpdateVerificationError,
> {
    if 8 * body.len() <= u64::MAX && digest == digest_text(body) {
        Ok(())
    } else {
        Err(UpdateVerificationError::DigestMismatch)
    }
}

/// Holds a downloaded body against the digest the release gave for it.
pub fn verify_download(body: &[u8], digest: &str) -> (r: Result<(), UpdateVerificationError>)
    ensures
        match r {
            Ok(_) => 8 * body@.len() <= u64::MAX && digest@ == digest_text(body@),
            Err(error) => error == UpdateVerificationError::DigestMismatch && (8 * body@.len()
                > u64::MAX || digest@ != digest_text(body@)),
        },
        r == download_result(body@, digest@),
{
    match sha256_hex(body) {
        Some(text) => if same(text.as_str(), digest) {
            let done = ();
            assert(done == ());
            Ok(done)
        } else {
            Err(UpdateVerificationError::DigestMismatch)
        },
        None => Err(UpdateVerificationError::DigestMismatch),
    }
}

/// The body of a response as it arrives, bounded in size.
pub struct ResponseBody {
    bytes: Vec<u8>,
    open: bool,
}

impl ResponseBody {
    /// What has been kept.
    pub closed spec fn kept(&self) -> Seq<u8> {
        self.bytes@
    }

    /// Whether more is read.
    pub closed spec fn reads_on(&self) -> bool {
        self.open
    }

    pub fn new() -> (r: Self)
        ensures
            r.kept() == Seq::<u8>::empty(),
            r.reads_on(),
    {
        ResponseBody { bytes: Vec::new(), open: true }
    }

    /// Takes the next chunk; `None` is a failed read. A failed read, or a body
    /// over the limit, drops everything. A chunk of no bytes adds nothing, and is
    /// not the end. Returns whether to read on.
    pub fn take_chunk(&mut self, chunk: Option<&[u8]>) -> (r: bool)
        requires
            old(self).reads_on(),
        ensures
            r == final(self).reads_on(),
            final(self).kept().len() <= MAX_BODY_BYTES,
            match chunk {
                None => !r && final(self).kept() == Seq::<u8>::empty(),
                Some(more) => if old(self).kept().len() + more@.len() > MAX_BODY_BYTES {
                    !r && final(self).kept() == Seq::<u8>::empty()
                } else {
                    r && final(self).kept() == old(self).kept() + more@
                },
            },
    {
        match chunk {
            None => {
                self.bytes.clear();
                self.open = false;
            },
            Some(more) => {
                if self.bytes.len() > MAX_BODY_BYTES || more.len() > MAX_BODY_BYTES
                    - self.bytes.len() {
                    self.bytes.clear();
                    self.open = false;
                } else {
                    for i in 0..more.len()
                        invariant
                            self.bytes@ == old(self).bytes@ + more@.take(i as int),
                            self.open,
                    {
                        self.bytes.push(more[i]);
                        assert(self.bytes@ =~= old(self).bytes@ + more@.take(i + 1));
                    }
                    assert(self.bytes@ =~= old(self).bytes@ + more@);
                }
            },
        }
        self.open
    }

    /// The body, where the status was success.
    pub fn finish(self, status: Option<u32>) -> (r: Option<Vec<u8>>)
        ensures
            match r {
                Some(bytes) => status == Some(200u32) && bytes@ == self.kept(),
                None => status != Some(200u32),
            },
    {
        match status {
            Some(code) => if code == 200 {
                Some(self.bytes)
            } else {
                None
            },
            None => None,
        }
    }
}

/// The part of a file name behind its last dot, where something stands before the
/// dot.
pub open spec fn extension_of(name: Seq<char>) -> Option<Seq<char>> {
    let dot = last_index_of(name, '.');
    if dot > 0 && name != ".."@ {
        Some(name.skip(dot + 1))
    } else {
        None
    }
}

/// The part of a file name before its extension.
pub open spec fn stem_of(name: Seq<char>) -> Seq<char> {
    let dot = last_index_of(name, '.');
    if dot > 0 && name != ".."@ {
        name.take(dot)
    } else {
        name
    }
}

/// Whether a file in the update directory goes when only `keep` stays: a bundle of
/// another name, or the digest file of one.
pub open spec fn is_pruned(name: Seq<char>, keep: Option<Seq<char>>) -> bool {
    match extension_of(name) {
        None => false,
        Some(extension) => {
            ||| same_ignoring_case(extension, "sha256"@) && Some(stem_of(name)) != keep
            ||| !same_ignoring_case(extension, "sha256"@) && same_ignoring_case(
                extension,
                "msixbundle"@,
            ) && Some(name) != keep
        },
    }
}

/// Whether a file in the update directory is deleted when only the bundle `keep`
/// stays; with no `keep`, every bundle goes. A digest file goes with the bundle it
/// belongs to.
pub fn is_prunable(name: &str, keep: Option<&str>) -> (r: bool)
    ensures
        r == is_pruned(name@, crate::path::text_in(keep)),
{
    let chars = chars_of(name);
    let v = chars.as_slice();
    proof {
        lemma_last_index_of(v@, '.');
    }
    let dot = match find_last_char(v, '.') {
        Some(dot) => dot,
        None => {
            return false;
        },
    };
    if dot == 0 || same(name, "..") {
        return false;
    }
    let n: usize = v.len();
    let extension = string_of(part(v, dot + 1, n));
    let stem = string_of(part(v, 0, dot));
    proof {
        assert(extension@ =~= name@.skip(dot + 1));
        assert(stem@ =~= name@.take(dot as int));
    }
    if same_text_ignoring_case(extension.as_str(), "sha256") {
        return match keep {
            Some(kept) => !same(stem.as_str(), kept),
            None => true,
        };
    }
    same_text_ignoring_case(extension.as_str(), "msixbundle") && match keep {
        Some(kept) => !same(name, kept),
        None => true,
    }
}

/// What the cached update tag means for a pending bundle.
#[derive(Debug, Clone, PartialEq, Eq)]
pub enum PendingBundle {
    /// No bundle is pending.
    Nothing,
    /// The tag is not newer than the running version: clear it and discard every
    /// bundle before anything is scheduled.
    Stale,
    /// The bundle is pending where this file exists.
    At(String),
}

/// The bundle that waits to be registered, for the cached tag and the running
/// version. A prior version may have left a bundle behind after it was applied.
#[must_use]
pub fn pending_bundle_path(directory: Option<&str>, cached_tag: Option<&str>, current: &str) -> (r:
    PendingBundle)
    ensures
        match r {
            PendingBundle::Nothing => cached_tag is None || (is_release_after(
                current@,
                cached_tag->Some_0@,
            ) && directory is None),
            PendingBundle::Stale => cached_tag is Some && !is_release_after(
                current@,
                cached_tag->Some_0@,
            ),
            PendingBundle::At(path) => cached_tag is Some && is_release_after(
                current@,
                cached_tag->Some_0@,
            ) && directory is Some && path@ == directory->Some_0@.push('\\') + bundle_name_text(
                cached_tag->Some_0@,
            ),
        },
{
    match cached_tag {
        None => PendingBundle::Nothing,
        Some(tag) => {
            if !is_newer_github_release(current, tag) {
                return PendingBundle::Stale;
            }
            match directory {
                None => PendingBundle::Nothing,
                Some(folder) => {
                    let mut path: String = folder.to_owned();
                    path.push('\\');
                    path.push_str(bundle_name(tag).as_str());
                    PendingBundle::At(path)
                },
            }
        },
    }
}

// ---------------------------------------------------------------------------
// The update directory
// ---------------------------------------------------------------------------

/// Whether a folder's text already ends where a name can follow: it is empty, ends
/// in a separator, or is a bare drive.
pub open spec fn takes_a_name(folder: Seq<char>) -> bool {
    folder.len() == 0 || folder.last() == '\\' || folder.last() == '/' || (folder.len() == 2
        && is_alpha(folder[0]) && folder[1] == ':')
}

/// A name inside a folder.
pub open spec fn inside(folder: Seq<char>, name: Seq<char>) -> Seq<char> {
    if takes_a_name(folder) {
        folder + name
    } else {
        folder.push('\\') + name
    }
}

/// `ForwardSlashWindows\update` under the local application data: the only place a
/// downloaded bundle, the staged helper and its result file are ever written.
#[must_use]
pub fn update_directory_path(local_app_data: Option<&str>) -> (r: Option<String>)
    ensures
        string_in(r) == match local_app_data {
            Some(folder) => Some(
                inside(folder@, "ForwardSlashWindows"@).push('\\') + "update"@,
            ),
            None => None,
        },
{
    match local_app_data {
        None => None,
        Some(folder) => {
            let chars = chars_of(folder);
            let n: usize = chars.len();
            let mut path: String = folder.to_owned();
            if !(n == 0 || chars[n - 1] == '\\' || chars[n - 1] == '/' || (n == 2 && alpha(chars[0])
                && chars[1] == ':')) {
                path.push('\\');
            }
            path.push_str("ForwardSlashWindows");
            path.push('\\');
            path.push_str("update");
            Some(path)
        },
    }
}

/// How the removal of the update directory ended.
#[derive(Debug, Clone, Copy, PartialEq, Eq, Structural)]
pub enum Removal {
    Done,
    /// There was no such directory.
    NotFound,
    /// It failed, with the system's error code where there is one.
    Failed(Option<i32>),
}

/// What an uninstall makes of the removal of the whole update directory: an absent
/// directory is success, and so is having no place for one.
pub fn sweep_update_directory(removal: Option<Removal>) -> (r: Result<(), u32>)
    ensures
        r == match removal {
            Some(Removal::Failed(Some(code))) => Err::<(), u32>(
                if code < 0 {
                    (code + 0x1_0000_0000) as u32
                } else {
                    code as u32
                },
            ),
            Some(Removal::Failed(None)) => Err::<(), u32>(u32::MAX),
            _ => Ok::<(), u32>(()),
        },
{
    match removal {
        Some(Removal::Failed(Some(code))) => {
            let wide: i64 = if code < 0 {
                code as i64 + 0x1_0000_0000
            } else {
                code as i64
            };
            Err(wide as u32)
        },
        Some(Removal::Failed(None)) => Err(u32::MAX),
        _ => Ok(()),
    }
}

}
