//! Owned, typed navigation targets for the shell and broker boundary.
//!
//! A target owns its text and never rests on a filesystem, network or existence
//! check.

use crate::path::{
    begins_with_drive, eq_ignore_case, folds_alike, resolution_under_root, resolve_under_root,
    resolve_with_root, rooted_resolution, shape_error, text_in, Context, Registry, RenderBuf,
    ResolveError, Resolved, ResolvedText, WSL_ROOT_UNC,
};
use crate::percent::{percent_decode, percent_decoded, percent_encode, percent_encoded};
use crate::text::{
    alnum, alpha, append_chars, begins, chars_of, find_char, has_char, index_of, is_alnum,
    is_alpha, lower, part, replace_char, replaced, same_chars_ignoring_case, same_ignoring_case,
    starts_with, string_of, to_lower, to_upper, trim_back_of, trim_end_of, trim_front_of,
    trim_start_of, upper,
};
use vstd::prelude::*;

verus! {

/// The destination family a caller must hand to the Windows shell.
#[derive(Debug, Clone, Copy, PartialEq, Eq, Hash, Structural)]
pub enum TargetKind {
    LocalDrive,
    WslDistribution,
    NativeUNC,
    NavigationRoot,
}

/// An explicit base for a relative user input.
#[derive(Debug, Clone, Copy, PartialEq, Eq)]
pub enum TargetBase<'a> {
    /// An absolute, non-device Windows path.
    NativePath(&'a str),
    /// A path inside a known WSL distribution.
    WslDistribution { distribution: &'a str, linux_path: &'a str },
}

/// A concrete reason an otherwise path-like input was rejected.
#[derive(Debug, Clone, Copy, PartialEq, Eq, Structural)]
pub enum TargetRejection {
    InvalidPath,
    InvalidFileUri,
    InvalidPercentEncoding,
    DevicePath,
    SlashPath(ResolveError),
}

/// Why input could not become a navigation target.
#[derive(Debug, Clone, Copy, PartialEq, Eq, Structural)]
pub enum TargetError {
    /// The input belongs to another handler, such as an HTTP URL or shell
    /// expansion. It was intentionally not interpreted as a path.
    NotHandled,
    /// Resolution needs a WSL context or an explicit relative base.
    NeedsContext,
    /// The input was path-like but malformed or disallowed.
    Rejected(TargetRejection),
}

/// An owned destination safe to pass across the CLI/broker boundary.
#[derive(Debug, Clone, PartialEq, Eq)]
pub struct UserTarget {
    kind: TargetKind,
    native_path: String,
    wsl_context: Option<(String, String)>,
}

/// A target as plain text: its native path, and the distribution and Linux path
/// where it was resolved inside one.
pub struct TargetText {
    pub kind: TargetKind,
    pub native: Seq<char>,
    pub wsl: Option<(Seq<char>, Seq<char>)>,
}

impl View for UserTarget {
    type V = TargetText;

    closed spec fn view(&self) -> TargetText {
        TargetText {
            kind: self.kind,
            native: self.native_path@,
            wsl: match self.wsl_context {
                Some((distribution, linux)) => Some((distribution@, linux@)),
                None => None,
            },
        }
    }
}

// ---------------------------------------------------------------------------
// What an input means
// ---------------------------------------------------------------------------

pub open spec fn invalid_path() -> TargetError {
    TargetError::Rejected(TargetRejection::InvalidPath)
}

pub open spec fn invalid_file_uri() -> TargetError {
    TargetError::Rejected(TargetRejection::InvalidFileUri)
}

pub open spec fn slash_rejection(error: ResolveError) -> TargetError {
    TargetError::Rejected(TargetRejection::SlashPath(error))
}

/// A path in a device or kernel namespace.
pub open spec fn is_device(s: Seq<char>) -> bool {
    begins(s, r"\\?\"@) || begins(s, r"\\.\"@) || begins(s, r"\??\"@)
}

/// Whether the text begins with `file:` in any case.
pub open spec fn is_file_uri(s: Seq<char>) -> bool {
    s.len() >= 5 && same_ignoring_case(s.take(5), "file:"@)
}

/// A character that may stand at index `i` of a URI scheme.
pub open spec fn is_scheme_char(c: char, i: int) -> bool {
    is_alnum(c) || c == '+' || c == '-' || c == '.' || (i > 0 && c == '_')
}

/// A URI scheme of two or more characters; a single letter is a drive.
pub open spec fn has_scheme(s: Seq<char>) -> bool {
    let colon: int = index_of(s, ':');
    1 < colon < s.len() && forall|i: int| 0 <= i < colon ==> is_scheme_char(#[trigger] s[i], i)
}

/// A shell variable or home directory.
pub open spec fn is_shell_form(s: Seq<char>) -> bool {
    s.len() > 0 && (s[0] == '%' || s[0] == '$' || s[0] == '~')
}

/// A UNC path or an absolute drive path.
pub open spec fn is_native_absolute(s: Seq<char>) -> bool {
    begins(s, r"\\"@) || (begins_with_drive(s) && s.len() >= 3 && (s[2] == '\\' || s[2] == '/'))
}

/// The server of a UNC path without its two leading separators.
pub open spec fn server_of(rest: Seq<char>) -> Seq<char> {
    rest.take(index_of(rest, '\\'))
}

/// What follows the server and its separator.
pub open spec fn after_server(rest: Seq<char>) -> Seq<char> {
    if index_of(rest, '\\') < rest.len() {
        rest.skip(index_of(rest, '\\') + 1)
    } else {
        Seq::empty()
    }
}

/// The native spelling of a path: backslashes throughout, and a drive letter in
/// upper case. A UNC path needs a server and a share without colons; anything
/// else needs a drive, a colon and a separator.
pub open spec fn normalized_native(s: Seq<char>) -> Option<Seq<char>> {
    let native = replaced(s, '/', '\\');
    if begins(native, r"\\"@) {
        let rest = native.skip(2);
        let server = server_of(rest);
        let share = server_of(after_server(rest));
        if server.len() > 0 && share.len() > 0 && !server.contains(':') && !share.contains(':') {
            Some(native)
        } else {
            None
        }
    } else if begins_with_drive(native) && native.len() >= 3 && native[2] == '\\' {
        Some(native.update(0, upper(native[0])))
    } else {
        None
    }
}

/// What a native path means. A control character has no place in one.
pub open spec fn native_resolution(s: Seq<char>) -> Result<TargetText, TargetError> {
    if exists|i: int| 0 <= i < s.len() && #[trigger] s[i] <= '\u{1f}' {
        Err(invalid_path())
    } else if is_device(s) {
        Err(TargetError::Rejected(TargetRejection::DevicePath))
    } else {
        match normalized_native(s) {
            None => Err(invalid_path()),
            Some(native) => Ok(
                TargetText {
                    kind: if begins(native, r"\\"@) {
                        TargetKind::NativeUNC
                    } else {
                        TargetKind::LocalDrive
                    },
                    native,
                    wsl: None,
                },
            ),
        }
    }
}

/// An encoded `/` or `\`, which would change what the path's parts are.
pub open spec fn encodes_separator(s: Seq<char>) -> bool {
    exists|i: int|
        0 <= i && i + 2 < s.len() && #[trigger] s[i] == '%' && ((s[i + 1] == '2' && lower(s[i + 2])
            == 'f') || (s[i + 1] == '5' && lower(s[i + 2]) == 'c'))
}

/// The path of a URI whose authority is this machine.
pub open spec fn local_uri_path(path: Seq<char>) -> Result<TargetText, TargetError> {
    native_resolution(replaced(trim_front_of(path, '/'), '/', '\\'))
}

/// What a `file:` URI with an authority means: no authority or `localhost` is
/// this machine, any other is a UNC server.
pub open spec fn authority_resolution(authority: Seq<char>, path: Seq<char>) -> Result<
    TargetText,
    TargetError,
> {
    if authority.len() == 0 || same_ignoring_case(authority, "localhost"@) {
        local_uri_path(path)
    } else if authority.contains('/') || authority.contains('\\') || authority.contains('@')
        || authority.contains(':') || path.len() == 0 {
        Err(invalid_file_uri())
    } else {
        native_resolution(r"\\"@ + authority + replaced(path, '/', '\\'))
    }
}

/// What a `file:` URI means.
pub open spec fn file_uri_resolution(s: Seq<char>) -> Result<TargetText, TargetError> {
    let rest = s.skip(5);
    let bad_encoding = TargetError::Rejected(TargetRejection::InvalidPercentEncoding);
    if rest.contains('?') || rest.contains('#') {
        Err(invalid_file_uri())
    } else if begins(rest, "//"@) {
        let authority_and_path = rest.skip(2);
        let at = index_of(authority_and_path, '/');
        let raw_path = authority_and_path.skip(at);
        match percent_decoded(authority_and_path.take(at)) {
            None => Err(bad_encoding),
            Some(authority) => if encodes_separator(raw_path) {
                Err(invalid_file_uri())
            } else {
                match percent_decoded(raw_path) {
                    None => Err(bad_encoding),
                    Some(path) => authority_resolution(authority, path),
                }
            },
        }
    } else if encodes_separator(rest) {
        Err(invalid_file_uri())
    } else {
        match percent_decoded(rest) {
            None => Err(bad_encoding),
            Some(path) => if path.len() > 0 && path[0] == '/' {
                local_uri_path(path)
            } else {
                Err(TargetError::NeedsContext)
            },
        }
    }
}

/// The `file:` URI of a native path.
pub open spec fn file_uri_text(native: Seq<char>) -> Seq<char> {
    if begins(native, r"\\"@) {
        let rest = native.skip(2);
        let server = percent_encoded(server_of(rest));
        let path = percent_encoded(replaced(after_server(rest), '\\', '/'));
        if path.len() == 0 {
            "file://"@ + server
        } else {
            ("file://"@ + server).push('/') + path
        }
    } else {
        "file:///"@ + percent_encoded(replaced(native, '\\', '/'))
    }
}

/// Whether an input is a drive alias, `/mnt/<letter>` or `/mnt/<letter>/...`.
pub open spec fn is_drive_alias(input: Seq<char>) -> bool {
    begins(input, "/mnt/"@) && input.len() > 5 && is_alpha(input[5]) && (input.len() > 6
        ==> input[6] == '/')
}

/// The drive a drive alias names, as a root.
pub open spec fn alias_root(input: Seq<char>) -> Seq<char> {
    seq![upper(input[5]), ':', '\\']
}

/// What a drive alias means; `None` where the input is none.
pub open spec fn drive_alias_resolution(input: Seq<char>) -> Result<
    Option<ResolvedText>,
    ResolveError,
> {
    if !is_drive_alias(input) {
        Ok(None)
    } else if input.contains('\0') {
        Err(ResolveError::EmbeddedNul)
    } else if input.contains('\\') {
        Err(ResolveError::BackslashNotAllowed)
    } else {
        let tail = if input.len() > 6 {
            input.skip(6)
        } else {
            seq!['/']
        };
        match resolution_under_root(tail, alias_root(input)) {
            Ok(resolved) => Ok(Some(resolved)),
            Err(error) => Err(error),
        }
    }
}

/// The target a resolved path stands for.
pub open spec fn resolved_target(resolved: ResolvedText) -> Result<TargetText, TargetError> {
    match resolved {
        ResolvedText::WslRoot => Ok(
            TargetText { kind: TargetKind::NavigationRoot, native: WSL_ROOT_UNC@, wsl: None },
        ),
        ResolvedText::Distribution { distribution, unc, linux, .. } => Ok(
            TargetText {
                kind: TargetKind::WslDistribution,
                native: unc,
                wsl: Some((distribution, linux)),
            },
        ),
        ResolvedText::Folder { display, .. } => native_resolution(display),
    }
}

/// What an input that begins with `/` means: a drive alias is a local drive,
/// anything else needs the registered distributions and follows the precedence
/// of the slash resolver.
pub open spec fn slash_resolution<R: Registry + ?Sized>(
    input: Seq<char>,
    context: Option<&Context<'_, R>>,
    custom_root: Option<Seq<char>>,
) -> Result<TargetText, TargetError> {
    match drive_alias_resolution(input) {
        Err(error) => Err(slash_rejection(error)),
        Ok(Some(resolved)) => match resolved_target(resolved) {
            Ok(target) => Ok(TargetText { kind: TargetKind::LocalDrive, ..target }),
            Err(error) => Err(error),
        },
        Ok(None) => match (shape_error(input), context) {
            (Some(error), _) => Err(slash_rejection(error)),
            (None, None) => Err(TargetError::NeedsContext),
            (None, Some(ctx)) => match rooted_resolution(
                input,
                custom_root,
                ctx.registry,
                ctx.mode,
                text_in(ctx.preferred),
                text_in(ctx.wsl_default),
            ) {
                Ok(resolved) => resolved_target(resolved),
                Err(error) => Err(slash_rejection(error)),
            },
        },
    }
}

/// `base` and `input` with exactly one separator added where none is there.
pub open spec fn joined_native(base: Seq<char>, input: Seq<char>) -> Seq<char> {
    (if base.last() == '\\' {
        base
    } else {
        base.push('\\')
    }) + replaced(input, '/', '\\')
}

/// What a relative input means below a base.
pub open spec fn relative_resolution<R: Registry + ?Sized>(
    input: Seq<char>,
    context: Option<&Context<'_, R>>,
    custom_root: Option<Seq<char>>,
    base: Option<TargetBase<'_>>,
) -> Result<TargetText, TargetError> {
    match base {
        None => Err(TargetError::NeedsContext),
        Some(from) => if input.contains('\0') || is_device(input) {
            Err(invalid_path())
        } else {
            match from {
                TargetBase::NativePath(folder) => match native_resolution(folder@) {
                    Err(error) => Err(error),
                    Ok(target) => native_resolution(joined_native(target.native, input)),
                },
                TargetBase::WslDistribution { distribution, linux_path } => if linux_path@.len()
                    == 0 || linux_path@[0] != '/' || linux_path@.contains('\\') {
                    Err(invalid_path())
                } else {
                    slash_resolution(
                        (seq!['/'] + distribution@ + trim_back_of(linux_path@, '/')).push('/')
                            + input,
                        context,
                        custom_root,
                    )
                },
            }
        },
    }
}

/// What a user input means.
pub open spec fn target_resolution<R: Registry + ?Sized>(
    input: Seq<char>,
    context: Option<&Context<'_, R>>,
    custom_root: Option<Seq<char>>,
    base: Option<TargetBase<'_>>,
) -> Result<TargetText, TargetError> {
    if input.len() == 0 {
        Err(invalid_path())
    } else if is_device(input) {
        Err(TargetError::Rejected(TargetRejection::DevicePath))
    } else if is_file_uri(input) {
        file_uri_resolution(input)
    } else if has_scheme(input) || is_shell_form(input) {
        Err(TargetError::NotHandled)
    } else if is_native_absolute(input) {
        native_resolution(input)
    } else if input[0] == '/' {
        slash_resolution(input, context, custom_root)
    } else {
        relative_resolution(input, context, custom_root, base)
    }
}

/// A computed result and what it must be.
pub open spec fn gives(r: Result<UserTarget, TargetError>, meaning: Result<TargetText, TargetError>) -> bool {
    match r {
        Ok(target) => meaning == Ok::<TargetText, TargetError>(target@),
        Err(error) => meaning == Err::<TargetText, TargetError>(error),
    }
}

// ---------------------------------------------------------------------------
// Recognizing inputs
// ---------------------------------------------------------------------------

/// Whether a path lies in a device or kernel namespace.
pub fn is_device_path(input: &[char]) -> (r: bool)
    ensures
        r == is_device(input@),
{
    starts_with(input, r"\\?\") || starts_with(input, r"\\.\") || starts_with(input, r"\??\")
}

/// Whether an input begins with `file:` in any case.
pub fn has_file_scheme(input: &[char]) -> (r: bool)
    ensures
        r == is_file_uri(input@),
{
    if input.len() < 5 {
        return false;
    }
    assert(input@.subrange(0, 5) =~= input@.take(5));
    same_chars_ignoring_case(part(input, 0, 5), chars_of("file:").as_slice())
}

/// Whether an input begins with a URI scheme.
pub fn has_other_uri_scheme(input: &[char]) -> (r: bool)
    ensures
        r == has_scheme(input@),
{
    let colon = find_char(input, ':');
    if colon >= input.len() || colon <= 1 {
        return false;
    }
    for i in 0..colon
        invariant
            colon < input@.len(),
            colon == index_of(input@, ':'),
            forall|j: int| 0 <= j < i ==> is_scheme_char(#[trigger] input@[j], j),
    {
        let c = input[i];
        if !(alnum(c) || c == '+' || c == '-' || c == '.' || (i > 0 && c == '_')) {
            assert(!is_scheme_char(input@[i as int], i as int));
            return false;
        }
    }
    true
}

/// Whether an input is a shell variable or a home directory.
pub fn looks_like_shell_expansion(input: &[char]) -> (r: bool)
    ensures
        r == is_shell_form(input@),
{
    input.len() > 0 && (input[0] == '%' || input[0] == '$' || input[0] == '~')
}

/// Whether an input is a UNC path or an absolute drive path.
pub fn is_absolute_native_path(input: &[char]) -> (r: bool)
    ensures
        r == is_native_absolute(input@),
{
    starts_with(input, r"\\") || (input.len() >= 3 && alpha(input[0]) && input[1] == ':' && (input[2]
        == '\\' || input[2] == '/'))
}

/// Whether a raw URI path encodes a separator.
pub fn has_encoded_separator(input: &[char]) -> (r: bool)
    ensures
        r == encodes_separator(input@),
{
    let n: usize = input.len();
    if n < 3 {
        return false;
    }
    for i in 0..n - 2
        invariant
            n == input@.len(),
            n >= 3,
            forall|j: int|
                0 <= j < i ==> !(#[trigger] input@[j] == '%' && ((input@[j + 1] == '2' && lower(
                    input@[j + 2],
                ) == 'f') || (input@[j + 1] == '5' && lower(input@[j + 2]) == 'c'))),
    {
        if input[i] == '%' && ((input[i + 1] == '2' && to_lower(input[i + 2]) == 'f') || (input[i
            + 1] == '5' && to_lower(input[i + 2]) == 'c')) {
            return true;
        }
    }
    false
}

// ---------------------------------------------------------------------------
// Native paths
// ---------------------------------------------------------------------------

/// The native spelling of a path, or `None` where it has none.
pub fn normalize_native_path(input: &[char]) -> (r: Option<Vec<char>>)
    ensures
        match r {
            Some(native) => normalized_native(input@) == Some(native@),
            None => normalized_native(input@) is None,
        },
{
    let mut native = replace_char(input, '/', '\\');
    proof {
        reveal_strlit(r"\\");
    }
    if starts_with(native.as_slice(), r"\\") {
        let rest = part(native.as_slice(), 2, native.len());
        let at = find_char(rest, '\\');
        let server = part(rest, 0, at);
        proof {
            assert(rest@ =~= native@.skip(2));
            assert(server@ =~= server_of(rest@));
        }
        if at == rest.len() {
            proof {
                assert(server_of(after_server(rest@)) =~= Seq::<char>::empty());
            }
            return None;
        }
        let tail = part(rest, at + 1, rest.len());
        let end = find_char(tail, '\\');
        let share = part(tail, 0, end);
        proof {
            assert(tail@ =~= after_server(rest@));
            assert(share@ =~= server_of(tail@));
        }
        if server.len() == 0 || share.len() == 0 || has_char(server, ':') || has_char(share, ':') {
            return None;
        }
        return Some(native);
    }
    if native.len() >= 3 && alpha(native[0]) && native[1] == ':' && native[2] == '\\' {
        let letter = to_upper(native[0]);
        native.set(0, letter);
        return Some(native);
    }
    None
}

/// The target a native path names.
fn native_target(input: &[char]) -> (r: Result<UserTarget, TargetError>)
    ensures
        gives(r, native_resolution(input@)),
{
    for i in 0..input.len()
        invariant
            forall|j: int| 0 <= j < i ==> !(#[trigger] input@[j] <= '\u{1f}'),
    {
        if input[i] <= '\u{1f}' {
            return Err(TargetError::Rejected(TargetRejection::InvalidPath));
        }
    }
    if is_device_path(input) {
        return Err(TargetError::Rejected(TargetRejection::DevicePath));
    }
    match normalize_native_path(input) {
        None => Err(TargetError::Rejected(TargetRejection::InvalidPath)),
        Some(native) => {
            let kind = if starts_with(native.as_slice(), r"\\") {
                TargetKind::NativeUNC
            } else {
                TargetKind::LocalDrive
            };
            Ok(
                UserTarget {
                    kind,
                    native_path: string_of(native.as_slice()),
                    wsl_context: None,
                },
            )
        },
    }
}

// ---------------------------------------------------------------------------
// File URIs
// ---------------------------------------------------------------------------

/// Percent-decodes some characters.
fn decode(raw: &[char]) -> (r: Result<Vec<char>, TargetError>)
    ensures
        match r {
            Ok(text) => percent_decoded(raw@) == Some(text@),
            Err(error) => percent_decoded(raw@) is None && error == TargetError::Rejected(
                TargetRejection::InvalidPercentEncoding,
            ),
        },
{
    match percent_decode(string_of(raw).as_str()) {
        Some(text) => Ok(chars_of(text.as_str())),
        None => Err(TargetError::Rejected(TargetRejection::InvalidPercentEncoding)),
    }
}

fn local_uri_target(path: &[char]) -> (r: Result<UserTarget, TargetError>)
    ensures
        gives(r, local_uri_path(path@)),
{
    native_target(replace_char(trim_start_of(path, '/'), '/', '\\').as_slice())
}

fn authority_target(authority: &[char], path: &[char]) -> (r: Result<UserTarget, TargetError>)
    ensures
        gives(r, authority_resolution(authority@, path@)),
{
    if authority.len() == 0 || same_chars_ignoring_case(
        authority,
        chars_of("localhost").as_slice(),
    ) {
        return local_uri_target(path);
    }
    if has_char(authority, '/') || has_char(authority, '\\') || has_char(authority, '@') || has_char(
        authority,
        ':',
    ) || path.len() == 0 {
        return Err(TargetError::Rejected(TargetRejection::InvalidFileUri));
    }
    let mut native = chars_of(r"\\");
    append_chars(&mut native, authority);
    append_chars(&mut native, replace_char(path, '/', '\\').as_slice());
    native_target(native.as_slice())
}

/// The target a `file:` URI names.
fn resolve_file_uri(input: &[char]) -> (r: Result<UserTarget, TargetError>)
    requires
        input@.len() >= 5,
    ensures
        gives(r, file_uri_resolution(input@)),
{
    let rest = part(input, 5, input.len());
    assert(rest@ =~= input@.skip(5));
    if has_char(rest, '?') || has_char(rest, '#') {
        return Err(TargetError::Rejected(TargetRejection::InvalidFileUri));
    }
    proof {
        reveal_strlit("//");
    }
    if starts_with(rest, "//") {
        let authority_and_path = part(rest, 2, rest.len());
        let at = find_char(authority_and_path, '/');
        let raw_authority = part(authority_and_path, 0, at);
        let raw_path = part(authority_and_path, at, authority_and_path.len());
        proof {
            assert(authority_and_path@ =~= rest@.skip(2));
            assert(raw_authority@ =~= authority_and_path@.take(at as int));
            assert(raw_path@ =~= authority_and_path@.skip(at as int));
        }
        let authority = match decode(raw_authority) {
            Ok(text) => text,
            Err(error) => {
                return Err(error);
            },
        };
        if has_encoded_separator(raw_path) {
            return Err(TargetError::Rejected(TargetRejection::InvalidFileUri));
        }
        return match decode(raw_path) {
            Ok(path) => authority_target(authority.as_slice(), path.as_slice()),
            Err(error) => Err(error),
        };
    }
    if has_encoded_separator(rest) {
        return Err(TargetError::Rejected(TargetRejection::InvalidFileUri));
    }
    match decode(rest) {
        Err(error) => Err(error),
        Ok(path) => if path.len() > 0 && path[0] == '/' {
            local_uri_target(path.as_slice())
        } else {
            Err(TargetError::NeedsContext)
        },
    }
}

/// The `file:` URI of a native path.
pub fn file_uri_from_native(native_path: &str) -> (r: String)
    ensures
        r@ == file_uri_text(native_path@),
{
    let native = chars_of(native_path);
    proof {
        reveal_strlit(r"\\");
    }
    if starts_with(native.as_slice(), r"\\") {
        let rest = part(native.as_slice(), 2, native.len());
        let at = find_char(rest, '\\');
        let server = part(rest, 0, at);
        let path = if at < rest.len() {
            part(rest, at + 1, rest.len())
        } else {
            part(rest, at, at)
        };
        proof {
            assert(rest@ =~= native@.skip(2));
            assert(server@ =~= server_of(rest@));
            assert(path@ =~= after_server(rest@));
        }
        let encoded_server = percent_encode(string_of(server).as_str());
        let encoded_path = percent_encode(
            string_of(replace_char(path, '\\', '/').as_slice()).as_str(),
        );
        let mut uri: String = "file://".to_owned();
        uri.push_str(encoded_server.as_str());
        if !encoded_path.as_str().is_empty() {
            uri.push('/');
            uri.push_str(encoded_path.as_str());
        }
        return uri;
    }
    let mut uri: String = "file:///".to_owned();
    uri.push_str(
        percent_encode(
            string_of(replace_char(native.as_slice(), '\\', '/').as_slice()).as_str(),
        ).as_str(),
    );
    uri
}

// ---------------------------------------------------------------------------
// Slash paths
// ---------------------------------------------------------------------------

/// `/mnt/<letter>[/tail]`, the WSL drive alias. Public so that every surface
/// resolves the alias identically. `None` for inputs the alias does not claim;
/// an error for claimed inputs that fail the shape rules.
pub fn resolve_mnt_drive_resolved<'r>(input: &str, render_buf: &'r mut RenderBuf) -> (r: Result<
    Option<Resolved<'r>>,
    ResolveError,
>)
    ensures
        match r {
            Ok(Some(resolved)) => drive_alias_resolution(input@) == Ok::<
                Option<ResolvedText>,
                ResolveError,
            >(Some(resolved@)),
            Ok(None) => drive_alias_resolution(input@) == Ok::<Option<ResolvedText>, ResolveError>(
                None,
            ),
            Err(error) => drive_alias_resolution(input@) == Err::<
                Option<ResolvedText>,
                ResolveError,
            >(error),
        },
{
    let chars = chars_of(input);
    let v = chars.as_slice();
    let n: usize = v.len();
    if !starts_with(v, "/mnt/") || n <= 5 || !alpha(v[5]) || (n > 6 && v[6] != '/') {
        return Ok(None);
    }
    if has_char(v, '\0') {
        return Err(ResolveError::EmbeddedNul);
    }
    if has_char(v, '\\') {
        return Err(ResolveError::BackslashNotAllowed);
    }
    let mut root: String = String::new();
    root.push(to_upper(v[5]));
    root.push(':');
    root.push('\\');
    assert(root@ =~= alias_root(input@));
    let mut tail: String = String::new();
    if n > 6 {
        tail.push_str(string_of(part(v, 6, n)).as_str());
        assert(tail@ =~= input@.skip(6));
    } else {
        tail.push('/');
        assert(tail@ =~= seq!['/']);
    }
    match resolve_under_root(tail.as_str(), root.as_str(), render_buf) {
        Ok(resolved) => Ok(Some(resolved)),
        Err(error) => Err(error),
    }
}

/// The target a resolved path stands for.
fn target_from_resolved(resolved: Resolved<'_>) -> (r: Result<UserTarget, TargetError>)
    ensures
        gives(r, resolved_target(resolved@)),
{
    match resolved {
        Resolved::WslRoot => Ok(
            UserTarget {
                kind: TargetKind::NavigationRoot,
                native_path: WSL_ROOT_UNC.to_owned(),
                wsl_context: None,
            },
        ),
        Resolved::Distribution(path) => {
            let distribution = path.distribution();
            Ok(
                UserTarget {
                    kind: TargetKind::WslDistribution,
                    native_path: path.unc_display().to_owned(),
                    wsl_context: Some((distribution.to_owned(), path.linux_path().to_owned())),
                },
            )
        },
        Resolved::Folder(path) => native_target(chars_of(path.display()).as_slice()),
    }
}

fn resolve_slash_target<R: Registry + ?Sized>(
    input: &str,
    context: Option<&Context<'_, R>>,
    custom_root: Option<&str>,
) -> (r: Result<UserTarget, TargetError>)
    requires
        input@.len() > 0,
        input@[0] == '/',
    ensures
        gives(r, slash_resolution(input@, context, text_in(custom_root))),
{
    let mut render_buf = RenderBuf::new();
    match resolve_mnt_drive_resolved(input, &mut render_buf) {
        Err(error) => {
            return Err(TargetError::Rejected(TargetRejection::SlashPath(error)));
        },
        Ok(Some(resolved)) => {
            return match target_from_resolved(resolved) {
                Ok(target) => Ok(UserTarget { kind: TargetKind::LocalDrive, ..target }),
                Err(error) => Err(error),
            };
        },
        Ok(None) => {},
    }
    let chars = chars_of(input);
    let v = chars.as_slice();
    if v.len() > 1 && v[1] == '/' {
        return Err(
            TargetError::Rejected(TargetRejection::SlashPath(ResolveError::DoubleLeadingSlash)),
        );
    }
    if has_char(v, '\0') {
        return Err(TargetError::Rejected(TargetRejection::SlashPath(ResolveError::EmbeddedNul)));
    }
    if has_char(v, '\\') {
        return Err(
            TargetError::Rejected(TargetRejection::SlashPath(ResolveError::BackslashNotAllowed)),
        );
    }
    let ctx = match context {
        Some(ctx) => ctx,
        None => {
            return Err(TargetError::NeedsContext);
        },
    };
    let mut buf = RenderBuf::new();
    match resolve_with_root(input, custom_root, ctx, &mut buf) {
        Ok(resolved) => target_from_resolved(resolved),
        Err(error) => Err(TargetError::Rejected(TargetRejection::SlashPath(error))),
    }
}

fn resolve_relative<R: Registry + ?Sized>(
    input: &str,
    context: Option<&Context<'_, R>>,
    custom_root: Option<&str>,
    base: Option<TargetBase<'_>>,
) -> (r: Result<UserTarget, TargetError>)
    ensures
        gives(r, relative_resolution(input@, context, text_in(custom_root), base)),
{
    let chars = chars_of(input);
    match base {
        None => Err(TargetError::NeedsContext),
        Some(from) => {
            if has_char(chars.as_slice(), '\0') || is_device_path(chars.as_slice()) {
                return Err(TargetError::Rejected(TargetRejection::InvalidPath));
            }
            match from {
                TargetBase::NativePath(folder) => {
                    let target = match native_target(chars_of(folder).as_slice()) {
                        Ok(target) => target,
                        Err(error) => {
                            return Err(error);
                        },
                    };
                    let mut joined = chars_of(target.native_path.as_str());
                    proof {
                        lemma_native_is_long(folder@);
                    }
                    if joined[joined.len() - 1] != '\\' {
                        joined.push('\\');
                    }
                    append_chars(&mut joined, replace_char(chars.as_slice(), '/', '\\').as_slice());
                    assert(joined@ =~= joined_native(target@.native, input@));
                    native_target(joined.as_slice())
                },
                TargetBase::WslDistribution { distribution, linux_path } => {
                    let linux = chars_of(linux_path);
                    if linux.len() == 0 || linux[0] != '/' || has_char(linux.as_slice(), '\\') {
                        return Err(TargetError::Rejected(TargetRejection::InvalidPath));
                    }
                    let mut full: String = String::new();
                    full.push('/');
                    full.push_str(distribution);
                    full.push_str(string_of(trim_end_of(linux.as_slice(), '/')).as_str());
                    full.push('/');
                    full.push_str(input);
                    assert(full@ =~= (seq!['/'] + distribution@ + trim_back_of(
                        linux_path@,
                        '/',
                    )).push('/') + input@);
                    resolve_slash_target(full.as_str(), context, custom_root)
                },
            }
        },
    }
}

proof fn lemma_native_is_long(s: Seq<char>)
    requires
        native_resolution(s) is Ok,
    ensures
        native_resolution(s)->Ok_0.native.len() >= 2,
{
    reveal_strlit(r"\\");
}

/// Resolves Windows paths, `file:` URIs, slash aliases, and relative inputs.
///
/// `context` supplies the registered distributions. It is required for slash
/// aliases other than `/mnt/<drive>`, and for relative WSL bases. `custom_root`
/// has the same precedence as in the slash resolver. No branch probes the
/// filesystem or expands shell variables.
pub fn resolve_user_target<R: Registry + ?Sized>(
    input: &str,
    context: Option<&Context<'_, R>>,
    custom_root: Option<&str>,
    base: Option<TargetBase<'_>>,
) -> (r: Result<UserTarget, TargetError>)
    ensures
        gives(r, target_resolution(input@, context, text_in(custom_root), base)),
{
    let chars = chars_of(input);
    let v = chars.as_slice();
    if v.len() == 0 {
        return Err(TargetError::Rejected(TargetRejection::InvalidPath));
    }
    if is_device_path(v) {
        return Err(TargetError::Rejected(TargetRejection::DevicePath));
    }
    if has_file_scheme(v) {
        return resolve_file_uri(v);
    }
    if has_other_uri_scheme(v) || looks_like_shell_expansion(v) {
        return Err(TargetError::NotHandled);
    }
    if is_absolute_native_path(v) {
        return native_target(v);
    }
    if v[0] == '/' {
        return resolve_slash_target(input, context, custom_root);
    }
    resolve_relative(input, context, custom_root, base)
}

impl UserTarget {
    #[must_use]
    pub fn kind(&self) -> (r: TargetKind)
        ensures
            r == self@.kind,
    {
        self.kind
    }

    /// Absolute Windows path suitable for the native shell APIs.
    #[must_use]
    pub fn native_path(&self) -> (r: &str)
        ensures
            r@ == self@.native,
    {
        self.native_path.as_str()
    }

    /// The `file:` URI for this target. It is a `Result` so that callers have one
    /// failure channel should a target kind ever lack a file URI; every kind has
    /// one.
    pub fn file_uri(&self) -> (r: Result<String, TargetError>)
        ensures
            r is Ok,
            r->Ok_0@ == file_uri_text(self@.native),
    {
        Ok(file_uri_from_native(self.native_path.as_str()))
    }

    /// The Linux path, only for a target resolved inside the requested WSL
    /// distribution. A native drive spelling has no implicit Linux mapping.
    #[must_use]
    pub fn to_wsl_path(&self, distribution: &str) -> (r: Option<String>)
        ensures
            match r {
                Some(path) => self@.wsl is Some && folds_alike(self@.wsl->Some_0.0, distribution@)
                    && path@ == self@.wsl->Some_0.1,
                None => self@.wsl is None || !folds_alike(self@.wsl->Some_0.0, distribution@),
            },
    {
        match &self.wsl_context {
            Some((resolved_distribution, linux_path)) => if eq_ignore_case(
                resolved_distribution.as_str(),
                distribution,
            ) {
                Some(linux_path.clone())
            } else {
                None
            },
            None => None,
        }
    }
}

}
