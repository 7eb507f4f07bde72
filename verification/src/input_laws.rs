//! What each kind of user input becomes, from the characters of the input to the
//! characters of the target.

use crate::path::{
    begins_with_drive, resolution, resolution_under_root, text_in, Context, Registry, ResolveError,
    ResolvedText,
};
use crate::percent::{
    ascii_bytes, decoded_bytes, law_encoding_goes_piece_by_piece, law_one_encoded_character,
    percent_decoded, percent_encoded,
};
use crate::target::{
    after_server, alias_root, authority_resolution, drive_alias_resolution, encodes_separator,
    file_uri_resolution, file_uri_text, has_scheme, invalid_file_uri, is_device, is_file_uri,
    is_scheme_char, joined_native, local_uri_path, native_resolution, server_of, slash_resolution,
    target_resolution, TargetBase, TargetError, TargetKind, TargetRejection, TargetText,
};
use crate::text::{
    begins, index_of, lemma_index_of, lemma_index_of_is, lower, replaced, same_ignoring_case,
    trim_back_of, trim_front_of, upper,
};
use vstd::prelude::*;

verus! {

/// A text in which every `/` has become a `\` and every other character is itself.
pub open spec fn backslashed(s: Seq<char>) -> Seq<char> {
    Seq::new(
        s.len(),
        |i: int|
            if s[i] == '/' {
                '\\'
            } else {
                s[i]
            },
    )
}

/// An absolute drive path in its native spelling: the letter in upper case, every
/// `/` a `\`, and every other character itself.
pub open spec fn drive_spelling(s: Seq<char>) -> Seq<char> {
    Seq::new(
        s.len(),
        |i: int|
            if i == 0 && 'a' <= s[0] <= 'z' {
                ((s[0] as u32 - 32) as u32) as char
            } else if s[i] == '/' {
                '\\'
            } else {
                s[i]
            },
    )
}

/// A character that can stand in a URI scheme: an ASCII letter or digit, or one of
/// `+`, `-`, `.` and `_`.
pub open spec fn stands_in_a_scheme(c: char) -> bool {
    'a' <= c <= 'z' || 'A' <= c <= 'Z' || '0' <= c <= '9' || c == '+' || c == '-' || c == '.' || c
        == '_'
}

/// No colon of the text ends a scheme or a drive: something that stands in neither
/// comes before each.
pub open spec fn has_no_scheme(s: Seq<char>) -> bool {
    forall|i: int|
        0 <= i < s.len() && #[trigger] s[i] == ':' ==> exists|j: int|
            0 <= j < i && !stands_in_a_scheme(#[trigger] s[j])
}

proof fn lemma_backslashed(s: Seq<char>)
    ensures
        replaced(s, '/', '\\') == backslashed(s),
{
    assert(replaced(s, '/', '\\') =~= backslashed(s));
}

proof fn lemma_no_backslash_front(s: Seq<char>)
    requires
        s.len() > 0,
        s[0] != '\\',
    ensures
        !is_device(s),
        !begins(s, r"\\"@),
{
    reveal_strlit(r"\\?\");
    reveal_strlit(r"\\.\");
    reveal_strlit(r"\??\");
    reveal_strlit(r"\\");
    assert forall|p: Seq<char>| p.len() > 0 && p[0] == '\\' implies !#[trigger] begins(s, p) by {
        if begins(s, p) {
            assert(s.subrange(0, p.len() as int)[0] == p[0]);
        }
    }
}

/// A drive path means the drive path itself, in its native spelling: a letter, a
/// colon, a separator, and any characters behind it that are no control characters.
pub proof fn law_drive_paths_mean_themselves(s: Seq<char>)
    requires
        s.len() >= 3,
        'a' <= s[0] <= 'z' || 'A' <= s[0] <= 'Z',
        s[1] == ':',
        s[2] == '\\' || s[2] == '/',
    ensures
        (exists|i: int| 0 <= i < s.len() && #[trigger] s[i] as u32 <= 31) ==> native_resolution(s)
            == Err::<TargetText, TargetError>(TargetError::Rejected(TargetRejection::InvalidPath)),
        (forall|i: int| 0 <= i < s.len() ==> #[trigger] s[i] as u32 > 31) ==> native_resolution(s)
            == Ok::<TargetText, TargetError>(
            TargetText { kind: TargetKind::LocalDrive, native: drive_spelling(s), wsl: None },
        ),
{
    lemma_no_backslash_front(s);
    let flat = replaced(s, '/', '\\');
    assert(flat[0] == s[0]);
    lemma_no_backslash_front(flat);
    assert(flat[1] == ':' && flat[2] == '\\');
    let native = flat.update(0, upper(flat[0]));
    assert(native =~= drive_spelling(s));
    lemma_no_backslash_front(native);
    assert forall|i: int| 0 <= i < s.len() implies (#[trigger] s[i] <= '\u{1f}') == (s[i] as u32
        <= 31) by {
        lemma_control(s[i]);
    }
}

proof fn lemma_control(c: char)
    ensures
        (c <= '\u{1f}') == (c as u32 <= 31),
{
}

/// A UNC path means itself, in its native spelling: a server and a share, neither
/// empty nor with a colon, then any characters that are no control characters. The
/// servers `?` and `.` belong to the device namespaces.
#[verifier::rlimit(40)]
pub proof fn law_unc_paths_mean_themselves(server: Seq<char>, share: Seq<char>, rest: Seq<char>)
    requires
        server.len() > 0,
        share.len() > 0,
        forall|i: int|
            0 <= i < server.len() ==> #[trigger] server[i] != '\\' && server[i] != '/' && server[i]
                != ':' && server[i] as u32 > 31,
        forall|i: int|
            0 <= i < share.len() ==> #[trigger] share[i] != '\\' && share[i] != '/' && share[i]
                != ':' && share[i] as u32 > 31,
        forall|i: int| 0 <= i < rest.len() ==> #[trigger] rest[i] as u32 > 31,
        rest.len() == 0 || rest[0] == '\\' || rest[0] == '/',
        server != seq!['?'],
        server != seq!['.'],
    ensures
        native_resolution(seq!['\\', '\\'] + server + seq!['\\'] + share + rest) == Ok::<
            TargetText,
            TargetError,
        >(
            TargetText {
                kind: TargetKind::NativeUNC,
                native: seq!['\\', '\\'] + server + seq!['\\'] + share + backslashed(rest),
                wsl: None,
            },
        ),
        native_resolution(seq!['\\', '\\'] + server) == Err::<TargetText, TargetError>(
            TargetError::Rejected(TargetRejection::InvalidPath),
        ),
{
    let s = seq!['\\', '\\'] + server + seq!['\\'] + share + rest;
    let native = seq!['\\', '\\'] + server + seq!['\\'] + share + backslashed(rest);
    let flat = replaced(s, '/', '\\');
    let n: int = server.len() as int;
    let m: int = share.len() as int;
    reveal_strlit(r"\\");
    assert forall|i: int| 0 <= i < s.len() implies #[trigger] flat[i] == native[i] by {
        if 2 <= i < 2 + n {
            assert(s[i] == server[i - 2]);
        } else if 3 + n <= i < 3 + n + m {
            assert(s[i] == share[i - 3 - n]);
        } else if i >= 3 + n + m {
            assert(s[i] == rest[i - 3 - n - m]);
        }
    }
    assert(flat =~= native);
    assert forall|i: int| 0 <= i < s.len() implies !(#[trigger] s[i] <= '\u{1f}') by {
        if 2 <= i < 2 + n {
            assert(s[i] == server[i - 2]);
            lemma_control(server[i - 2]);
        } else if 3 + n <= i < 3 + n + m {
            assert(s[i] == share[i - 3 - n]);
            lemma_control(share[i - 3 - n]);
        } else if i >= 3 + n + m {
            assert(s[i] == rest[i - 3 - n - m]);
            lemma_control(rest[i - 3 - n - m]);
        }
    }
    lemma_not_device(server, s);
    assert(native.subrange(0, 2) =~= r"\\"@);
    let tail = native.skip(2);
    assert(tail =~= server + seq!['\\'] + share + backslashed(rest));
    assert forall|j: int| 0 <= j < n implies tail[j] != '\\' by {
        assert(tail[j] == server[j]);
    }
    assert(tail[n] == '\\');
    lemma_index_of_is(tail, '\\', n);
    assert(server_of(tail) =~= server);
    let behind = after_server(tail);
    assert(behind =~= share + backslashed(rest));
    assert forall|j: int| 0 <= j < m implies behind[j] != '\\' by {
        assert(behind[j] == share[j]);
    }
    if rest.len() > 0 {
        assert(behind[m] == '\\');
    }
    lemma_index_of_is(behind, '\\', m);
    assert(server_of(behind) =~= share);
    assert(!server.contains(':'));
    assert(!share.contains(':'));
    let alone = seq!['\\', '\\'] + server;
    let flat_alone = replaced(alone, '/', '\\');
    assert forall|i: int| 0 <= i < alone.len() implies #[trigger] flat_alone[i] == alone[i] by {
        if i >= 2 {
            assert(alone[i] == server[i - 2]);
        }
    }
    assert(flat_alone =~= alone);
    assert forall|i: int| 0 <= i < alone.len() implies !(#[trigger] alone[i] <= '\u{1f}') by {
        if i >= 2 {
            assert(alone[i] == server[i - 2]);
            lemma_control(server[i - 2]);
        }
    }
    lemma_not_device(server, alone);
    assert(alone.subrange(0, 2) =~= r"\\"@);
    assert(alone.skip(2) =~= server);
    assert forall|j: int| 0 <= j < n implies server[j] != '\\' by {}
    lemma_index_of_is(server, '\\', n);
    assert(after_server(server) =~= Seq::<char>::empty());
    lemma_index_of(Seq::<char>::empty(), '\\');
    assert(server_of(Seq::<char>::empty()).len() == 0);
}

proof fn lemma_not_device(server: Seq<char>, s: Seq<char>)
    requires
        server.len() > 0,
        s.len() >= 2 + server.len(),
        s[0] == '\\' && s[1] == '\\',
        forall|i: int| 0 <= i < server.len() ==> s[2 + i] == #[trigger] server[i] && server[i] != '\\',
        server != seq!['?'],
        server != seq!['.'],
    ensures
        !is_device(s),
{
    reveal_strlit(r"\\?\");
    reveal_strlit(r"\\.\");
    reveal_strlit(r"\??\");
    assert(s[2] == server[0]);
    if begins(s, r"\\?\"@) {
        assert(s.subrange(0, 4)[2] == '?' && s.subrange(0, 4)[3] == '\\');
        if server.len() > 1 {
            assert(s[3] == server[1]);
        }
        assert(server =~= seq!['?']);
    }
    if begins(s, r"\\.\"@) {
        assert(s.subrange(0, 4)[2] == '.' && s.subrange(0, 4)[3] == '\\');
        if server.len() > 1 {
            assert(s[3] == server[1]);
        }
        assert(server =~= seq!['.']);
    }
    if begins(s, r"\??\"@) {
        assert(s.subrange(0, 4)[1] == '?');
    }
}

/// An input without a scheme that begins with none of `\`, `%`, `$` and `~` is either
/// a slash path or relative.
#[verifier::rlimit(40)]
proof fn lemma_plain_input<R: Registry + ?Sized>(
    input: Seq<char>,
    context: Option<&Context<'_, R>>,
    custom_root: Option<Seq<char>>,
    base: Option<TargetBase<'_>>,
)
    requires
        input.len() > 0,
        input[0] != '%' && input[0] != '$' && input[0] != '~',
        input[0] == '\\' ==> input.len() == 1 || input[1] != '\\' && input[1] != '?',
        input[0] == '/' || has_no_scheme(input),
    ensures
        input[0] != '/' ==> target_resolution(input, context, custom_root, base)
            == crate::target::relative_resolution(input, context, custom_root, base),
        input[0] == '/' ==> target_resolution(input, context, custom_root, base)
            == slash_resolution(input, context, custom_root),
{
    lemma_single_backslash_front(input);
    if input[0] == '/' {
        lemma_slash_is_no_scheme(input);
    } else {
        lemma_no_scheme(input);
    }
}

/// Neither two backslashes nor the prefix of a device stand at the front of a text
/// whose first backslash is followed by neither `\` nor `?`.
proof fn lemma_single_backslash_front(s: Seq<char>)
    requires
        s.len() > 0,
        s[0] == '\\' ==> s.len() == 1 || s[1] != '\\' && s[1] != '?',
    ensures
        !is_device(s),
        !begins(s, r"\\"@),
{
    reveal_strlit(r"\\?\");
    reveal_strlit(r"\\.\");
    reveal_strlit(r"\??\");
    reveal_strlit(r"\\");
    assert forall|p: Seq<char>|
        p.len() > 1 && p[0] == '\\' && (p[1] == '\\' || p[1] == '?') implies !#[trigger] begins(
        s,
        p,
    ) by {
        if begins(s, p) {
            assert(s.subrange(0, p.len() as int)[0] == p[0]);
            assert(s.subrange(0, p.len() as int)[1] == p[1]);
        }
    }
}

proof fn lemma_slash_is_no_scheme(input: Seq<char>)
    requires
        input.len() > 0,
        input[0] == '/',
    ensures
        !is_file_uri(input),
        !has_scheme(input),
        !begins_with_drive(input),
{
    reveal_strlit("file:");
    assert(!is_scheme_char(input[0], 0));
    if is_file_uri(input) {
        assert(lower(input.take(5)[0]) == lower("file:"@[0]));
    }
}

proof fn lemma_no_scheme(input: Seq<char>)
    requires
        input.len() > 0,
        has_no_scheme(input),
    ensures
        !is_file_uri(input),
        !has_scheme(input),
        !begins_with_drive(input),
{
    reveal_strlit("file:");
    lemma_index_of(input, ':');
    let k = index_of(input, ':');
    if k < input.len() {
        let j = choose|j: int| 0 <= j < k && !stands_in_a_scheme(#[trigger] input[j]);
        assert(!is_scheme_char(input[j], j));
    }
    if is_file_uri(input) {
        assert(input.take(5)[4] == input[4]);
        assert(lower(input.take(5)[4]) == lower("file:"@[4]));
        assert(input[4] == ':');
        let j = choose|j: int| 0 <= j < 4 && !stands_in_a_scheme(#[trigger] input[j]);
        assert(lower(input.take(5)[j]) == lower("file:"@[j]));
        assert(input.take(5)[j] == input[j]);
    }
    if input.len() >= 2 && input[1] == ':' {
        let j = choose|j: int| 0 <= j < 1 && !stands_in_a_scheme(#[trigger] input[j]);
        assert(!stands_in_a_scheme(input[0]));
    }
}

/// A relative input below a native folder means what the folder, one separator and
/// the input mean when they are typed in one.
pub proof fn law_relative_input_is_the_joined_path<R: Registry + ?Sized>(
    input: Seq<char>,
    folder: &str,
    context: Option<&Context<'_, R>>,
    custom_root: Option<Seq<char>>,
)
    requires
        input.len() > 0,
        input[0] != '/' && input[0] != '%' && input[0] != '$' && input[0] != '~',
        input[0] == '\\' ==> input.len() == 1 || input[1] != '\\' && input[1] != '?',
        has_no_scheme(input),
        forall|i: int| 0 <= i < input.len() ==> #[trigger] input[i] != '\0',
        native_resolution(folder@) is Ok,
    ensures
        ({
            let below = target_resolution(
                input,
                context,
                custom_root,
                Some(TargetBase::NativePath(folder)),
            );
            let base = native_resolution(folder@)->Ok_0.native;
            &&& base.last() != '\\' ==> below == native_resolution(base + seq!['\\'] + input)
            &&& base.last() == '\\' ==> below == native_resolution(base + input)
        }),
{
    lemma_plain_input(input, context, custom_root, Some(TargetBase::NativePath(folder)));
    lemma_single_backslash_front(input);
    let base = native_resolution(folder@)->Ok_0.native;
    lemma_native_ends(folder@);
    let front = if base.last() == '\\' {
        base
    } else {
        base + seq!['\\']
    };
    let joined = joined_native(base, input);
    let typed = front + input;
    assert(base.push('\\') =~= base + seq!['\\']);
    assert(joined =~= front + replaced(input, '/', '\\'));
    lemma_spellings_agree(front, input);
}

proof fn lemma_native_ends(s: Seq<char>)
    requires
        native_resolution(s) is Ok,
    ensures
        native_resolution(s)->Ok_0.native.len() >= 3,
{
    let native = native_resolution(s)->Ok_0.native;
    let flat = replaced(s, '/', '\\');
    reveal_strlit(r"\\");
    if begins(flat, r"\\"@) {
        let rest = flat.skip(2);
        lemma_index_of(rest, '\\');
    }
}

/// A path means the same whichever separator its tail is spelled with.
proof fn lemma_spellings_agree(front: Seq<char>, input: Seq<char>)
    requires
        front.len() >= 3,
        front.last() == '\\',
        input.len() > 0,
    ensures
        native_resolution(front + replaced(input, '/', '\\')) == native_resolution(front + input),
{
    let a = front + replaced(input, '/', '\\');
    let b = front + input;
    assert forall|i: int| 0 <= i < a.len() implies replaced(a, '/', '\\')[i] == replaced(
        b,
        '/',
        '\\',
    )[i] by {
        if i >= front.len() {
            assert(a[i] == replaced(input, '/', '\\')[i - front.len()]);
            assert(b[i] == input[i - front.len()]);
        }
    }
    assert(replaced(a, '/', '\\') =~= replaced(b, '/', '\\'));
    assert forall|i: int| 0 <= i < a.len() implies (#[trigger] a[i] <= '\u{1f}') == (b[i]
        <= '\u{1f}') by {
        if i >= front.len() {
            assert(a[i] == replaced(input, '/', '\\')[i - front.len()]);
            assert(b[i] == input[i - front.len()]);
        }
    }
    assert((exists|i: int| 0 <= i < a.len() && #[trigger] a[i] <= '\u{1f}') == (exists|i: int|
        0 <= i < b.len() && #[trigger] b[i] <= '\u{1f}')) by {
        if exists|i: int| 0 <= i < a.len() && #[trigger] a[i] <= '\u{1f}' {
            let i = choose|i: int| 0 <= i < a.len() && #[trigger] a[i] <= '\u{1f}';
            assert(b[i] <= '\u{1f}');
        }
        if exists|i: int| 0 <= i < b.len() && #[trigger] b[i] <= '\u{1f}' {
            let i = choose|i: int| 0 <= i < b.len() && #[trigger] b[i] <= '\u{1f}';
            assert(a[i] <= '\u{1f}');
        }
    }
    lemma_device_by_front(front, replaced(input, '/', '\\'), input);
}

/// Whether a path lies in a device namespace is settled by its first four
/// characters; behind a separator the spelling of a tail takes no part.
proof fn lemma_device_by_front(front: Seq<char>, a: Seq<char>, b: Seq<char>)
    requires
        front.len() >= 3,
        front.last() == '\\',
        a.len() == b.len(),
        a.len() > 0,
    ensures
        is_device(front + a) == is_device(front + b),
{
    reveal_strlit(r"\\?\");
    reveal_strlit(r"\\.\");
    reveal_strlit(r"\??\");
    let x = front + a;
    let y = front + b;
    if front.len() >= 4 {
        assert(x.subrange(0, 4) =~= y.subrange(0, 4));
    } else {
        assert(x[2] == '\\' && y[2] == '\\');
        assert(x.subrange(0, 4)[2] == '\\');
        assert(y.subrange(0, 4)[2] == '\\');
        assert(r"\\?\"@[2] == '?');
        assert(r"\\.\"@[2] == '.');
        assert(r"\??\"@[2] == '?');
    }
}

/// Below a folder on a drive, a relative input without control characters becomes
/// the folder's path, one separator, and the input's own characters, each `/` a
/// `\`; nothing else of the input changes.
pub proof fn law_relative_input_keeps_its_characters<R: Registry + ?Sized>(
    input: Seq<char>,
    folder: &str,
    context: Option<&Context<'_, R>>,
    custom_root: Option<Seq<char>>,
)
    requires
        input.len() > 0,
        input[0] != '/' && input[0] != '%' && input[0] != '$' && input[0] != '~',
        input[0] == '\\' ==> input.len() == 1 || input[1] != '\\' && input[1] != '?',
        has_no_scheme(input),
        forall|i: int| 0 <= i < input.len() ==> #[trigger] input[i] as u32 > 31,
        folder@.len() >= 3,
        'A' <= folder@[0] <= 'Z',
        folder@[1] == ':',
        folder@[2] == '\\',
        forall|i: int|
            0 <= i < folder@.len() ==> #[trigger] folder@[i] != '/' && folder@[i] as u32 > 31,
    ensures
        target_resolution(input, context, custom_root, Some(TargetBase::NativePath(folder))) == Ok::<
            TargetText,
            TargetError,
        >(
            TargetText {
                kind: TargetKind::LocalDrive,
                native: if folder@.last() == '\\' {
                    folder@ + backslashed(input)
                } else {
                    folder@ + seq!['\\'] + backslashed(input)
                },
                wsl: None,
            },
        ),
{
    let base = folder@;
    law_drive_paths_mean_themselves(base);
    assert(drive_spelling(base) =~= base);
    assert forall|i: int| 0 <= i < input.len() implies #[trigger] input[i] != '\0' by {
        assert(input[i] as u32 > 31);
    }
    law_relative_input_is_the_joined_path(input, folder, context, custom_root);
    let front = if base.last() == '\\' {
        base
    } else {
        base + seq!['\\']
    };
    let typed = front + input;
    assert(typed[0] == base[0] && typed[1] == base[1] && typed[2] == base[2]);
    assert forall|i: int| 0 <= i < typed.len() implies #[trigger] typed[i] as u32 > 31 by {
        if i < base.len() {
            assert(typed[i] == base[i]);
        } else if i >= front.len() {
            assert(typed[i] == input[i - front.len()]);
        }
    }
    law_drive_paths_mean_themselves(typed);
    assert forall|i: int| 0 <= i < typed.len() implies #[trigger] drive_spelling(typed)[i] == (front
        + backslashed(input))[i] by {
        if i < base.len() {
            assert(typed[i] == base[i]);
        } else if i >= front.len() {
            assert(typed[i] == input[i - front.len()]);
        }
    }
    assert(drive_spelling(typed) =~= front + backslashed(input));
}

/// A relative input below a path inside a distribution means what the slash input
/// means that names the distribution, the path and the input in turn. A separator
/// at the end of the path changes nothing.
#[verifier::rlimit(40)]
pub proof fn law_relative_input_inside_a_distribution<R: Registry + ?Sized>(
    input: Seq<char>,
    distribution: &str,
    linux_path: &str,
    context: Option<&Context<'_, R>>,
    custom_root: Option<Seq<char>>,
    base: Option<TargetBase<'_>>,
)
    requires
        input.len() > 0,
        input[0] != '/' && input[0] != '%' && input[0] != '$' && input[0] != '~',
        input[0] == '\\' ==> input.len() == 1 || input[1] != '\\' && input[1] != '?',
        has_no_scheme(input),
        forall|i: int| 0 <= i < input.len() ==> #[trigger] input[i] != '\0',
        linux_path@.len() > 0,
        linux_path@[0] == '/',
        forall|i: int| 0 <= i < linux_path@.len() ==> #[trigger] linux_path@[i] != '\\',
    ensures
        ({
            let below = target_resolution(
                input,
                context,
                custom_root,
                Some(TargetBase::WslDistribution { distribution, linux_path }),
            );
            let n: int = linux_path@.len() as int;
            &&& linux_path@[n - 1] != '/' ==> below == target_resolution(
                seq!['/'] + distribution@ + linux_path@ + seq!['/'] + input,
                context,
                custom_root,
                base,
            )
            &&& linux_path@[n - 1] == '/' && (n == 1 || linux_path@[n - 2] != '/') ==> below
                == target_resolution(
                seq!['/'] + distribution@ + linux_path@ + input,
                context,
                custom_root,
                base,
            )
        }),
{
    let from = TargetBase::WslDistribution { distribution, linux_path };
    lemma_plain_input(input, context, custom_root, Some(from));
    lemma_single_backslash_front(input);
    assert(!linux_path@.contains('\\'));
    assert(!input.contains('\0'));
    let n: int = linux_path@.len() as int;
    let walked = (seq!['/'] + distribution@ + trim_back_of(linux_path@, '/')).push('/') + input;
    reveal_with_fuel(trim_back_of, 3);
    if linux_path@[n - 1] != '/' {
        let typed = seq!['/'] + distribution@ + linux_path@ + seq!['/'] + input;
        assert(trim_back_of(linux_path@, '/') == linux_path@);
        assert(walked =~= typed);
        assert(typed[0] == '/');
        lemma_plain_input(typed, context, custom_root, base);
    } else if n == 1 || linux_path@[n - 2] != '/' {
        let typed = seq!['/'] + distribution@ + linux_path@ + input;
        let cut = linux_path@.drop_last();
        if n > 1 {
            assert(cut.last() == linux_path@[n - 2]);
        }
        assert(trim_back_of(linux_path@, '/') == cut);
        assert(cut.push('/') =~= linux_path@);
        assert(walked =~= typed);
        assert(typed[0] == '/');
        lemma_plain_input(typed, context, custom_root, base);
    }
}

/// A relative input without a base has no meaning yet, and neither has a slash path
/// that is no drive alias without the registered distributions.
pub proof fn law_context_is_asked_for<R: Registry + ?Sized>(
    input: Seq<char>,
    context: Option<&Context<'_, R>>,
    custom_root: Option<Seq<char>>,
)
    requires
        input.len() > 0,
        input[0] != '/' && input[0] != '%' && input[0] != '$' && input[0] != '~',
        input[0] == '\\' ==> input.len() == 1 || input[1] != '\\' && input[1] != '?',
        has_no_scheme(input),
    ensures
        target_resolution(input, context, custom_root, None) == Err::<TargetText, TargetError>(
            TargetError::NeedsContext,
        ),
{
    lemma_plain_input(input, context, custom_root, None);
}

/// Typed as they stand, drive paths and UNC paths are native paths, whatever the
/// context and the base are.
#[verifier::rlimit(40)]
pub proof fn law_absolute_input_needs_no_context<R: Registry + ?Sized>(
    input: Seq<char>,
    context: Option<&Context<'_, R>>,
    custom_root: Option<Seq<char>>,
    base: Option<TargetBase<'_>>,
)
    requires
        input.len() >= 3,
        ({
            ||| ('a' <= input[0] <= 'z' || 'A' <= input[0] <= 'Z') && input[1] == ':' && (input[2]
                == '\\' || input[2] == '/')
            ||| input[0] == '\\' && input[1] == '\\' && input[2] != '?' && input[2] != '.'
        }),
    ensures
        target_resolution(input, context, custom_root, base) == native_resolution(input),
{
    reveal_strlit("file:");
    reveal_strlit(r"\\");
    if input[0] == '\\' {
        lemma_no_device_third(input);
        assert(input.subrange(0, 2) =~= r"\\"@);
        assert(!is_scheme_char(input[0], 0));
        if is_file_uri(input) {
            assert(lower(input.take(5)[0]) == lower("file:"@[0]));
        }
    } else {
        lemma_no_backslash_front(input);
        lemma_index_of_is(input, ':', 1);
        if is_file_uri(input) {
            assert(lower(input.take(5)[1]) == lower("file:"@[1]));
        }
    }
}

proof fn lemma_no_device_third(s: Seq<char>)
    requires
        s.len() >= 3,
        s[0] == '\\' && s[1] == '\\' && s[2] != '?' && s[2] != '.',
    ensures
        !is_device(s),
{
    reveal_strlit(r"\\?\");
    reveal_strlit(r"\\.\");
    reveal_strlit(r"\??\");
    if begins(s, r"\\?\"@) {
        assert(s.subrange(0, 4)[2] == '?');
    }
    if begins(s, r"\\.\"@) {
        assert(s.subrange(0, 4)[2] == '.');
    }
    if begins(s, r"\??\"@) {
        assert(s.subrange(0, 4)[1] == '?');
    }
}

/// What begins with one of the three device prefixes is refused as such.
pub proof fn law_device_input_is_refused<R: Registry + ?Sized>(
    rest: Seq<char>,
    context: Option<&Context<'_, R>>,
    custom_root: Option<Seq<char>>,
    base: Option<TargetBase<'_>>,
)
    ensures
        target_resolution(r"\\?\"@ + rest, context, custom_root, base) == Err::<
            TargetText,
            TargetError,
        >(TargetError::Rejected(TargetRejection::DevicePath)),
        target_resolution(r"\\.\"@ + rest, context, custom_root, base) == Err::<
            TargetText,
            TargetError,
        >(TargetError::Rejected(TargetRejection::DevicePath)),
        target_resolution(r"\??\"@ + rest, context, custom_root, base) == Err::<
            TargetText,
            TargetError,
        >(TargetError::Rejected(TargetRejection::DevicePath)),
{
    reveal_strlit(r"\\?\");
    reveal_strlit(r"\\.\");
    reveal_strlit(r"\??\");
    assert((r"\\?\"@ + rest).subrange(0, 4) =~= r"\\?\"@);
    assert((r"\\.\"@ + rest).subrange(0, 4) =~= r"\\.\"@);
    assert((r"\??\"@ + rest).subrange(0, 4) =~= r"\??\"@);
}

/// What belongs to another handler is left alone: a scheme of two or more characters
/// and a colon that is not `file:`, and anything that begins with `%`, `$` or `~`.
#[verifier::rlimit(40)]
pub proof fn law_other_handlers_keep_their_input<R: Registry + ?Sized>(
    input: Seq<char>,
    scheme: nat,
    context: Option<&Context<'_, R>>,
    custom_root: Option<Seq<char>>,
    base: Option<TargetBase<'_>>,
)
    requires
        ({
            ||| 2 <= scheme < input.len() && scheme != 4 && input[scheme as int] == ':' && input[0]
                != '_' && forall|i: int|
                0 <= i < scheme ==> stands_in_a_scheme(#[trigger] input[i])
            ||| input.len() > 0 && (input[0] == '%' || input[0] == '$' || input[0] == '~')
        }),
    ensures
        target_resolution(input, context, custom_root, base) == Err::<TargetText, TargetError>(
            TargetError::NotHandled,
        ),
{
    reveal_strlit("file:");
    assert(input[0] != '\\') by {
        if !(input[0] == '%' || input[0] == '$' || input[0] == '~') {
            assert(stands_in_a_scheme(input[0]));
        }
    }
    lemma_no_backslash_front(input);
    if input[0] == '%' || input[0] == '$' || input[0] == '~' {
        if is_file_uri(input) {
            assert(lower(input.take(5)[0]) == lower("file:"@[0]));
        }
    } else {
        let n: int = scheme as int;
        assert forall|j: int| 0 <= j < n implies input[j] != ':' by {
            assert(stands_in_a_scheme(input[j]));
        }
        lemma_index_of_is(input, ':', n);
        assert forall|j: int| 0 <= j < n implies is_scheme_char(#[trigger] input[j], j) by {
            assert(stands_in_a_scheme(input[j]));
        }
        if is_file_uri(input) {
            assert(lower(input.take(5)[4]) == lower("file:"@[4]));
            assert(input.take(5)[4] == input[4]);
            if n < 4 {
                assert(lower(input.take(5)[n]) == lower("file:"@[n]));
                assert(input.take(5)[n] == input[n]);
            } else {
                assert(stands_in_a_scheme(input[4]));
            }
        }
    }
}

// ---------------------------------------------------------------------------
// Drive aliases
// ---------------------------------------------------------------------------

/// `/mnt/<letter>` and what stands behind it mean the same as below the drive's own
/// root: the rest of the input is walked there.
pub proof fn law_a_drive_alias_is_its_drive(letter: char, tail: Seq<char>)
    requires
        'a' <= letter <= 'z' || 'A' <= letter <= 'Z',
        tail.len() == 0 || tail[0] == '/',
        forall|i: int| 0 <= i < tail.len() ==> #[trigger] tail[i] != '\\' && tail[i] != '\0',
    ensures
        ({
            let capital = if 'a' <= letter <= 'z' {
                ((letter as u32 - 32) as u32) as char
            } else {
                letter
            };
            let walked = if tail.len() == 0 {
                seq!['/']
            } else {
                tail
            };
            drive_alias_resolution("/mnt/"@.push(letter) + tail) == match resolution_under_root(
                walked,
                seq![capital, ':'],
            ) {
                Ok(path) => Ok::<Option<ResolvedText>, ResolveError>(Some(path)),
                Err(error) => Err::<Option<ResolvedText>, ResolveError>(error),
            }
        }),
{
    let input = "/mnt/"@.push(letter) + tail;
    reveal_strlit("/mnt/");
    assert(input.subrange(0, 5) =~= "/mnt/"@);
    assert(input[5] == letter);
    if tail.len() > 0 {
        assert(input[6] == tail[0]);
        assert(input.skip(6) =~= tail);
    }
    assert forall|c: char| c == '\0' || c == '\\' implies !input.contains(c) by {
        if input.contains(c) {
            let j = choose|j: int| 0 <= j < input.len() && input[j] == c;
            if j >= 6 {
                assert(tail[j - 6] == c);
            }
        }
    }
    let capital = upper(letter);
    assert(alias_root(input) =~= seq![capital, ':'].push('\\'));
    let walked = if tail.len() == 0 {
        seq!['/']
    } else {
        tail
    };
    crate::resolution_laws::law_separators_behind_a_custom_root_change_nothing(
        walked,
        seq![capital, ':'],
    );
}

/// What is no drive alias: anything that does not begin with `/mnt/`, and behind it
/// anything but a single letter before the next separator.
pub proof fn law_only_single_letters_are_drives(input: Seq<char>)
    ensures
        input.len() < 6 ==> drive_alias_resolution(input) == Ok::<
            Option<ResolvedText>,
            ResolveError,
        >(None),
        input.len() >= 5 && input.take(5) != "/mnt/"@ ==> drive_alias_resolution(input) == Ok::<
            Option<ResolvedText>,
            ResolveError,
        >(None),
        input.len() >= 6 && !('a' <= input[5] <= 'z' || 'A' <= input[5] <= 'Z')
            ==> drive_alias_resolution(input) == Ok::<Option<ResolvedText>, ResolveError>(None),
        input.len() >= 7 && input[6] != '/' ==> drive_alias_resolution(input) == Ok::<
            Option<ResolvedText>,
            ResolveError,
        >(None),
{
    reveal_strlit("/mnt/");
    if input.len() >= 5 {
        assert(input.subrange(0, 5) =~= input.take(5));
    }
}

/// A drive alias needs no context: what it means below its drive is the target, as
/// a local drive.
pub proof fn law_a_drive_alias_needs_no_context<R: Registry + ?Sized>(
    input: Seq<char>,
    context: Option<&Context<'_, R>>,
    custom_root: Option<Seq<char>>,
    base: Option<TargetBase<'_>>,
)
    requires
        input.len() > 0,
        input[0] == '/',
        drive_alias_resolution(input) is Ok ==> drive_alias_resolution(input)->Ok_0 is Some,
    ensures
        match drive_alias_resolution(input) {
            Err(error) => target_resolution(input, context, custom_root, base) == Err::<
                TargetText,
                TargetError,
            >(TargetError::Rejected(TargetRejection::SlashPath(error))),
            Ok(path) => match native_resolution(path->Some_0.display()) {
                Ok(target) => target_resolution(input, context, custom_root, base) == Ok::<
                    TargetText,
                    TargetError,
                >(TargetText { kind: TargetKind::LocalDrive, native: target.native, wsl: None }),
                Err(error) => target_resolution(input, context, custom_root, base) == Err::<
                    TargetText,
                    TargetError,
                >(error),
            },
        },
{
    lemma_plain_input(input, context, custom_root, base);
    if let Ok(Some(path)) = drive_alias_resolution(input) {
        assert(path is Folder);
    }
}

/// What a slash path inside a distribution becomes: the Windows path that the slash
/// resolver gives, together with the distribution and the Linux path.
pub proof fn law_slash_input_becomes_its_windows_path<R: Registry + ?Sized>(
    input: Seq<char>,
    ctx: &Context<'_, R>,
    base: Option<TargetBase<'_>>,
)
    requires
        input.len() > 0,
        input[0] == '/',
        drive_alias_resolution(input) == Ok::<Option<ResolvedText>, ResolveError>(None),
    ensures
        match resolution(
            input,
            ctx.registry,
            ctx.mode,
            text_in(ctx.preferred),
            text_in(ctx.wsl_default),
        ) {
            Ok(ResolvedText::WslRoot) => target_resolution(input, Some(ctx), None, base) == Ok::<
                TargetText,
                TargetError,
            >(
                TargetText {
                    kind: TargetKind::NavigationRoot,
                    native: r"\\wsl.localhost"@,
                    wsl: None,
                },
            ),
            Ok(path) => target_resolution(input, Some(ctx), None, base) == Ok::<
                TargetText,
                TargetError,
            >(
                TargetText {
                    kind: TargetKind::WslDistribution,
                    native: path.display(),
                    wsl: Some((path.distribution()->Some_0, path.linux())),
                },
            ),
            Err(error) => target_resolution(input, Some(ctx), None, base) == Err::<
                TargetText,
                TargetError,
            >(TargetError::Rejected(TargetRejection::SlashPath(error))),
        },
{
    lemma_plain_input(input, Some(ctx), None, base);
}

// ---------------------------------------------------------------------------
// File URIs
// ---------------------------------------------------------------------------

proof fn lemma_ascii(c: char)
    requires
        c <= '\u{7f}',
    ensures
        '\0' <= c,
        c != '%' ==> c as u8 != 0x25,
{
}

proof fn lemma_plain_decodes(text: Seq<char>)
    requires
        forall|i: int| 0 <= i < text.len() ==> #[trigger] text[i] != '%' && text[i] <= '\u{7f}',
    ensures
        percent_decoded(text) == Some(text),
{
    assert forall|i: int| 0 <= i < text.len() implies '\0' <= #[trigger] text[i] <= '\u{7f}' by {
        lemma_ascii(text[i]);
    }
    vstd::utf8::is_ascii_chars_encode_utf8(text);
    let bytes = vstd::utf8::encode_utf8(text);
    assert(bytes =~= ascii_bytes(text));
    assert forall|i: int| 0 <= i < bytes.len() implies bytes[i] != 0x25 by {
        lemma_ascii(text[i]);
        assert(bytes[i] == text[i] as u8);
    }
    lemma_plain_bytes(bytes);
    vstd::utf8::encode_utf8_valid_utf8(text);
    vstd::utf8::encode_utf8_decode_utf8(text);
}

proof fn lemma_plain_bytes(bytes: Seq<u8>)
    requires
        forall|i: int| 0 <= i < bytes.len() ==> bytes[i] != 0x25,
    ensures
        decoded_bytes(bytes) == Some(bytes),
    decreases bytes.len(),
{
    if bytes.len() == 0 {
        assert(bytes =~= Seq::empty());
    } else {
        lemma_plain_bytes(bytes.skip(1));
        assert(seq![bytes[0]] + bytes.skip(1) =~= bytes);
    }
}

#[verifier::rlimit(40)]
proof fn lemma_file_input<R: Registry + ?Sized>(
    input: Seq<char>,
    context: Option<&Context<'_, R>>,
    custom_root: Option<Seq<char>>,
    base: Option<TargetBase<'_>>,
)
    requires
        input.len() >= 5,
        input.take(5) == "file:"@,
    ensures
        target_resolution(input, context, custom_root, base) == file_uri_resolution(input),
{
    reveal_strlit("file:");
    assert(input[0] == input.take(5)[0]);
    lemma_no_backslash_front(input);
}

/// The parts of `//`, a host and a path.
proof fn lemma_authority_parts(rest: Seq<char>, host: Seq<char>, path: Seq<char>)
    requires
        rest == seq!['/', '/'] + host + path,
        path.len() > 0,
        path[0] == '/',
        forall|i: int|
            0 <= i < host.len() ==> #[trigger] host[i] != '?' && host[i] != '#' && host[i] != '/',
        forall|i: int| 0 <= i < path.len() ==> #[trigger] path[i] != '?' && path[i] != '#',
    ensures
        !rest.contains('?'),
        !rest.contains('#'),
        begins(rest, "//"@),
        index_of(rest.skip(2), '/') == host.len(),
        rest.skip(2).take(host.len() as int) == host,
        rest.skip(2).skip(host.len() as int) == path,
{
    reveal_strlit("//");
    let both = rest.skip(2);
    assert(both =~= host + path);
    assert(rest.subrange(0, 2) =~= "//"@);
    assert forall|i: int| 0 <= i < rest.len() implies rest[i] != '?' && rest[i] != '#' by {
        if 2 <= i < 2 + host.len() {
            assert(rest[i] == host[i - 2]);
        } else if i >= 2 + host.len() {
            assert(rest[i] == path[i - 2 - host.len()]);
        }
    }
    assert forall|j: int| 0 <= j < host.len() implies both[j] != '/' by {
        assert(both[j] == host[j]);
    }
    assert(both[host.len() as int] == '/');
    lemma_index_of_is(both, '/', host.len() as int);
    assert(both.take(host.len() as int) =~= host);
    assert(both.skip(host.len() as int) =~= path);
}

proof fn lemma_no_escape(path: Seq<char>)
    requires
        forall|i: int| 0 <= i < path.len() ==> #[trigger] path[i] != '%',
    ensures
        !encodes_separator(path),
{
}

#[verifier::rlimit(40)]
proof fn lemma_authority_uri(input: Seq<char>, host: Seq<char>, path: Seq<char>)
    requires
        input.len() >= 5,
        input.skip(5) == seq!['/', '/'] + host + path,
        path.len() > 0,
        path[0] == '/',
        forall|i: int|
            0 <= i < host.len() ==> #[trigger] host[i] != '%' && host[i] != '?' && host[i] != '#'
                && host[i] != '/' && host[i] <= '\u{7f}',
        forall|i: int|
            0 <= i < path.len() ==> #[trigger] path[i] != '%' && path[i] != '?' && path[i] != '#'
                && path[i] <= '\u{7f}',
    ensures
        file_uri_resolution(input) == authority_resolution(host, path),
{
    lemma_authority_parts(input.skip(5), host, path);
    lemma_no_escape(path);
    lemma_plain_decodes(path);
    lemma_plain_decodes(host);
}

proof fn lemma_slashed_plain(path: Seq<char>)
    requires
        forall|i: int|
            0 <= i < path.len() ==> #[trigger] path[i] != '%' && path[i] != '?' && path[i] != '#'
                && path[i] <= '\u{7f}',
    ensures
        ({
            let slashed = seq!['/'] + path;
            forall|i: int|
                0 <= i < slashed.len() ==> #[trigger] slashed[i] != '%' && slashed[i] != '?'
                    && slashed[i] != '#' && slashed[i] <= '\u{7f}'
        }),
{
    let slashed = seq!['/'] + path;
    assert forall|i: int| 0 <= i < slashed.len() implies #[trigger] slashed[i] != '%' && slashed[i]
        != '?' && slashed[i] != '#' && slashed[i] <= '\u{7f}' by {
        if i > 0 {
            assert(slashed[i] == path[i - 1]);
        }
    }
}

proof fn lemma_local_path(path: Seq<char>)
    requires
        path.len() > 0,
        path[0] != '/',
    ensures
        local_uri_path(seq!['/'] + path) == native_resolution(backslashed(path)),
{
    let slashed = seq!['/'] + path;
    assert(slashed.skip(1) =~= path);
    reveal_with_fuel(trim_front_of, 2);
    assert(trim_front_of(slashed, '/') == path);
    lemma_backslashed(path);
}

proof fn lemma_short_uri(input: Seq<char>, path: Seq<char>)
    requires
        input.len() >= 5,
        input.skip(5) == path,
        path.len() > 1,
        path[0] == '/',
        path[1] != '/',
        forall|i: int|
            0 <= i < path.len() ==> #[trigger] path[i] != '%' && path[i] != '?' && path[i] != '#'
                && path[i] <= '\u{7f}',
    ensures
        file_uri_resolution(input) == local_uri_path(path),
{
    reveal_strlit("//");
    lemma_no_escape(path);
    lemma_plain_decodes(path);
    assert(!path.contains('?') && !path.contains('#'));
    if begins(path, "//"@) {
        assert(path.subrange(0, 2)[1] == '/');
    }
}

/// `file:///` and a plain path mean the path itself: with no escape, no query and no
/// fragment in it, every character stands for itself. One slash, and the host
/// `localhost`, mean the same.
#[verifier::rlimit(40)]
pub proof fn law_a_local_file_uri_is_its_path<R: Registry + ?Sized>(
    path: Seq<char>,
    context: Option<&Context<'_, R>>,
    custom_root: Option<Seq<char>>,
    base: Option<TargetBase<'_>>,
)
    requires
        path.len() > 0,
        path[0] != '/',
        forall|i: int|
            0 <= i < path.len() ==> #[trigger] path[i] != '%' && path[i] != '?' && path[i] != '#'
                && path[i] <= '\u{7f}',
    ensures
        target_resolution("file:///"@ + path, context, custom_root, base) == native_resolution(
            backslashed(path),
        ),
        target_resolution("file:/"@ + path, context, custom_root, base) == native_resolution(
            backslashed(path),
        ),
        target_resolution("file://localhost/"@ + path, context, custom_root, base)
            == native_resolution(backslashed(path)),
{
    let slashed = seq!['/'] + path;
    let nothing = Seq::<char>::empty();
    let host = "localhost"@;
    let three = "file:///"@ + path;
    let one = "file:/"@ + path;
    let named = "file://localhost/"@ + path;
    lemma_slashed_plain(path);
    lemma_local_path(path);
    lemma_local_fronts(path);
    lemma_file_input(three, context, custom_root, base);
    lemma_authority_uri(three, nothing, slashed);
    lemma_file_input(one, context, custom_root, base);
    lemma_short_uri(one, slashed);
    lemma_file_input(named, context, custom_root, base);
    lemma_authority_uri(named, host, slashed);
    assert(same_ignoring_case(host, "localhost"@));
}

proof fn lemma_local_fronts(path: Seq<char>)
    ensures
        ({
            let slashed = seq!['/'] + path;
            let three = "file:///"@ + path;
            let one = "file:/"@ + path;
            let named = "file://localhost/"@ + path;
            &&& three.len() >= 5 && one.len() >= 5 && named.len() >= 5
            &&& three.take(5) == "file:"@ && one.take(5) == "file:"@ && named.take(5) == "file:"@
            &&& three.skip(5) == seq!['/', '/'] + Seq::<char>::empty() + slashed
            &&& one.skip(5) == slashed
            &&& named.skip(5) == seq!['/', '/'] + "localhost"@ + slashed
            &&& forall|i: int|
                0 <= i < "localhost"@.len() ==> 'a' <= #[trigger] "localhost"@[i] <= 'z'
        }),
{
    reveal_strlit("file:///");
    reveal_strlit("file:/");
    reveal_strlit("file:");
    reveal_strlit("localhost");
    reveal_strlit("file://localhost/");
    let slashed = seq!['/'] + path;
    let three = "file:///"@ + path;
    let one = "file:/"@ + path;
    let named = "file://localhost/"@ + path;
    assert(three.take(5) =~= "file:"@);
    assert(one.take(5) =~= "file:"@);
    assert(named.take(5) =~= "file:"@);
    assert(three.skip(5) =~= seq!['/', '/'] + Seq::<char>::empty() + slashed);
    assert(one.skip(5) =~= slashed);
    assert(named.skip(5) =~= seq!['/', '/'] + "localhost"@ + slashed);
}

/// `file://`, a server and a plain path mean the UNC path on that server.
#[verifier::rlimit(40)]
pub proof fn law_a_remote_file_uri_is_its_share<R: Registry + ?Sized>(
    server: Seq<char>,
    path: Seq<char>,
    context: Option<&Context<'_, R>>,
    custom_root: Option<Seq<char>>,
    base: Option<TargetBase<'_>>,
)
    requires
        server.len() > 0,
        server.len() != 9,
        forall|i: int|
            0 <= i < server.len() ==> #[trigger] server[i] != '%' && server[i] != '?' && server[i]
                != '#' && server[i] != '/' && server[i] != '\\' && server[i] != '@' && server[i]
                != ':' && server[i] <= '\u{7f}',
        forall|i: int|
            0 <= i < path.len() ==> #[trigger] path[i] != '%' && path[i] != '?' && path[i] != '#'
                && path[i] <= '\u{7f}',
    ensures
        target_resolution("file://"@ + server + seq!['/'] + path, context, custom_root, base)
            == native_resolution(seq!['\\', '\\'] + server + seq!['\\'] + backslashed(path)),
{
    let slashed = seq!['/'] + path;
    let input = "file://"@ + server + seq!['/'] + path;
    lemma_slashed_plain(path);
    lemma_remote_front(server, path);
    lemma_file_input(input, context, custom_root, base);
    lemma_authority_uri(input, server, slashed);
    assert(!server.contains('/') && !server.contains('\\') && !server.contains('@')
        && !server.contains(':'));
}

proof fn lemma_remote_front(server: Seq<char>, path: Seq<char>)
    ensures
        ({
            let slashed = seq!['/'] + path;
            let input = "file://"@ + server + seq!['/'] + path;
            &&& input.len() >= 5
            &&& input.take(5) == "file:"@
            &&& input.skip(5) == seq!['/', '/'] + server + slashed
            &&& r"\\"@ + server + replaced(slashed, '/', '\\') == seq!['\\', '\\'] + server + seq![
                '\\',
            ] + backslashed(path)
            &&& "localhost"@.len() == 9
        }),
{
    reveal_strlit("file://");
    reveal_strlit("file:");
    reveal_strlit("localhost");
    reveal_strlit(r"\\");
    let slashed = seq!['/'] + path;
    let input = "file://"@ + server + seq!['/'] + path;
    assert(input.take(5) =~= "file:"@);
    assert(input.skip(5) =~= seq!['/', '/'] + server + slashed);
    lemma_backslashed(slashed);
    assert(backslashed(slashed) =~= seq!['\\'] + backslashed(path));
    assert(r"\\"@ + server + replaced(slashed, '/', '\\') =~= seq!['\\', '\\'] + server + seq!['\\']
        + backslashed(path));
}

/// A `file:` URI with a query or a fragment is refused, and so is one whose path
/// spells a separator as an escape.
#[verifier::rlimit(40)]
pub proof fn law_doubtful_file_uris_are_refused<R: Registry + ?Sized>(
    rest: Seq<char>,
    i: int,
    context: Option<&Context<'_, R>>,
    custom_root: Option<Seq<char>>,
    base: Option<TargetBase<'_>>,
)
    requires
        0 <= i < rest.len(),
        ({
            ||| rest[i] == '?' || rest[i] == '#'
            ||| i + 2 < rest.len() && rest[i] == '%' && rest[i + 1] == '2' && (rest[i + 2] == 'f'
                || rest[i + 2] == 'F')
            ||| i + 2 < rest.len() && rest[i] == '%' && rest[i + 1] == '5' && (rest[i + 2] == 'c'
                || rest[i + 2] == 'C')
        }),
    ensures
        target_resolution("file:///"@ + rest, context, custom_root, base) == Err::<
            TargetText,
            TargetError,
        >(TargetError::Rejected(TargetRejection::InvalidFileUri)),
{
    let input = "file:///"@ + rest;
    lemma_three_slashes(rest);
    lemma_doubtful_uri(input, rest, i);
    lemma_file_input(input, context, custom_root, base);
}

proof fn lemma_three_slashes(rest: Seq<char>)
    ensures
        ("file:///"@ + rest).len() >= 5,
        ("file:///"@ + rest).take(5) == "file:"@,
        ("file:///"@ + rest).skip(5) == seq!['/', '/'] + Seq::<char>::empty() + (seq!['/'] + rest),
{
    lemma_local_fronts(rest);
}

proof fn lemma_doubtful_uri(input: Seq<char>, rest: Seq<char>, i: int)
    requires
        input.len() >= 5,
        input.skip(5) == seq!['/', '/'] + Seq::<char>::empty() + (seq!['/'] + rest),
        0 <= i < rest.len(),
        ({
            ||| rest[i] == '?' || rest[i] == '#'
            ||| i + 2 < rest.len() && rest[i] == '%' && rest[i + 1] == '2' && (rest[i + 2] == 'f'
                || rest[i + 2] == 'F')
            ||| i + 2 < rest.len() && rest[i] == '%' && rest[i + 1] == '5' && (rest[i + 2] == 'c'
                || rest[i + 2] == 'C')
        }),
    ensures
        file_uri_resolution(input) == Err::<TargetText, TargetError>(invalid_file_uri()),
{
    let all = input.skip(5);
    if all.contains('?') || all.contains('#') {
        lemma_query(input);
    } else {
        assert(all[i + 3] == rest[i]);
        assert(all.contains(all[i + 3]));
        lemma_escaped_separator(input, rest, i);
    }
}

proof fn lemma_query(input: Seq<char>)
    requires
        input.skip(5).contains('?') || input.skip(5).contains('#'),
    ensures
        file_uri_resolution(input) == Err::<TargetText, TargetError>(invalid_file_uri()),
{
}

proof fn lemma_escaped_separator(input: Seq<char>, rest: Seq<char>, i: int)
    requires
        input.len() >= 5,
        input.skip(5) == seq!['/', '/'] + Seq::<char>::empty() + (seq!['/'] + rest),
        !input.skip(5).contains('?'),
        !input.skip(5).contains('#'),
        0 <= i && i + 2 < rest.len(),
        rest[i] == '%',
        rest[i + 1] == '2' && (rest[i + 2] == 'f' || rest[i + 2] == 'F') || rest[i + 1] == '5' && (
        rest[i + 2] == 'c' || rest[i + 2] == 'C'),
    ensures
        file_uri_resolution(input) == Err::<TargetText, TargetError>(invalid_file_uri()),
{
    let all = input.skip(5);
    let slashed = seq!['/'] + rest;
    lemma_plain_decodes(Seq::empty());
    assert(begins(all, "//"@)) by {
        reveal_strlit("//");
        assert(all.subrange(0, 2) =~= "//"@);
    }
    assert(all.skip(2) =~= slashed);
    lemma_index_of_is(slashed, '/', 0);
    assert(slashed.take(0) =~= Seq::<char>::empty());
    assert(slashed.skip(0) =~= slashed);
    assert(slashed[i + 1] == rest[i] && slashed[i + 2] == rest[i + 1] && slashed[i + 3] == rest[i
        + 2]);
    assert(lower(slashed[i + 3]) == 'f' || lower(slashed[i + 3]) == 'c');
    assert(encodes_separator(slashed));
}

/// The URI of a drive path that holds nothing to encode: `file:///` and the path,
/// each `\` a `/`; every other character stands for itself.
pub proof fn law_the_uri_of_a_plain_drive_path(native: Seq<char>)
    requires
        native.len() > 0,
        native[0] != '\\',
        forall|i: int|
            0 <= i < native.len() ==> 'a' <= #[trigger] native[i] <= 'z' || 'A' <= native[i] <= 'Z'
                || '0' <= native[i] <= '9' || native[i] == ':' || native[i] == '\\' || native[i]
                == '.' || native[i] == '-' || native[i] == '_' || native[i] == '~',
    ensures
        file_uri_text(native) == "file:///"@ + Seq::new(
            native.len(),
            |i: int|
                if native[i] == '\\' {
                    '/'
                } else {
                    native[i]
                },
        ),
{
    lemma_no_backslash_front(native);
    let flat = replaced(native, '\\', '/');
    let slashed = Seq::new(
        native.len(),
        |i: int|
            if native[i] == '\\' {
                '/'
            } else {
                native[i]
            },
    );
    assert(flat =~= slashed);
    assert forall|i: int| 0 <= i < flat.len() implies is_kept(#[trigger] flat[i]) by {
        assert(flat[i] == slashed[i]);
        assert('a' <= native[i] <= 'z' || 'A' <= native[i] <= 'Z' || '0' <= native[i] <= '9'
            || native[i] == ':' || native[i] == '\\' || native[i] == '.' || native[i] == '-'
            || native[i] == '_' || native[i] == '~');
    }
    lemma_kept_text(flat);
}

/// A character that is encoded as itself.
spec fn is_kept(c: char) -> bool {
    'a' <= c <= 'z' || 'A' <= c <= 'Z' || '0' <= c <= '9' || c == ':' || c == '/' || c == '.' || c
        == '-' || c == '_' || c == '~'
}

proof fn lemma_kept_text(text: Seq<char>)
    requires
        forall|i: int| 0 <= i < text.len() ==> is_kept(#[trigger] text[i]),
    ensures
        percent_encoded(text) == text,
    decreases text.len(),
{
    if text.len() == 0 {
        law_encoding_goes_piece_by_piece(text, text);
        assert(text =~= Seq::empty());
    } else {
        let init = text.drop_last();
        let last = text[text.len() - 1];
        assert forall|i: int| 0 <= i < init.len() implies is_kept(#[trigger] init[i]) by {
            assert(init[i] == text[i]);
        }
        lemma_kept_text(init);
        law_encoding_goes_piece_by_piece(init, seq![last]);
        lemma_kept_char(last);
        assert(init + seq![last] =~= text);
    }
}

proof fn lemma_kept_char(c: char)
    requires
        is_kept(c),
    ensures
        percent_encoded(seq![c]) == seq![c],
{
    law_one_encoded_character(c);
    reveal_strlit("-._~/:");
    let marks = "-._~/:"@;
    assert(marks[0] == '-' && marks[1] == '.' && marks[2] == '_' && marks[3] == '~' && marks[4]
        == '/' && marks[5] == ':');
    if c == '-' || c == '.' || c == '_' || c == '~' || c == '/' || c == ':' {
        assert(marks.contains(c));
    }
}

/// The URI of a UNC path: `file://`, the server, and behind one `/` the share and
/// what follows it, each part encoded for itself.
pub proof fn law_the_uri_of_a_share(server: Seq<char>, rest: Seq<char>)
    requires
        !server.contains('\\'),
        rest.len() > 0,
    ensures
        file_uri_text(seq!['\\', '\\'] + server + seq!['\\'] + rest) == "file://"@ + percent_encoded(
            server,
        ) + seq!['/'] + percent_encoded(
            Seq::new(
                rest.len(),
                |i: int|
                    if rest[i] == '\\' {
                        '/'
                    } else {
                        rest[i]
                    },
            ),
        ),
{
    reveal_strlit(r"\\");
    let native = seq!['\\', '\\'] + server + seq!['\\'] + rest;
    let n: int = server.len() as int;
    assert(native.subrange(0, 2) =~= r"\\"@);
    let tail = native.skip(2);
    assert(tail =~= server + seq!['\\'] + rest);
    assert forall|j: int| 0 <= j < n implies tail[j] != '\\' by {
        assert(tail[j] == server[j]);
        assert(server.contains(server[j]));
    }
    assert(tail[n] == '\\');
    lemma_index_of_is(tail, '\\', n);
    assert(server_of(tail) =~= server);
    assert(after_server(tail) =~= rest);
    let slashed = Seq::new(
        rest.len(),
        |i: int|
            if rest[i] == '\\' {
                '/'
            } else {
                rest[i]
            },
    );
    assert(replaced(rest, '\\', '/') =~= slashed);
    lemma_encoded_is_not_empty(slashed);
    let front = "file://"@ + percent_encoded(server);
    assert(front.push('/') + percent_encoded(slashed) =~= front + seq!['/'] + percent_encoded(
        slashed,
    ));
}

proof fn lemma_encoded_is_not_empty(text: Seq<char>)
    requires
        text.len() > 0,
    ensures
        percent_encoded(text).len() > 0,
{
    crate::percent::law_percent_round_trip(text);
    if percent_encoded(text).len() == 0 {
        let nothing = Seq::<char>::empty();
        assert(percent_encoded(text) =~= nothing);
        lemma_plain_decodes(nothing);
    }
}

/// A control character anywhere in a native path is refused.
pub proof fn law_control_characters_are_refused(s: Seq<char>, i: int)
    requires
        0 <= i < s.len(),
        s[i] <= '\u{1f}',
    ensures
        native_resolution(s) == Err::<TargetText, TargetError>(
            TargetError::Rejected(TargetRejection::InvalidPath),
        ),
{
}

/// A UNC path whose server or share is empty or holds a colon is refused.
#[verifier::rlimit(40)]
pub proof fn law_unusable_shares_are_refused(server: Seq<char>, share: Seq<char>, rest: Seq<char>)
    requires
        forall|i: int|
            0 <= i < server.len() ==> #[trigger] server[i] != '\\' && server[i] != '/' && server[i]
                > '\u{1f}',
        forall|i: int|
            0 <= i < share.len() ==> #[trigger] share[i] != '\\' && share[i] != '/' && share[i]
                > '\u{1f}',
        forall|i: int| 0 <= i < rest.len() ==> #[trigger] rest[i] > '\u{1f}',
        rest.len() == 0 || rest[0] == '\\' || rest[0] == '/',
        server.len() == 0 || share.len() == 0 || server.contains(':') || share.contains(':'),
        server != seq!['?'],
        server != seq!['.'],
        server.len() > 0 || share != seq!['?'],
    ensures
        native_resolution(seq!['\\', '\\'] + server + seq!['\\'] + share + rest) == Err::<
            TargetText,
            TargetError,
        >(TargetError::Rejected(TargetRejection::InvalidPath)),
{
    let s = seq!['\\', '\\'] + server + seq!['\\'] + share + rest;
    let n: int = server.len() as int;
    let m: int = share.len() as int;
    lemma_share_spelling(server, share, rest);
    let native = replaced(s, '/', '\\');
    assert(!is_device(s)) by {
        if n > 0 {
            lemma_not_device(server, s);
        } else {
            reveal_strlit(r"\\?\");
            reveal_strlit(r"\\.\");
            reveal_strlit(r"\??\");
            assert(s[2] == '\\' && s[1] == '\\');
            if begins(s, r"\\?\"@) {
                assert(s.subrange(0, 4)[2] == '?');
            }
            if begins(s, r"\\.\"@) {
                assert(s.subrange(0, 4)[2] == '.');
            }
            if begins(s, r"\??\"@) {
                assert(s.subrange(0, 4)[1] == '?');
            }
        }
    }
    assert(!(exists|i: int| 0 <= i < s.len() && #[trigger] s[i] <= '\u{1f}')) by {
        if exists|i: int| 0 <= i < s.len() && #[trigger] s[i] <= '\u{1f}' {
            let i = choose|i: int| 0 <= i < s.len() && #[trigger] s[i] <= '\u{1f}';
            if 2 <= i < 2 + n {
                assert(s[i] == server[i - 2]);
            } else if 3 + n <= i < 3 + n + m {
                assert(s[i] == share[i - 3 - n]);
            } else if i >= 3 + n + m {
                assert(s[i] == rest[i - 3 - n - m]);
            }
        }
    }
    assert(crate::target::normalized_native(s) is None);
}

proof fn lemma_share_spelling(server: Seq<char>, share: Seq<char>, rest: Seq<char>)
    requires
        forall|i: int| 0 <= i < server.len() ==> #[trigger] server[i] != '\\' && server[i] != '/',
        forall|i: int| 0 <= i < share.len() ==> #[trigger] share[i] != '\\' && share[i] != '/',
        rest.len() == 0 || rest[0] == '\\' || rest[0] == '/',
    ensures
        ({
            let s = seq!['\\', '\\'] + server + seq!['\\'] + share + rest;
            let native = replaced(s, '/', '\\');
            &&& begins(native, r"\\"@)
            &&& server_of(native.skip(2)) == server
            &&& server_of(after_server(native.skip(2))) == share
        }),
{
    let s = seq!['\\', '\\'] + server + seq!['\\'] + share + rest;
    let native = replaced(s, '/', '\\');
    let n: int = server.len() as int;
    let m: int = share.len() as int;
    reveal_strlit(r"\\");
    assert(native.subrange(0, 2) =~= r"\\"@);
    let tail = native.skip(2);
    assert forall|j: int| 0 <= j < n implies tail[j] == server[j] by {
        assert(s[j + 2] == server[j]);
    }
    assert(tail[n] == '\\');
    lemma_index_of_is(tail, '\\', n);
    assert(server_of(tail) =~= server);
    let behind = after_server(tail);
    assert forall|j: int| 0 <= j < m implies behind[j] == share[j] by {
        assert(s[j + 3 + n] == share[j]);
        assert(behind[j] == native[j + 3 + n]);
    }
    if rest.len() > 0 {
        assert(s[3 + n + m] == rest[0]);
        assert(behind[m] == native[3 + n + m]);
    }
    lemma_index_of_is(behind, '\\', m);
    assert(server_of(behind) =~= share);
}

/// A relative input whose base has no meaning is refused as the base is; one that
/// holds a NUL is no path.
pub proof fn law_a_relative_input_needs_a_sound_base<R: Registry + ?Sized>(
    input: Seq<char>,
    folder: &str,
    context: Option<&Context<'_, R>>,
    custom_root: Option<Seq<char>>,
)
    requires
        input.len() > 0,
        input[0] != '/' && input[0] != '%' && input[0] != '$' && input[0] != '~',
        input[0] == '\\' ==> input.len() == 1 || input[1] != '\\' && input[1] != '?',
        has_no_scheme(input),
    ensures
        ({
            let below = target_resolution(
                input,
                context,
                custom_root,
                Some(TargetBase::NativePath(folder)),
            );
            &&& input.contains('\0') ==> below == Err::<TargetText, TargetError>(
                TargetError::Rejected(TargetRejection::InvalidPath),
            )
            &&& !input.contains('\0') && native_resolution(folder@) is Err ==> below == Err::<
                TargetText,
                TargetError,
            >(native_resolution(folder@)->Err_0)
        }),
{
    lemma_plain_input(input, context, custom_root, Some(TargetBase::NativePath(folder)));
    lemma_single_backslash_front(input);
}

/// What a slash path means before the registered distributions are known: its shape
/// is judged, and a sound one needs them.
pub proof fn law_slash_input_without_a_context<R: Registry + ?Sized>(
    input: Seq<char>,
    custom_root: Option<Seq<char>>,
    base: Option<TargetBase<'_>>,
)
    requires
        input.len() > 0,
        input[0] == '/',
        drive_alias_resolution(input) == Ok::<Option<ResolvedText>, ResolveError>(None),
    ensures
        ({
            let got = target_resolution::<R>(input, None, custom_root, base);
            let doubled = input.len() > 1 && input[1] == '/';
            let nul = input.contains('\0');
            let backslash = input.contains('\\');
            &&& doubled ==> got == Err::<TargetText, TargetError>(
                TargetError::Rejected(TargetRejection::SlashPath(ResolveError::DoubleLeadingSlash)),
            )
            &&& !doubled && nul ==> got == Err::<TargetText, TargetError>(
                TargetError::Rejected(TargetRejection::SlashPath(ResolveError::EmbeddedNul)),
            )
            &&& !doubled && !nul && backslash ==> got == Err::<TargetText, TargetError>(
                TargetError::Rejected(
                    TargetRejection::SlashPath(ResolveError::BackslashNotAllowed),
                ),
            )
            &&& !doubled && !nul && !backslash ==> got == Err::<TargetText, TargetError>(
                TargetError::NeedsContext,
            )
        }),
{
    lemma_plain_input::<R>(input, None, custom_root, base);
}

/// A `file:` URI whose path holds a malformed escape is refused as such.
pub proof fn law_malformed_escapes_are_refused<R: Registry + ?Sized>(
    rest: Seq<char>,
    context: Option<&Context<'_, R>>,
    custom_root: Option<Seq<char>>,
    base: Option<TargetBase<'_>>,
)
    requires
        !rest.contains('?'),
        !rest.contains('#'),
        !encodes_separator(seq!['/'] + rest),
        percent_decoded(seq!['/'] + rest) is None,
    ensures
        target_resolution("file:///"@ + rest, context, custom_root, base) == Err::<
            TargetText,
            TargetError,
        >(TargetError::Rejected(TargetRejection::InvalidPercentEncoding)),
{
    let input = "file:///"@ + rest;
    lemma_three_slashes(rest);
    lemma_malformed_uri(input, rest);
    lemma_file_input(input, context, custom_root, base);
}

proof fn lemma_malformed_uri(input: Seq<char>, rest: Seq<char>)
    requires
        input.len() >= 5,
        input.skip(5) == seq!['/', '/'] + Seq::<char>::empty() + (seq!['/'] + rest),
        !rest.contains('?'),
        !rest.contains('#'),
        !encodes_separator(seq!['/'] + rest),
        percent_decoded(seq!['/'] + rest) is None,
    ensures
        file_uri_resolution(input) == Err::<TargetText, TargetError>(
            TargetError::Rejected(TargetRejection::InvalidPercentEncoding),
        ),
{
    let slashed = seq!['/'] + rest;
    assert forall|i: int| 0 <= i < slashed.len() implies #[trigger] slashed[i] != '?' && slashed[i]
        != '#' by {
        if i > 0 {
            assert(slashed[i] == rest[i - 1]);
            assert(rest.contains(rest[i - 1]));
        }
    }
    lemma_authority_parts(input.skip(5), Seq::empty(), slashed);
    lemma_plain_decodes(Seq::empty());
}

/// A server that holds `@`, `:` or a backslash is no server of a `file:` URI, and a
/// server alone names nothing on it.
pub proof fn law_doubtful_servers_are_refused(host: Seq<char>, path: Seq<char>)
    requires
        host.len() > 0,
        host.len() != 9,
        host.contains('@') || host.contains(':') || host.contains('\\') || path.len() == 0,
    ensures
        authority_resolution(host, path) == Err::<TargetText, TargetError>(
            TargetError::Rejected(TargetRejection::InvalidFileUri),
        ),
{
    reveal_strlit("localhost");
}

} // verus!
