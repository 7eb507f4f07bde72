//! What holds of navigation targets as a whole.

use crate::path::{
    bare_root, begins_with_drive, root_base, rooted_resolution, text_in, Context, Registry,
};
use crate::percent::{
    encoded_byte, encoded_bytes, hex_char, is_unreserved, law_percent_round_trip,
    lemma_encoded_front, percent_encoded,
};
use crate::target::{
    after_server, alias_root, drive_alias_resolution, encodes_separator, file_uri_resolution,
    file_uri_text, is_device, is_drive_alias, is_file_uri, is_native_absolute, is_scheme_char,
    native_resolution, resolved_target, server_of, slash_rejection, slash_resolution,
    target_resolution, TargetBase, TargetError, TargetKind, TargetText,
};
use crate::text::{
    begins, is_alpha, lemma_index_of, lemma_index_of_is, lower, replaced, same_ignoring_case,
    trim_back_of, trim_front_of, upper,
};
use vstd::prelude::*;
use vstd::utf8::{encode_scalar, encode_utf8};

verus! {

// ---------------------------------------------------------------------------
// What percent-encoding produces
// ---------------------------------------------------------------------------

proof fn lemma_wide_scalar_bytes(scalar: u32)
    requires
        scalar > 0x7f,
    ensures
        forall|i: int| 0 <= i < encode_scalar(scalar).len() ==> #[trigger] encode_scalar(scalar)[i]
            >= 0x80,
{
    assert(0xC0u8 | ((scalar >> 6) & 0x1F) as u8 >= 0x80u8) by (bit_vector);
    assert(0xE0u8 | ((scalar >> 12) & 0x0F) as u8 >= 0x80u8) by (bit_vector);
    assert(0xF0u8 | ((scalar >> 18) & 0x7) as u8 >= 0x80u8) by (bit_vector);
    assert(0x80u8 | (scalar & 0x3F) as u8 >= 0x80u8) by (bit_vector);
    assert(0x80u8 | ((scalar >> 6) & 0x3F) as u8 >= 0x80u8) by (bit_vector);
    assert(0x80u8 | ((scalar >> 12) & 0x3F) as u8 >= 0x80u8) by (bit_vector);
}

proof fn lemma_narrow_scalar_bytes(scalar: u32)
    requires
        scalar <= 0x7f,
    ensures
        encode_scalar(scalar) == seq![scalar as u8],
{
    assert((scalar & 0x7F) as u8 == scalar as u8) by (bit_vector)
        requires
            scalar <= 0x7f,
    ;
}

/// An ASCII byte of a UTF-8 text is one of its characters.
proof fn lemma_ascii_byte_is_a_char(text: Seq<char>, k: int)
    requires
        0 <= k < encode_utf8(text).len(),
        encode_utf8(text)[k] < 0x80,
    ensures
        text.contains(encode_utf8(text)[k] as char),
    decreases text.len(),
{
    assert(text.len() > 0);
    let first = encode_scalar(text[0] as u32);
    let rest = text.drop_first();
    if k < first.len() {
        if text[0] as u32 > 0x7f {
            lemma_wide_scalar_bytes(text[0] as u32);
            assert(first[k] >= 0x80);
        } else {
            lemma_narrow_scalar_bytes(text[0] as u32);
            assert(encode_utf8(text)[k] == first[k]);
            let c = text[0];
            vstd::utf8::char_u32_cast(c, c as u32);
            assert(first[k] as u32 == c as u32);
            assert(first[k] as char == (first[k] as u32) as char);
            assert(text[0] == encode_utf8(text)[k] as char);
        }
    } else {
        lemma_ascii_byte_is_a_char(rest, k - first.len());
        let c = encode_utf8(text)[k] as char;
        let j = choose|j: int| 0 <= j < rest.len() && rest[j] == c;
        assert(text[j + 1] == c);
    }
}

/// Every character of an encoded text is an unreserved byte or part of the escape
/// of a byte that is not.
spec fn is_escape_at(bytes: Seq<u8>, i: int) -> bool {
    let s = encoded_bytes(bytes);
    i + 2 < s.len() && exists|k: int|
        0 <= k < bytes.len() && !is_unreserved(#[trigger] bytes[k]) && s[i + 1] == hex_char(
            bytes[k] as int / 16,
        ) && s[i + 2] == hex_char(bytes[k] as int % 16)
}

proof fn lemma_escapes(bytes: Seq<u8>)
    ensures
        forall|i: int|
            0 <= i < encoded_bytes(bytes).len() && #[trigger] encoded_bytes(bytes)[i] == '%'
                ==> is_escape_at(bytes, i),
    decreases bytes.len(),
{
    if bytes.len() > 0 {
        let rest = bytes.skip(1);
        let b = bytes[0];
        lemma_escapes(rest);
        lemma_encoded_front(bytes);
        let s = encoded_bytes(bytes);
        let t = encoded_bytes(rest);
        let n = encoded_byte(b).len() as int;
        assert forall|i: int| 0 <= i < s.len() && #[trigger] s[i] == '%' implies is_escape_at(
            bytes,
            i,
        ) by {
            if i < n {
                assert(s[i] == encoded_byte(b)[i]);
                if is_unreserved(b) {
                    assert(b as char != '%');
                } else {
                    assert(i == 0) by {
                        assert(hex_char(b as int / 16) != '%');
                        assert(hex_char(b as int % 16) != '%');
                    }
                    assert(s[1] == hex_char(bytes[0] as int / 16));
                    assert(s[2] == hex_char(bytes[0] as int % 16));
                }
            } else {
                assert(t[i - n] == '%');
                assert(is_escape_at(rest, i - n));
                let k = choose|k: int|
                    0 <= k < rest.len() && !is_unreserved(#[trigger] rest[k]) && t[i - n + 1]
                        == hex_char(rest[k] as int / 16) && t[i - n + 2] == hex_char(
                        rest[k] as int % 16,
                    );
                assert(bytes[k + 1] == rest[k]);
                assert(s[i + 1] == t[i - n + 1]);
                assert(s[i + 2] == t[i - n + 2]);
            }
        }
    }
}

proof fn lemma_encoded_chars(bytes: Seq<u8>, c: char)
    requires
        encoded_bytes(bytes).contains(c),
    ensures
        c == '%' || crate::text::is_hex(c) || exists|k: int|
            0 <= k < bytes.len() && is_unreserved(#[trigger] bytes[k]) && bytes[k] as char == c,
    decreases bytes.len(),
{
    let s = encoded_bytes(bytes);
    let j = choose|j: int| 0 <= j < s.len() && s[j] == c;
    let rest = bytes.skip(1);
    let b = bytes[0];
    lemma_encoded_front(bytes);
    let n = encoded_byte(b).len() as int;
    if j < n {
        assert(s[j] == encoded_byte(b)[j]);
        if is_unreserved(b) {
            assert(bytes[0] as char == c);
        }
    } else {
        assert(encoded_bytes(rest)[j - n] == c);
        lemma_encoded_chars(rest, c);
        if !(c == '%' || crate::text::is_hex(c)) {
            let k = choose|k: int|
                0 <= k < rest.len() && is_unreserved(#[trigger] rest[k]) && rest[k] as char == c;
            assert(bytes[k + 1] == rest[k]);
        }
    }
}

/// An encoded text holds no reserved character, and a separator only where the
/// text holds one.
proof fn lemma_percent_encoded_chars(text: Seq<char>)
    ensures
        !percent_encoded(text).contains('?'),
        !percent_encoded(text).contains('#'),
        percent_encoded(text).contains('/') ==> text.contains('/'),
        text.len() > 0 ==> percent_encoded(text).len() > 0,
{
    let bytes = encode_utf8(text);
    if percent_encoded(text).contains('?') {
        lemma_encoded_chars(bytes, '?');
    }
    if percent_encoded(text).contains('#') {
        lemma_encoded_chars(bytes, '#');
    }
    if percent_encoded(text).contains('/') {
        lemma_encoded_chars(bytes, '/');
        let k = choose|k: int|
            0 <= k < bytes.len() && is_unreserved(#[trigger] bytes[k]) && bytes[k] as char == '/';
        lemma_ascii_byte_is_a_char(text, k);
    }
    if text.len() > 0 {
        assert(encode_scalar(text[0] as u32).len() > 0);
        assert(bytes.len() > 0);
        lemma_encoded_front(bytes);
    }
}

/// An encoded text without a backslash encodes no separator.
proof fn lemma_no_encoded_separator(text: Seq<char>)
    requires
        !text.contains('\\'),
    ensures
        !encodes_separator(percent_encoded(text)),
{
    let bytes = encode_utf8(text);
    let s = percent_encoded(text);
    lemma_escapes(bytes);
    assert forall|i: int| 0 <= i && i + 2 < s.len() && #[trigger] s[i] == '%' implies !((s[i + 1]
        == '2' && lower(s[i + 2]) == 'f') || (s[i + 1] == '5' && lower(s[i + 2]) == 'c')) by {
        assert(is_escape_at(bytes, i));
        let k = choose|k: int|
            0 <= k < bytes.len() && !is_unreserved(#[trigger] bytes[k]) && s[i + 1] == hex_char(
                bytes[k] as int / 16,
            ) && s[i + 2] == hex_char(bytes[k] as int % 16);
        let b = bytes[k];
        lemma_hex_chars(b);
        if b == 0x5c {
            lemma_ascii_byte_is_a_char(text, k);
        }
    }
}

proof fn lemma_hex_chars(b: u8)
    ensures
        hex_char(b as int / 16) == '2' && lower(hex_char(b as int % 16)) == 'f' ==> b == 0x2f,
        hex_char(b as int / 16) == '5' && lower(hex_char(b as int % 16)) == 'c' ==> b == 0x5c,
{
}

proof fn lemma_slash_stands_for_itself(text: Seq<char>)
    ensures
        percent_encoded(seq!['/'] + text) == seq!['/'] + percent_encoded(text),
{
    let full = seq!['/'] + text;
    assert(full.drop_first() =~= text);
    lemma_narrow_scalar_bytes('/' as u32);
    let bytes = encode_utf8(full);
    assert(bytes =~= seq![0x2fu8] + encode_utf8(text));
    lemma_encoded_front(bytes);
    assert(bytes.skip(1) =~= encode_utf8(text));
}

// ---------------------------------------------------------------------------
// The file URI round trip
// ---------------------------------------------------------------------------

proof fn lemma_normal_form(native: Seq<char>)
    requires
        native_resolution(native) is Ok,
        native_resolution(native)->Ok_0.native == native,
    ensures
        !native.contains('/'),
        begins(native, r"\\"@) || begins_with_drive(native),
{
    let flat = replaced(native, '/', '\\');
    reveal_strlit(r"\\");
    if native.contains('/') {
        let j = choose|j: int| 0 <= j < native.len() && native[j] == '/';
        assert(flat[j] == '\\');
        if begins(flat, r"\\"@) {
            assert(flat == native);
        } else {
            assert(flat.update(0, upper(flat[0])) == native);
            assert(is_alpha(flat[0]));
            if j == 0 {
                assert(flat[0] == '\\');
            }
        }
    } else {
        assert(flat =~= native) by {
            assert forall|j: int| 0 <= j < native.len() implies flat[j] == native[j] by {
                assert(native.contains(native[j]));
            }
        }
    }
}

proof fn lemma_replaced_back(s: Seq<char>)
    requires
        !s.contains('/'),
    ensures
        replaced(replaced(s, '\\', '/'), '/', '\\') == s,
        !replaced(s, '\\', '/').contains('\\'),
{
    let t = replaced(s, '\\', '/');
    assert forall|j: int| 0 <= j < s.len() implies replaced(t, '/', '\\')[j] == s[j] by {
        assert(s.contains(s[j]));
    }
    assert(replaced(t, '/', '\\') =~= s);
    if t.contains('\\') {
        let j = choose|j: int| 0 <= j < t.len() && t[j] == '\\';
        assert(t[j] == if s[j] == '\\' {
            '/'
        } else {
            s[j]
        });
    }
}

/// Adding characters in front of a text adds their occurrences and no others.
proof fn lemma_contains_concat(a: Seq<char>, b: Seq<char>, c: char)
    ensures
        (a + b).contains(c) == (a.contains(c) || b.contains(c)),
{
    let s = a + b;
    if s.contains(c) {
        let j = choose|j: int| 0 <= j < s.len() && s[j] == c;
        if j < a.len() {
            assert(a[j] == c);
        } else {
            assert(b[j - a.len()] == c);
        }
    }
    if a.contains(c) {
        let j = choose|j: int| 0 <= j < a.len() && a[j] == c;
        assert(s[j] == c);
    }
    if b.contains(c) {
        let j = choose|j: int| 0 <= j < b.len() && b[j] == c;
        assert(s[a.len() + j] == c);
    }
}

/// The URI `file://<authority>/<path>`, both parts encoded, read back.
proof fn lemma_uri_with_authority(server: Seq<char>, path: Seq<char>)
    requires
        !server.contains('/'),
        !path.contains('\\'),
    ensures
        ({
            let uri = "file://"@ + percent_encoded(server) + seq!['/'] + percent_encoded(path);
            &&& is_file_uri(uri)
            &&& !is_device(uri)
            &&& uri.len() > 0
            &&& file_uri_resolution(uri) == crate::target::authority_resolution(
                server,
                seq!['/'] + path,
            )
        }),
{
    let enc_server = percent_encoded(server);
    let enc_path = percent_encoded(path);
    let uri = "file://"@ + enc_server + seq!['/'] + enc_path;
    reveal_strlit("file://");
    reveal_strlit("file:");
    reveal_strlit("//");
    reveal_strlit(r"\\?\");
    reveal_strlit(r"\\.\");
    reveal_strlit(r"\??\");
    assert(uri.take(5) =~= "file:"@);
    assert(uri[0] == 'f');
    assert forall|p: Seq<char>| p.len() > 0 && p[0] == '\\' implies !#[trigger] begins(uri, p) by {
        if begins(uri, p) {
            assert(uri.subrange(0, p.len() as int)[0] == p[0]);
        }
    }
    assert(!is_device(uri));
    let rest = uri.skip(5);
    let tail = enc_server + (seq!['/'] + enc_path);
    assert(rest =~= seq!['/', '/'] + tail);
    assert(rest.subrange(0, 2) =~= "//"@);
    let authority_and_path = rest.skip(2);
    assert(authority_and_path =~= tail);
    lemma_percent_encoded_chars(server);
    lemma_percent_encoded_chars(path);
    assert forall|c: char| c == '?' || c == '#' implies !rest.contains(c) by {
        lemma_contains_concat(seq!['/', '/'], tail, c);
        lemma_contains_concat(enc_server, seq!['/'] + enc_path, c);
        lemma_contains_concat(seq!['/'], enc_path, c);
    }
    let at = enc_server.len() as int;
    assert forall|j: int| 0 <= j < at implies tail[j] != '/' by {
        assert(tail[j] == enc_server[j]);
        assert(enc_server.contains(enc_server[j]));
    }
    assert(tail[at] == '/');
    lemma_index_of_is(tail, '/', at);
    assert(tail.take(at) =~= enc_server);
    assert(tail.skip(at) =~= seq!['/'] + enc_path);
    lemma_slash_stands_for_itself(path);
    law_percent_round_trip(server);
    law_percent_round_trip(seq!['/'] + path);
    lemma_contains_concat(seq!['/'], path, '\\');
    assert(!seq!['/'].contains('\\'));
    lemma_no_encoded_separator(seq!['/'] + path);
}

/// A text without forward slashes is its own native spelling.
proof fn lemma_replaced_nothing(s: Seq<char>)
    requires
        !s.contains('/'),
    ensures
        replaced(s, '/', '\\') == s,
{
    assert forall|j: int| 0 <= j < s.len() implies replaced(s, '/', '\\')[j] == s[j] by {
        assert(s.contains(s[j]));
    }
    assert(replaced(s, '/', '\\') =~= s);
}

/// The parts of a UNC path in its normal form.
proof fn lemma_unc_parts(native: Seq<char>)
    requires
        native_resolution(native) is Ok,
        native_resolution(native)->Ok_0.native == native,
        begins(native, r"\\"@),
    ensures
        ({
            let rest = native.skip(2);
            let server = server_of(rest);
            let path = after_server(rest);
            &&& server.len() > 0
            &&& path.len() > 0
            &&& !server.contains('/')
            &&& !server.contains('\\')
            &&& !server.contains(':')
            &&& !path.contains('/')
            &&& r"\\"@ + server + (seq!['\\'] + path) == native
        }),
{
    lemma_normal_form(native);
    reveal_strlit(r"\\");
    let rest = native.skip(2);
    let server = server_of(rest);
    let path = after_server(rest);
    lemma_index_of(rest, '\\');
    lemma_replaced_nothing(native);
    assert(path.len() > 0) by {
        if path.len() == 0 {
            assert(server_of(path).len() == 0);
        }
    }
    assert forall|c: char| server.contains(c) implies native.contains(c) && c != '\\' by {
        let j = choose|j: int| 0 <= j < server.len() && server[j] == c;
        assert(native[j + 2] == c);
        assert(rest[j] == c);
    }
    assert forall|c: char| path.contains(c) implies native.contains(c) by {
        let j = choose|j: int| 0 <= j < path.len() && path[j] == c;
        assert(native[native.len() - path.len() + j] == c);
    }
    assert(native.subrange(0, 2) == r"\\"@);
    assert(native[0] == native.subrange(0, 2)[0]);
    assert(native[1] == native.subrange(0, 2)[1]);
    assert(native =~= r"\\"@ + rest);
    assert(rest =~= server + (seq!['\\'] + path));
    assert(r"\\"@ + server + (seq!['\\'] + path) =~= native);
}

proof fn lemma_unc_round_trip(native: Seq<char>)
    requires
        native_resolution(native) is Ok,
        native_resolution(native)->Ok_0.native == native,
        begins(native, r"\\"@),
        !server_of(native.skip(2)).contains('@'),
        !same_ignoring_case(server_of(native.skip(2)), "localhost"@),
    ensures
        is_file_uri(file_uri_text(native)),
        !is_device(file_uri_text(native)),
        file_uri_text(native).len() > 0,
        file_uri_resolution(file_uri_text(native)) == native_resolution(native),
{
    lemma_unc_parts(native);
    let rest = native.skip(2);
    let server = server_of(rest);
    let path = after_server(rest);
    let slashed = replaced(path, '\\', '/');
    lemma_replaced_back(path);
    lemma_percent_encoded_chars(slashed);
    lemma_uri_with_authority(server, slashed);
    let uri = "file://"@ + percent_encoded(server) + seq!['/'] + percent_encoded(slashed);
    assert(file_uri_text(native) =~= uri);
    let full = seq!['/'] + slashed;
    assert(replaced(full, '/', '\\') =~= seq!['\\'] + path) by {
        assert(replaced(full, '/', '\\').skip(1) =~= replaced(slashed, '/', '\\'));
    }
}

proof fn lemma_drive_round_trip(native: Seq<char>)
    requires
        native_resolution(native) is Ok,
        native_resolution(native)->Ok_0.native == native,
        !begins(native, r"\\"@),
    ensures
        is_file_uri(file_uri_text(native)),
        !is_device(file_uri_text(native)),
        file_uri_text(native).len() > 0,
        file_uri_resolution(file_uri_text(native)) == native_resolution(native),
{
    lemma_normal_form(native);
    lemma_replaced_back(native);
    let slashed = replaced(native, '\\', '/');
    let none = Seq::<char>::empty();
    lemma_uri_with_authority(none, slashed);
    assert(percent_encoded(none) =~= none);
    let uri = "file://"@ + none + seq!['/'] + percent_encoded(slashed);
    assert(file_uri_text(native) =~= uri) by {
        reveal_strlit("file://");
        reveal_strlit("file:///");
    }
    let full = seq!['/'] + slashed;
    assert(full.skip(1) =~= slashed);
    assert(slashed[0] == native[0]);
    assert(trim_front_of(slashed, '/') == slashed);
    assert(trim_front_of(full, '/') == slashed);
}

/// A native path in its normal form survives the trip through its `file:` URI:
/// reading the URI gives the same target back.
///
/// Two kinds of UNC server are left out, because a URI cannot name them: one that
/// holds `@`, and `localhost`, which as an authority means this machine.
pub proof fn law_file_uri_round_trip<R: Registry + ?Sized>(
    native: Seq<char>,
    context: Option<&Context<'_, R>>,
    custom_root: Option<Seq<char>>,
    base: Option<TargetBase<'_>>,
)
    requires
        native_resolution(native) is Ok,
        native_resolution(native)->Ok_0.native == native,
        begins(native, r"\\"@) ==> {
            let server = server_of(native.skip(2));
            !server.contains('@') && !same_ignoring_case(server, "localhost"@)
        },
    ensures
        target_resolution(file_uri_text(native), context, custom_root, base) == native_resolution(
            native,
        ),
{
    if begins(native, r"\\"@) {
        lemma_unc_round_trip(native);
    } else {
        lemma_drive_round_trip(native);
    }
}

// ---------------------------------------------------------------------------
// Kinds, devices, precedence
// ---------------------------------------------------------------------------

/// A device prefix that is spelled with a forward slash, such as `\\?/`.
pub open spec fn is_disguised_device(s: Seq<char>) -> bool {
    is_device(replaced(s, '/', '\\')) && !is_device(s)
}

/// A native path never becomes a path in a device or kernel namespace, unless the
/// prefix of one is spelled with a forward slash.
pub proof fn law_native_paths_name_no_device(s: Seq<char>)
    requires
        !is_disguised_device(s),
        native_resolution(s) is Ok,
    ensures
        !is_device(native_resolution(s)->Ok_0.native),
{
    let flat = replaced(s, '/', '\\');
    let native = native_resolution(s)->Ok_0.native;
    reveal_strlit(r"\\?\");
    reveal_strlit(r"\\.\");
    reveal_strlit(r"\??\");
    if !begins(flat, r"\\"@) {
        assert(is_alpha(native[0]));
        assert forall|p: Seq<char>| p.len() > 0 && p[0] == '\\' implies !#[trigger] begins(
            native,
            p,
        ) by {
            if begins(native, p) {
                assert(native.subrange(0, p.len() as int)[0] == p[0]);
            }
        }
    }
}

/// Normalizing a native path a second time changes nothing.
pub proof fn law_native_normalization_is_idempotent(s: Seq<char>)
    requires
        native_resolution(s) is Ok,
        !is_device(native_resolution(s)->Ok_0.native),
    ensures
        native_resolution(native_resolution(s)->Ok_0.native) == native_resolution(s),
{
    let flat = replaced(s, '/', '\\');
    let native = native_resolution(s)->Ok_0.native;
    assert(replaced(native, '/', '\\') =~= native) by {
        assert forall|j: int| 0 <= j < native.len() implies native[j] != '/' by {
            assert(flat[j] != '/');
        }
    }
    assert forall|j: int| 0 <= j < native.len() implies !(#[trigger] native[j] <= '\u{1f}') by {
        assert(!(s[j] <= '\u{1f}'));
    }
    reveal_strlit(r"\\");
    if !begins(flat, r"\\"@) {
        assert(is_alpha(native[0]));
        assert(!begins(native, r"\\"@)) by {
            if begins(native, r"\\"@) {
                assert(native.subrange(0, 2)[0] == '\\');
            }
        }
        assert(native.update(0, upper(native[0])) =~= native);
    }
}

/// A target knows a Linux path exactly when it lies inside a WSL distribution.
pub proof fn law_only_wsl_targets_have_a_linux_path<R: Registry + ?Sized>(
    input: Seq<char>,
    context: Option<&Context<'_, R>>,
    custom_root: Option<Seq<char>>,
    base: Option<TargetBase<'_>>,
)
    requires
        target_resolution(input, context, custom_root, base) is Ok,
    ensures
        ({
            let target = target_resolution(input, context, custom_root, base)->Ok_0;
            target.wsl is Some <==> target.kind == TargetKind::WslDistribution
        }),
{
    assert forall|s: Seq<char>, c: Option<&Context<'_, R>>, r: Option<Seq<char>>|
        (#[trigger] slash_resolution(s, c, r)) is Ok implies {
        let target = slash_resolution(s, c, r)->Ok_0;
        target.wsl is Some <==> target.kind == TargetKind::WslDistribution
    } by {
        if let Ok(Some(resolved)) = drive_alias_resolution(s) {
            assert(resolved is Folder);
        }
    }
}

/// An input that begins with `/` and is no drive alias becomes exactly the target
/// of what the slash resolver says it means, custom root included: a registered
/// distribution wins over a configured root.
pub proof fn law_slash_targets_follow_the_slash_resolver<R: Registry + ?Sized>(
    input: Seq<char>,
    ctx: &Context<'_, R>,
    custom_root: Option<Seq<char>>,
    base: Option<TargetBase<'_>>,
)
    requires
        input.len() > 0,
        input[0] == '/',
        !is_drive_alias(input),
    ensures
        target_resolution(input, Some(ctx), custom_root, base) == match rooted_resolution(
            input,
            custom_root,
            ctx.registry,
            ctx.mode,
            text_in(ctx.preferred),
            text_in(ctx.wsl_default),
        ) {
            Ok(resolved) => resolved_target(resolved),
            Err(error) => Err(slash_rejection(error)),
        },
{
    reveal_strlit(r"\\?\");
    reveal_strlit(r"\\.\");
    reveal_strlit(r"\??\");
    reveal_strlit(r"\\");
    reveal_strlit("file:");
    assert forall|p: Seq<char>| p.len() > 0 && p[0] == '\\' implies !#[trigger] begins(input, p) by {
        if begins(input, p) {
            assert(input.subrange(0, p.len() as int)[0] == p[0]);
        }
    }
    if input.len() >= 5 {
        assert(lower(input.take(5)[0]) != lower("file:"@[0]));
    }
    assert(!is_scheme_char(input[0], 0));
}

/// Whether a target is one of the native paths.
spec fn is_native_path(target: TargetText) -> bool {
    exists|s: Seq<char>| #[trigger] native_resolution(s) == Ok::<TargetText, TargetError>(target)
}

/// A drive alias leads onto its drive.
proof fn lemma_alias_is_a_drive(input: Seq<char>)
    requires
        drive_alias_resolution(input) is Ok,
        drive_alias_resolution(input)->Ok_0 is Some,
        resolved_target(drive_alias_resolution(input)->Ok_0->Some_0) is Ok,
    ensures
        resolved_target(drive_alias_resolution(input)->Ok_0->Some_0)->Ok_0.kind
            == TargetKind::LocalDrive,
{
    let root = alias_root(input);
    let display = drive_alias_resolution(input)->Ok_0->Some_0.display();
    assert(root.last() == '\\');
    assert(root.drop_last() =~= seq![upper(input[5]), ':']);
    reveal_with_fuel(bare_root, 2);
    assert(bare_root(root) == seq![upper(input[5]), ':']);
    assert(!bare_root(root).contains('\\')) by {
        assert(upper(input[5]) != '\\');
    }
    assert(root_base(root) =~= root);
    assert(display[0] == root[0]);
    reveal_strlit(r"\\");
    let native = native_resolution(display)->Ok_0.native;
    assert(is_alpha(display[0]));
    assert(replaced(display, '/', '\\')[0] == display[0]);
    assert(is_alpha(native[0])) by {
        if begins(replaced(display, '/', '\\'), r"\\"@) {
            assert(replaced(display, '/', '\\').subrange(0, 2)[0] == '\\');
        }
    }
    if begins(native, r"\\"@) {
        assert(native.subrange(0, 2)[0] == '\\');
    }
}

proof fn lemma_slash_targets_are_native<R: Registry + ?Sized>(
    input: Seq<char>,
    context: Option<&Context<'_, R>>,
    custom_root: Option<Seq<char>>,
)
    requires
        slash_resolution(input, context, custom_root) is Ok,
        ({
            let kind = slash_resolution(input, context, custom_root)->Ok_0.kind;
            kind == TargetKind::LocalDrive || kind == TargetKind::NativeUNC
        }),
    ensures
        is_native_path(slash_resolution(input, context, custom_root)->Ok_0),
{
    let target = slash_resolution(input, context, custom_root)->Ok_0;
    if let Ok(Some(resolved)) = drive_alias_resolution(input) {
        lemma_alias_is_a_drive(input);
        assert(native_resolution(resolved.display()) == Ok::<TargetText, TargetError>(target));
    } else {
        let ctx = context->Some_0;
        let resolved = rooted_resolution(
            input,
            custom_root,
            ctx.registry,
            ctx.mode,
            text_in(ctx.preferred),
            text_in(ctx.wsl_default),
        )->Ok_0;
        assert(native_resolution(resolved.display()) == Ok::<TargetText, TargetError>(target));
    }
}

proof fn lemma_targets_are_native<R: Registry + ?Sized>(
    input: Seq<char>,
    context: Option<&Context<'_, R>>,
    custom_root: Option<Seq<char>>,
    base: Option<TargetBase<'_>>,
)
    requires
        target_resolution(input, context, custom_root, base) is Ok,
        ({
            let kind = target_resolution(input, context, custom_root, base)->Ok_0.kind;
            kind == TargetKind::LocalDrive || kind == TargetKind::NativeUNC
        }),
    ensures
        is_native_path(target_resolution(input, context, custom_root, base)->Ok_0),
{
    if !is_file_uri(input) && !is_native_absolute(input) {
        if input[0] == '/' {
            lemma_slash_targets_are_native(input, context, custom_root);
        } else if let Some(TargetBase::WslDistribution { distribution, linux_path }) = base {
            lemma_slash_targets_are_native(
                (seq!['/'] + distribution@ + trim_back_of(linux_path@, '/')).push('/') + input,
                context,
                custom_root,
            );
        }
    }
}

/// Whatever an input was, the `file:` URI of the drive target it means leads back to
/// that target, in any context. So does that of a UNC target, but for three kinds
/// that a URI cannot name: a server that holds `@`, the server `localhost`, and a
/// path in a device namespace.
pub proof fn law_resolved_targets_survive_their_uri<R: Registry + ?Sized, Q: Registry + ?Sized>(
    input: Seq<char>,
    context: Option<&Context<'_, R>>,
    custom_root: Option<Seq<char>>,
    base: Option<TargetBase<'_>>,
    other_context: Option<&Context<'_, Q>>,
    other_root: Option<Seq<char>>,
    other_base: Option<TargetBase<'_>>,
)
    requires
        target_resolution(input, context, custom_root, base) is Ok,
        ({
            let target = target_resolution(input, context, custom_root, base)->Ok_0;
            let server = server_of(target.native.skip(2));
            ||| target.kind == TargetKind::LocalDrive
            ||| target.kind == TargetKind::NativeUNC && !is_device(target.native)
                && !server.contains('@') && !same_ignoring_case(server, "localhost"@)
        }),
    ensures
        ({
            let target = target_resolution(input, context, custom_root, base)->Ok_0;
            target_resolution(file_uri_text(target.native), other_context, other_root, other_base)
                == Ok::<TargetText, TargetError>(target)
        }),
{
    let target = target_resolution(input, context, custom_root, base)->Ok_0;
    lemma_targets_are_native(input, context, custom_root, base);
    let s = choose|s: Seq<char>| #[trigger]
        native_resolution(s) == Ok::<TargetText, TargetError>(target);
    if target.kind == TargetKind::LocalDrive {
        reveal_strlit(r"\\?\");
        reveal_strlit(r"\\.\");
        reveal_strlit(r"\??\");
        assert(is_alpha(target.native[0]));
        assert forall|p: Seq<char>| p.len() > 0 && p[0] == '\\' implies !#[trigger] begins(
            target.native,
            p,
        ) by {
            if begins(target.native, p) {
                assert(target.native.subrange(0, p.len() as int)[0] == p[0]);
            }
        }
    }
    law_native_normalization_is_idempotent(s);
    law_file_uri_round_trip(target.native, other_context, other_root, other_base);
}

}
