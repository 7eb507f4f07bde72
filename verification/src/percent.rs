//! Percent-encoding of the UTF-8 bytes of a text.

use crate::text::is_hex;
use vstd::prelude::*;
use vstd::utf8::{decode_utf8, encode_utf8, is_ascii_chars, valid_utf8};

verus! {

/// A byte that stands for itself in an encoded text.
pub open spec fn is_unreserved(b: u8) -> bool {
    ||| 0x41 <= b <= 0x5a
    ||| 0x61 <= b <= 0x7a
    ||| 0x30 <= b <= 0x39
    ||| b == 0x2d
    ||| b == 0x2e
    ||| b == 0x5f
    ||| b == 0x7e
    ||| b == 0x2f
    ||| b == 0x3a
}

/// The upper-case hexadecimal digit of a value below sixteen.
pub open spec fn hex_char(value: int) -> char {
    if value < 10 {
        ((0x30 + value) as u8) as char
    } else {
        ((0x37 + value) as u8) as char
    }
}

/// What one byte is written as.
pub open spec fn encoded_byte(b: u8) -> Seq<char> {
    if is_unreserved(b) {
        seq![b as char]
    } else {
        seq!['%', hex_char(b as int / 16), hex_char(b as int % 16)]
    }
}

/// What some bytes are written as.
pub open spec fn encoded_bytes(bytes: Seq<u8>) -> Seq<char>
    decreases bytes.len(),
{
    if bytes.len() == 0 {
        Seq::empty()
    } else {
        encoded_bytes(bytes.drop_last()) + encoded_byte(bytes.last())
    }
}

/// The percent-encoding of a text.
pub open spec fn percent_encoded(text: Seq<char>) -> Seq<char> {
    encoded_bytes(encode_utf8(text))
}

/// The value of a hexadecimal digit byte.
pub open spec fn hex_value_of(b: u8) -> Option<int> {
    if 0x30 <= b <= 0x39 {
        Some(b - 0x30)
    } else if 0x61 <= b <= 0x66 {
        Some(b - 0x61 + 10)
    } else if 0x41 <= b <= 0x46 {
        Some(b - 0x41 + 10)
    } else {
        None
    }
}

/// The bytes that encoded bytes stand for; `None` where a `%` is not followed by
/// two hexadecimal digits.
pub open spec fn decoded_bytes(bytes: Seq<u8>) -> Option<Seq<u8>>
    decreases bytes.len(),
{
    if bytes.len() == 0 {
        Some(Seq::empty())
    } else if bytes[0] == 0x25 {
        if bytes.len() >= 3 && hex_value_of(bytes[1]) is Some && hex_value_of(bytes[2]) is Some {
            match decoded_bytes(bytes.skip(3)) {
                Some(rest) => Some(
                    seq![(16 * hex_value_of(bytes[1])->Some_0 + hex_value_of(bytes[2])->Some_0)
                        as u8] + rest,
                ),
                None => None,
            }
        } else {
            None
        }
    } else {
        match decoded_bytes(bytes.skip(1)) {
            Some(rest) => Some(seq![bytes[0]] + rest),
            None => None,
        }
    }
}

/// The text that an encoded text stands for; `None` where an escape is malformed
/// or the bytes are no UTF-8.
pub open spec fn percent_decoded(text: Seq<char>) -> Option<Seq<char>> {
    match decoded_bytes(encode_utf8(text)) {
        Some(bytes) => if valid_utf8(bytes) {
            Some(decode_utf8(bytes))
        } else {
            None
        },
        None => None,
    }
}

/// `String::from_utf8`: the string with these bytes, or an error exactly where
/// they are no UTF-8.
#[verifier::external_body]
pub(crate) fn string_from_utf8(bytes: Vec<u8>) -> (r: Option<String>)
    ensures
        match r {
            Some(text) => valid_utf8(bytes@) && text@ == decode_utf8(bytes@),
            None => !valid_utf8(bytes@),
        },
{
    String::from_utf8(bytes).ok()
}

/// The value of a hexadecimal digit byte.
pub fn hex_value(byte: u8) -> (r: Option<u8>)
    ensures
        match r {
            Some(value) => hex_value_of(byte) == Some(value as int) && value < 16,
            None => hex_value_of(byte) is None,
        },
{
    if 0x30 <= byte && byte <= 0x39 {
        Some(byte - 0x30)
    } else if 0x61 <= byte && byte <= 0x66 {
        Some(byte - 0x61 + 10)
    } else if 0x41 <= byte && byte <= 0x46 {
        Some(byte - 0x41 + 10)
    } else {
        None
    }
}

/// Undoes percent-encoding; `None` for a malformed escape or bytes that are no
/// UTF-8.
pub fn percent_decode(input: &str) -> (r: Option<String>)
    ensures
        match r {
            Some(text) => percent_decoded(input@) == Some(text@),
            None => percent_decoded(input@) is None,
        },
{
    let bytes = input.as_bytes();
    let n: usize = bytes.len();
    let mut output: Vec<u8> = Vec::new();
    let mut index: usize = 0;
    let ghost all = encode_utf8(input@);
    assert(all.skip(0) =~= all);
    proof {
        assert(decoded_bytes(all) is Some ==> decoded_bytes(all)->Some_0 =~= output@
            + decoded_bytes(all)->Some_0);
    }
    while index < n
        invariant
            bytes@ == all,
            n == all.len(),
            index <= n,
            all == encode_utf8(input@),
            match decoded_bytes(all.skip(index as int)) {
                Some(rest) => decoded_bytes(all) == Some(output@ + rest),
                None => decoded_bytes(all) is None,
            },
        decreases n - index,
    {
        let ghost rest = all.skip(index as int);
        let ghost before = output@;
        let byte = bytes[index];
        assert(rest[0] == byte);
        if byte == 0x25 {
            if n - index < 3 {
                return None;
            }
            assert(rest[1] == all[index + 1]);
            assert(rest[2] == all[index + 2]);
            let high = match hex_value(bytes[index + 1]) {
                Some(value) => value,
                None => {
                    return None;
                },
            };
            let low = match hex_value(bytes[index + 2]) {
                Some(value) => value,
                None => {
                    return None;
                },
            };
            output.push(high * 16 + low);
            proof {
                assert(rest.skip(3) =~= all.skip(index + 3));
                let later = decoded_bytes(all.skip(index + 3));
                if later is Some {
                    assert(before + (seq![(high * 16 + low) as u8] + later->Some_0) =~= output@
                        + later->Some_0);
                }
            }
            index += 3;
        } else {
            output.push(byte);
            proof {
                assert(rest.skip(1) =~= all.skip(index + 1));
                let later = decoded_bytes(all.skip(index + 1));
                if later is Some {
                    assert(before + (seq![byte] + later->Some_0) =~= output@ + later->Some_0);
                }
            }
            index += 1;
        }
    }
    proof {
        assert(all.skip(n as int) =~= Seq::<u8>::empty());
        assert(output@ + Seq::<u8>::empty() =~= output@);
    }
    string_from_utf8(output)
}

fn hex_upper(value: u8) -> (r: char)
    requires
        value < 16,
    ensures
        r == hex_char(value as int),
{
    if value < 10 {
        (0x30 + value) as char
    } else {
        (0x37 + value) as char
    }
}

/// Percent-encodes every byte but letters, digits and `-._~/:`.
pub fn percent_encode(input: &str) -> (r: String)
    ensures
        r@ == percent_encoded(input@),
{
    let bytes = input.as_bytes();
    let mut encoded: String = String::new();
    for i in 0..bytes.len()
        invariant
            bytes@ == encode_utf8(input@),
            encoded@ == encoded_bytes(bytes@.take(i as int)),
    {
        let ghost before = encoded@;
        let byte = bytes[i];
        proof {
            assert(bytes@.take(i + 1).drop_last() =~= bytes@.take(i as int));
            assert(bytes@.take(i + 1).last() == byte);
        }
        if (0x41 <= byte && byte <= 0x5a) || (0x61 <= byte && byte <= 0x7a) || (0x30 <= byte && byte
            <= 0x39) || byte == 0x2d || byte == 0x2e || byte == 0x5f || byte == 0x7e || byte == 0x2f
            || byte == 0x3a {
            encoded.push(byte as char);
            assert(encoded@ =~= before + encoded_byte(byte));
        } else {
            encoded.push('%');
            encoded.push(hex_upper(byte / 16));
            encoded.push(hex_upper(byte % 16));
            assert(encoded@ =~= before + encoded_byte(byte));
        }
    }
    assert(bytes@.take(bytes@.len() as int) =~= bytes@);
    encoded
}

// ---------------------------------------------------------------------------
// Round trip
// ---------------------------------------------------------------------------

proof fn lemma_encoded_byte(b: u8)
    ensures
        is_ascii_chars(encoded_byte(b)),
        !is_unreserved(b) ==> {
            &&& hex_value_of(hex_char(b as int / 16) as u8) == Some(b as int / 16)
            &&& hex_value_of(hex_char(b as int % 16) as u8) == Some(b as int % 16)
        },
{
    assert forall|i: int| 0 <= i < encoded_byte(b).len() implies 0 <= #[trigger] encoded_byte(b)[i]
        as nat <= 127 by {}
}

/// An encoded text holds only unreserved characters and escapes, all of them
/// ASCII.
pub proof fn lemma_encoded_is_ascii(bytes: Seq<u8>)
    ensures
        is_ascii_chars(encoded_bytes(bytes)),
    decreases bytes.len(),
{
    if bytes.len() > 0 {
        lemma_encoded_is_ascii(bytes.drop_last());
        lemma_encoded_byte(bytes.last());
    }
}

/// `encoded_bytes` unfolded at the front.
pub proof fn lemma_encoded_front(bytes: Seq<u8>)
    requires
        bytes.len() > 0,
    ensures
        encoded_bytes(bytes) == encoded_byte(bytes[0]) + encoded_bytes(bytes.skip(1)),
    decreases bytes.len(),
{
    if bytes.len() == 1 {
        assert(bytes.drop_last() =~= Seq::<u8>::empty());
        assert(bytes.skip(1) =~= Seq::<u8>::empty());
        assert(encoded_bytes(Seq::<u8>::empty()) =~= Seq::<char>::empty());
        assert(encoded_bytes(bytes) =~= encoded_byte(bytes[0]) + encoded_bytes(bytes.skip(1)));
    } else {
        lemma_encoded_front(bytes.drop_last());
        assert(bytes.drop_last().skip(1) =~= bytes.skip(1).drop_last());
        assert(bytes.skip(1).last() == bytes.last());
        assert(encoded_bytes(bytes) =~= encoded_byte(bytes[0]) + encoded_bytes(bytes.skip(1)));
    }
}

/// The bytes of ASCII characters.
pub open spec fn ascii_bytes(text: Seq<char>) -> Seq<u8> {
    Seq::new(text.len(), |i: int| text[i] as u8)
}

proof fn lemma_decode_encoded(bytes: Seq<u8>)
    ensures
        decoded_bytes(ascii_bytes(encoded_bytes(bytes))) == Some(bytes),
    decreases bytes.len(),
{
    if bytes.len() == 0 {
        assert(ascii_bytes(encoded_bytes(bytes)) =~= Seq::<u8>::empty());
        assert(bytes =~= Seq::<u8>::empty());
    } else {
        let b = bytes[0];
        let rest = bytes.skip(1);
        lemma_decode_encoded(rest);
        lemma_encoded_front(bytes);
        lemma_encoded_byte(b);
        let all = ascii_bytes(encoded_bytes(bytes));
        let n = encoded_byte(b).len() as int;
        assert(all.skip(n) =~= ascii_bytes(encoded_bytes(rest)));
        assert(all[0] == encoded_byte(b)[0] as u8);
        if is_unreserved(b) {
            assert(all[0] == b);
            assert(seq![b] + rest =~= bytes);
        } else {
            assert(all[0] == 0x25);
            assert(all[1] == hex_char(b as int / 16) as u8);
            assert(all[2] == hex_char(b as int % 16) as u8);
            assert(seq![b] + rest =~= bytes);
        }
    }
}

/// Decoding an encoded text gives the text back, for every text.
pub proof fn law_percent_round_trip(text: Seq<char>)
    ensures
        percent_decoded(percent_encoded(text)) == Some(text),
{
    let bytes = encode_utf8(text);
    let encoded = percent_encoded(text);
    lemma_encoded_is_ascii(bytes);
    vstd::utf8::is_ascii_chars_encode_utf8(encoded);
    assert(encode_utf8(encoded) =~= ascii_bytes(encoded));
    lemma_decode_encoded(bytes);
    vstd::utf8::encode_utf8_valid_utf8(text);
    vstd::utf8::encode_utf8_decode_utf8(text);
}

proof fn lemma_encoded_concat(a: Seq<u8>, b: Seq<u8>)
    ensures
        encoded_bytes(a + b) == encoded_bytes(a) + encoded_bytes(b),
    decreases b.len(),
{
    if b.len() == 0 {
        assert(a + b =~= a);
        assert(encoded_bytes(a) + encoded_bytes(b) =~= encoded_bytes(a));
    } else {
        lemma_encoded_concat(a, b.drop_last());
        assert((a + b).drop_last() =~= a + b.drop_last());
        assert((a + b).last() == b.last());
        assert(encoded_bytes(a + b) =~= encoded_bytes(a) + encoded_bytes(b));
    }
}

proof fn lemma_utf8_concat(a: Seq<char>, b: Seq<char>)
    ensures
        encode_utf8(a + b) == encode_utf8(a) + encode_utf8(b),
    decreases a.len(),
{
    if a.len() == 0 {
        assert(a + b =~= b);
        assert(encode_utf8(a) + encode_utf8(b) =~= encode_utf8(b));
    } else {
        lemma_utf8_concat(a.drop_first(), b);
        assert((a + b).drop_first() =~= a.drop_first() + b);
        assert(encode_utf8(a + b) =~= encode_utf8(a) + encode_utf8(b));
    }
}

/// Texts are encoded piece by piece: the encoding of two texts one behind the other
/// is their encodings one behind the other.
pub proof fn law_encoding_goes_piece_by_piece(a: Seq<char>, b: Seq<char>)
    ensures
        percent_encoded(a + b) == percent_encoded(a) + percent_encoded(b),
        percent_encoded(Seq::empty()) == Seq::<char>::empty(),
{
    lemma_utf8_concat(a, b);
    lemma_encoded_concat(encode_utf8(a), encode_utf8(b));
    assert(encoded_bytes(Seq::empty()) =~= Seq::<char>::empty());
}

/// What one ASCII character is written as: letters, digits and `-._~/:` as
/// themselves, any other as `%` and the two upper-case hexadecimal digits of its
/// code.
pub proof fn law_one_encoded_character(c: char)
    requires
        c <= '\u{7f}',
    ensures
        ({
            let itself = 'a' <= c <= 'z' || 'A' <= c <= 'Z' || '0' <= c <= '9' || "-._~/:"@.contains(
                c,
            );
            percent_encoded(seq![c]) == if itself {
                seq![c]
            } else {
                seq![
                    '%',
                    "0123456789ABCDEF"@[c as int / 16],
                    "0123456789ABCDEF"@[c as int % 16],
                ]
            }
        }),
{
    let text = seq![c];
    assert forall|i: int| 0 <= i < text.len() implies '\0' <= #[trigger] text[i] <= '\u{7f}' by {
        assert(text[i] == c);
    }
    vstd::utf8::is_ascii_chars_encode_utf8(text);
    let b = c as u8;
    assert(encode_utf8(text) =~= seq![b]) by {
        assert(text[0] == c);
        assert(encode_utf8(text)[0] == text[0] as u8);
    }
    assert(seq![b].drop_last() =~= Seq::<u8>::empty());
    reveal_with_fuel(encoded_bytes, 2);
    assert(encoded_bytes(Seq::<u8>::empty()) =~= Seq::<char>::empty());
    assert(percent_encoded(text) =~= encoded_byte(b));
    lemma_marks(c);
    lemma_hex_chars_are_the_sixteen(b as int / 16);
    lemma_hex_chars_are_the_sixteen(b as int % 16);
    assert(b as char == c);
}

proof fn lemma_marks(c: char)
    ensures
        "-._~/:"@.contains(c) == (c == '-' || c == '.' || c == '_' || c == '~' || c == '/' || c
            == ':'),
{
    reveal_strlit("-._~/:");
    let marks = "-._~/:"@;
    assert(marks[0] == '-' && marks[1] == '.' && marks[2] == '_' && marks[3] == '~' && marks[4]
        == '/' && marks[5] == ':');
    if marks.contains(c) {
        let j = choose|j: int| 0 <= j < marks.len() && marks[j] == c;
        assert(j == 0 || j == 1 || j == 2 || j == 3 || j == 4 || j == 5);
    }
}

proof fn lemma_hex_chars_are_the_sixteen(value: int)
    requires
        0 <= value < 16,
    ensures
        hex_char(value) == "0123456789ABCDEF"@[value],
{
    reveal_strlit("0123456789ABCDEF");
    assert(value == 0 || value == 1 || value == 2 || value == 3 || value == 4 || value == 5
        || value == 6 || value == 7 || value == 8 || value == 9 || value == 10 || value == 11
        || value == 12 || value == 13 || value == 14 || value == 15);
}

/// What is decoded: bytes other than `%` stand for themselves, and a `%` with
/// anything but two hexadecimal digits behind it spoils the whole.
pub proof fn law_plain_bytes_stand_for_themselves(rest: Seq<u8>, first: u8)
    ensures
        decoded_bytes(Seq::empty()) == Some(Seq::<u8>::empty()),
        first as char != '%' ==> decoded_bytes(seq![first] + rest) == match decoded_bytes(rest) {
            Some(bytes) => Some(seq![first] + bytes),
            None => None,
        },
        rest.len() < 2 ==> decoded_bytes(seq!['%' as u8] + rest) is None,
        rest.len() >= 2 && !is_hex(rest[0] as char) ==> decoded_bytes(seq!['%' as u8] + rest) is None,
        rest.len() >= 2 && !is_hex(rest[1] as char) ==> decoded_bytes(seq!['%' as u8] + rest) is None,
{
    assert((seq![first] + rest).skip(1) =~= rest);
    let bad = seq!['%' as u8] + rest;
    assert(bad[0] == 0x25);
    if rest.len() >= 2 {
        assert(bad[1] == rest[0] && bad[2] == rest[1]);
    }
}

/// `%` and two hexadecimal digits, in either case, stand for the byte they spell.
pub proof fn law_an_escape_stands_for_its_byte(rest: Seq<u8>, x: u8, y: u8, high: nat, low: nat)
    requires
        high < 16,
        low < 16,
        x as char == "0123456789ABCDEF"@[high as int] || x as char
            == "0123456789abcdef"@[high as int],
        y as char == "0123456789ABCDEF"@[low as int] || y as char == "0123456789abcdef"@[low as int],
    ensures
        decoded_bytes(seq!['%' as u8, x, y] + rest) == match decoded_bytes(rest) {
            Some(bytes) => Some(seq![(16 * high + low) as u8] + bytes),
            None => None,
        },
{
    let all = seq!['%' as u8, x, y] + rest;
    assert(all.skip(3) =~= rest);
    assert(all[0] == 0x25 && all[1] == x && all[2] == y);
    lemma_hex_value(x, high);
    lemma_hex_value(y, low);
}

proof fn lemma_hex_value(x: u8, value: nat)
    requires
        value < 16,
        x as char == "0123456789ABCDEF"@[value as int] || x as char
            == "0123456789abcdef"@[value as int],
    ensures
        hex_value_of(x) == Some(value as int),
{
    reveal_strlit("0123456789ABCDEF");
    reveal_strlit("0123456789abcdef");
    assert(value == 0 || value == 1 || value == 2 || value == 3 || value == 4 || value == 5
        || value == 6 || value == 7 || value == 8 || value == 9 || value == 10 || value == 11
        || value == 12 || value == 13 || value == 14 || value == 15);
}

}
