//! Texts, numbers, percent encoding and digests on concrete values.

use fwdslash::percent::{hex_value, percent_decode, percent_encode};
use fwdslash::sha256::sha256_hex;
use fwdslash::text::{
    chars_of, drop_empty, find, join_chars, lines, parse_number, parse_unsigned,
    push_chars, push_decimal, push_hex_lower, push_hex_upper, same, same_text_ignoring_case, split_chars,
    string_of, trim, white,
};
use fwdslash::update::{verify_download, UpdateVerificationError};
use fwdslash::verification::{compare_digest, hex_string, is_digest_text, verify_digest};

const EMPTY: &str = "e3b0c44298fc1c149afbf4c8996fb92427ae41e4649b934ca495991b7852b855";
const ABC: &str = "ba7816bf8f01cfea414140de5dae2223b00361a396177a9cb410ff61f20015ad";
const TWO_BLOCKS: &str = "248d6a61d20638b8e5c026930c3e6039a33ce45964ff2167f6ecedd419db06c1";
const MILLION: &str = "cdc76e5c9914fb9281a1c7e284d73e67f1809a48a497200e046d39ccc7112cd0";

#[test]
fn known_digests() {
    assert_eq!(sha256_hex(b"").as_deref(), Some(EMPTY));
    assert_eq!(sha256_hex(b"abc").as_deref(), Some(ABC));
    assert_eq!(
        sha256_hex(b"abcdbcdecdefdefgefghfghighijhijkijkljklmklmnlmnomnopnopq").as_deref(),
        Some(TWO_BLOCKS)
    );
    assert_eq!(sha256_hex(&vec![b'a'; 1_000_000]).as_deref(), Some(MILLION));
}

#[test]
fn both_digests_agree_around_the_block_length() {
    // One of the two is computed by the digest crate, the other one here.
    for length in 0..200_usize {
        let bytes: Vec<u8> = (0..length).map(|at| (at * 7 + length) as u8).collect();
        let digest = sha256_hex(&bytes).expect("short enough");
        assert_eq!(digest.len(), 64);
        assert_eq!(verify_digest(Some(&bytes), Some(&digest)), Ok(()), "{length}");
        assert_eq!(verify_download(&bytes, &digest), Ok(()), "{length}");
    }
}

#[test]
fn a_digest_file_is_trimmed_and_read_in_any_case() {
    let upper = format!("  {}\r\n", ABC.to_ascii_uppercase());
    assert_eq!(verify_digest(Some(b"abc"), Some(&upper)), Ok(()));
    assert_eq!(
        verify_digest(Some(b"abd"), Some(ABC)),
        Err(UpdateVerificationError::DigestMismatch)
    );
    assert_eq!(
        verify_digest(Some(b"abc"), Some("not a digest")),
        Err(UpdateVerificationError::DigestMismatch)
    );
    assert_eq!(
        verify_digest(Some(b"abc"), None),
        Err(UpdateVerificationError::IoFailure)
    );
    assert_eq!(
        verify_digest(None, Some(ABC)),
        Err(UpdateVerificationError::IoFailure)
    );
    assert_eq!(
        verify_digest(None, Some("short")),
        Err(UpdateVerificationError::DigestMismatch)
    );
    assert!(is_digest_text(ABC));
    assert!(!is_digest_text(&ABC[1..]));
    assert_eq!(hex_string(&[0, 1, 0xab, 0xff]), "0001abff");
    assert_eq!(
        compare_digest("00ff", &[0, 0xff]),
        Err(UpdateVerificationError::DigestMismatch),
        "too short to be a digest"
    );
}

#[test]
fn percent_encoding_keeps_what_is_unreserved_and_reads_back() {
    assert_eq!(percent_encode("a-Z_0.9~"), "a-Z_0.9~");
    assert_eq!(percent_encode("caf\u{e9} 100%#"), "caf%C3%A9%20100%25%23");
    for text in ["", "plain", "a b", "%41", "\u{65e5}\u{672c}", "\u{1f680}", "a+b&c=d"] {
        assert_eq!(
            percent_decode(&percent_encode(text)).as_deref(),
            Some(text),
            "{text:?}"
        );
    }
    assert_eq!(percent_decode("%c3%A9").as_deref(), Some("\u{e9}"));
    assert_eq!(percent_decode("%"), None);
    assert_eq!(percent_decode("%4"), None);
    assert_eq!(percent_decode("%GG"), None);
    assert_eq!(percent_decode("%FF"), None, "no text in these bytes");
    assert_eq!(hex_value(b'0'), Some(0));
    assert_eq!(hex_value(b'f'), Some(15));
    assert_eq!(hex_value(b'F'), Some(15));
    assert_eq!(hex_value(b'g'), None);
}

#[test]
fn white_space_is_what_it_is_everywhere() {
    for value in 0..=0x10_ffff_u32 {
        if let Some(c) = char::from_u32(value) {
            assert_eq!(white(c), c.is_whitespace(), "{value:x}");
        }
    }
}

#[test]
fn characters_in_and_out() {
    for text in ["", "abc", "caf\u{e9}", "\u{65e5}\u{672c}\u{8a9e}", "\u{1f680}x"] {
        let chars = chars_of(text);
        assert_eq!(chars, text.chars().collect::<Vec<char>>());
        assert_eq!(string_of(&chars), text);
        assert!(same(text, &string_of(&chars)));
        let mut twice = text.to_string();
        push_chars(&mut twice, &chars);
        assert_eq!(twice, format!("{text}{text}"));
    }
    assert!(!same("a", "A"));
    assert!(same_text_ignoring_case("aZ\u{e9}", "Az\u{e9}"));
    assert!(!same_text_ignoring_case("\u{e9}", "\u{c9}"), "ASCII only");
}

#[test]
fn trimming_splitting_and_joining() {
    let trimmed = |text: &str| string_of(trim(&chars_of(text)));
    for text in ["", "  ", " a b ", "\t\r\nx\u{a0}", "\u{3000}y"] {
        assert_eq!(trimmed(text), text.trim(), "{text:?}");
    }
    for text in ["", "/", "a/b", "/a//b/", "no separator"] {
        let parts = split_chars(&chars_of(text), '/');
        let expected: Vec<Vec<char>> = text.split('/').map(|part| part.chars().collect()).collect();
        assert_eq!(parts, expected, "{text:?}");
        assert_eq!(string_of(&join_chars(&parts, '/')), text);
        let kept: Vec<Vec<char>> = text
            .split('/')
            .filter(|part| !part.is_empty())
            .map(|part| part.chars().collect())
            .collect();
        assert_eq!(drop_empty(parts), kept, "{text:?}");
    }
    for text in ["", "a", "a\n", "a\r\nb", "a\n\nb\r", "\n", "x\r\r\ny"] {
        let expected: Vec<Vec<char>> = text.lines().map(|line| line.chars().collect()).collect();
        assert_eq!(lines(&chars_of(text)), expected, "{text:?}");
    }
}

#[test]
fn finding_takes_the_first_occurrence() {
    let text = chars_of("abcabcd");
    assert_eq!(find(&text, &chars_of("abcd")), Some(3));
    assert_eq!(find(&text, &chars_of("abc")), Some(0));
    assert_eq!(find(&text, &chars_of("")), Some(0));
    assert_eq!(find(&text, &chars_of("x")), None);
}

#[test]
fn numbers_in_and_out() {
    for value in [0, 1, 9, 10, 65_535, u64::from(u32::MAX), u64::MAX] {
        let mut text = String::new();
        push_decimal(&mut text, value);
        assert_eq!(text, format!("{value}"));
        assert_eq!(parse_number(&chars_of(&format!("{value}")), u64::MAX), Some(value));
    }
    assert_eq!(parse_number(&chars_of("65536"), 65_535), None);
    assert_eq!(parse_number(&chars_of("+1"), 10), None, "digits only");
    assert_eq!(parse_unsigned(&chars_of("+1"), 10), Some(1));
    assert_eq!(parse_number(&chars_of(""), 10), None);
    assert_eq!(parse_number(&chars_of("1x"), 10), None);
    assert_eq!(parse_unsigned(&chars_of("ff"), 16), Some(255));
    assert_eq!(parse_unsigned(&chars_of("ffffffffffffffffff"), 16), None);
    let mut text = String::new();
    push_hex_lower(&mut text, 0xab, 4);
    push_hex_upper(&mut text, 0x8007_0005, 8);
    assert_eq!(text, "00ab80070005");
}
