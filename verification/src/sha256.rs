//! SHA-256, for the digest of a downloaded release asset.

use crate::text::{hex_lower, law_hex_round_trip, push_hex_lower, radix_value};
use vstd::prelude::*;

verus! {

/// The round constants.
pub const K: [u32; 64] = [
    0x428a_2f98, 0x7137_4491, 0xb5c0_fbcf, 0xe9b5_dba5, 0x3956_c25b, 0x59f1_11f1,
    0x923f_82a4, 0xab1c_5ed5, 0xd807_aa98, 0x1283_5b01, 0x2431_85be, 0x550c_7dc3,
    0x72be_5d74, 0x80de_b1fe, 0x9bdc_06a7, 0xc19b_f174, 0xe49b_69c1, 0xefbe_4786,
    0x0fc1_9dc6, 0x240c_a1cc, 0x2de9_2c6f, 0x4a74_84aa, 0x5cb0_a9dc, 0x76f9_88da,
    0x983e_5152, 0xa831_c66d, 0xb003_27c8, 0xbf59_7fc7, 0xc6e0_0bf3, 0xd5a7_9147,
    0x06ca_6351, 0x1429_2967, 0x27b7_0a85, 0x2e1b_2138, 0x4d2c_6dfc, 0x5338_0d13,
    0x650a_7354, 0x766a_0abb, 0x81c2_c92e, 0x9272_2c85, 0xa2bf_e8a1, 0xa81a_664b,
    0xc24b_8b70, 0xc76c_51a3, 0xd192_e819, 0xd699_0624, 0xf40e_3585, 0x106a_a070,
    0x19a4_c116, 0x1e37_6c08, 0x2748_774c, 0x34b0_bcb5, 0x391c_0cb3, 0x4ed8_aa4a,
    0x5b9c_ca4f, 0x682e_6ff3, 0x748f_82ee, 0x78a5_636f, 0x84c8_7814, 0x8cc7_0208,
    0x90be_fffa, 0xa450_6ceb, 0xbef9_a3f7, 0xc671_78f2,
];

/// The eight working words.
#[derive(Clone, Copy)]
pub struct Words {
    pub a: u32,
    pub b: u32,
    pub c: u32,
    pub d: u32,
    pub e: u32,
    pub f: u32,
    pub g: u32,
    pub h: u32,
}

/// The hash value before the first block.
pub open spec fn initial() -> Words {
    Words {
        a: 0x6a09_e667,
        b: 0xbb67_ae85,
        c: 0x3c6e_f372,
        d: 0xa54f_f53a,
        e: 0x510e_527f,
        f: 0x9b05_688c,
        g: 0x1f83_d9ab,
        h: 0x5be0_cd19,
    }
}

/// `x` rotated right by `n` bits, for `n` from 1 to 31.
pub open spec fn rotated(x: u32, n: u32) -> u32 {
    (x >> n) | (x << ((32 - n) as u32))
}

pub open spec fn choice(x: u32, y: u32, z: u32) -> u32 {
    (x & y) ^ ((!x) & z)
}

pub open spec fn majority(x: u32, y: u32, z: u32) -> u32 {
    (x & y) ^ (x & z) ^ (y & z)
}

pub open spec fn big_sigma0(x: u32) -> u32 {
    rotated(x, 2) ^ rotated(x, 13) ^ rotated(x, 22)
}

pub open spec fn big_sigma1(x: u32) -> u32 {
    rotated(x, 6) ^ rotated(x, 11) ^ rotated(x, 25)
}

pub open spec fn small_sigma0(x: u32) -> u32 {
    rotated(x, 7) ^ rotated(x, 18) ^ (x >> 3u32)
}

pub open spec fn small_sigma1(x: u32) -> u32 {
    rotated(x, 17) ^ rotated(x, 19) ^ (x >> 10u32)
}

/// The big-endian word at index `i` of a block.
pub open spec fn word_of(block: Seq<u8>, i: int) -> u32 {
    (block[4 * i] * 0x100_0000 + block[4 * i + 1] * 0x1_0000 + block[4 * i + 2] * 0x100 + block[4
        * i + 3]) as u32
}

/// The word of round `t` in the message schedule of a block.
pub open spec fn scheduled(block: Seq<u8>, t: nat) -> u32
    decreases t,
{
    if t < 16 {
        word_of(block, t as int)
    } else {
        scheduled(block, (t - 16) as nat).wrapping_add(
            small_sigma0(scheduled(block, (t - 15) as nat)),
        ).wrapping_add(scheduled(block, (t - 7) as nat)).wrapping_add(
            small_sigma1(scheduled(block, (t - 2) as nat)),
        )
    }
}

/// One round.
pub open spec fn round(w: Words, k: u32, word: u32) -> Words {
    let t1 = w.h.wrapping_add(big_sigma1(w.e)).wrapping_add(choice(w.e, w.f, w.g)).wrapping_add(
        k,
    ).wrapping_add(word);
    let t2 = big_sigma0(w.a).wrapping_add(majority(w.a, w.b, w.c));
    Words {
        a: t1.wrapping_add(t2),
        b: w.a,
        c: w.b,
        d: w.c,
        e: w.d.wrapping_add(t1),
        f: w.e,
        g: w.f,
        h: w.g,
    }
}

/// The working words after `t` rounds over a block.
pub open spec fn after_rounds(start: Words, block: Seq<u8>, t: nat) -> Words
    decreases t,
{
    if t == 0 {
        start
    } else {
        round(
            after_rounds(start, block, (t - 1) as nat),
            K@[t - 1],
            scheduled(block, (t - 1) as nat),
        )
    }
}

pub open spec fn word_sums(x: Words, y: Words) -> Words {
    Words {
        a: x.a.wrapping_add(y.a),
        b: x.b.wrapping_add(y.b),
        c: x.c.wrapping_add(y.c),
        d: x.d.wrapping_add(y.d),
        e: x.e.wrapping_add(y.e),
        f: x.f.wrapping_add(y.f),
        g: x.g.wrapping_add(y.g),
        h: x.h.wrapping_add(y.h),
    }
}

/// The hash value after `n` blocks of a padded message.
pub open spec fn after_blocks(message: Seq<u8>, n: nat) -> Words
    decreases n,
{
    if n == 0 {
        initial()
    } else {
        let before = after_blocks(message, (n - 1) as nat);
        word_sums(
            before,
            after_rounds(before, message.subrange(64 * (n - 1), 64 * n as int), 64),
        )
    }
}

/// A number as eight bytes, most significant first.
pub open spec fn big_endian(v: nat) -> Seq<u8> {
    seq![
        (v / 0x100_0000_0000_0000 % 256) as u8,
        (v / 0x1_0000_0000_0000 % 256) as u8,
        (v / 0x100_0000_0000 % 256) as u8,
        (v / 0x1_0000_0000 % 256) as u8,
        (v / 0x100_0000 % 256) as u8,
        (v / 0x1_0000 % 256) as u8,
        (v / 0x100 % 256) as u8,
        (v % 256) as u8,
    ]
}

/// How many zero bytes bring a message of this length, and the marker byte behind
/// it, to eight bytes short of a whole block.
pub open spec fn zero_count(len: nat) -> nat {
    ((119 - len % 64) % 64) as nat
}

/// A message with its padding: a one bit, zeros, and the length in bits.
pub open spec fn padded(message: Seq<u8>) -> Seq<u8> {
    message.push(0x80) + Seq::new(zero_count(message.len()), |i: int| 0u8) + big_endian(
        8 * message.len(),
    )
}

/// The words of the digest of a message.
pub open spec fn digest_words(message: Seq<u8>) -> Words {
    after_blocks(padded(message), padded(message).len() / 64)
}

/// The digest of a message in lower-case hexadecimal.
pub open spec fn digest_text(message: Seq<u8>) -> Seq<char> {
    let w = digest_words(message);
    hex_lower(w.a as nat, 8) + hex_lower(w.b as nat, 8) + hex_lower(w.c as nat, 8) + hex_lower(
        w.d as nat,
        8,
    ) + hex_lower(w.e as nat, 8) + hex_lower(w.f as nat, 8) + hex_lower(w.g as nat, 8) + hex_lower(
        w.h as nat,
        8,
    )
}

fn rotate_right(x: u32, n: u32) -> (r: u32)
    requires
        0 < n < 32,
    ensures
        r == rotated(x, n),
{
    (x >> n) | (x << (32 - n))
}

/// The message schedule of a block.
fn schedule(block: &[u8]) -> (r: [u32; 64])
    requires
        block@.len() == 64,
    ensures
        forall|t: int| 0 <= t < 64 ==> #[trigger] r@[t] == scheduled(block@, t as nat),
{
    let mut words: [u32; 64] = [0;64];
    for i in 0..16usize
        invariant
            block@.len() == 64,
            forall|t: int| 0 <= t < i ==> #[trigger] words@[t] == scheduled(block@, t as nat),
    {
        let word: u32 = block[4 * i] as u32 * 0x100_0000 + block[4 * i + 1] as u32 * 0x1_0000
            + block[4 * i + 2] as u32 * 0x100 + block[4 * i + 3] as u32;
        words[i] = word;
    }
    for i in 16..64usize
        invariant
            block@.len() == 64,
            forall|t: int| 0 <= t < i ==> #[trigger] words@[t] == scheduled(block@, t as nat),
    {
        let x = words[i - 15];
        let y = words[i - 2];
        let s0 = rotate_right(x, 7) ^ rotate_right(x, 18) ^ (x >> 3);
        let s1 = rotate_right(y, 17) ^ rotate_right(y, 19) ^ (y >> 10);
        let word = words[i - 16].wrapping_add(s0).wrapping_add(words[i - 7]).wrapping_add(s1);
        words[i] = word;
    }
    words
}

/// Folds one block into a hash value.
fn compress(state: Words, block: &[u8]) -> (r: Words)
    requires
        block@.len() == 64,
    ensures
        r == word_sums(state, after_rounds(state, block@, 64)),
{
    let words = schedule(block);
    let mut w = state;
    for i in 0..64usize
        invariant
            w == after_rounds(state, block@, i as nat),
            forall|t: int| 0 <= t < 64 ==> #[trigger] words@[t] == scheduled(block@, t as nat),
    {
        let choose_word = (w.e & w.f) ^ ((!w.e) & w.g);
        let majority_word = (w.a & w.b) ^ (w.a & w.c) ^ (w.b & w.c);
        let sum0 = rotate_right(w.a, 2) ^ rotate_right(w.a, 13) ^ rotate_right(w.a, 22);
        let sum1 = rotate_right(w.e, 6) ^ rotate_right(w.e, 11) ^ rotate_right(w.e, 25);
        let t1 = w.h.wrapping_add(sum1).wrapping_add(choose_word).wrapping_add(K[i]).wrapping_add(
            words[i],
        );
        let t2 = sum0.wrapping_add(majority_word);
        w = Words {
            a: t1.wrapping_add(t2),
            b: w.a,
            c: w.b,
            d: w.c,
            e: w.d.wrapping_add(t1),
            f: w.e,
            g: w.f,
            h: w.g,
        };
    }
    Words {
        a: state.a.wrapping_add(w.a),
        b: state.b.wrapping_add(w.b),
        c: state.c.wrapping_add(w.c),
        d: state.d.wrapping_add(w.d),
        e: state.e.wrapping_add(w.e),
        f: state.f.wrapping_add(w.f),
        g: state.g.wrapping_add(w.g),
        h: state.h.wrapping_add(w.h),
    }
}

/// A message with its padding.
fn pad(input: &[u8], bit_length: u64) -> (r: Vec<u8>)
    requires
        bit_length == 8 * input@.len(),
    ensures
        r@ == padded(input@),
{
    let mut bytes: Vec<u8> = Vec::new();
    for i in 0..input.len()
        invariant
            bytes@ == input@.take(i as int),
    {
        bytes.push(input[i]);
        assert(bytes@ =~= input@.take(i + 1));
    }
    assert(bytes@ =~= input@);
    bytes.push(0x80);
    let zeros: usize = (119 - input.len() % 64) % 64;
    assert(zeros == zero_count(input@.len()));
    for i in 0..zeros
        invariant
            bytes@ == input@.push(0x80) + Seq::new(i as nat, |j: int| 0u8),
    {
        bytes.push(0);
        assert(bytes@ =~= input@.push(0x80) + Seq::new((i + 1) as nat, |j: int| 0u8));
    }
    bytes.push((bit_length / 0x100_0000_0000_0000 % 256) as u8);
    bytes.push((bit_length / 0x1_0000_0000_0000 % 256) as u8);
    bytes.push((bit_length / 0x100_0000_0000 % 256) as u8);
    bytes.push((bit_length / 0x1_0000_0000 % 256) as u8);
    bytes.push((bit_length / 0x100_0000 % 256) as u8);
    bytes.push((bit_length / 0x1_0000 % 256) as u8);
    bytes.push((bit_length / 0x100 % 256) as u8);
    bytes.push((bit_length % 256) as u8);
    assert(bytes@ =~= padded(input@));
    bytes
}

/// The SHA-256 digest of a message in lower-case hexadecimal; `None` only for a
/// message whose length in bits is no `u64`.
pub fn sha256_hex(input: &[u8]) -> (r: Option<String>)
    ensures
        match r {
            Some(text) => 8 * input@.len() <= u64::MAX && text@ == digest_text(input@),
            None => 8 * input@.len() > u64::MAX,
        },
{
    let bit_length = match (input.len() as u64).checked_mul(8) {
        Some(bits) => bits,
        None => {
            return None;
        },
    };
    let bytes = pad(input, bit_length);
    let blocks: usize = bytes.len() / 64;
    let mut state = Words {
        a: 0x6a09_e667,
        b: 0xbb67_ae85,
        c: 0x3c6e_f372,
        d: 0xa54f_f53a,
        e: 0x510e_527f,
        f: 0x9b05_688c,
        g: 0x1f83_d9ab,
        h: 0x5be0_cd19,
    };
    for i in 0..blocks
        invariant
            bytes@ == padded(input@),
            blocks == bytes@.len() / 64,
            bytes@.len() <= usize::MAX,
            state == after_blocks(bytes@, i as nat),
    {
        let block = vstd::slice::slice_subrange(bytes.as_slice(), 64 * i, 64 * i + 64);
        assert(block@ == bytes@.subrange(64 * i, 64 * (i + 1)));
        state = compress(state, block);
    }
    let mut output: String = String::new();
    push_hex_lower(&mut output, state.a as u64, 8);
    push_hex_lower(&mut output, state.b as u64, 8);
    push_hex_lower(&mut output, state.c as u64, 8);
    push_hex_lower(&mut output, state.d as u64, 8);
    push_hex_lower(&mut output, state.e as u64, 8);
    push_hex_lower(&mut output, state.f as u64, 8);
    push_hex_lower(&mut output, state.g as u64, 8);
    push_hex_lower(&mut output, state.h as u64, 8);
    assert(output@ =~= digest_text(input@));
    Some(output)
}

/// A padded message is a whole number of blocks.
pub proof fn law_padding_fills_blocks(message: Seq<u8>)
    ensures
        padded(message).len() % 64 == 0,
        padded(message).len() >= message.len() + 9,
        padded(message).len() < message.len() + 73,
{
    let n = message.len();
    assert((n + 1 + zero_count(n) + 8) % 64 == 0);
}

/// The number that some bytes spell, most significant first.
pub open spec fn number_in(bytes: Seq<u8>) -> nat
    decreases bytes.len(),
{
    if bytes.len() == 0 {
        0
    } else {
        256 * number_in(bytes.drop_last()) + bytes.last() as nat
    }
}

proof fn lemma_number_push(bytes: Seq<u8>, last: u8)
    ensures
        number_in(bytes.push(last)) == 256 * number_in(bytes) + last,
{
    assert(bytes.push(last).drop_last() =~= bytes);
}

/// Dropping one more byte of a number.
proof fn lemma_next_byte(v: nat, scale: nat)
    requires
        scale > 0,
    ensures
        v / scale == 256 * (v / (256 * scale)) + v / scale % 256,
{
    vstd::arithmetic::div_mod::lemma_div_denominator(v as int, scale as int, 256);
    assert(scale * 256 == 256 * scale);
}

proof fn lemma_big_endian(v: nat)
    requires
        v < 0x1_0000_0000_0000_0000,
    ensures
        number_in(big_endian(v)) == v,
{
    lemma_next_byte(v, 1);
    lemma_next_byte(v, 0x100);
    lemma_next_byte(v, 0x1_0000);
    lemma_next_byte(v, 0x100_0000);
    lemma_next_byte(v, 0x1_0000_0000);
    lemma_next_byte(v, 0x100_0000_0000);
    lemma_next_byte(v, 0x1_0000_0000_0000);
    assert(v / 0x100_0000_0000_0000 < 256);
    let b = big_endian(v);
    let b1 = Seq::<u8>::empty().push(b[0]);
    let b2 = b1.push(b[1]);
    let b3 = b2.push(b[2]);
    let b4 = b3.push(b[3]);
    let b5 = b4.push(b[4]);
    let b6 = b5.push(b[5]);
    let b7 = b6.push(b[6]);
    assert(b =~= b7.push(b[7]));
    assert(number_in(Seq::<u8>::empty()) == 0);
    lemma_number_push(Seq::empty(), b[0]);
    lemma_number_push(b1, b[1]);
    lemma_number_push(b2, b[2]);
    lemma_number_push(b3, b[3]);
    lemma_number_push(b4, b[4]);
    lemma_number_push(b5, b[5]);
    lemma_number_push(b6, b[6]);
    lemma_number_push(b7, b[7]);
    assert(number_in(b1) == v / 0x100_0000_0000_0000);
    assert(number_in(b2) == v / 0x1_0000_0000_0000);
    assert(number_in(b3) == v / 0x100_0000_0000);
    assert(number_in(b4) == v / 0x1_0000_0000);
    assert(number_in(b5) == v / 0x100_0000);
    assert(number_in(b6) == v / 0x1_0000);
    assert(number_in(b7) == v / 0x100);
}

/// What the padding of a message is, for every message whose length in bits is a
/// `u64`: the message itself stands in front, one byte with its top bit set
/// follows, and the last eight bytes, read most significant first, are the
/// message's length in bits. Whatever stands between is zero, and the whole is the
/// shortest run of blocks that has room for all of it.
pub proof fn law_padding_carries_the_length(message: Seq<u8>)
    requires
        message.len() < 0x2000_0000_0000_0000,
    ensures
        ({
            let all = padded(message);
            let n = all.len();
            &&& all.take(message.len() as int) == message
            &&& all[message.len() as int] == 128
            &&& forall|i: int| message.len() < i < n - 8 ==> #[trigger] all[i] == 0
            &&& number_in(all.skip(n - 8)) == 8 * message.len()
            &&& n % 64 == 0
            &&& message.len() + 9 <= n < message.len() + 9 + 64
        }),
{
    law_padding_fills_blocks(message);
    let all = padded(message);
    let n = all.len();
    assert(all.take(message.len() as int) =~= message);
    assert(all.skip(n - 8) =~= big_endian(8 * message.len()));
    lemma_big_endian(8 * message.len());
}

/// Each block changes the hash value in a way that depends on the value before it
/// and on the block's bytes alone, wherever the block stands.
pub proof fn law_a_block_acts_the_same_everywhere(
    left: Seq<u8>,
    right: Seq<u8>,
    i: nat,
    j: nat,
)
    requires
        64 * (i + 1) <= left.len(),
        64 * (j + 1) <= right.len(),
        after_blocks(left, i) == after_blocks(right, j),
        forall|k: int| 0 <= k < 64 ==> left[64 * i + k] == #[trigger] right[64 * j + k],
    ensures
        after_blocks(left, i + 1) == after_blocks(right, j + 1),
{
    let a = left.subrange(64 * i as int, 64 * (i + 1) as int);
    let b = right.subrange(64 * j as int, 64 * (j + 1) as int);
    assert forall|k: int| 0 <= k < 64 implies a[k] == b[k] by {
        assert(a[k] == left[64 * i + k]);
        assert(b[k] == right[64 * j + k]);
    }
    assert(a =~= b);
}

/// The digest is the hash value after every block of the padded message, each of
/// its eight words in eight digits, and the number the digits of a word spell is
/// that word.
pub proof fn law_the_digest_spells_the_final_words(message: Seq<u8>)
    ensures
        ({
            let text = digest_text(message);
            let w = after_blocks(padded(message), padded(message).len() / 64);
            &&& text.len() == 64
            &&& radix_value(text.subrange(0, 8), 16) == w.a
            &&& radix_value(text.subrange(8, 16), 16) == w.b
            &&& radix_value(text.subrange(16, 24), 16) == w.c
            &&& radix_value(text.subrange(24, 32), 16) == w.d
            &&& radix_value(text.subrange(32, 40), 16) == w.e
            &&& radix_value(text.subrange(40, 48), 16) == w.f
            &&& radix_value(text.subrange(48, 56), 16) == w.g
            &&& radix_value(text.subrange(56, 64), 16) == w.h
        }),
{
    law_digest_text_shape(message);
    let w = digest_words(message);
    let text = digest_text(message);
    lemma_word_digits(w.a);
    lemma_word_digits(w.b);
    lemma_word_digits(w.c);
    lemma_word_digits(w.d);
    lemma_word_digits(w.e);
    lemma_word_digits(w.f);
    lemma_word_digits(w.g);
    lemma_word_digits(w.h);
    assert(text.subrange(0, 8) =~= hex_lower(w.a as nat, 8));
    assert(text.subrange(8, 16) =~= hex_lower(w.b as nat, 8));
    assert(text.subrange(16, 24) =~= hex_lower(w.c as nat, 8));
    assert(text.subrange(24, 32) =~= hex_lower(w.d as nat, 8));
    assert(text.subrange(32, 40) =~= hex_lower(w.e as nat, 8));
    assert(text.subrange(40, 48) =~= hex_lower(w.f as nat, 8));
    assert(text.subrange(48, 56) =~= hex_lower(w.g as nat, 8));
    assert(text.subrange(56, 64) =~= hex_lower(w.h as nat, 8));
}

proof fn lemma_word_digits(word: u32)
    ensures
        hex_lower(word as nat, 8).len() == 8,
        radix_value(hex_lower(word as nat, 8), 16) == word,
{
    crate::text::lemma_hex_lower(word as nat, 8);
    reveal_with_fuel(vstd::arithmetic::power::pow, 9);
    assert(vstd::arithmetic::power::pow(16, 8) == 0x1_0000_0000);
    law_hex_round_trip(word as nat, 8);
}

/// One round, in numbers: five words move one place on, and the two new ones are
/// sums modulo 2^32.
pub proof fn law_a_round_adds_modulo_words(w: Words, k: u32, word: u32)
    ensures
        ({
            let next = round(w, k, word);
            let t: int = w.h + big_sigma1(w.e) + choice(w.e, w.f, w.g) + k + word;
            &&& next.a == (t + big_sigma0(w.a) + majority(w.a, w.b, w.c)) % 0x1_0000_0000
            &&& next.e == (w.d + t) % 0x1_0000_0000
            &&& next.b == w.a && next.c == w.b && next.d == w.c
            &&& next.f == w.e && next.g == w.f && next.h == w.g
        }),
{
    let s1 = big_sigma1(w.e);
    let ch = choice(w.e, w.f, w.g);
    let s0 = big_sigma0(w.a);
    let ma = majority(w.a, w.b, w.c);
    let x1 = w.h.wrapping_add(s1);
    let x2 = x1.wrapping_add(ch);
    let x3 = x2.wrapping_add(k);
    let t1 = x3.wrapping_add(word);
    let t2 = s0.wrapping_add(ma);
    let t: int = w.h + s1 + ch + k + word;
    lemma_wrapped_sum(w.h as int, s1 as int, w.h, s1);
    lemma_wrapped_sum(w.h + s1, ch as int, x1, ch);
    lemma_wrapped_sum(w.h + s1 + ch, k as int, x2, k);
    lemma_wrapped_sum(w.h + s1 + ch + k, word as int, x3, word);
    lemma_wrapped_sum(s0 as int, ma as int, s0, ma);
    lemma_wrapped_sum(t, s0 + ma, t1, t2);
    lemma_wrapped_sum(w.d as int, t, w.d, t1);
    assert(t + (s0 + ma) == t + s0 + ma);
}

proof fn lemma_wrapped_sum(x: int, y: int, a: u32, b: u32)
    requires
        a == x % 0x1_0000_0000,
        b == y % 0x1_0000_0000,
    ensures
        a.wrapping_add(b) == (x + y) % 0x1_0000_0000,
{
}

/// The schedule of a block, in numbers: the block's own words, most significant
/// byte first, and from there on a sum modulo 2^32 of four earlier words, two of
/// them mixed.
pub proof fn law_the_schedule_adds_modulo_words(block: Seq<u8>, t: nat)
    requires
        block.len() == 64,
        t < 64,
    ensures
        t < 16 ==> scheduled(block, t) == number_in(block.subrange(4 * t as int, 4 * t + 4 as int)),
        t >= 16 ==> scheduled(block, t) == (scheduled(block, (t - 16) as nat) + small_sigma0(
            scheduled(block, (t - 15) as nat),
        ) + scheduled(block, (t - 7) as nat) + small_sigma1(scheduled(block, (t - 2) as nat)))
            % 0x1_0000_0000,
{
    if t < 16 {
        let b = block.subrange(4 * t as int, 4 * t + 4 as int);
        reveal_with_fuel(number_in, 5);
        assert(b.drop_last() =~= b.take(3));
        assert(b.take(3).drop_last() =~= b.take(2));
        assert(b.take(2).drop_last() =~= b.take(1));
        assert(b.take(1).drop_last() =~= b.take(0));
    }
}

/// The mixing functions, bit by bit: `choice` takes a bit of the second word where
/// the first has a one and of the third where it has a zero, `majority` takes the
/// bit that at least two words have.
pub proof fn law_choice_and_majority_are_bitwise(x: u32, y: u32, z: u32)
    ensures
        choice(x, y, z) == (x & y) | (!x & z),
        choice(x, y, z) & x == y & x,
        choice(x, y, z) & !x == z & !x,
        majority(x, y, z) == (x & y) | (y & z) | (z & x),
{
    assert((x & y) ^ (!x & z) == (x & y) | (!x & z)) by (bit_vector);
    assert(((x & y) ^ (!x & z)) & x == y & x) by (bit_vector);
    assert(((x & y) ^ (!x & z)) & !x == z & !x) by (bit_vector);
    assert((x & y) ^ (x & z) ^ (y & z) == (x & y) | (y & z) | (z & x)) by (bit_vector);
}

/// The four sums of rotated words are linear: the sum of a difference is the
/// difference of the sums.
pub proof fn law_sigmas_are_linear(x: u32, y: u32)
    ensures
        big_sigma0(x ^ y) == big_sigma0(x) ^ big_sigma0(y),
        big_sigma1(x ^ y) == big_sigma1(x) ^ big_sigma1(y),
        small_sigma0(x ^ y) == small_sigma0(x) ^ small_sigma0(y),
        small_sigma1(x ^ y) == small_sigma1(x) ^ small_sigma1(y),
{
    assert(((x ^ y) >> 2u32 | (x ^ y) << 30u32) ^ ((x ^ y) >> 13u32 | (x ^ y) << 19u32) ^ ((x ^ y)
        >> 22u32 | (x ^ y) << 10u32) == ((x >> 2u32 | x << 30u32) ^ (x >> 13u32 | x << 19u32) ^ (x
        >> 22u32 | x << 10u32)) ^ ((y >> 2u32 | y << 30u32) ^ (y >> 13u32 | y << 19u32) ^ (y
        >> 22u32 | y << 10u32))) by (bit_vector);
    assert(((x ^ y) >> 6u32 | (x ^ y) << 26u32) ^ ((x ^ y) >> 11u32 | (x ^ y) << 21u32) ^ ((x ^ y)
        >> 25u32 | (x ^ y) << 7u32) == ((x >> 6u32 | x << 26u32) ^ (x >> 11u32 | x << 21u32) ^ (x
        >> 25u32 | x << 7u32)) ^ ((y >> 6u32 | y << 26u32) ^ (y >> 11u32 | y << 21u32) ^ (y
        >> 25u32 | y << 7u32))) by (bit_vector);
    assert(((x ^ y) >> 7u32 | (x ^ y) << 25u32) ^ ((x ^ y) >> 18u32 | (x ^ y) << 14u32) ^ ((x ^ y)
        >> 3u32) == ((x >> 7u32 | x << 25u32) ^ (x >> 18u32 | x << 14u32) ^ (x >> 3u32)) ^ ((y
        >> 7u32 | y << 25u32) ^ (y >> 18u32 | y << 14u32) ^ (y >> 3u32))) by (bit_vector);
    assert(((x ^ y) >> 17u32 | (x ^ y) << 15u32) ^ ((x ^ y) >> 19u32 | (x ^ y) << 13u32) ^ ((x ^ y)
        >> 10u32) == ((x >> 17u32 | x << 15u32) ^ (x >> 19u32 | x << 13u32) ^ (x >> 10u32)) ^ ((y
        >> 17u32 | y << 15u32) ^ (y >> 19u32 | y << 13u32) ^ (y >> 10u32))) by (bit_vector);
}

/// The hash value after a block is the sum, word by word and modulo 2^32, of the
/// value before it and the working words after its sixty-four rounds.
pub proof fn law_word_sums_are_modulo_words(x: Words, y: Words)
    ensures
        word_sums(x, y).a == (x.a + y.a) % 0x1_0000_0000,
        word_sums(x, y).b == (x.b + y.b) % 0x1_0000_0000,
        word_sums(x, y).c == (x.c + y.c) % 0x1_0000_0000,
        word_sums(x, y).d == (x.d + y.d) % 0x1_0000_0000,
        word_sums(x, y).e == (x.e + y.e) % 0x1_0000_0000,
        word_sums(x, y).f == (x.f + y.f) % 0x1_0000_0000,
        word_sums(x, y).g == (x.g + y.g) % 0x1_0000_0000,
        word_sums(x, y).h == (x.h + y.h) % 0x1_0000_0000,
{
}

/// A digest is sixty-four lower-case hexadecimal digits.
pub proof fn law_digest_text_shape(message: Seq<u8>)
    ensures
        digest_text(message).len() == 64,
        forall|i: int| 0 <= i < 64 ==> crate::text::is_hex(#[trigger] digest_text(message)[i]),
{
    let w = digest_words(message);
    crate::text::lemma_hex_lower(w.a as nat, 8);
    crate::text::lemma_hex_lower(w.b as nat, 8);
    crate::text::lemma_hex_lower(w.c as nat, 8);
    crate::text::lemma_hex_lower(w.d as nat, 8);
    crate::text::lemma_hex_lower(w.e as nat, 8);
    crate::text::lemma_hex_lower(w.f as nat, 8);
    crate::text::lemma_hex_lower(w.g as nat, 8);
    crate::text::lemma_hex_lower(w.h as nat, 8);
}

}
