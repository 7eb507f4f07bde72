//! Character sequences: the vocabulary every other module states its contracts in.
//!
//! A string is modelled by the sequence of its characters. The spec functions
//! say what an operation on text means; the functions beside them compute it.

use vstd::prelude::*;
use vstd::slice::slice_subrange;
use vstd::string::StringSliceAdditionalSpecFns;

verus! {

/// `String::push` appends the given character to the end of the string.
pub assume_specification[ String::push ](s: &mut String, c: char)
    ensures
        final(s)@ == old(s)@.push(c),
;

/// `String::push_str` appends the given string slice to the end of the string.
pub assume_specification[ String::push_str ](s: &mut String, other: &str)
    ensures
        final(s)@ == old(s)@ + other@,
;

/// `String::clear` truncates the string, removing all contents.
pub assume_specification[ String::clear ](s: &mut String)
    ensures
        final(s)@ == Seq::<char>::empty(),
;

/// `String::pop` removes the last character and returns it, or returns `None`
/// and leaves the string alone when it is empty.
pub assume_specification[ String::pop ](s: &mut String) -> (r: Option<char>)
    ensures
        old(s)@.len() == 0 ==> r is None && final(s)@ == old(s)@,
        old(s)@.len() > 0 ==> r == Some(old(s)@.last()) && final(s)@ == old(s)@.drop_last(),
;

// ---------------------------------------------------------------------------
// Characters
// ---------------------------------------------------------------------------

pub open spec fn is_ascii_char(c: char) -> bool {
    c <= '\x7f'
}

pub open spec fn is_digit(c: char) -> bool {
    '0' <= c <= '9'
}

pub open spec fn is_alpha(c: char) -> bool {
    'a' <= c <= 'z' || 'A' <= c <= 'Z'
}

pub open spec fn is_alnum(c: char) -> bool {
    is_alpha(c) || is_digit(c)
}

pub open spec fn is_hex(c: char) -> bool {
    is_digit(c) || 'a' <= c <= 'f' || 'A' <= c <= 'F'
}

/// The value of a hexadecimal digit.
pub open spec fn hex_digit(c: char) -> nat {
    if is_digit(c) {
        (c as u32 - '0' as u32) as nat
    } else if 'a' <= c <= 'f' {
        (c as u32 - 'a' as u32 + 10) as nat
    } else {
        (c as u32 - 'A' as u32 + 10) as nat
    }
}

/// ASCII lower case; every other character stands for itself.
pub open spec fn lower(c: char) -> char {
    if 'A' <= c <= 'Z' {
        ((c as u32 + 32) as u32) as char
    } else {
        c
    }
}

/// ASCII upper case; every other character stands for itself.
pub open spec fn upper(c: char) -> char {
    if 'a' <= c <= 'z' {
        ((c as u32 - 32) as u32) as char
    } else {
        c
    }
}

/// The characters with the Unicode `White_Space` property.
pub open spec fn is_white(c: char) -> bool {
    ||| '\u{9}' <= c <= '\u{d}'
    ||| c == ' '
    ||| c == '\u{85}'
    ||| c == '\u{a0}'
    ||| c == '\u{1680}'
    ||| '\u{2000}' <= c <= '\u{200a}'
    ||| c == '\u{2028}'
    ||| c == '\u{2029}'
    ||| c == '\u{202f}'
    ||| c == '\u{205f}'
    ||| c == '\u{3000}'
}

pub fn ascii_char(c: char) -> (r: bool)
    ensures
        r == is_ascii_char(c),
{
    c <= '\x7f'
}

pub fn digit(c: char) -> (r: bool)
    ensures
        r == is_digit(c),
{
    '0' <= c && c <= '9'
}

pub fn alpha(c: char) -> (r: bool)
    ensures
        r == is_alpha(c),
{
    ('a' <= c && c <= 'z') || ('A' <= c && c <= 'Z')
}

pub fn alnum(c: char) -> (r: bool)
    ensures
        r == is_alnum(c),
{
    alpha(c) || digit(c)
}

pub fn hex(c: char) -> (r: bool)
    ensures
        r == is_hex(c),
{
    digit(c) || ('a' <= c && c <= 'f') || ('A' <= c && c <= 'F')
}

pub fn to_lower(c: char) -> (r: char)
    ensures
        r == lower(c),
{
    if 'A' <= c && c <= 'Z' {
        (c as u8 + 32) as char
    } else {
        c
    }
}

pub fn to_upper(c: char) -> (r: char)
    ensures
        r == upper(c),
{
    if 'a' <= c && c <= 'z' {
        (c as u8 - 32) as char
    } else {
        c
    }
}

pub fn white(c: char) -> (r: bool)
    ensures
        r == is_white(c),
{
    ('\u{9}' <= c && c <= '\u{d}') || c == ' ' || c == '\u{85}' || c == '\u{a0}' || c == '\u{1680}'
        || ('\u{2000}' <= c && c <= '\u{200a}') || c == '\u{2028}' || c == '\u{2029}' || c
        == '\u{202f}' || c == '\u{205f}' || c == '\u{3000}'
}

// ---------------------------------------------------------------------------
// Between strings and characters
// ---------------------------------------------------------------------------

/// The characters of a string, in order.
pub fn chars_of(s: &str) -> (r: Vec<char>)
    ensures
        r@ == s@,
{
    let mut r: Vec<char> = Vec::new();
    for c in it: s.chars()
        invariant
            it.seq() == s@,
            r@ == it.seq().take(it.index()),
    {
        r.push(c);
        assert(r@ =~= it.seq().take(it.index() + 1));
    }
    assert(r@ =~= s@);
    r
}

/// The string with the given characters.
pub fn string_of(v: &[char]) -> (r: String)
    ensures
        r@ == v@,
{
    let mut r: String = String::new();
    for i in 0..v.len()
        invariant
            r@ == v@.take(i as int),
    {
        r.push(v[i]);
        assert(r@ =~= v@.take(i + 1));
    }
    assert(r@ =~= v@);
    r
}

/// The characters from `from` up to `to`.
pub fn part(v: &[char], from: usize, to: usize) -> (r: &[char])
    requires
        from <= to <= v@.len(),
    ensures
        r@ == v@.subrange(from as int, to as int),
{
    slice_subrange(v, from, to)
}

/// Whether two runs of characters are the same.
pub fn same_chars(a: &[char], b: &[char]) -> (r: bool)
    ensures
        r == (a@ == b@),
{
    if a.len() != b.len() {
        return false;
    }
    for i in 0..a.len()
        invariant
            a@.len() == b@.len(),
            forall|j: int| 0 <= j < i ==> a@[j] == b@[j],
    {
        if a[i] != b[i] {
            return false;
        }
    }
    assert(a@ =~= b@);
    true
}

/// Whether two strings hold the same characters.
pub fn same(a: &str, b: &str) -> (r: bool)
    ensures
        r == (a@ == b@),
{
    let x = a.as_bytes();
    let y = b.as_bytes();
    proof {
        vstd::utf8::encode_utf8_decode_utf8(a@);
        vstd::utf8::encode_utf8_decode_utf8(b@);
    }
    if x.len() != y.len() {
        return false;
    }
    for i in 0..x.len()
        invariant
            x@ == a.spec_bytes(),
            y@ == b.spec_bytes(),
            x@.len() == y@.len(),
            forall|j: int| 0 <= j < i ==> x@[j] == y@[j],
    {
        if x[i] != y[i] {
            return false;
        }
    }
    assert(x@ =~= y@);
    true
}

/// Whether two strings differ only in ASCII case.
pub open spec fn same_ignoring_case(a: Seq<char>, b: Seq<char>) -> bool {
    a.len() == b.len() && forall|i: int| 0 <= i < a.len() ==> lower(#[trigger] a[i]) == lower(b[i])
}

pub fn same_chars_ignoring_case(a: &[char], b: &[char]) -> (r: bool)
    ensures
        r == same_ignoring_case(a@, b@),
{
    if a.len() != b.len() {
        return false;
    }
    for i in 0..a.len()
        invariant
            a@.len() == b@.len(),
            forall|j: int| 0 <= j < i ==> lower(a@[j]) == lower(b@[j]),
    {
        if to_lower(a[i]) != to_lower(b[i]) {
            return false;
        }
    }
    true
}

/// `eq_ignore_ascii_case` on strings.
pub fn same_text_ignoring_case(a: &str, b: &str) -> (r: bool)
    ensures
        r == same_ignoring_case(a@, b@),
{
    same_chars_ignoring_case(chars_of(a).as_slice(), chars_of(b).as_slice())
}

// ---------------------------------------------------------------------------
// Searching
// ---------------------------------------------------------------------------

/// The index of the first `c`, or the length where there is none.
pub open spec fn index_of(s: Seq<char>, c: char) -> int
    decreases s.len(),
{
    if s.len() == 0 || s[0] == c {
        0
    } else {
        1 + index_of(s.skip(1), c)
    }
}

pub proof fn lemma_index_of(s: Seq<char>, c: char)
    ensures
        0 <= index_of(s, c) <= s.len(),
        forall|j: int| 0 <= j < index_of(s, c) ==> s[j] != c,
        index_of(s, c) < s.len() ==> s[index_of(s, c)] == c,
    decreases s.len(),
{
    if s.len() > 0 && s[0] != c {
        lemma_index_of(s.skip(1), c);
        let k = index_of(s.skip(1), c);
        assert forall|j: int| 0 <= j < k + 1 implies s[j] != c by {
            if j > 0 {
                assert(s.skip(1)[j - 1] != c);
            }
        }
    }
}

pub proof fn lemma_index_of_is(s: Seq<char>, c: char, i: int)
    requires
        0 <= i <= s.len(),
        forall|j: int| 0 <= j < i ==> s[j] != c,
        i < s.len() ==> s[i] == c,
    ensures
        index_of(s, c) == i,
{
    lemma_index_of(s, c);
}

pub fn find_char(v: &[char], c: char) -> (r: usize)
    ensures
        r == index_of(v@, c),
        r <= v@.len(),
{
    for i in 0..v.len()
        invariant
            forall|j: int| 0 <= j < i ==> v@[j] != c,
    {
        if v[i] == c {
            proof {
                lemma_index_of_is(v@, c, i as int);
            }
            return i;
        }
    }
    proof {
        lemma_index_of_is(v@, c, v@.len() as int);
    }
    v.len()
}

/// Whether any character is `c`.
pub fn has_char(v: &[char], c: char) -> (r: bool)
    ensures
        r == v@.contains(c),
{
    let i = find_char(v, c);
    proof {
        lemma_index_of(v@, c);
    }
    if i < v.len() {
        assert(v@[i as int] == c);
        true
    } else {
        false
    }
}

/// The index of the last `c`, or -1 where there is none.
pub open spec fn last_index_of(s: Seq<char>, c: char) -> int
    decreases s.len(),
{
    if s.len() == 0 {
        -1
    } else if s.last() == c {
        s.len() - 1
    } else {
        last_index_of(s.drop_last(), c)
    }
}

pub proof fn lemma_last_index_of(s: Seq<char>, c: char)
    ensures
        -1 <= last_index_of(s, c) < s.len(),
        forall|j: int| last_index_of(s, c) < j < s.len() ==> s[j] != c,
        last_index_of(s, c) >= 0 ==> s[last_index_of(s, c)] == c,
    decreases s.len(),
{
    if s.len() > 0 && s.last() != c {
        lemma_last_index_of(s.drop_last(), c);
        let k = last_index_of(s.drop_last(), c);
        assert forall|j: int| k < j < s.len() implies s[j] != c by {
            if j < s.len() - 1 {
                assert(s.drop_last()[j] != c);
            }
        }
    }
}

/// `Some` of the index of the last `c`.
pub fn find_last_char(v: &[char], c: char) -> (r: Option<usize>)
    ensures
        match r {
            Some(i) => i < v@.len() && i == last_index_of(v@, c),
            None => last_index_of(v@, c) == -1,
        },
{
    proof {
        lemma_last_index_of(v@, c);
    }
    let mut i: usize = v.len();
    while i > 0
        invariant
            i <= v@.len(),
            forall|j: int| i <= j < v@.len() ==> v@[j] != c,
            -1 <= last_index_of(v@, c) < v@.len(),
            forall|j: int| last_index_of(v@, c) < j < v@.len() ==> v@[j] != c,
            last_index_of(v@, c) >= 0 ==> v@[last_index_of(v@, c)] == c,
        decreases i,
    {
        i -= 1;
        if v[i] == c {
            return Some(i);
        }
    }
    None
}

/// Whether `pattern` stands in `s` at index `at`.
pub open spec fn occurs_at(s: Seq<char>, pattern: Seq<char>, at: int) -> bool {
    0 <= at && at + pattern.len() <= s.len() && s.subrange(at, at + pattern.len()) == pattern
}

/// The index of the first occurrence of `pattern`.
pub open spec fn first_occurrence(s: Seq<char>, pattern: Seq<char>) -> Option<int> {
    first_occurrence_from(s, pattern, 0)
}

pub open spec fn first_occurrence_from(s: Seq<char>, pattern: Seq<char>, from: int) -> Option<int>
    decreases s.len() + 1 - from,
{
    if from < 0 || from > s.len() {
        None
    } else if occurs_at(s, pattern, from) {
        Some(from)
    } else {
        first_occurrence_from(s, pattern, from + 1)
    }
}

/// The first occurrence is where the pattern stands and before which it does
/// not; it is missing only where the pattern stands nowhere.
pub proof fn lemma_first_occurrence(s: Seq<char>, pattern: Seq<char>, from: int)
    requires
        0 <= from,
    ensures
        match first_occurrence_from(s, pattern, from) {
            Some(i) => from <= i && occurs_at(s, pattern, i) && forall|j: int|
                from <= j < i ==> !occurs_at(s, pattern, j),
            None => forall|j: int| from <= j ==> !occurs_at(s, pattern, j),
        },
    decreases s.len() + 1 - from,
{
    if from <= s.len() && !occurs_at(s, pattern, from) {
        lemma_first_occurrence(s, pattern, from + 1);
    }
}

pub fn stands_at(v: &[char], pattern: &[char], at: usize) -> (r: bool)
    requires
        at <= v@.len(),
    ensures
        r == occurs_at(v@, pattern@, at as int),
{
    if pattern.len() > v.len() - at {
        return false;
    }
    let n: usize = v.len();
    for i in 0..pattern.len()
        invariant
            at + pattern@.len() <= v@.len(),
            n == v@.len(),
            forall|j: int| 0 <= j < i ==> v@[at + j] == pattern@[j],
    {
        if v[at + i] != pattern[i] {
            assert(v@.subrange(at as int, at + pattern@.len())[i as int] != pattern@[i as int]);
            return false;
        }
    }
    assert(v@.subrange(at as int, at + pattern@.len()) =~= pattern@);
    true
}

pub fn find_from(v: &[char], pattern: &[char], from: usize) -> (r: Option<usize>)
    requires
        from <= v@.len(),
    ensures
        match r {
            Some(i) => first_occurrence_from(v@, pattern@, from as int) == Some(i as int) && from
                <= i && i + pattern@.len() <= v@.len() <= usize::MAX,
            None => first_occurrence_from(v@, pattern@, from as int) is None,
        },
{
    let n: usize = v.len();
    let mut i: usize = from;
    loop
        invariant
            from <= i <= v@.len(),
            n == v@.len(),
            first_occurrence_from(v@, pattern@, from as int) == first_occurrence_from(
                v@,
                pattern@,
                i as int,
            ),
        decreases v@.len() - i,
    {
        if stands_at(v, pattern, i) {
            return Some(i);
        }
        if i == n {
            assert(first_occurrence_from(v@, pattern@, i + 1) is None);
            return None;
        }
        i += 1;
    }
}

/// The index of the first occurrence of `pattern`, if there is one.
pub fn find(v: &[char], pattern: &[char]) -> (r: Option<usize>)
    ensures
        match r {
            Some(i) => first_occurrence(v@, pattern@) == Some(i as int) && i + pattern@.len()
                <= v@.len() <= usize::MAX,
            None => first_occurrence(v@, pattern@) is None,
        },
{
    find_from(v, pattern, 0)
}

/// Whether `s` begins with `prefix`.
pub open spec fn begins(s: Seq<char>, prefix: Seq<char>) -> bool {
    occurs_at(s, prefix, 0)
}

/// Whether `s` ends with `suffix`.
pub open spec fn ends(s: Seq<char>, suffix: Seq<char>) -> bool {
    occurs_at(s, suffix, s.len() - suffix.len())
}

pub fn starts_with(v: &[char], prefix: &str) -> (r: bool)
    ensures
        r == begins(v@, prefix@),
{
    stands_at(v, chars_of(prefix).as_slice(), 0)
}

pub fn ends_with(v: &[char], suffix: &str) -> (r: bool)
    ensures
        r == ends(v@, suffix@),
{
    let p = chars_of(suffix);
    if p.len() > v.len() {
        return false;
    }
    stands_at(v, p.as_slice(), v.len() - p.len())
}

// ---------------------------------------------------------------------------
// Trimming
// ---------------------------------------------------------------------------

/// `s` without its leading white space.
pub open spec fn trim_front(s: Seq<char>) -> Seq<char>
    decreases s.len(),
{
    if s.len() > 0 && is_white(s[0]) {
        trim_front(s.skip(1))
    } else {
        s
    }
}

/// `s` without its trailing white space.
pub open spec fn trim_back(s: Seq<char>) -> Seq<char>
    decreases s.len(),
{
    if s.len() > 0 && is_white(s.last()) {
        trim_back(s.drop_last())
    } else {
        s
    }
}

/// `s` without white space at either end.
pub open spec fn trimmed(s: Seq<char>) -> Seq<char> {
    trim_back(trim_front(s))
}

/// Trimming the front leaves a suffix.
pub proof fn lemma_trim_front(s: Seq<char>)
    ensures
        trim_front(s).len() <= s.len(),
        trim_front(s) == s.skip(s.len() - trim_front(s).len()),
    decreases s.len(),
{
    if s.len() > 0 && is_white(s[0]) {
        lemma_trim_front(s.skip(1));
        let n = trim_front(s).len();
        assert(s.skip(1).skip(s.len() - 1 - n) =~= s.skip(s.len() - n));
    } else {
        assert(s.skip(0) =~= s);
    }
}

pub fn trim_start(v: &[char]) -> (r: &[char])
    ensures
        r@ == trim_front(v@),
{
    let mut i: usize = 0;
    assert(v@.skip(0) =~= v@);
    while i < v.len() && white(v[i])
        invariant
            i <= v@.len(),
            trim_front(v@) == trim_front(v@.skip(i as int)),
        decreases v@.len() - i,
    {
        assert(v@.skip(i as int).skip(1) =~= v@.skip(i + 1));
        i += 1;
    }
    assert(v@.subrange(i as int, v@.len() as int) =~= v@.skip(i as int));
    part(v, i, v.len())
}

pub fn trim_end(v: &[char]) -> (r: &[char])
    ensures
        r@ == trim_back(v@),
{
    let mut n: usize = v.len();
    assert(v@.take(n as int) =~= v@);
    while n > 0 && white(v[n - 1])
        invariant
            n <= v@.len(),
            trim_back(v@) == trim_back(v@.take(n as int)),
        decreases n,
    {
        assert(v@.take(n as int).drop_last() =~= v@.take(n - 1));
        n -= 1;
    }
    assert(v@.subrange(0, n as int) =~= v@.take(n as int));
    part(v, 0, n)
}

pub fn trim(v: &[char]) -> (r: &[char])
    ensures
        r@ == trimmed(v@),
{
    trim_end(trim_start(v))
}

// ---------------------------------------------------------------------------
// Splitting and joining
// ---------------------------------------------------------------------------

/// The parts of `s` between the separators; never empty.
pub open spec fn split(s: Seq<char>, sep: char) -> Seq<Seq<char>>
    decreases s.len(),
    via split_decreases
{
    let i = index_of(s, sep);
    if i < s.len() {
        seq![s.take(i)] + split(s.skip(i + 1), sep)
    } else {
        seq![s]
    }
}

#[via_fn]
proof fn split_decreases(s: Seq<char>, sep: char) {
    lemma_index_of(s, sep);
}

/// The parts with a separator between each two neighbours.
pub open spec fn join(parts: Seq<Seq<char>>, sep: char) -> Seq<char>
    decreases parts.len(),
{
    if parts.len() == 0 {
        Seq::empty()
    } else if parts.len() == 1 {
        parts[0]
    } else {
        join(parts.drop_last(), sep).push(sep) + parts.last()
    }
}

pub proof fn lemma_split_parts(s: Seq<char>, sep: char)
    ensures
        split(s, sep).len() >= 1,
        forall|k: int, j: int|
            0 <= k < split(s, sep).len() && 0 <= j < split(s, sep)[k].len() ==> {
                &&& #[trigger] split(s, sep)[k][j] != sep
                &&& s.contains(split(s, sep)[k][j])
            },
    decreases s.len(),
{
    lemma_index_of(s, sep);
    let i = index_of(s, sep);
    if i < s.len() {
        let rest = s.skip(i + 1);
        lemma_split_parts(rest, sep);
        assert forall|k: int, j: int|
            0 <= k < split(s, sep).len() && 0 <= j < split(s, sep)[k].len() implies {
            &&& #[trigger] split(s, sep)[k][j] != sep
            &&& s.contains(split(s, sep)[k][j])
        } by {
            if k == 0 {
                assert(split(s, sep)[0] =~= s.take(i));
                assert(s[j] == split(s, sep)[k][j]);
            } else {
                assert(split(s, sep)[k] == split(rest, sep)[k - 1]);
                let c = split(rest, sep)[k - 1][j];
                assert(rest.contains(c));
                let m = choose|m: int| 0 <= m < rest.len() && rest[m] == c;
                assert(s[i + 1 + m] == c);
            }
        }
    } else {
        assert forall|k: int, j: int|
            0 <= k < split(s, sep).len() && 0 <= j < split(s, sep)[k].len() implies {
            &&& #[trigger] split(s, sep)[k][j] != sep
            &&& s.contains(split(s, sep)[k][j])
        } by {
            assert(split(s, sep)[k] == s);
            assert(s[j] == split(s, sep)[k][j]);
        }
    }
}

// ---------------------------------------------------------------------------
// Rewriting
// ---------------------------------------------------------------------------

/// `s` with every `from` turned into `to`.
pub open spec fn replaced(s: Seq<char>, from: char, to: char) -> Seq<char> {
    s.map_values(
        |c: char|
            if c == from {
                to
            } else {
                c
            },
    )
}

pub fn replace_char(v: &[char], from: char, to: char) -> (r: Vec<char>)
    ensures
        r@ == replaced(v@, from, to),
{
    let mut r: Vec<char> = Vec::new();
    for i in 0..v.len()
        invariant
            r@.len() == i,
            forall|j: int| 0 <= j < i ==> r@[j] == replaced(v@, from, to)[j],
    {
        r.push(
            if v[i] == from {
                to
            } else {
                v[i]
            },
        );
    }
    assert(r@ =~= replaced(v@, from, to));
    r
}

/// `s` without its leading run of `c`.
pub open spec fn trim_front_of(s: Seq<char>, c: char) -> Seq<char>
    decreases s.len(),
{
    if s.len() > 0 && s[0] == c {
        trim_front_of(s.skip(1), c)
    } else {
        s
    }
}

/// `s` without its trailing run of `c`.
pub open spec fn trim_back_of(s: Seq<char>, c: char) -> Seq<char>
    decreases s.len(),
{
    if s.len() > 0 && s.last() == c {
        trim_back_of(s.drop_last(), c)
    } else {
        s
    }
}

pub fn trim_start_of(v: &[char], c: char) -> (r: &[char])
    ensures
        r@ == trim_front_of(v@, c),
{
    let mut i: usize = 0;
    assert(v@.skip(0) =~= v@);
    while i < v.len() && v[i] == c
        invariant
            i <= v@.len(),
            trim_front_of(v@, c) == trim_front_of(v@.skip(i as int), c),
        decreases v@.len() - i,
    {
        assert(v@.skip(i as int).skip(1) =~= v@.skip(i + 1));
        i += 1;
    }
    assert(v@.subrange(i as int, v@.len() as int) =~= v@.skip(i as int));
    part(v, i, v.len())
}

pub fn trim_end_of(v: &[char], c: char) -> (r: &[char])
    ensures
        r@ == trim_back_of(v@, c),
{
    let mut n: usize = v.len();
    assert(v@.take(n as int) =~= v@);
    while n > 0 && v[n - 1] == c
        invariant
            n <= v@.len(),
            trim_back_of(v@, c) == trim_back_of(v@.take(n as int), c),
        decreases n,
    {
        assert(v@.take(n as int).drop_last() =~= v@.take(n - 1));
        n -= 1;
    }
    assert(v@.subrange(0, n as int) =~= v@.take(n as int));
    part(v, 0, n)
}

/// Appends characters to a list of characters.
pub fn append_chars(v: &mut Vec<char>, more: &[char])
    ensures
        final(v)@ == old(v)@ + more@,
{
    for i in 0..more.len()
        invariant
            v@ == old(v)@ + more@.take(i as int),
    {
        v.push(more[i]);
        assert(v@ =~= old(v)@ + more@.take(i + 1));
    }
    assert(v@ =~= old(v)@ + more@);
}

/// Appends characters to a string.
pub fn push_chars(s: &mut String, more: &[char])
    ensures
        final(s)@ == old(s)@ + more@,
{
    for i in 0..more.len()
        invariant
            s@ == old(s)@ + more@.take(i as int),
    {
        s.push(more[i]);
        assert(s@ =~= old(s)@ + more@.take(i + 1));
    }
    assert(s@ =~= old(s)@ + more@);
}

// ---------------------------------------------------------------------------
// Numbers
// ---------------------------------------------------------------------------

/// The character of a digit below ten.
pub open spec fn digit_char(value: nat) -> char {
    (('0' as u32 + value) as u8) as char
}

/// A number in decimal, without leading zeros.
pub open spec fn decimal(value: nat) -> Seq<char>
    decreases value,
{
    if value < 10 {
        seq![digit_char(value)]
    } else {
        decimal(value / 10).push(digit_char(value % 10))
    }
}

/// Appends a number in decimal.
pub fn push_decimal(s: &mut String, value: u64)
    ensures
        final(s)@ == old(s)@ + decimal(value as nat),
    decreases value,
{
    if value < 10 {
        s.push((48 + value as u8) as char);
        assert(s@ =~= old(s)@ + decimal(value as nat));
    } else {
        push_decimal(s, value / 10);
        s.push((48 + (value % 10) as u8) as char);
        assert(s@ =~= old(s)@ + decimal(value as nat));
    }
}

/// The character of a hexadecimal digit below sixteen, in lower case.
pub open spec fn hex_lower_char(value: nat) -> char {
    if value < 10 {
        digit_char(value)
    } else {
        (('a' as u32 - 10 + value) as u8) as char
    }
}

/// The last `width` hexadecimal digits of a number, in lower case.
pub open spec fn hex_lower(value: nat, width: nat) -> Seq<char>
    decreases width,
{
    if width == 0 {
        Seq::empty()
    } else {
        hex_lower(value / 16, (width - 1) as nat).push(hex_lower_char(value % 16))
    }
}

/// The last `width` hexadecimal digits of a number, in upper case.
pub open spec fn hex_upper(value: nat, width: nat) -> Seq<char> {
    hex_lower(value, width).map_values(|c: char| upper(c))
}

/// Appends the last `width` hexadecimal digits of a number, in lower case.
pub fn push_hex_lower(s: &mut String, value: u64, width: u8)
    ensures
        final(s)@ == old(s)@ + hex_lower(value as nat, width as nat),
    decreases width,
{
    if width == 0 {
        assert(s@ =~= old(s)@ + hex_lower(value as nat, 0));
    } else {
        push_hex_lower(s, value / 16, width - 1);
        let digit: u8 = (value % 16) as u8;
        let c = if digit < 10 {
            (48 + digit) as char
        } else {
            (87 + digit) as char
        };
        s.push(c);
        assert(s@ =~= old(s)@ + hex_lower(value as nat, width as nat));
    }
}

/// Appends the last `width` hexadecimal digits of a number, in upper case.
pub fn push_hex_upper(s: &mut String, value: u64, width: u8)
    ensures
        final(s)@ == old(s)@ + hex_upper(value as nat, width as nat),
    decreases width,
{
    if width == 0 {
        assert(s@ =~= old(s)@ + hex_upper(value as nat, 0));
    } else {
        push_hex_upper(s, value / 16, width - 1);
        let digit: u8 = (value % 16) as u8;
        let c = if digit < 10 {
            (48 + digit) as char
        } else {
            (55 + digit) as char
        };
        s.push(c);
        assert(c == upper(hex_lower_char((value % 16) as nat)));
        assert(s@ =~= old(s)@ + hex_upper(value as nat, width as nat));
    }
}

pub proof fn lemma_hex_lower(value: nat, width: nat)
    ensures
        hex_lower(value, width).len() == width,
        forall|i: int| 0 <= i < width ==> is_hex(#[trigger] hex_lower(value, width)[i]),
    decreases width,
{
    if width > 0 {
        lemma_hex_lower(value / 16, (width - 1) as nat);
    }
}

/// Whether a text is a plain decimal number: one or more digits.
pub open spec fn is_number(s: Seq<char>) -> bool {
    s.len() > 0 && forall|i: int| 0 <= i < s.len() ==> is_digit(#[trigger] s[i])
}

/// The value of some decimal digits.
pub open spec fn decimal_value(s: Seq<char>) -> nat
    decreases s.len(),
{
    if s.len() == 0 {
        0
    } else {
        10 * decimal_value(s.drop_last()) + (s.last() as u32 - '0' as u32) as nat
    }
}

/// A plain decimal number that is at most `max`.
pub open spec fn number_up_to(s: Seq<char>, max: nat) -> Option<nat> {
    if is_number(s) && decimal_value(s) <= max {
        Some(decimal_value(s))
    } else {
        None
    }
}

proof fn lemma_decimal_value_grows(s: Seq<char>, n: int)
    requires
        0 <= n <= s.len(),
        forall|i: int| 0 <= i < s.len() ==> is_digit(#[trigger] s[i]),
    ensures
        decimal_value(s.take(n)) <= decimal_value(s),
    decreases s.len() - n,
{
    if n < s.len() {
        lemma_decimal_value_grows(s, n + 1);
        assert(s.take(n + 1).drop_last() =~= s.take(n));
        assert(is_digit(s[n]));
    } else {
        assert(s.take(n) =~= s);
    }
}

/// Reads a plain decimal number that is at most `max`.
pub fn parse_number(v: &[char], max: u64) -> (r: Option<u64>)
    ensures
        match r {
            Some(value) => number_up_to(v@, max as nat) == Some(value as nat),
            None => number_up_to(v@, max as nat) is None,
        },
{
    if v.len() == 0 {
        return None;
    }
    for i in 0..v.len()
        invariant
            forall|j: int| 0 <= j < i ==> is_digit(#[trigger] v@[j]),
    {
        if !digit(v[i]) {
            return None;
        }
    }
    let mut value: u64 = 0;
    for i in 0..v.len()
        invariant
            forall|j: int| 0 <= j < v@.len() ==> is_digit(#[trigger] v@[j]),
            v@.len() > 0,
            value == decimal_value(v@.take(i as int)),
            value <= max,
    {
        proof {
            assert(v@.take(i + 1).drop_last() =~= v@.take(i as int));
            assert(is_digit(v@[i as int]));
            lemma_decimal_value_grows(v@, i + 1);
        }
        let next: u64 = (v[i] as u32 - 48) as u64;
        let tens = match value.checked_mul(10) {
            Some(tens) => tens,
            None => {
                return None;
            },
        };
        value = match tens.checked_add(next) {
            Some(sum) => sum,
            None => {
                return None;
            },
        };
        if value > max {
            return None;
        }
    }
    assert(v@.take(v@.len() as int) =~= v@);
    Some(value)
}

/// Writing a number in decimal and reading it back gives the number.
pub proof fn law_decimal_round_trip(value: nat)
    ensures
        is_number(decimal(value)),
        decimal_value(decimal(value)) == value,
    decreases value,
{
    let s = decimal(value);
    if value < 10 {
        assert(s.drop_last() =~= Seq::<char>::empty());
        assert(decimal_value(Seq::<char>::empty()) == 0);
    } else {
        law_decimal_round_trip(value / 10);
        assert(s.drop_last() =~= decimal(value / 10));
        assert forall|i: int| 0 <= i < s.len() implies is_digit(#[trigger] s[i]) by {
            if i < s.len() - 1 {
                assert(is_digit(decimal(value / 10)[i]));
            }
        }
    }
}

/// A list of texts as characters.
pub open spec fn texts(parts: Seq<Vec<char>>) -> Seq<Seq<char>> {
    parts.map_values(|v: Vec<char>| v@)
}

/// The parts of a text between the separators.
pub fn split_chars(v: &[char], sep: char) -> (r: Vec<Vec<char>>)
    ensures
        texts(r@) == split(v@, sep),
        r@.len() == split(v@, sep).len(),
        forall|i: int| 0 <= i < r@.len() ==> (#[trigger] r@[i])@ == split(v@, sep)[i],
{
    let mut parts: Vec<Vec<char>> = Vec::new();
    let mut pos: usize = 0;
    let n: usize = v.len();
    assert(v@.skip(0) =~= v@);
    assert(texts(parts@) + split(v@, sep) =~= split(v@, sep));
    loop
        invariant
            n == v@.len(),
            pos <= n,
            texts(parts@) + split(v@.skip(pos as int), sep) == split(v@, sep),
        decreases n - pos,
    {
        let ghost rest = v@.skip(pos as int);
        let tail = part(v, pos, n);
        assert(tail@ =~= rest);
        let len = find_char(tail, sep);
        let mut piece: Vec<char> = Vec::new();
        append_chars(&mut piece, part(tail, 0, len));
        proof {
            lemma_index_of(rest, sep);
            assert(piece@ =~= rest.take(len as int));
        }
        let ghost before = texts(parts@);
        parts.push(piece);
        proof {
            assert(texts(parts@) =~= before.push(piece@));
        }
        if len == tail.len() {
            proof {
                assert(piece@ =~= rest);
                assert(split(rest, sep) =~= seq![rest]);
                assert(texts(parts@) =~= before + split(rest, sep));
                assert forall|i: int| 0 <= i < parts@.len() implies (#[trigger] parts@[i])@ == split(
                    v@,
                    sep,
                )[i] by {
                    assert(texts(parts@)[i] == parts@[i]@);
                }
            }
            return parts;
        }
        proof {
            assert(rest.skip(len + 1) =~= v@.skip(pos + len + 1));
            assert(texts(parts@) + split(v@.skip(pos + len + 1), sep) =~= before + split(rest, sep));
        }
        pos = pos + len + 1;
    }
}

/// A separator and a part behind a text add that part to the text's parts.
pub proof fn lemma_split_concat(a: Seq<char>, b: Seq<char>, sep: char)
    requires
        !b.contains(sep),
    ensures
        split(a.push(sep) + b, sep) == split(a, sep).push(b),
    decreases a.len(),
{
    let s = a.push(sep) + b;
    let i = index_of(a, sep);
    lemma_index_of(a, sep);
    assert forall|j: int| 0 <= j < i implies s[j] != sep by {
        assert(s[j] == a[j]);
    }
    lemma_index_of_is(s, sep, i);
    if i < a.len() {
        lemma_split_concat(a.skip(i + 1), b, sep);
        assert(s.skip(i + 1) =~= a.skip(i + 1).push(sep) + b);
        assert(s.take(i) =~= a.take(i));
        assert(split(s, sep) =~= split(a, sep).push(b));
    } else {
        assert(s.take(i) =~= a);
        assert(s.skip(i + 1) =~= b);
        assert forall|j: int| 0 <= j < b.len() implies b[j] != sep by {
            assert(b.contains(b[j]));
        }
        lemma_index_of_is(b, sep, b.len() as int);
        assert(split(b, sep) =~= seq![b]);
        assert(split(a, sep) =~= seq![a]);
        assert(split(s, sep) =~= split(a, sep).push(b));
    }
}

/// A text without the separator is its own only part.
pub proof fn lemma_split_one(a: Seq<char>, sep: char)
    requires
        !a.contains(sep),
    ensures
        split(a, sep) == seq![a],
{
    assert forall|j: int| 0 <= j < a.len() implies a[j] != sep by {
        assert(a.contains(a[j]));
    }
    lemma_index_of_is(a, sep, a.len() as int);
}

// ---------------------------------------------------------------------------
// Lines
// ---------------------------------------------------------------------------

/// A line without the carriage return before its line feed.
pub open spec fn without_return(line: Seq<char>) -> Seq<char> {
    if line.len() > 0 && line.last() == '\r' {
        line.drop_last()
    } else {
        line
    }
}

/// The lines of a text. A line feed, or a carriage return and a line feed, ends a
/// line; an unended last line counts where it is not empty.
pub open spec fn lines_of(s: Seq<char>) -> Seq<Seq<char>> {
    let parts = split(s, '\n');
    let ended = parts.drop_last().map_values(|line: Seq<char>| without_return(line));
    if parts.last().len() == 0 {
        ended
    } else {
        ended.push(parts.last())
    }
}

/// The lines of a text.
pub fn lines(v: &[char]) -> (r: Vec<Vec<char>>)
    ensures
        texts(r@) == lines_of(v@),
        r@.len() == lines_of(v@).len(),
        forall|i: int| 0 <= i < r@.len() ==> (#[trigger] r@[i])@ == lines_of(v@)[i],
{
    let parts = split_chars(v, '\n');
    proof {
        lemma_split_parts(v@, '\n');
    }
    let last: usize = parts.len() - 1;
    let ghost ended = split(v@, '\n').drop_last().map_values(
        |line: Seq<char>| without_return(line),
    );
    let mut r: Vec<Vec<char>> = Vec::new();
    for i in 0..last
        invariant
            last == parts@.len() - 1,
            ended == split(v@, '\n').drop_last().map_values(
                |line: Seq<char>| without_return(line),
            ),
            parts@.len() == split(v@, '\n').len(),
            forall|j: int| 0 <= j < parts@.len() ==> (#[trigger] parts@[j])@ == split(v@, '\n')[j],
            texts(r@) == ended.take(i as int),
    {
        let line = parts[i].as_slice();
        let n: usize = line.len();
        let mut kept: Vec<char> = Vec::new();
        if n > 0 && line[n - 1] == '\r' {
            append_chars(&mut kept, part(line, 0, n - 1));
            assert(kept@ =~= line@.drop_last());
        } else {
            append_chars(&mut kept, line);
            assert(kept@ =~= line@);
        }
        assert(kept@ == ended[i as int]);
        let ghost before = texts(r@);
        r.push(kept);
        assert(texts(r@) =~= before.push(kept@));
        assert(texts(r@) =~= ended.take(i + 1));
    }
    assert(ended.take(last as int) =~= ended);
    if parts[last].len() > 0 {
        let mut kept: Vec<char> = Vec::new();
        append_chars(&mut kept, parts[last].as_slice());
        assert(kept@ =~= split(v@, '\n').last());
        r.push(kept);
        assert(texts(r@) =~= ended.push(kept@));
    }
    proof {
        assert forall|i: int| 0 <= i < r@.len() implies (#[trigger] r@[i])@ == lines_of(v@)[i] by {
            assert(texts(r@)[i] == r@[i]@);
        }
    }
    r
}

// ---------------------------------------------------------------------------
// Numbers in a radix
// ---------------------------------------------------------------------------

/// The value of a digit in any radix up to sixteen; sixteen for no digit.
pub open spec fn digit_value(c: char) -> nat {
    if is_hex(c) {
        hex_digit(c)
    } else {
        16
    }
}

/// The value of some digits in a radix.
pub open spec fn radix_value(s: Seq<char>, radix: nat) -> nat
    decreases s.len(),
{
    if s.len() == 0 {
        0
    } else {
        radix * radix_value(s.drop_last(), radix) + digit_value(s.last())
    }
}

/// The digits of an unsigned number: what follows an optional `+`.
pub open spec fn unsigned_digits(s: Seq<char>) -> Seq<char> {
    if s.len() > 0 && s[0] == '+' {
        s.skip(1)
    } else {
        s
    }
}

/// An unsigned number in a radix that fits sixty-four bits: an optional `+` and
/// one or more digits.
pub open spec fn unsigned_number(s: Seq<char>, radix: nat) -> Option<nat> {
    let digits = unsigned_digits(s);
    if digits.len() > 0 && (forall|i: int|
        0 <= i < digits.len() ==> digit_value(#[trigger] digits[i]) < radix) && radix_value(
        digits,
        radix,
    ) <= u64::MAX {
        Some(radix_value(digits, radix))
    } else {
        None
    }
}

fn digit_of(c: char) -> (r: u64)
    ensures
        r == digit_value(c),
{
    if digit(c) {
        (c as u32 - 48) as u64
    } else if 'a' <= c && c <= 'f' {
        (c as u32 - 87) as u64
    } else if 'A' <= c && c <= 'F' {
        (c as u32 - 55) as u64
    } else {
        16
    }
}

proof fn lemma_radix_value_grows(s: Seq<char>, n: int, radix: nat)
    requires
        0 <= n <= s.len(),
        radix >= 1,
    ensures
        radix_value(s.take(n), radix) <= radix_value(s, radix),
    decreases s.len() - n,
{
    if n < s.len() {
        lemma_radix_value_grows(s, n + 1, radix);
        assert(s.take(n + 1).drop_last() =~= s.take(n));
        let before = radix_value(s.take(n), radix);
        assert(radix * before >= before) by (nonlinear_arith)
            requires
                radix >= 1,
        ;
    } else {
        assert(s.take(n) =~= s);
    }
}

/// Reads an unsigned number in radix ten or sixteen, as std's integers parse.
pub fn parse_unsigned(v: &[char], radix: u64) -> (r: Option<u64>)
    requires
        radix == 10 || radix == 16,
    ensures
        match r {
            Some(value) => unsigned_number(v@, radix as nat) == Some(value as nat),
            None => unsigned_number(v@, radix as nat) is None,
        },
{
    let digits = if v.len() > 0 && v[0] == '+' {
        part(v, 1, v.len())
    } else {
        v
    };
    assert(digits@ =~= unsigned_digits(v@));
    if digits.len() == 0 {
        return None;
    }
    let mut value: u64 = 0;
    for i in 0..digits.len()
        invariant
            radix == 10 || radix == 16,
            digits@ == unsigned_digits(v@),
            digits@.len() > 0,
            forall|j: int| 0 <= j < i ==> digit_value(#[trigger] digits@[j]) < radix,
            value == radix_value(digits@.take(i as int), radix as nat),
    {
        let next = digit_of(digits[i]);
        if next >= radix {
            assert(digit_value(digits@[i as int]) >= radix);
            return None;
        }
        proof {
            assert(digits@.take(i + 1).drop_last() =~= digits@.take(i as int));
            lemma_radix_value_grows(digits@, i + 1, radix as nat);
        }
        let scaled = match value.checked_mul(radix) {
            Some(scaled) => scaled,
            None => {
                assert(radix * value == value * radix) by (nonlinear_arith);
                return None;
            },
        };
        assert(radix * value == value * radix) by (nonlinear_arith);
        value = match scaled.checked_add(next) {
            Some(sum) => sum,
            None => {
                return None;
            },
        };
    }
    assert(digits@.take(digits@.len() as int) =~= digits@);
    Some(value)
}

/// Hexadecimal digits written of a number read back as the number, for every
/// number that has room in them.
pub proof fn law_hex_round_trip(value: nat, width: nat)
    requires
        value < vstd::arithmetic::power::pow(16, width),
    ensures
        hex_lower(value, width).len() == width,
        radix_value(hex_lower(value, width), 16) == value,
        radix_value(hex_upper(value, width), 16) == value,
    decreases width,
{
    lemma_hex_lower(value, width);
    reveal(vstd::arithmetic::power::pow);
    if width > 0 {
        let more = (width - 1) as nat;
        assert(vstd::arithmetic::power::pow(16, width) == 16 * vstd::arithmetic::power::pow(
            16,
            more,
        ));
        law_hex_round_trip(value / 16, more);
        let low = hex_lower(value, width);
        let high = hex_upper(value, width);
        assert(low.drop_last() =~= hex_lower(value / 16, more));
        assert(high.drop_last() =~= hex_upper(value / 16, more));
        law_hex_digits_are_the_sixteen(value % 16);
    }
}

/// The sixteen digits, in either case, and the value each stands for.
pub proof fn law_hex_digits_are_the_sixteen(value: nat)
    requires
        value < 16,
    ensures
        hex_lower_char(value) == "0123456789abcdef"@[value as int],
        upper(hex_lower_char(value)) == "0123456789ABCDEF"@[value as int],
        digit_value("0123456789abcdef"@[value as int]) == value,
        digit_value("0123456789ABCDEF"@[value as int]) == value,
        hex_digit("0123456789abcdef"@[value as int]) == value,
        hex_digit("0123456789ABCDEF"@[value as int]) == value,
{
    reveal_strlit("0123456789abcdef");
    reveal_strlit("0123456789ABCDEF");
    assert(value == 0 || value == 1 || value == 2 || value == 3 || value == 4 || value == 5
        || value == 6 || value == 7 || value == 8 || value == 9 || value == 10 || value == 11
        || value == 12 || value == 13 || value == 14 || value == 15);
}

/// What a number looks like in decimal: one digit below ten stands for itself, and
/// one more digit behind a number means ten times the number and the digit.
pub proof fn law_decimal_is_positional(value: nat, digit: nat)
    requires
        digit < 10,
    ensures
        decimal(digit) == seq!["0123456789"@[digit as int]],
        value > 0 ==> decimal(10 * value + digit) == decimal(value).push(
            "0123456789"@[digit as int],
        ),
{
    reveal_strlit("0123456789");
    assert(digit_char(digit) == "0123456789"@[digit as int]) by {
        assert(digit == 0 || digit == 1 || digit == 2 || digit == 3 || digit == 4 || digit == 5
            || digit == 6 || digit == 7 || digit == 8 || digit == 9);
    }
    assert((10 * value + digit) / 10 == value);
    assert((10 * value + digit) % 10 == digit);
}

/// Which texts are plain decimal numbers, and the numbers they spell: one more
/// digit means ten times the number before it and the digit, anything else behind a
/// number is no number, and no text is a number that holds anything but digits.
pub proof fn law_plain_numbers_are_positional(text: Seq<char>, next: char, max: nat)
    ensures
        number_up_to(Seq::empty(), max) is None,
        '0' <= next <= '9' ==> number_up_to(seq![next], max) == if next as u32 - 48 <= max {
            Some((next as u32 - 48) as nat)
        } else {
            None::<nat>
        },
        !('0' <= next <= '9') ==> number_up_to(text.push(next), max) is None,
        text.len() > 0 && '0' <= next <= '9' ==> number_up_to(text.push(next), max) == match
            number_up_to(text, max) {
            Some(value) => if 10 * value + (next as u32 - 48) <= max {
                Some((10 * value + (next as u32 - 48)) as nat)
            } else {
                None
            },
            None => None,
        },
{
    let more = text.push(next);
    assert(more.drop_last() =~= text);
    assert(seq![next].drop_last() =~= Seq::<char>::empty());
    assert(more[more.len() - 1] == next);
    if text.len() > 0 && is_digit(next) {
        if is_number(text) {
            assert forall|i: int| 0 <= i < more.len() implies is_digit(#[trigger] more[i]) by {
                if i < text.len() {
                    assert(more[i] == text[i]);
                }
            }
        }
        if is_number(more) {
            assert forall|i: int| 0 <= i < text.len() implies is_digit(#[trigger] text[i]) by {
                assert(more[i] == text[i]);
            }
        }
        assert(is_number(text) == is_number(more));
    }
    if is_digit(next) {
        assert(is_number(seq![next]));
        assert(decimal_value(Seq::<char>::empty()) == 0);
    }
}

// ---------------------------------------------------------------------------
// Joining
// ---------------------------------------------------------------------------

/// Joining unfolded at the front.
pub proof fn lemma_join_front(first: Seq<char>, rest: Seq<Seq<char>>, sep: char)
    requires
        rest.len() > 0,
    ensures
        join(seq![first] + rest, sep) == first.push(sep) + join(rest, sep),
    decreases rest.len(),
{
    let all = seq![first] + rest;
    assert(all.last() == rest.last());
    if rest.len() == 1 {
        assert(all.drop_last() =~= seq![first]);
        assert(join(seq![first], sep) == first);
        assert(join(all, sep) =~= first.push(sep) + join(rest, sep));
    } else {
        assert(all.drop_last() =~= seq![first] + rest.drop_last());
        lemma_join_front(first, rest.drop_last(), sep);
        assert(join(all, sep) =~= first.push(sep) + join(rest, sep));
    }
}

/// Joining the parts of a text gives the text back.
pub proof fn law_join_undoes_split(s: Seq<char>, sep: char)
    ensures
        join(split(s, sep), sep) == s,
    decreases s.len(),
{
    lemma_index_of(s, sep);
    let i = index_of(s, sep);
    if i < s.len() {
        let rest = s.skip(i + 1);
        law_join_undoes_split(rest, sep);
        lemma_split_parts(rest, sep);
        lemma_join_front(s.take(i), split(rest, sep), sep);
        assert(s.take(i).push(sep) + rest =~= s);
    }
}

/// Joins some parts.
pub fn join_chars(parts: &[Vec<char>], sep: char) -> (r: Vec<char>)
    ensures
        r@ == join(texts(parts@), sep),
{
    let ghost all = texts(parts@);
    let mut r: Vec<char> = Vec::new();
    for i in 0..parts.len()
        invariant
            all == texts(parts@),
            r@ == join(all.take(i as int), sep),
    {
        let ghost before = r@;
        if i > 0 {
            r.push(sep);
        }
        append_chars(&mut r, parts[i].as_slice());
        proof {
            assert(all.take(i + 1).drop_last() =~= all.take(i as int));
            assert(all.take(i + 1).last() == all[i as int]);
            if i == 0 {
                assert(r@ =~= all[0]);
            }
        }
    }
    assert(all.take(all.len() as int) =~= all);
    r
}

/// The texts that are not empty, in order.
pub open spec fn nonempty(parts: Seq<Seq<char>>) -> Seq<Seq<char>>
    decreases parts.len(),
{
    if parts.len() == 0 {
        Seq::empty()
    } else {
        let before = nonempty(parts.drop_last());
        if parts.last().len() > 0 {
            before.push(parts.last())
        } else {
            before
        }
    }
}

/// Drops the empty texts.
pub fn drop_empty(parts: Vec<Vec<char>>) -> (r: Vec<Vec<char>>)
    ensures
        texts(r@) == nonempty(texts(parts@)),
        r@.len() == nonempty(texts(parts@)).len(),
        forall|i: int| 0 <= i < r@.len() ==> (#[trigger] r@[i])@ == nonempty(texts(parts@))[i],
{
    let ghost all = texts(parts@);
    let mut r: Vec<Vec<char>> = Vec::new();
    assert(texts(r@) =~= nonempty(all.take(0)));
    for i in 0..parts.len()
        invariant
            all == texts(parts@),
            texts(r@) == nonempty(all.take(i as int)),
    {
        proof {
            assert(all.take(i + 1).drop_last() =~= all.take(i as int));
            assert(all.take(i + 1).last() == all[i as int]);
        }
        let ghost before = texts(r@);
        if parts[i].len() > 0 {
            let mut copy: Vec<char> = Vec::new();
            append_chars(&mut copy, parts[i].as_slice());
            assert(copy@ =~= all[i as int]);
            r.push(copy);
            assert(texts(r@) =~= before.push(copy@));
        }
    }
    assert(all.take(all.len() as int) =~= all);
    proof {
        assert forall|i: int| 0 <= i < r@.len() implies (#[trigger] r@[i])@ == nonempty(all)[i] by {
            assert(texts(r@)[i] == r@[i]@);
        }
    }
    r
}

pub proof fn lemma_nonempty_push(parts: Seq<Seq<char>>, last: Seq<char>)
    ensures
        nonempty(parts.push(last)) == (if last.len() > 0 {
            nonempty(parts).push(last)
        } else {
            nonempty(parts)
        }),
{
    assert(parts.push(last).drop_last() =~= parts);
}

pub proof fn lemma_nonempty_all(parts: Seq<Seq<char>>)
    requires
        forall|i: int| 0 <= i < parts.len() ==> (#[trigger] parts[i]).len() > 0,
    ensures
        nonempty(parts) == parts,
    decreases parts.len(),
{
    if parts.len() > 0 {
        let init = parts.drop_last();
        assert(forall|i: int| 0 <= i < init.len() ==> init[i] == parts[i]);
        lemma_nonempty_all(init);
        assert(parts[parts.len() - 1].len() > 0);
        assert(init.push(parts.last()) =~= parts);
    } else {
        assert(parts =~= Seq::empty());
    }
}

/// The characters of an optional string.
pub open spec fn string_in(text: Option<String>) -> Option<Seq<char>> {
    match text {
        Some(s) => Some(s@),
        None => None,
    }
}

/// White space is what Unicode says it is: these code points and no others.
pub proof fn law_white_space_code_points(c: char)
    ensures
        is_white(c) == ({
            let code = c as u32;
            ||| code == 9 || code == 10 || code == 11 || code == 12 || code == 13
            ||| code == 32 || code == 133 || code == 160 || code == 5760
            ||| 8192 <= code <= 8202
            ||| code == 8232 || code == 8233 || code == 8239 || code == 8287 || code == 12288
        }),
{
}

/// Trimming takes exactly the white space at both ends away: what stands between,
/// from the first character that is no white space to the last, stays as it is.
pub proof fn law_trimming_takes_the_ends(front: Seq<char>, core: Seq<char>, back: Seq<char>)
    requires
        forall|i: int| 0 <= i < front.len() ==> is_white(#[trigger] front[i]),
        forall|i: int| 0 <= i < back.len() ==> is_white(#[trigger] back[i]),
        core.len() > 0 ==> !is_white(core[0]) && !is_white(core.last()),
    ensures
        core.len() > 0 ==> trimmed(front + core + back) == core,
        trimmed(front) == Seq::<char>::empty(),
{
    lemma_trim_front_all(front, core + back);
    assert(front + core + back =~= front + (core + back));
    if core.len() > 0 {
        assert((core + back)[0] == core[0]);
        assert(trim_front(core + back) == core + back);
        lemma_trim_back_all(core, back);
        assert(trim_back(core) == core);
    }
    let nothing = Seq::<char>::empty();
    lemma_trim_front_all(front, nothing);
    assert(front + nothing =~= front);
}

proof fn lemma_trim_front_all(front: Seq<char>, rest: Seq<char>)
    requires
        forall|i: int| 0 <= i < front.len() ==> is_white(#[trigger] front[i]),
    ensures
        trim_front(front + rest) == trim_front(rest),
    decreases front.len(),
{
    let all = front + rest;
    if front.len() == 0 {
        assert(all =~= rest);
    } else {
        assert(all[0] == front[0]);
        assert(all.skip(1) =~= front.skip(1) + rest);
        assert forall|i: int| 0 <= i < front.skip(1).len() implies is_white(
            #[trigger] front.skip(1)[i],
        ) by {
            assert(front.skip(1)[i] == front[i + 1]);
        }
        lemma_trim_front_all(front.skip(1), rest);
    }
}

proof fn lemma_trim_back_all(core: Seq<char>, back: Seq<char>)
    requires
        forall|i: int| 0 <= i < back.len() ==> is_white(#[trigger] back[i]),
    ensures
        trim_back(core + back) == trim_back(core),
    decreases back.len(),
{
    let all = core + back;
    if back.len() == 0 {
        assert(all =~= core);
    } else {
        assert(all.last() == back[back.len() - 1]);
        assert(all.drop_last() =~= core + back.drop_last());
        assert forall|i: int| 0 <= i < back.drop_last().len() implies is_white(
            #[trigger] back.drop_last()[i],
        ) by {
            assert(back.drop_last()[i] == back[i]);
        }
        lemma_trim_back_all(core, back.drop_last());
    }
}

/// Two texts are the same in any case where they agree character by character, but
/// for the case of ASCII letters.
pub proof fn law_same_in_any_case(a: Seq<char>, b: Seq<char>)
    ensures
        same_ignoring_case(a, b) == (a.len() == b.len() && forall|i: int|
            0 <= i < a.len() ==> {
                ||| #[trigger] a[i] == b[i]
                ||| 'a' <= a[i] <= 'z' && a[i] as u32 == b[i] as u32 + 32
                ||| 'A' <= a[i] <= 'Z' && a[i] as u32 + 32 == b[i] as u32
            }),
{
    if a.len() == b.len() {
        assert forall|i: int| 0 <= i < a.len() implies (lower(#[trigger] a[i]) == lower(b[i])) == ({
            ||| a[i] == b[i]
            ||| 'a' <= a[i] <= 'z' && a[i] as u32 == b[i] as u32 + 32
            ||| 'A' <= a[i] <= 'Z' && a[i] as u32 + 32 == b[i] as u32
        }) by {
            lemma_same_letter(a[i], b[i]);
        }
        if same_ignoring_case(a, b) {
            assert forall|i: int| 0 <= i < a.len() implies {
                ||| #[trigger] a[i] == b[i]
                ||| 'a' <= a[i] <= 'z' && a[i] as u32 == b[i] as u32 + 32
                ||| 'A' <= a[i] <= 'Z' && a[i] as u32 + 32 == b[i] as u32
            } by {
                assert(lower(a[i]) == lower(b[i]));
            }
        }
    }
}

proof fn lemma_same_letter(a: char, b: char)
    ensures
        (lower(a) == lower(b)) == ({
            ||| a == b
            ||| 'a' <= a <= 'z' && a as u32 == b as u32 + 32
            ||| 'A' <= a <= 'Z' && a as u32 + 32 == b as u32
        }),
{
    let x: u32 = a as u32;
    let y: u32 = b as u32;
    if 'A' <= a <= 'Z' {
        assert(((x + 32) as u32) as char as u32 == x + 32);
    }
    if 'A' <= b <= 'Z' {
        assert(((y + 32) as u32) as char as u32 == y + 32);
    }
    assert(a == b <==> a as u32 == b as u32);
}

/// A text is taken apart at every separator and at nothing else: parts that hold no
/// separator, with one between each two, come apart into exactly those parts.
pub proof fn law_split_undoes_join(parts: Seq<Seq<char>>, sep: char)
    requires
        parts.len() > 0,
        forall|k: int| 0 <= k < parts.len() ==> !(#[trigger] parts[k]).contains(sep),
    ensures
        split(join(parts, sep), sep) == parts,
    decreases parts.len(),
{
    let init = parts.drop_last();
    let last = parts[parts.len() - 1];
    if parts.len() == 1 {
        lemma_split_one(last, sep);
        assert(parts =~= seq![last]);
    } else {
        assert forall|k: int| 0 <= k < init.len() implies !(#[trigger] init[k]).contains(sep) by {
            assert(init[k] == parts[k]);
        }
        law_split_undoes_join(init, sep);
        lemma_split_concat(join(init, sep), last, sep);
        assert(parts =~= init.push(last));
    }
}

/// One more part is joined behind one more separator.
pub proof fn law_one_more_part_is_joined(parts: Seq<Seq<char>>, last: Seq<char>, sep: char)
    ensures
        join(Seq::empty(), sep) == Seq::<char>::empty(),
        join(seq![last], sep) == last,
        parts.len() > 0 ==> join(parts.push(last), sep) == join(parts, sep) + seq![sep] + last,
{
    if parts.len() > 0 {
        assert(parts.push(last).drop_last() =~= parts);
        assert(join(parts, sep).push(sep) + last =~= join(parts, sep) + seq![sep] + last);
    }
}

/// Lines end at a line feed, with or without a carriage return before it, and an
/// unended rest counts where it is not empty.
pub proof fn law_lines_end_at_line_feeds(text: Seq<char>, line: Seq<char>)
    requires
        !line.contains('\n'),
        line.len() == 0 || line.last() != '\r',
    ensures
        lines_of(Seq::empty()) == Seq::<Seq<char>>::empty(),
        lines_of(text.push('\n') + line) == if line.len() == 0 {
            lines_of(text.push('\n'))
        } else {
            lines_of(text.push('\n')).push(line)
        },
        lines_of(text.push('\n') + line.push('\n')) == lines_of(text.push('\n')).push(line),
        lines_of(text.push('\n') + line + seq!['\r', '\n']) == lines_of(text.push('\n')).push(line),
        line.len() > 0 ==> lines_of(line) == seq![line],
        lines_of(line.push('\n')) == seq![line],
        lines_of(line + seq!['\r', '\n']) == seq![line],
{
    let nothing = Seq::<char>::empty();
    let returned = line.push('\r');
    lemma_split_one(nothing, '\n');
    lemma_split_one(line, '\n');
    assert(!returned.contains('\n')) by {
        if returned.contains('\n') {
            let j = choose|j: int| 0 <= j < returned.len() && returned[j] == '\n';
            assert(j < line.len());
            assert(line[j] == '\n');
        }
    }
    lemma_split_one(returned, '\n');
    assert(returned.drop_last() =~= line);
    lemma_split_concat(text, nothing, '\n');
    lemma_split_concat(text, line, '\n');
    lemma_split_concat(text, returned, '\n');
    lemma_split_concat(line, nothing, '\n');
    lemma_split_concat(returned, nothing, '\n');
    let with_line = text.push('\n') + line;
    let with_return = text.push('\n') + returned;
    lemma_split_concat(with_line, nothing, '\n');
    lemma_split_concat(with_return, nothing, '\n');
    assert(text.push('\n') + nothing =~= text.push('\n'));
    assert(text.push('\n') + line.push('\n') =~= with_line.push('\n') + nothing);
    assert(text.push('\n') + line + seq!['\r', '\n'] =~= with_return.push('\n') + nothing);
    assert(line.push('\n') =~= line.push('\n') + nothing);
    assert(line + seq!['\r', '\n'] =~= returned.push('\n') + nothing);
    let parts = split(text, '\n');
    assert(parts.push(nothing).drop_last() =~= parts);
    assert(parts.push(line).drop_last() =~= parts);
    assert(parts.push(line).push(nothing).drop_last() =~= parts.push(line));
    assert(parts.push(returned).push(nothing).drop_last() =~= parts.push(returned));
    assert(seq![line].push(nothing).drop_last() =~= seq![line]);
    assert(seq![returned].push(nothing).drop_last() =~= seq![returned]);
    assert(seq![nothing].drop_last() =~= Seq::<Seq<char>>::empty());
    assert(seq![line].drop_last() =~= Seq::<Seq<char>>::empty());
    assert(lines_of(nothing) =~= Seq::<Seq<char>>::empty());
    let before = lines_of(text.push('\n'));
    assert(lines_of(with_line) =~= if line.len() == 0 {
        before
    } else {
        before.push(line)
    });
    assert(lines_of(text.push('\n') + line.push('\n')) =~= before.push(line));
    assert(lines_of(text.push('\n') + line + seq!['\r', '\n']) =~= before.push(line));
    if line.len() > 0 {
        assert(lines_of(line) =~= seq![line]);
    }
    assert(lines_of(line.push('\n')) =~= seq![line]);
    assert(lines_of(line + seq!['\r', '\n']) =~= seq![line]);
}

}
