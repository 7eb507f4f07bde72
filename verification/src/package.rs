//! Package identity: the parts of a package full name, and the build's flavor.
//!
//! A full name is `Name_Version_Arch[_ResourceId]__PublisherHash`.

use crate::text::{
    chars_of, decimal, drop_empty, is_number, digit, is_digit, join, join_chars,
    law_decimal_round_trip, law_join_undoes_split, lemma_nonempty_all, lemma_nonempty_push,
    lemma_split_concat, lemma_split_one, nonempty, push_chars, same, split, split_chars,
    string_in, string_of, texts,
};
use vstd::prelude::*;

verus! {

/// Both packages share the identity name; the Store flavor is told apart by its
/// assigned publisher.
pub const STORE_IDENTITY_NAME: &'static str = "32827MikeFara.fwdslash";

pub const STORE_PUBLISHER: &'static str = "CN=ABDB6B3F-DF9E-447D-BC0E-4DA7BAFD14C4";

pub const STORE_PACKAGE_FAMILY: &'static str = "32827MikeFara.fwdslash_t6j5qexy2jpp2";

pub const STORE_PRODUCT_ID: &'static str = "9P51CM0MTMK2";

/// The version of this build.
pub const FSW_VERSION: &'static str = "0.0.4";

/// Four plain numbers between dots.
pub open spec fn is_four_part(text: Seq<char>) -> bool {
    split(text, '.').len() == 4 && forall|i: int|
        0 <= i < 4 ==> is_number(#[trigger] split(text, '.')[i])
}

fn all_digits(v: &[char]) -> (r: bool)
    ensures
        r == is_number(v@),
{
    if v.len() == 0 {
        return false;
    }
    for i in 0..v.len()
        invariant
            forall|j: int| 0 <= j < i ==> is_digit(#[trigger] v@[j]),
    {
        if !digit(v[i]) {
            return false;
        }
    }
    true
}

pub fn is_four_part_version(text: &[char]) -> (r: bool)
    ensures
        r == is_four_part(text@),
{
    let groups = split_chars(text, '.');
    if groups.len() != 4 {
        return false;
    }
    for i in 0..4usize
        invariant
            groups@.len() == 4,
            split(text@, '.').len() == 4,
            forall|j: int| 0 <= j < 4 ==> (#[trigger] groups@[j])@ == split(text@, '.')[j],
            forall|j: int| 0 <= j < i ==> is_number(#[trigger] split(text@, '.')[j]),
    {
        if !all_digits(groups[i].as_slice()) {
            assert(!is_number(split(text@, '.')[i as int]));
            return false;
        }
    }
    true
}

/// The fields of a full name, without the empty ones.
pub open spec fn fields_of(full: Seq<char>) -> Seq<Seq<char>> {
    nonempty(split(full, '_'))
}

/// Whether a full name has the fields it needs: a name, a version, an architecture
/// and a publisher hash.
pub open spec fn is_full_name(full: Seq<char>) -> bool {
    fields_of(full).len() >= 4 && is_four_part(fields_of(full)[fields_of(full).len() - 3])
}

/// The version of a full name: the third field from the right.
pub open spec fn version_text(full: Seq<char>) -> Option<Seq<char>> {
    if is_full_name(full) {
        Some(fields_of(full)[fields_of(full).len() - 3])
    } else {
        None
    }
}

/// The family of a full name: the identity name, which may itself hold
/// underscores, and the publisher hash.
pub open spec fn family_text(full: Seq<char>) -> Option<Seq<char>> {
    let fields = fields_of(full);
    if is_full_name(full) {
        Some(join(fields.take(fields.len() - 3), '_').push('_') + fields.last())
    } else {
        None
    }
}

/// The architecture of a full name: the second field from the right.
pub open spec fn architecture_text(full: Seq<char>) -> Option<Seq<char>> {
    let fields = fields_of(full);
    if fields.len() >= 2 {
        Some(fields[fields.len() - 2])
    } else {
        None
    }
}

fn fields(full: &str) -> (r: Vec<Vec<char>>)
    ensures
        texts(r@) == fields_of(full@),
        r@.len() == fields_of(full@).len(),
        forall|i: int| 0 <= i < r@.len() ==> (#[trigger] r@[i])@ == fields_of(full@)[i],
{
    drop_empty(split_chars(chars_of(full).as_slice(), '_'))
}

/// The package family from a full name, parsed from the right: the shipped form
/// holds an empty group where the resource would stand, and the identity name may
/// itself hold underscores.
pub fn package_family_from_full_name(full: &str) -> (r: Option<String>)
    ensures
        string_in(r) == family_text(full@),
{
    let mut parts = fields(full);
    let n: usize = parts.len();
    if n < 4 || !is_four_part_version(parts[n - 3].as_slice()) {
        return None;
    }
    let hash = string_of(parts[n - 1].as_slice());
    parts.truncate(n - 3);
    proof {
        assert(texts(parts@) =~= fields_of(full@).take(n - 3));
    }
    let mut family = string_of(join_chars(parts.as_slice(), '_').as_slice());
    family.push('_');
    family.push_str(hash.as_str());
    Some(family)
}

/// The four-part package version from a full name.
pub fn package_version_from_full_name(full: &str) -> (r: Option<String>)
    ensures
        string_in(r) == version_text(full@),
{
    let parts = fields(full);
    let n: usize = parts.len();
    if n < 4 || !is_four_part_version(parts[n - 3].as_slice()) {
        return None;
    }
    Some(string_of(parts[n - 3].as_slice()))
}

/// What a full name gives, where there is one.
pub open spec fn in_name(
    full: Option<&str>,
    read: spec_fn(Seq<char>) -> Option<Seq<char>>,
) -> Option<Seq<char>> {
    match full {
        Some(name) => read(name@),
        None => None,
    }
}

/// The package family (`Name_PublisherHash`) of the running process, for its full
/// name (`None` without package identity).
pub fn package_family(full: Option<&str>) -> (r: Option<String>)
    ensures
        string_in(r) == in_name(full, |name: Seq<char>| family_text(name)),
{
    match full {
        Some(name) => package_family_from_full_name(name),
        None => None,
    }
}

/// The package architecture (`x64`, `arm64`, …) of the running process.
pub fn package_architecture(full: Option<&str>) -> (r: Option<String>)
    ensures
        string_in(r) == in_name(full, |name: Seq<char>| architecture_text(name)),
{
    match full {
        Some(name) => {
            let parts = fields(name);
            let n: usize = parts.len();
            if n < 2 {
                None
            } else {
                Some(string_of(parts[n - 2].as_slice()))
            }
        },
        None => None,
    }
}

/// The four-part package version of the running process.
pub fn package_version(full: Option<&str>) -> (r: Option<String>)
    ensures
        string_in(r) == in_name(full, |name: Seq<char>| version_text(name)),
{
    match full {
        Some(name) => package_version_from_full_name(name),
        None => None,
    }
}

/// True when this packaged build came from the Microsoft Store track: the package
/// family is the Partner Center identity.
pub fn is_store_flavor(full: Option<&str>) -> (r: bool)
    ensures
        r == (in_name(full, |name: Seq<char>| family_text(name)) == Some(STORE_PACKAGE_FAMILY@)),
{
    match package_family(full) {
        Some(family) => same(family.as_str(), STORE_PACKAGE_FAMILY),
        None => false,
    }
}

/// A full name built from its parts reads back as those parts, also where the
/// identity name holds underscores.
pub proof fn law_full_name_reads_back(
    name: Seq<char>,
    version: Seq<char>,
    architecture: Seq<char>,
    hash: Seq<char>,
)
    requires
        forall|i: int| 0 <= i < split(name, '_').len() ==> (#[trigger] split(name, '_')[i]).len() > 0,
        is_four_part(version),
        !version.contains('_'),
        architecture.len() > 0,
        !architecture.contains('_'),
        hash.len() > 0,
        !hash.contains('_'),
    ensures
        ({
            let full = name.push('_') + version.push('_') + architecture.push('_').push('_') + hash;
            &&& version_text(full) == Some(version)
            &&& family_text(full) == Some(name.push('_') + hash)
            &&& architecture_text(full) == Some(architecture)
        }),
{
    let full = name.push('_') + version.push('_') + architecture.push('_').push('_') + hash;
    let none = Seq::<char>::empty();
    let a = name.push('_') + version;
    let b = a.push('_') + architecture;
    let c = b.push('_') + none;
    lemma_split_concat(name, version, '_');
    lemma_split_concat(a, architecture, '_');
    lemma_split_concat(b, none, '_');
    lemma_split_concat(c, hash, '_');
    assert(c.push('_') + hash =~= full);
    let parts = split(name, '_');
    lemma_nonempty_all(parts);
    assert(version.len() > 0) by {
        if version.len() == 0 {
            assert(split(version, '.') =~= seq![version]);
        }
    }
    lemma_nonempty_push(parts, version);
    lemma_nonempty_push(parts.push(version), architecture);
    lemma_nonempty_push(parts.push(version).push(architecture), none);
    lemma_nonempty_push(parts.push(version).push(architecture).push(none), hash);
    let fields = fields_of(full);
    assert(fields =~= parts.push(version).push(architecture).push(hash));
    crate::text::lemma_split_parts(name, '_');
    assert(fields.take(fields.len() - 3) =~= parts);
    law_join_undoes_split(name, '_');
}

/// A full package name gives back its version, its family and its architecture for
/// every version of four plain numbers, however large they are.
pub proof fn law_full_names_of_any_version(
    name: Seq<char>,
    a: nat,
    b: nat,
    c: nat,
    d: nat,
    architecture: Seq<char>,
    hash: Seq<char>,
)
    requires
        name.len() > 0,
        !name.contains('_'),
        architecture.len() > 0,
        !architecture.contains('_'),
        hash.len() > 0,
        !hash.contains('_'),
    ensures
        ({
            let version = decimal(a) + seq!['.'] + decimal(b) + seq!['.'] + decimal(c) + seq!['.']
                + decimal(d);
            let full = name + seq!['_'] + version + seq!['_'] + architecture + seq!['_', '_']
                + hash;
            &&& version_text(full) == Some(version)
            &&& family_text(full) == Some(name + seq!['_'] + hash)
            &&& architecture_text(full) == Some(architecture)
        }),
{
    let version = decimal(a) + seq!['.'] + decimal(b) + seq!['.'] + decimal(c) + seq!['.']
        + decimal(d);
    let full = name + seq!['_'] + version + seq!['_'] + architecture + seq!['_', '_'] + hash;
    lemma_four_numbers(a, b, c, d);
    lemma_split_one(name, '_');
    law_full_name_reads_back(name, version, architecture, hash);
    assert(full =~= name.push('_') + version.push('_') + architecture.push('_').push('_') + hash);
    assert(name + seq!['_'] + hash =~= name.push('_') + hash);
}

proof fn lemma_plain_decimal(value: nat)
    ensures
        !decimal(value).contains('.'),
        !decimal(value).contains('_'),
        is_number(decimal(value)),
{
    law_decimal_round_trip(value);
    assert forall|c: char| c == '.' || c == '_' implies !decimal(value).contains(c) by {
        if decimal(value).contains(c) {
            let j = choose|j: int| 0 <= j < decimal(value).len() && decimal(value)[j] == c;
            assert(crate::text::is_digit(decimal(value)[j]));
        }
    }
}

proof fn lemma_four_numbers(a: nat, b: nat, c: nat, d: nat)
    ensures
        ({
            let version = decimal(a) + seq!['.'] + decimal(b) + seq!['.'] + decimal(c) + seq!['.']
                + decimal(d);
            is_four_part(version) && !version.contains('_')
        }),
{
    let version = decimal(a) + seq!['.'] + decimal(b) + seq!['.'] + decimal(c) + seq!['.']
        + decimal(d);
    lemma_plain_decimal(a);
    lemma_plain_decimal(b);
    lemma_plain_decimal(c);
    lemma_plain_decimal(d);
    let ab = decimal(a).push('.') + decimal(b);
    let abc = ab.push('.') + decimal(c);
    lemma_split_one(decimal(a), '.');
    lemma_split_concat(decimal(a), decimal(b), '.');
    lemma_split_concat(ab, decimal(c), '.');
    lemma_split_concat(abc, decimal(d), '.');
    assert(abc.push('.') + decimal(d) =~= version);
    let parts = split(version, '.');
    assert(parts =~= seq![decimal(a), decimal(b), decimal(c), decimal(d)]);
    assert forall|i: int| 0 <= i < 4 implies is_number(#[trigger] parts[i]) by {
        assert(i == 0 || i == 1 || i == 2 || i == 3);
    }
    if version.contains('_') {
        let j = choose|j: int| 0 <= j < version.len() && version[j] == '_';
        let na: int = decimal(a).len() as int;
        let nb: int = na + 1 + decimal(b).len();
        let nc: int = nb + 1 + decimal(c).len();
        if j < na {
            assert(decimal(a)[j] == '_');
        } else if na < j < nb {
            assert(decimal(b)[j - na - 1] == '_');
        } else if nb < j < nc {
            assert(decimal(c)[j - nb - 1] == '_');
        } else if j > nc {
            assert(decimal(d)[j - nc - 1] == '_');
        }
    }
}

/// The four fields of a version with fewer of them are filled up with zeros, and
/// fields beyond the fourth are left out.
pub proof fn law_version_fields_are_filled_up(a: Seq<char>, b: Seq<char>, c: Seq<char>)
    requires
        !a.contains('.'),
        !b.contains('.'),
        !c.contains('.'),
    ensures
        four_fields(a) == seq![a, seq!['0'], seq!['0'], seq!['0']],
        four_fields(a + seq!['.'] + b + seq!['.'] + c) == seq![a, b, c, seq!['0']],
        four_fields(a + seq!['.'] + b + seq!['.'] + c + seq!['.'] + a) == seq![a, b, c, a],
        four_fields(a + seq!['.'] + b + seq!['.'] + c + seq!['.'] + a + seq!['.'] + b) == seq![
            a,
            b,
            c,
            a,
        ],
{
    let ab = a.push('.') + b;
    let abc = ab.push('.') + c;
    let abca = abc.push('.') + a;
    lemma_split_one(a, '.');
    lemma_split_concat(a, b, '.');
    lemma_split_concat(ab, c, '.');
    lemma_split_concat(abc, a, '.');
    lemma_split_concat(abca, b, '.');
    assert(a + seq!['.'] + b + seq!['.'] + c =~= abc);
    assert(a + seq!['.'] + b + seq!['.'] + c + seq!['.'] + a =~= abca);
    assert(a + seq!['.'] + b + seq!['.'] + c + seq!['.'] + a + seq!['.'] + b =~= abca.push('.')
        + b);
    assert(four_fields(a) =~= seq![a, seq!['0'], seq!['0'], seq!['0']]);
    assert(four_fields(abc) =~= seq![a, b, c, seq!['0']]);
    assert(four_fields(abca) =~= seq![a, b, c, a]);
    assert(four_fields(abca.push('.') + b) =~= seq![a, b, c, a]);
}

/// The fields of a version: its parts, as many as four of them, and zeros for those
/// that are missing.
pub open spec fn four_fields(version: Seq<char>) -> Seq<Seq<char>> {
    Seq::new(
        4,
        |i: int|
            if i < split(version, '.').len() {
                split(version, '.')[i]
            } else {
                seq!['0']
            },
    )
}

/// The version defines for the resource compiler: the four fields with commas
/// between them, and the version as a quoted text.
pub fn version_defines(version: &str) -> (r: (String, String))
    ensures
        r.0@ == "FSW_VER_COMMAS="@ + join(four_fields(version@), ','),
        r.1@ == "FSW_VER_STR=\""@ + version@ + "\""@,
{
    let chars = chars_of(version);
    let mut fields = split_chars(chars.as_slice(), '.');
    let ghost all = split(version@, '.');
    assert(texts(fields@) == all);
    while fields.len() < 4
        invariant
            all == split(version@, '.'),
            fields@.len() >= all.len(),
            fields@.len() <= 4 || fields@.len() == all.len(),
            forall|i: int|
                0 <= i < fields@.len() ==> #[trigger] fields@[i]@ == if i < all.len() {
                    all[i]
                } else {
                    seq!['0']
                },
        decreases 4 - fields.len(),
    {
        let zero = vec!['0'];
        assert(zero@ =~= seq!['0']);
        fields.push(zero);
    }
    fields.truncate(4);
    assert(texts(fields@) =~= four_fields(version@));
    let joined = join_chars(fields.as_slice(), ',');
    let mut commas: String = "FSW_VER_COMMAS=".to_owned();
    push_chars(&mut commas, joined.as_slice());
    let mut quoted: String = "FSW_VER_STR=\"".to_owned();
    quoted.push_str(version);
    quoted.push_str("\"");
    (commas, quoted)
}

}
