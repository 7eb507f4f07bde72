//! What holds of versions and update checks as a whole.

use crate::sha256::{digest_text, law_digest_text_shape};
use crate::text::{
    decimal, first_occurrence, is_digit, last_index_of, law_decimal_round_trip,
    lemma_first_occurrence, lemma_index_of_is, lemma_last_index_of, lemma_split_concat,
    lemma_split_one, number_up_to, occurs_at, split, trim_front,
};
use crate::update::{
    asset_object, auto_update_setting, bundle_digest_text, bundle_name_text, bundle_url_from,
    bundle_url_text, bundle_version_text, check_runs, check_step, download_path_text,
    download_result, extension_of, inside, is_after, is_digest, is_due, is_pruned,
    is_release_after, last_check_text, names_newer, names_newer_package, next_value, numbers_after,
    package_version_of, release_step, running_version, stem_of, tag_name_text, tag_version,
    three_part_version, version_of, without_v, CheckFacts, OutcomeText, StepText,
    UpdateVerificationError, Version,
};
use vstd::prelude::*;

verus! {

/// "Newer" is a strict order on versions: nothing is newer than itself, two
/// versions are never each newer than the other, and of two different versions one
/// is newer.
pub proof fn law_newer_is_a_strict_order(a: Version, b: Version, c: Version)
    ensures
        !is_after(a, a),
        !(is_after(a, b) && is_after(b, a)),
        is_after(a, b) && is_after(b, c) ==> is_after(a, c),
        a != b ==> is_after(a, b) || is_after(b, a),
{
}

/// "Newer" is a strict order on package versions too.
pub proof fn law_newer_package_is_a_strict_order(a: Seq<nat>, b: Seq<nat>, c: Seq<nat>)
    ensures
        !numbers_after(a, a),
        !(numbers_after(a, b) && numbers_after(b, a)),
        numbers_after(a, b) && numbers_after(b, c) ==> numbers_after(a, c),
{
    if numbers_after(a, b) && numbers_after(b, a) {
        let i = choose|i: int|
            0 <= i < 4 && #[trigger] b[i] > a[i] && forall|j: int| 0 <= j < i ==> b[j] == a[j];
        let k = choose|k: int|
            0 <= k < 4 && #[trigger] a[k] > b[k] && forall|j: int| 0 <= j < k ==> a[j] == b[j];
        assert(i == k);
    }
    if numbers_after(a, b) && numbers_after(b, c) {
        let i = choose|i: int|
            0 <= i < 4 && #[trigger] b[i] > a[i] && forall|j: int| 0 <= j < i ==> b[j] == a[j];
        let k = choose|k: int|
            0 <= k < 4 && #[trigger] c[k] > b[k] && forall|j: int| 0 <= j < k ==> c[j] == b[j];
        let m = if i < k {
            i
        } else {
            k
        };
        assert(c[m] > a[m]);
    }
}

/// A decimal number holds no dot and no `v`.
proof fn lemma_decimal_has_no(value: nat, c: char)
    requires
        !is_digit(c),
    ensures
        !decimal(value).contains(c),
{
    law_decimal_round_trip(value);
    if decimal(value).contains(c) {
        let j = choose|j: int| 0 <= j < decimal(value).len() && decimal(value)[j] == c;
        assert(is_digit(decimal(value)[j]));
    }
}

spec fn three_parts(a: nat, b: nat, c: nat) -> Seq<char> {
    decimal(a).push('.') + decimal(b).push('.') + decimal(c)
}

proof fn lemma_split_three(a: nat, b: nat, c: nat)
    ensures
        split(three_parts(a, b, c), '.') == seq![decimal(a), decimal(b), decimal(c)],
{
    lemma_decimal_has_no(a, '.');
    lemma_decimal_has_no(b, '.');
    lemma_decimal_has_no(c, '.');
    lemma_split_one(decimal(a), '.');
    let ab = decimal(a).push('.') + decimal(b);
    lemma_split_concat(decimal(a), decimal(b), '.');
    lemma_split_concat(ab, decimal(c), '.');
    assert(ab.push('.') + decimal(c) =~= three_parts(a, b, c));
    assert(split(three_parts(a, b, c), '.') =~= seq![decimal(a), decimal(b), decimal(c)]);
}

proof fn lemma_three_part_version(v: Version)
    ensures
        three_part_version(three_parts(v.major as nat, v.minor as nat, v.patch as nat)) == Some(v),
        version_of(three_parts(v.major as nat, v.minor as nat, v.patch as nat)) == Some(v),
{
    let a = v.major as nat;
    let b = v.minor as nat;
    let c = v.patch as nat;
    lemma_split_three(a, b, c);
    law_decimal_round_trip(a);
    law_decimal_round_trip(b);
    law_decimal_round_trip(c);
    let text = three_parts(a, b, c);
    assert(text[0] == decimal(a)[0]);
    assert(is_digit(decimal(a)[0]));
    assert(without_v(text) == text);
}

/// A version written as a tag reads back as the same version, for every version.
pub proof fn law_version_round_trip(v: Version)
    ensures
        ({
            let text = decimal(v.major as nat).push('.') + decimal(v.minor as nat).push('.')
                + decimal(v.patch as nat);
            &&& version_of(text) == Some(v)
            &&& tag_version(seq!['v'] + text) == Some(v)
            &&& version_of(seq!['v'] + text) == Some(v)
        }),
{
    lemma_three_part_version(v);
    let text = three_parts(v.major as nat, v.minor as nat, v.patch as nat);
    assert((seq!['v'] + text).skip(1) =~= text);
}

/// The package version of a release, read back without its fourth group, is the
/// release's own version.
pub proof fn law_bundle_version_names_its_tag(tag: Seq<char>)
    requires
        tag_version(tag) is Some,
    ensures
        version_of(running_version(bundle_version_text(tag)->Some_0)) == tag_version(tag),
{
    let v = tag_version(tag)->Some_0;
    let a = v.major as nat;
    let b = v.minor as nat;
    let c = v.patch as nat;
    let three = three_parts(a, b, c);
    reveal_strlit(".0");
    let full = bundle_version_text(tag)->Some_0;
    assert(full =~= three.push('.') + seq!['0']);
    lemma_split_three(a, b, c);
    lemma_split_concat(three, seq!['0'], '.');
    assert(split(full, '.') =~= seq![decimal(a), decimal(b), decimal(c), seq!['0']]);
    assert(running_version(full) =~= three);
    lemma_three_part_version(v);
}

/// An update that has landed is never scheduled again: over the package version of
/// a release, neither that release nor an older one is newer.
pub proof fn law_landed_update_is_not_newer(tag: Seq<char>, older: Seq<char>)
    requires
        tag_version(tag) is Some,
        tag_version(older) is Some,
        older == tag || names_newer(tag_version(older), tag_version(tag)),
    ensures
        !is_release_after(bundle_version_text(tag)->Some_0, older),
{
    law_bundle_version_names_its_tag(tag);
}

/// A check whose gate is closed reports nothing and starts nothing; one that finds
/// the running version current never offers a release.
pub proof fn law_only_newer_releases_are_offered(
    json: Seq<char>,
    current: Seq<char>,
    auto_update: bool,
)
    ensures
        match release_step(json, current, auto_update) {
            StepText::Download { tag, digest, .. } => is_release_after(current, tag) && is_digest(
                digest,
            ) && auto_update,
            StepText::Announce { tag } => is_release_after(current, tag) && !auto_update,
            _ => true,
        },
{
    let step = release_step(json, current, auto_update);
    match step {
        StepText::Download { url, tag, digest } => {
            lemma_tag_is_version(tag);
            lemma_digest_shape(json, url);
        },
        StepText::Announce { tag } => {
            lemma_tag_is_version(tag);
        },
        _ => {},
    }
}

proof fn lemma_tag_is_version(tag: Seq<char>)
    requires
        tag_version(tag) is Some,
    ensures
        version_of(tag) == tag_version(tag),
{
}

proof fn lemma_digest_shape(json: Seq<char>, url: Seq<char>)
    ensures
        bundle_digest_text(json, url) is Some ==> is_digest(bundle_digest_text(json, url)->Some_0),
{
}

/// The Store flavor and an unpackaged build never check GitHub, however they are
/// asked.
pub proof fn law_only_the_packaged_github_flavor_checks(facts: CheckFacts)
    ensures
        facts.store_flavor || !facts.packaged ==> !check_runs(facts),
        facts.force && !facts.store_flavor && facts.packaged ==> check_runs(facts),
{
}

/// The digest that is computed of a download has the shape that is accepted from a
/// release description.
pub proof fn law_computed_digests_have_the_accepted_shape(body: Seq<u8>)
    ensures
        is_digest(digest_text(body)),
{
    law_digest_text_shape(body);
}

/// Which of two versions is newer, for versions written out in full: a greater
/// major number is newer whatever the other two are; with equal majors a greater
/// minor number is newer whatever the patch is; with both equal the greater patch
/// is newer, and an equal one is not. A `v` in front changes nothing.
#[verifier::rlimit(40)]
pub proof fn law_the_first_difference_decides(a: Version, b: Version)
    ensures
        ({
            let current = decimal(a.major as nat).push('.') + decimal(a.minor as nat).push('.')
                + decimal(a.patch as nat);
            let candidate = decimal(b.major as nat).push('.') + decimal(b.minor as nat).push('.')
                + decimal(b.patch as nat);
            let newer = names_newer(version_of(current), version_of(candidate));
            &&& b.major > a.major ==> newer
            &&& b.major < a.major ==> !newer
            &&& b.major == a.major && b.minor > a.minor ==> newer
            &&& b.major == a.major && b.minor < a.minor ==> !newer
            &&& b.major == a.major && b.minor == a.minor && b.patch > a.patch ==> newer
            &&& b.major == a.major && b.minor == a.minor && b.patch <= a.patch ==> !newer
            &&& names_newer(version_of(current), version_of(seq!['v'] + candidate)) == newer
            &&& names_newer(version_of(seq!['V'] + current), version_of(candidate)) == newer
            &&& is_release_after(current, seq!['v'] + candidate) == newer
            &&& !is_release_after(current, candidate)
        }),
{
    law_version_round_trip(a);
    law_version_round_trip(b);
    lemma_three_part_version(a);
    lemma_three_part_version(b);
    let current = three_parts(a.major as nat, a.minor as nat, a.patch as nat);
    let candidate = three_parts(b.major as nat, b.minor as nat, b.patch as nat);
    lemma_split_three(a.major as nat, a.minor as nat, a.patch as nat);
    assert(running_version(current) == current);
    assert((seq!['V'] + current).skip(1) =~= current);
    law_decimal_round_trip(b.major as nat);
    assert(candidate[0] == decimal(b.major as nat)[0]);
    assert(is_digit(decimal(b.major as nat)[0]));
    assert(tag_version(candidate) is None);
}

/// The fourth number of a running package version takes no part in the comparison
/// with a release tag: only the first three do.
pub proof fn law_the_fourth_number_takes_no_part(a: Version, fourth: nat, tag: Seq<char>)
    ensures
        ({
            let three = decimal(a.major as nat).push('.') + decimal(a.minor as nat).push('.')
                + decimal(a.patch as nat);
            is_release_after(three.push('.') + decimal(fourth), tag) == is_release_after(three, tag)
        }),
{
    let three = three_parts(a.major as nat, a.minor as nat, a.patch as nat);
    lemma_split_three(a.major as nat, a.minor as nat, a.patch as nat);
    lemma_decimal_has_no(fourth, '.');
    lemma_split_concat(three, decimal(fourth), '.');
    let full = three.push('.') + decimal(fourth);
    assert(split(full, '.') =~= seq![
        decimal(a.major as nat),
        decimal(a.minor as nat),
        decimal(a.patch as nat),
        decimal(fourth),
    ]);
    assert(running_version(full) =~= three);
    assert(running_version(three) == three);
}

/// Which texts are versions: three runs of digits between two dots, each a number
/// below 2^64, behind at most one `v` or `V`. A tag has the lower-case `v`.
pub proof fn law_versions_are_three_numbers(a: Seq<char>, b: Seq<char>, c: Seq<char>, d: Seq<char>)
    requires
        !a.contains('.'),
        !b.contains('.'),
        !c.contains('.'),
        !d.contains('.'),
        a.len() > 0 && a[0] != 'v' && a[0] != 'V',
    ensures
        ({
            let text = a.push('.') + b.push('.') + c;
            let max = 0xffff_ffff_ffff_ffff as nat;
            let numbers = number_up_to(a, max) is Some && number_up_to(b, max) is Some
                && number_up_to(c, max) is Some;
            &&& version_of(text) is Some == numbers
            &&& numbers ==> version_of(text)->Some_0.major == number_up_to(a, max)->Some_0
            &&& numbers ==> version_of(text)->Some_0.minor == number_up_to(b, max)->Some_0
            &&& numbers ==> version_of(text)->Some_0.patch == number_up_to(c, max)->Some_0
            &&& version_of(seq!['v'] + text) == version_of(text)
            &&& version_of(seq!['V'] + text) == version_of(text)
            &&& tag_version(seq!['v'] + text) == version_of(text)
            &&& tag_version(text) is None
            &&& tag_version(seq!['V'] + text) is None
            &&& version_of(a) is None
            &&& version_of(a.push('.') + b) is None
            &&& version_of(text.push('.') + d) is None
        }),
{
    let ab = a.push('.') + b;
    let text = a.push('.') + b.push('.') + c;
    lemma_split_one(a, '.');
    lemma_split_concat(a, b, '.');
    lemma_split_concat(ab, c, '.');
    lemma_split_concat(text, d, '.');
    assert(ab.push('.') + c =~= text);
    assert(split(text, '.') =~= seq![a, b, c]);
    assert(text[0] == a[0]);
    assert(ab[0] == a[0]);
    assert((text.push('.') + d)[0] == a[0]);
    assert((seq!['v'] + text).skip(1) =~= text);
    assert((seq!['V'] + text).skip(1) =~= text);
}

spec fn four_parts(numbers: Seq<nat>) -> Seq<char> {
    decimal(numbers[0]).push('.') + decimal(numbers[1]).push('.') + decimal(numbers[2]).push('.')
        + decimal(numbers[3])
}

proof fn lemma_package_version(numbers: Seq<nat>)
    requires
        numbers.len() == 4,
        forall|i: int| 0 <= i < 4 ==> #[trigger] numbers[i] <= 65535,
    ensures
        package_version_of(four_parts(numbers)) == Some(numbers),
{
    let three = three_parts(numbers[0], numbers[1], numbers[2]);
    lemma_split_three(numbers[0], numbers[1], numbers[2]);
    lemma_decimal_has_no(numbers[3], '.');
    lemma_split_concat(three, decimal(numbers[3]), '.');
    let full = four_parts(numbers);
    assert(full =~= three.push('.') + decimal(numbers[3]));
    let groups = split(full, '.');
    assert(groups =~= seq![
        decimal(numbers[0]),
        decimal(numbers[1]),
        decimal(numbers[2]),
        decimal(numbers[3]),
    ]);
    assert forall|i: int| 0 <= i < 4 implies number_up_to(#[trigger] groups[i], u16::MAX as nat)
        == Some(numbers[i]) by {
        law_decimal_round_trip(numbers[i]);
        assert(groups[i] == decimal(numbers[i]));
    }
    assert(package_version_of(full)->Some_0 =~= numbers);
}

/// Which of two package versions is newer, for versions written out in full: the
/// first of the four numbers that differs decides, whatever follows it, and equal
/// versions are not newer. Nothing but four numbers is a package version.
pub proof fn law_the_first_difference_decides_for_packages(
    a: Seq<nat>,
    b: Seq<nat>,
    k: int,
    text: Seq<char>,
)
    requires
        a.len() == 4,
        b.len() == 4,
        forall|i: int| 0 <= i < 4 ==> #[trigger] a[i] <= 65535,
        forall|i: int| 0 <= i < 4 ==> #[trigger] b[i] <= 65535,
        0 <= k < 4,
        forall|i: int| 0 <= i < k ==> a[i] == #[trigger] b[i],
    ensures
        ({
            let current = decimal(a[0]).push('.') + decimal(a[1]).push('.') + decimal(a[2]).push(
                '.',
            ) + decimal(a[3]);
            let candidate = decimal(b[0]).push('.') + decimal(b[1]).push('.') + decimal(b[2]).push(
                '.',
            ) + decimal(b[3]);
            &&& b[k] > a[k] ==> names_newer_package(current, candidate)
            &&& b[k] < a[k] ==> !names_newer_package(current, candidate)
            &&& !names_newer_package(current, current)
        }),
        split(text, '.').len() != 4 ==> forall|other: Seq<char>|
            !names_newer_package(text, other) && !names_newer_package(other, text),
{
    lemma_package_version(a);
    lemma_package_version(b);
    law_newer_package_is_a_strict_order(a, b, a);
    if b[k] > a[k] {
        assert(numbers_after(a, b));
    }
    if b[k] < a[k] {
        assert(numbers_after(b, a));
    }
}

/// The daily cadence: a check is due where none has run, where the last one lies in
/// the future, and from exactly 86,400 seconds after it; not one second before.
pub proof fn law_a_check_is_due_after_a_day(last: u64, now: u64)
    ensures
        is_due(None, now),
        now < last ==> is_due(Some(last), now),
        last <= now < last + 86400 ==> !is_due(Some(last), now),
        now >= last + 86400 ==> is_due(Some(last), now),
{
}

/// How the age of a check reads: minutes below an hour, hours below a day, days from
/// there on, each rounded down and named in the singular for one.
pub proof fn law_ages_are_rounded_down(last: u64, count: nat, rest: nat)
    requires
        count >= 1,
    ensures
        rest < 60 && last + rest <= u64::MAX ==> last_check_text((last + rest) as u64, Some(last))
            == "just now"@,
        count < 60 && rest < 60 && last + 60 * count + rest <= u64::MAX ==> last_check_text(
            (last + 60 * count + rest) as u64,
            Some(last),
        ) == if count == 1 {
            "1 "@ + "minute"@ + " ago"@
        } else {
            decimal(count).push(' ') + "minute"@ + "s ago"@
        },
        count < 24 && rest < 3600 && last + 3600 * count + rest <= u64::MAX ==> last_check_text(
            (last + 3600 * count + rest) as u64,
            Some(last),
        ) == if count == 1 {
            "1 "@ + "hour"@ + " ago"@
        } else {
            decimal(count).push(' ') + "hour"@ + "s ago"@
        },
        rest < 86400 && last + 86400 * count + rest <= u64::MAX ==> last_check_text(
            (last + 86400 * count + rest) as u64,
            Some(last),
        ) == if count == 1 {
            "1 "@ + "day"@ + " ago"@
        } else {
            decimal(count).push(' ') + "day"@ + "s ago"@
        },
        forall|now: u64| #[trigger] last_check_text(now, None) == "never"@,
        forall|now: u64| now < last ==> #[trigger] last_check_text(now, Some(last)) == "just now"@,
{
    assert((60 * count + rest) / 60 == count + rest / 60);
    assert((3600 * count + rest) / 3600 == count + rest / 3600);
    assert((86400 * count + rest) / 86400 == count + rest / 86400);
}

/// The address of a release's bundle, for every version: the tag stands in it once,
/// and the version with a zero behind it once.
#[verifier::rlimit(40)]
pub proof fn law_the_bundle_address_follows_from_the_tag(v: Version)
    ensures
        ({
            let three = decimal(v.major as nat).push('.') + decimal(v.minor as nat).push('.')
                + decimal(v.patch as nat);
            bundle_url_text(seq!['v'] + three) == Some(
                "https://github.com/faratech/fwdslash/releases/download/v"@ + three + "/fwdslash-"@
                    + three + ".0.msixbundle"@,
            )
        }),
{
    law_version_round_trip(v);
    let three = three_parts(v.major as nat, v.minor as nat, v.patch as nat);
    reveal_strlit("https://github.com/faratech/fwdslash/releases/download/v");
    reveal_strlit("https://github.com/faratech/fwdslash/releases/download/");
    reveal_strlit(".0.msixbundle");
    reveal_strlit(".0");
    reveal_strlit(".msixbundle");
    let tag = seq!['v'] + three;
    assert(bundle_url_text(tag)->Some_0
        =~= "https://github.com/faratech/fwdslash/releases/download/v"@ + three + "/fwdslash-"@
        + three + ".0.msixbundle"@);
}

/// The tag of a release description is what stands between the first `tag_name` key
/// and the next quote, whatever surrounds it.
pub proof fn law_the_tag_stands_behind_its_key(
    before: Seq<char>,
    key: Seq<char>,
    tag: Seq<char>,
    after: Seq<char>,
)
    requires
        key == "\"tag_name\":\""@ || key == "\"tag_name\": \""@,
        !tag.contains('"'),
        forall|j: int|
            0 <= j < before.len() ==> #[trigger] (before + key + tag + seq!['"'] + after).subrange(
                j,
                j + 12,
            ) != "\"tag_name\":\""@,
        forall|j: int|
            0 <= j < before.len() ==> #[trigger] (before + key + tag + seq!['"'] + after).subrange(
                j,
                j + 13,
            ) != "\"tag_name\": \""@,
    ensures
        tag_name_text(before + key + tag + seq!['"'] + after) == Some(tag),
{
    let json = before + key + tag + seq!['"'] + after;
    let n: int = before.len() as int;
    lemma_tag_keys();
    assert(json.subrange(n, n + key.len()) =~= key);
    lemma_first_key(json, "\"tag_name\":\""@, "\"tag_name\": \""@, key, n);
    let rest = json.skip(n + key.len());
    assert(rest =~= tag + seq!['"'] + after);
    assert forall|j: int| 0 <= j < tag.len() implies rest[j] != '"' by {
        assert(rest[j] == tag[j]);
        assert(tag.contains(tag[j]));
    }
    lemma_index_of_is(rest, '"', tag.len() as int);
    assert(rest.take(tag.len() as int) =~= tag);
}

proof fn lemma_tag_keys()
    ensures
        "\"tag_name\":\""@.len() == 12,
        "\"tag_name\": \""@.len() == 13,
        "\"tag_name\":\""@[11] == '"',
        "\"tag_name\": \""@[11] == ' ',
{
    reveal_strlit("\"tag_name\":\"");
    reveal_strlit("\"tag_name\": \"");
}

proof fn lemma_first_key(json: Seq<char>, plain: Seq<char>, wide: Seq<char>, key: Seq<char>, n: int)
    requires
        plain.len() == 12,
        wide.len() == 13,
        plain[11] != wide[11],
        key == plain || key == wide,
        0 <= n && n + key.len() <= json.len(),
        json.subrange(n, n + key.len()) == key,
        forall|j: int| 0 <= j < n ==> #[trigger] json.subrange(j, j + 12) != plain,
        forall|j: int| 0 <= j < n ==> #[trigger] json.subrange(j, j + 13) != wide,
    ensures
        next_value(json, plain, wide, 0) == Some(n + key.len()),
{
    lemma_first_occurrence(json, plain, 0);
    lemma_first_occurrence(json, wide, 0);
    assert(occurs_at(json, key, n));
    assert forall|j: int| 0 <= j < n implies !occurs_at(json, plain, j) by {
        assert(json.subrange(j, j + 12) != plain);
    }
    assert forall|j: int| 0 <= j < n implies !occurs_at(json, wide, j) by {
        assert(json.subrange(j, j + 13) != wide);
    }
    assert(json[n + 11] == key[11]) by {
        assert(json.subrange(n, n + key.len())[11] == json[n + 11]);
    }
    if occurs_at(json, plain, n) {
        assert(json.subrange(n, n + 12)[11] == json[n + 11]);
    }
    if occurs_at(json, wide, n) {
        assert(json.subrange(n, n + 13)[11] == json[n + 11]);
    }
}

/// What becomes of a release that describes itself well: one that is not newer than
/// the running version is forgotten, and a newer one never is.
pub proof fn law_a_release_is_forgotten_unless_newer(
    json: Seq<char>,
    a: Version,
    b: Version,
    auto_update: bool,
)
    requires
        tag_name_text(json) == Some(
            seq!['v'] + (decimal(b.major as nat).push('.') + decimal(b.minor as nat).push('.')
                + decimal(b.patch as nat)),
        ),
    ensures
        ({
            let current = decimal(a.major as nat).push('.') + decimal(a.minor as nat).push('.')
                + decimal(a.patch as nat);
            let forgotten = release_step(json, current, auto_update) == StepText::Forget;
            &&& b.major > a.major ==> !forgotten
            &&& b.major < a.major ==> forgotten
            &&& b.major == a.major && b.minor > a.minor ==> !forgotten
            &&& b.major == a.major && b.minor < a.minor ==> forgotten
            &&& b.major == a.major && b.minor == a.minor ==> forgotten == (b.patch <= a.patch)
        }),
{
    law_the_first_difference_decides(a, b);
    law_version_round_trip(b);
    let current = three_parts(a.major as nat, a.minor as nat, a.patch as nat);
    lemma_split_three(a.major as nat, a.minor as nat, a.patch as nat);
    assert(running_version(current) == current);
}

/// The digest of an asset is the one its own object gives: the sixty-four
/// hexadecimal digits behind the first `"digest":` of the object in which the
/// address first stands, with or without spaces between the key and the value.
#[verifier::rlimit(40)]
pub proof fn law_the_digest_stands_in_the_asset(
    before: Seq<char>,
    asset: Seq<char>,
    rest: Seq<char>,
    url: Seq<char>,
    i: int,
    k: int,
    gap: nat,
)
    requires
        url.len() > 0,
        !asset.contains('{'),
        !asset.contains('}'),
        0 <= i && i + url.len() <= asset.len(),
        asset.subrange(i, i + url.len()) == url,
        forall|j: int|
            0 <= j < before.len() + 1 + i ==> #[trigger] (before + seq!['{'] + asset + seq!['}']
                + rest).subrange(j, j + url.len()) != url,
        0 <= k && k + 9 + gap + 8 + 64 + 1 <= asset.len(),
        asset.subrange(k, k + 9) == "\"digest\":"@,
        forall|j: int| 0 <= j < k ==> #[trigger] asset.subrange(j, j + 9) != "\"digest\":"@,
        forall|j: int| k + 9 <= j < k + 9 + gap ==> #[trigger] asset[j] == ' ',
        asset.subrange(k + 9 + gap, k + 9 + gap + 8) == "\"sha256:"@,
        forall|j: int|
            k + 9 + gap + 8 <= j < k + 9 + gap + 8 + 64 ==> '0' <= #[trigger] asset[j] <= '9'
                || 'a' <= asset[j] <= 'f' || 'A' <= asset[j] <= 'F',
        asset[k + 9 + gap + 8 + 64] == '"',
    ensures
        bundle_digest_text(before + seq!['{'] + asset + seq!['}'] + rest, url) == Some(
            asset.subrange(k + 9 + gap + 8, k + 9 + gap + 8 + 64),
        ),
{
    reveal_strlit("\"digest\":");
    reveal_strlit(":");
    reveal_strlit("\"sha256:");
    let json = before + seq!['{'] + asset + seq!['}'] + rest;
    let first: int = before.len() as int + 1;
    let at: int = first + i;
    lemma_asset_object(before, asset, rest, url, i);
    lemma_first_occurrence(asset, "\"digest\":"@, 0);
    assert forall|j: int| 0 <= j < k implies !occurs_at(asset, "\"digest\":"@, j) by {
        assert(asset.subrange(j, j + 9) != "\"digest\":"@);
    }
    assert(occurs_at(asset, "\"digest\":"@, k));
    let value = asset.skip(k + 8);
    assert(asset.subrange(k, k + 9)[8] == ':');
    assert(value[0] == ':');
    assert(trim_front(value) == value);
    assert(value.subrange(0, 1) =~= ":"@);
    let spaced = value.skip(1);
    assert forall|j: int| 0 <= j < gap implies spaced[j] == ' ' by {
        assert(spaced[j] == asset[k + 9 + j]);
    }
    let quoted = asset.skip(k + 9 + gap);
    assert(asset.subrange(k + 9 + gap, k + 9 + gap + 8)[0] == '"');
    assert(quoted[0] == '"');
    assert(spaced.skip(gap as int) =~= quoted);
    lemma_trim_spaces(spaced, gap);
    assert(quoted.subrange(0, 8) =~= asset.subrange(k + 9 + gap, k + 9 + gap + 8));
    let hex = quoted.skip(8);
    let start: int = k + 9 + gap + 8;
    assert forall|j: int| 0 <= j < 64 implies hex[j] != '"' && crate::text::is_hex(
        #[trigger] hex[j],
    ) by {
        assert(hex[j] == asset[start + j]);
    }
    assert(hex[64] == asset[start + 64]);
    lemma_index_of_is(hex, '"', 64);
    assert(hex.take(64) =~= asset.subrange(start, start + 64));
    assert forall|j: int| 0 <= j < 64 implies crate::text::is_hex(#[trigger] hex.take(64)[j]) by {
        assert(hex.take(64)[j] == hex[j]);
    }
    assert(is_digest(hex.take(64)));
}

proof fn lemma_asset_object(
    before: Seq<char>,
    asset: Seq<char>,
    rest: Seq<char>,
    url: Seq<char>,
    i: int,
)
    requires
        url.len() > 0,
        !asset.contains('{'),
        !asset.contains('}'),
        0 <= i && i + url.len() <= asset.len(),
        asset.subrange(i, i + url.len()) == url,
        forall|j: int|
            0 <= j < before.len() + 1 + i ==> #[trigger] (before + seq!['{'] + asset + seq!['}']
                + rest).subrange(j, j + url.len()) != url,
    ensures
        asset_object(before + seq!['{'] + asset + seq!['}'] + rest, url) == Some(asset),
{
    let json = before + seq!['{'] + asset + seq!['}'] + rest;
    let first: int = before.len() as int + 1;
    let at: int = first + i;
    assert(json.subrange(at, at + url.len()) =~= asset.subrange(i, i + url.len()));
    lemma_first_occurrence(json, url, 0);
    assert(occurs_at(json, url, at));
    assert forall|j: int| 0 <= j < at implies !occurs_at(json, url, j) by {
        assert(json.subrange(j, j + url.len()) != url);
    }
    assert(first_occurrence(json, url) == Some(at));
    let tail = json.skip(at);
    let left: int = asset.len() - i;
    assert forall|j: int| 0 <= j < left implies tail[j] != '}' by {
        assert(tail[j] == asset[i + j]);
        assert(asset.contains(asset[i + j]));
    }
    assert(tail[left] == '}');
    lemma_index_of_is(tail, '}', left);
    let head = json.take(at);
    lemma_last_index_of(head, '{');
    assert(head[first - 1] == '{');
    let open = last_index_of(head, '{');
    if open >= first {
        assert(head[open] == asset[open - first]);
        assert(asset.contains(asset[open - first]));
    }
    assert(open == first - 1);
    assert(json.subrange(first, at + left) =~= asset);
}

proof fn lemma_trim_spaces(text: Seq<char>, gap: nat)
    requires
        gap < text.len(),
        forall|j: int| 0 <= j < gap ==> text[j] == ' ',
        text[gap as int] == '"',
    ensures
        trim_front(text) == text.skip(gap as int),
    decreases gap,
{
    if gap == 0 {
        assert(text.skip(0) =~= text);
    } else {
        lemma_trim_spaces(text.skip(1), (gap - 1) as nat);
        assert(text.skip(1).skip(gap - 1) =~= text.skip(gap as int));
    }
}

/// Which files a pruning deletes: of the bundles every one but the kept name, of the
/// digest files every one that does not belong to the kept name, and nothing with
/// another extension.
pub proof fn law_pruning_deletes_other_bundles(
    stem: Seq<char>,
    extension: Seq<char>,
    keep: Option<Seq<char>>,
)
    requires
        stem.len() > 0,
        !extension.contains('.'),
        stem.push('.') + extension != seq!['.', '.'],
    ensures
        is_pruned(stem + ".msixbundle"@, keep) == (keep != Some(stem + ".msixbundle"@)),
        is_pruned(stem + ".sha256"@, keep) == (keep != Some(stem)),
        extension.len() != 6 && extension.len() != 10 ==> !is_pruned(
            stem.push('.') + extension,
            keep,
        ),
        !stem.contains('.') ==> !is_pruned(stem, keep),
{
    reveal_strlit(".msixbundle");
    reveal_strlit("msixbundle");
    reveal_strlit(".sha256");
    reveal_strlit("sha256");
    reveal_strlit("..");
    assert((stem.push('.') + "msixbundle"@).len() > 2);
    assert((stem.push('.') + "sha256"@).len() > 2);
    lemma_extension(stem, "msixbundle"@);
    lemma_extension(stem, "sha256"@);
    assert(stem.push('.') + "msixbundle"@ =~= stem + ".msixbundle"@);
    assert(stem.push('.') + "sha256"@ =~= stem + ".sha256"@);
    if stem.push('.') + extension == ".."@ {
        assert(stem.push('.') + extension =~= seq!['.', '.']);
    }
    assert(".."@ =~= seq!['.', '.']);
    lemma_extension(stem, extension);
    if !stem.contains('.') {
        lemma_last_index_of(stem, '.');
        let dot = last_index_of(stem, '.');
        if dot >= 0 {
            assert(stem.contains(stem[dot]));
        }
    }
}

proof fn lemma_extension(stem: Seq<char>, extension: Seq<char>)
    requires
        stem.len() > 0,
        !extension.contains('.'),
        stem.push('.') + extension != ".."@,
    ensures
        extension_of(stem.push('.') + extension) == Some(extension),
        stem_of(stem.push('.') + extension) == stem,
{
    let name = stem.push('.') + extension;
    lemma_last_index_of(name, '.');
    assert(name[stem.len() as int] == '.');
    let dot = last_index_of(name, '.');
    if dot > stem.len() {
        assert(name[dot] == extension[dot - stem.len() - 1]);
        assert(extension.contains(extension[dot - stem.len() - 1]));
    }
    assert(dot == stem.len());
    assert(name.skip(dot + 1) =~= extension);
    assert(name.take(dot) =~= stem);
}

/// The stored flag of automatic updates is inverted: only a stored zero, or nothing
/// stored outside the Store flavor, leaves them on.
pub proof fn law_automatic_updates_are_stored_inverted(value: u32, store_flavor: bool)
    ensures
        auto_update_setting(Some(0), store_flavor),
        value > 0 ==> !auto_update_setting(Some(value), store_flavor),
        auto_update_setting(None, false),
        !auto_update_setting(None, true),
{
}

/// The bundle of a release description, one download address at a time: from the
/// next address on, it is that address where it ends in `.msixbundle` and not in
/// `-store-unsigned.msixbundle`, else what the search behind that address finds.
pub proof fn law_the_next_address_is_the_bundle(
    json: Seq<char>,
    from: int,
    at: int,
    key: Seq<char>,
    url: Seq<char>,
)
    requires
        key == "\"browser_download_url\":\""@ || key == "\"browser_download_url\": \""@,
        0 <= from <= at,
        at + key.len() + url.len() < json.len(),
        json.subrange(at, at + key.len()) == key,
        forall|j: int|
            from <= j < at ==> #[trigger] json.subrange(j, j + 24) != "\"browser_download_url\":\""@,
        forall|j: int|
            from <= j < at ==> #[trigger] json.subrange(j, j + 25)
                != "\"browser_download_url\": \""@,
        json.subrange(at + key.len(), at + key.len() + url.len()) == url,
        !url.contains('"'),
        json[at + key.len() + url.len()] == '"',
    ensures
        bundle_url_from(json, from) == if url.len() >= 11 && url.skip(url.len() - 11)
            == ".msixbundle"@ && !(url.len() >= 26 && url.skip(url.len() - 26)
            == "-store-unsigned.msixbundle"@) {
            Some(url)
        } else {
            bundle_url_from(json, at + key.len() + url.len())
        },
{
    lemma_address_keys();
    lemma_first_address(
        json,
        "\"browser_download_url\":\""@,
        "\"browser_download_url\": \""@,
        key,
        from,
        at,
    );
    let start: int = at + key.len();
    let rest = json.skip(start);
    assert forall|j: int| 0 <= j < url.len() implies rest[j] != '"' by {
        assert(json.subrange(start, start + url.len())[j] == rest[j]);
        assert(url.contains(url[j]));
    }
    assert(rest[url.len() as int] == '"');
    lemma_index_of_is(rest, '"', url.len() as int);
    assert(rest.take(url.len() as int) =~= url) by {
        assert(rest.take(url.len() as int) =~= json.subrange(start, start + url.len()));
    }
    if url.len() >= 11 {
        assert(url.subrange(url.len() - 11, url.len() as int) =~= url.skip(url.len() - 11));
    }
    if url.len() >= 26 {
        assert(url.subrange(url.len() - 26, url.len() as int) =~= url.skip(url.len() - 26));
    }
}

proof fn lemma_address_keys()
    ensures
        "\"browser_download_url\":\""@.len() == 24,
        "\"browser_download_url\": \""@.len() == 25,
        "\"browser_download_url\":\""@[23] == '"',
        "\"browser_download_url\": \""@[23] == ' ',
        ".msixbundle"@.len() == 11,
        "-store-unsigned.msixbundle"@.len() == 26,
{
    reveal_strlit("\"browser_download_url\":\"");
    reveal_strlit("\"browser_download_url\": \"");
    reveal_strlit(".msixbundle");
    reveal_strlit("-store-unsigned.msixbundle");
}

proof fn lemma_first_address(
    json: Seq<char>,
    plain: Seq<char>,
    wide: Seq<char>,
    key: Seq<char>,
    from: int,
    at: int,
)
    requires
        plain.len() == 24,
        wide.len() == 25,
        plain[23] != wide[23],
        key == plain || key == wide,
        0 <= from <= at && at + key.len() <= json.len(),
        json.subrange(at, at + key.len()) == key,
        forall|j: int| from <= j < at ==> #[trigger] json.subrange(j, j + 24) != plain,
        forall|j: int| from <= j < at ==> #[trigger] json.subrange(j, j + 25) != wide,
    ensures
        next_value(json, plain, wide, from) == Some(at + key.len()),
{
    lemma_first_occurrence(json, plain, from);
    lemma_first_occurrence(json, wide, from);
    assert(occurs_at(json, key, at));
    assert forall|j: int| from <= j < at implies !occurs_at(json, plain, j) by {
        assert(json.subrange(j, j + 24) != plain);
    }
    assert forall|j: int| from <= j < at implies !occurs_at(json, wide, j) by {
        assert(json.subrange(j, j + 25) != wide);
    }
    assert(json.subrange(at, at + key.len())[23] == json[at + 23]);
    if occurs_at(json, plain, at) {
        assert(json.subrange(at, at + 24)[23] == json[at + 23]);
    }
    if occurs_at(json, wide, at) {
        assert(json.subrange(at, at + 25)[23] == json[at + 23]);
    }
}

/// What becomes of a newer release: without its own bundle's address in the
/// description it is not trusted, and neither is it without a digest for that
/// address; else it is downloaded from that address against that digest where
/// updates are automatic, and announced where they are not.
pub proof fn law_what_a_newer_release_becomes(
    json: Seq<char>,
    current: Seq<char>,
    tag: Seq<char>,
    url: Seq<char>,
    at: int,
)
    requires
        tag_name_text(json) == Some(tag),
        is_release_after(current, tag),
        bundle_url_text(tag) == Some(url),
    ensures
        0 <= at && at + url.len() <= json.len() && json.subrange(at, at + url.len()) == url ==> {
            &&& bundle_digest_text(json, url) is Some ==> release_step(json, current, true)
                == (StepText::Download {
                url,
                tag,
                digest: bundle_digest_text(json, url)->Some_0,
            })
            &&& bundle_digest_text(json, url) is Some ==> release_step(json, current, false)
                == (StepText::Announce { tag })
            &&& bundle_digest_text(json, url) is None ==> forall|auto: bool|
                #[trigger] release_step(json, current, auto) == StepText::Report(
                    OutcomeText::VerificationFailed(UpdateVerificationError::DigestMismatch),
                )
        },
        (forall|j: int| #[trigger] json.subrange(j, j + url.len()) != url) ==> forall|auto: bool|
            #[trigger] release_step(json, current, auto) == StepText::Report(
                OutcomeText::VerificationFailed(UpdateVerificationError::AssetNameMismatch),
            ),
{
    lemma_first_occurrence(json, url, 0);
    if 0 <= at && at + url.len() <= json.len() && json.subrange(at, at + url.len()) == url {
        assert(occurs_at(json, url, at));
    }
    assert(tag_version(tag) is Some);
    assert(version_of(tag) == tag_version(tag));
}

/// A description without a tag, or with a tag that is no version, is not trusted.
pub proof fn law_a_release_needs_a_version(json: Seq<char>, current: Seq<char>, auto_update: bool)
    requires
        tag_name_text(json) is None || tag_version(tag_name_text(json)->Some_0) is None,
    ensures
        release_step(json, current, auto_update) == StepText::Report(
            OutcomeText::VerificationFailed(UpdateVerificationError::VersionMismatch),
        ),
{
}

/// What is requested for a release is what its address says: the host and the path
/// together are the address.
pub proof fn law_the_request_is_the_address(v: Version)
    ensures
        ({
            let tag = seq!['v'] + (decimal(v.major as nat).push('.') + decimal(
                v.minor as nat,
            ).push('.') + decimal(v.patch as nat));
            "https://github.com"@ + download_path_text(tag) == bundle_url_text(tag)->Some_0
        }),
{
    law_version_round_trip(v);
    reveal_strlit("https://github.com");
    reveal_strlit("/faratech/fwdslash/releases/download/");
    reveal_strlit("https://github.com/faratech/fwdslash/releases/download/");
    let tag = seq!['v'] + (decimal(v.major as nat).push('.') + decimal(v.minor as nat).push('.')
        + decimal(v.patch as nat));
    assert("https://github.com"@ + download_path_text(tag) =~= bundle_url_text(tag)->Some_0);
}

/// The bundle's version and its local name, for every version.
pub proof fn law_the_bundle_is_named_after_its_version(v: Version)
    ensures
        ({
            let three = decimal(v.major as nat) + seq!['.'] + decimal(v.minor as nat) + seq!['.']
                + decimal(v.patch as nat);
            &&& bundle_version_text(seq!['v'] + three) == Some(three + seq!['.', '0'])
            &&& bundle_name_text(seq!['v'] + three) == "fwdslash-"@ + three + ".0.msixbundle"@
            &&& bundle_version_text(three) is None
        }),
{
    law_version_round_trip(v);
    reveal_strlit(".0");
    reveal_strlit(".msixbundle");
    reveal_strlit(".0.msixbundle");
    let three = decimal(v.major as nat) + seq!['.'] + decimal(v.minor as nat) + seq!['.'] + decimal(
        v.patch as nat,
    );
    let pushed = three_parts(v.major as nat, v.minor as nat, v.patch as nat);
    assert(three =~= pushed);
    assert(bundle_version_text(seq!['v'] + three)->Some_0 =~= three + seq!['.', '0']);
    assert(bundle_name_text(seq!['v'] + three) =~= "fwdslash-"@ + three + ".0.msixbundle"@);
    law_decimal_round_trip(v.major as nat);
    assert(three[0] == decimal(v.major as nat)[0]);
    assert(is_digit(decimal(v.major as nat)[0]));
}

/// When a check runs: in a packaged build that is not the Store's, where the user
/// asked, and else where updates are automatic and a day has passed since the last
/// check.
pub proof fn law_when_a_check_runs(last: u64, now: u64)
    ensures
        ({
            let facts = CheckFacts {
                store_flavor: false,
                packaged: true,
                auto_update: true,
                force: false,
                last_check: Some(last),
                now,
            };
            &&& check_runs(facts) == (now < last || now >= last + 86400)
            &&& check_runs(CheckFacts { last_check: None, ..facts })
            &&& check_runs(CheckFacts { force: true, ..facts })
            &&& check_runs(CheckFacts { force: true, auto_update: false, ..facts })
            &&& !check_runs(CheckFacts { auto_update: false, ..facts })
            &&& !check_runs(CheckFacts { auto_update: false, last_check: None, ..facts })
            &&& !check_runs(CheckFacts { packaged: false, force: true, ..facts })
            &&& !check_runs(CheckFacts { store_flavor: true, force: true, ..facts })
        }),
{
}

/// Where a name goes inside a folder: behind one backslash, which is added only where
/// the folder does not end in a separator, is not empty and is no bare drive.
pub proof fn law_a_name_inside_a_folder(folder: Seq<char>, name: Seq<char>, letter: char)
    requires
        'a' <= letter <= 'z' || 'A' <= letter <= 'Z',
    ensures
        inside(folder.push('\\'), name) == folder.push('\\') + name,
        inside(folder.push('/'), name) == folder.push('/') + name,
        inside(Seq::empty(), name) == name,
        inside(seq![letter, ':'], name) == seq![letter, ':'] + name,
        folder.len() > 2 && folder.last() != '\\' && folder.last() != '/' ==> inside(folder, name)
            == folder + seq!['\\'] + name,
{
    assert(Seq::<char>::empty() + name =~= name);
    assert(folder.push('\\') + name =~= folder + seq!['\\'] + name);
}

/// What a check comes to: not due where none runs, unavailable where the service
/// could not be reached, and else what the release description means.
pub proof fn law_what_a_check_comes_to(facts: CheckFacts, json: Seq<char>, current: Seq<char>)
    ensures
        !check_runs(facts) ==> check_step(facts, Some(json), current) == StepText::Report(
            OutcomeText::NotDue,
        ),
        !check_runs(facts) ==> check_step(facts, None, current) == StepText::Report(
            OutcomeText::NotDue,
        ),
        check_runs(facts) ==> check_step(facts, None, current) == StepText::Report(
            OutcomeText::Unavailable,
        ),
        check_runs(facts) ==> check_step(facts, Some(json), current) == release_step(
            json,
            current,
            facts.auto_update,
        ),
{
}

/// A download is accepted against exactly one digest, its own: the digest that is
/// computed of it, and no other text.
pub proof fn law_a_download_has_one_digest(body: Seq<u8>, digest: Seq<char>, other: Seq<char>)
    requires
        body.len() < 0x2000_0000_0000_0000,
    ensures
        download_result(body, digest_text(body)) is Ok,
        download_result(body, digest) is Ok && download_result(body, other) is Ok ==> digest
            == other,
        digest.len() != 64 ==> download_result(body, digest) == Err::<(), UpdateVerificationError>(
            UpdateVerificationError::DigestMismatch,
        ),
{
    law_digest_text_shape(body);
}

}
