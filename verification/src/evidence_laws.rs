//! What a staged update has to show before it is installed.

use crate::text::{
    decimal, hex_lower, last_index_of, lemma_last_index_of, replaced, same_ignoring_case,
    string_in, trim_back_of, trimmed,
};
use crate::update::{bundle_version_text, UpdateVerificationError, Version};
use crate::verification::{
    are_supported, digest_result, hex_of, is_private, manifest_result, packed_version_text,
    reading_result, readings_result, sha2_digest, staged_result, staging_result, PackageReading,
    StagedBundle,
};
use vstd::prelude::*;

verus! {

/// A package's own numbers stand in its packed version from the top down, sixteen
/// bits each.
pub proof fn law_packed_versions_hold_four_numbers(a: u16, b: u16, c: u16, d: u16)
    ensures
        packed_version_text(
            (a * 0x1_0000_0000_0000 + b * 0x1_0000_0000 + c * 0x1_0000 + d) as u64,
        ) == decimal(a as nat).push('.') + decimal(b as nat).push('.') + decimal(c as nat).push('.')
            + decimal(d as nat),
{
    let packed: int = a * 0x1_0000_0000_0000 + b * 0x1_0000_0000 + c * 0x1_0000 + d;
    assert(packed / 0x1_0000_0000_0000 == a);
    assert(packed / 0x1_0000_0000 == a * 0x1_0000 + b);
    assert(packed / 0x1_0000 == a * 0x1_0000_0000 + b * 0x1_0000 + c);
    assert((a * 0x1_0000 + b) % 0x1_0000 == b);
    assert((a * 0x1_0000_0000 + b * 0x1_0000 + c) % 0x1_0000 == c);
    assert(packed % 0x1_0000 == d);
}

/// The hexadecimal text of some bytes: two digits for each byte, in order, and for
/// one byte more two digits more.
pub proof fn law_digest_bytes_are_two_digits_each(bytes: Seq<u8>, next: u8)
    ensures
        hex_of(Seq::empty()) == Seq::<char>::empty(),
        hex_of(bytes.push(next)) == hex_of(bytes) + seq![
            "0123456789abcdef"@[next as int / 16],
            "0123456789abcdef"@[next as int % 16],
        ],
{
    assert(bytes.push(next).drop_last() =~= bytes);
    reveal_with_fuel(hex_lower, 3);
    crate::text::law_hex_digits_are_the_sixteen((next as int / 16) as nat);
    crate::text::law_hex_digits_are_the_sixteen((next as int % 16) as nat);
    assert(hex_lower(next as nat, 2) =~= seq![
        "0123456789abcdef"@[next as int / 16],
        "0123456789abcdef"@[next as int % 16],
    ]);
}

/// A package is the expected one where its name is this app's, its publisher and
/// its version are the expected ones, and each of the four parts could be read; it
/// then stands for its architecture. Otherwise the first part that fails is
/// reported: unread parts first, in order, then wrong ones.
pub proof fn law_the_expected_package(
    reading: PackageReading,
    publisher: Seq<char>,
    version: Seq<char>,
)
    ensures
        ({
            let read = reading.name is Some && reading.publisher is Some && reading.version is Some
                && reading.architecture is Some;
            let named = reading.name->Some_0@ == "32827MikeFara.fwdslash"@;
            let published = reading.publisher->Some_0@ == publisher;
            let versioned = packed_version_text(reading.version->Some_0) == version;
            let got = reading_result(reading, publisher, version);
            &&& (got is Ok) == (read && named && published && versioned)
            &&& got is Ok ==> got == Ok::<u32, UpdateVerificationError>(
                reading.architecture->Some_0,
            )
            &&& read && !named ==> got == Err::<u32, UpdateVerificationError>(
                UpdateVerificationError::IdentityMismatch,
            )
            &&& read && named && !published ==> got == Err::<u32, UpdateVerificationError>(
                UpdateVerificationError::PublisherMismatch,
            )
            &&& read && named && published && !versioned ==> got == Err::<
                u32,
                UpdateVerificationError,
            >(UpdateVerificationError::VersionMismatch)
        }),
{
}

/// A bundle serves this product where it holds a package for x64 (9) and one for
/// ARM64 (12), and none for anything else.
pub proof fn law_both_architectures_and_no_other(architectures: Seq<u32>)
    ensures
        are_supported(architectures) == ({
            &&& exists|i: int| 0 <= i < architectures.len() && #[trigger] architectures[i] == 9
            &&& exists|i: int| 0 <= i < architectures.len() && #[trigger] architectures[i] == 12
            &&& !exists|i: int|
                0 <= i < architectures.len() && #[trigger] architectures[i] != 9 && architectures[i]
                    != 12
        }),
{
    if exists|i: int| 0 <= i < architectures.len() && #[trigger] architectures[i] == 9 {
        assert(architectures.contains(9));
    }
    if exists|i: int| 0 <= i < architectures.len() && #[trigger] architectures[i] == 12 {
        assert(architectures.contains(12));
    }
}

proof fn lemma_readings(packages: Seq<PackageReading>, publisher: Seq<char>, version: Seq<char>)
    ensures
        (readings_result(packages, publisher, version) is Ok) == (forall|i: int|
            0 <= i < packages.len() ==> reading_result(
                #[trigger] packages[i],
                publisher,
                version,
            ) is Ok),
        readings_result(packages, publisher, version) is Ok ==> {
            let got = readings_result(packages, publisher, version)->Ok_0;
            got.len() == packages.len() && forall|i: int|
                0 <= i < packages.len() ==> #[trigger] got[i] == reading_result(
                    packages[i],
                    publisher,
                    version,
                )->Ok_0
        },
    decreases packages.len(),
{
    if packages.len() > 0 {
        let init = packages.drop_last();
        let last = packages[packages.len() - 1];
        lemma_readings(init, publisher, version);
        if forall|i: int|
            0 <= i < packages.len() ==> reading_result(
                #[trigger] packages[i],
                publisher,
                version,
            ) is Ok {
            assert forall|i: int| 0 <= i < init.len() implies reading_result(
                #[trigger] init[i],
                publisher,
                version,
            ) is Ok by {
                assert(init[i] == packages[i]);
            }
            assert(reading_result(last, publisher, version) is Ok);
        }
        if readings_result(packages, publisher, version) is Ok {
            assert forall|i: int| 0 <= i < packages.len() implies reading_result(
                #[trigger] packages[i],
                publisher,
                version,
            ) is Ok && readings_result(packages, publisher, version)->Ok_0[i] == reading_result(
                packages[i],
                publisher,
                version,
            )->Ok_0 by {
                if i < init.len() {
                    assert(init[i] == packages[i]);
                    let before = readings_result(init, publisher, version)->Ok_0;
                    assert(before[i] == reading_result(init[i], publisher, version)->Ok_0);
                    assert(readings_result(packages, publisher, version)->Ok_0[i] == before[i]);
                }
            }
        }
    }
}

/// Which manifests are accepted for a release: those whose bundle and whose every
/// package carry this app's name, the expected publisher and the release's own
/// version with a zero behind it, and whose packages are for x64 and ARM64, both,
/// and for nothing else.
pub proof fn law_accepted_manifests(
    v: Version,
    bundle: PackageReading,
    packages: Seq<PackageReading>,
    publisher: Seq<char>,
)
    ensures
        ({
            let three = decimal(v.major as nat).push('.') + decimal(v.minor as nat).push('.')
                + decimal(v.patch as nat);
            let version = three + ".0"@;
            (manifest_result(seq!['v'] + three, bundle, packages, publisher) is Ok) == ({
                &&& reading_result(bundle, publisher, version) is Ok
                &&& forall|i: int|
                    0 <= i < packages.len() ==> reading_result(
                        #[trigger] packages[i],
                        publisher,
                        version,
                    ) is Ok
                &&& exists|i: int|
                    0 <= i < packages.len() && (#[trigger] packages[i]).architecture == Some(9u32)
                &&& exists|i: int|
                    0 <= i < packages.len() && (#[trigger] packages[i]).architecture == Some(12u32)
                &&& forall|i: int|
                    0 <= i < packages.len() ==> (#[trigger] packages[i]).architecture == Some(9u32)
                        || packages[i].architecture == Some(12u32)
            })
        }),
{
    crate::update_laws::law_version_round_trip(v);
    let three = decimal(v.major as nat).push('.') + decimal(v.minor as nat).push('.') + decimal(
        v.patch as nat,
    );
    let version = three + ".0"@;
    let tag = seq!['v'] + three;
    assert(bundle_version_text(tag)->Some_0 =~= version);
    lemma_readings(packages, publisher, version);
    let all = readings_result(packages, publisher, version);
    if all is Ok {
        let got = all->Ok_0;
        assert forall|i: int| 0 <= i < packages.len() implies (#[trigger] packages[i]).architecture
            == Some(got[i]) by {
            assert(reading_result(packages[i], publisher, version) is Ok);
            assert(got[i] == reading_result(packages[i], publisher, version)->Ok_0);
        }
        law_both_architectures_and_no_other(got);
        if are_supported(got) {
            let i = choose|i: int| 0 <= i < got.len() && #[trigger] got[i] == 9;
            assert(packages[i].architecture == Some(9u32));
            let j = choose|j: int| 0 <= j < got.len() && #[trigger] got[j] == 12;
            assert(packages[j].architecture == Some(12u32));
            assert forall|i: int| 0 <= i < packages.len() implies (
            #[trigger] packages[i]).architecture == Some(9u32) || packages[i].architecture == Some(
                12u32,
            ) by {
                assert(got[i] == 9 || got[i] == 12);
            }
        }
        if (exists|i: int|
            0 <= i < packages.len() && (#[trigger] packages[i]).architecture == Some(9u32)) && (
        exists|i: int|
            0 <= i < packages.len() && (#[trigger] packages[i]).architecture == Some(12u32)) && (
        forall|i: int|
            0 <= i < packages.len() ==> (#[trigger] packages[i]).architecture == Some(9u32)
                || packages[i].architecture == Some(12u32)) {
            let i = choose|i: int|
                0 <= i < packages.len() && (#[trigger] packages[i]).architecture == Some(9u32);
            assert(got[i] == 9);
            let j = choose|j: int|
                0 <= j < packages.len() && (#[trigger] packages[j]).architecture == Some(12u32);
            assert(got[j] == 12);
            assert forall|m: int| 0 <= m < got.len() implies #[trigger] got[m] == 9 || got[m]
                == 12 by {
                assert(packages[m].architecture == Some(got[m]));
            }
        }
    }
}

/// Which digest files are accepted for a content: those that could be read, as the
/// content could, whose text without white space at its ends is sixty-four
/// hexadecimal digits and spells the content's SHA-256 digest, in either case.
pub proof fn law_accepted_digest_files(content: Option<Seq<u8>>, file: Option<Seq<char>>)
    ensures
        (digest_result(content, file) is Ok) == ({
            &&& content is Some
            &&& file is Some
            &&& trimmed(file->Some_0).len() == 64
            &&& forall|i: int|
                0 <= i < 64 ==> '0' <= #[trigger] trimmed(file->Some_0)[i] <= '9' || 'a' <= trimmed(
                    file->Some_0,
                )[i] <= 'f' || 'A' <= trimmed(file->Some_0)[i] <= 'F'
            &&& same_ignoring_case(hex_of(sha2_digest(content->Some_0)), trimmed(file->Some_0))
        }),
{
    if file is Some {
        let text = trimmed(file->Some_0);
        if forall|i: int|
            0 <= i < 64 ==> '0' <= #[trigger] text[i] <= '9' || 'a' <= text[i] <= 'f' || 'A'
                <= text[i] <= 'F' {
            assert forall|i: int| 0 <= i < 64 implies crate::text::is_hex(#[trigger] text[i]) by {
                assert('0' <= text[i] <= '9' || 'a' <= text[i] <= 'f' || 'A' <= text[i] <= 'F');
            }
        }
        if crate::update::is_digest(text) {
            assert forall|i: int| 0 <= i < 64 implies '0' <= #[trigger] text[i] <= '9' || 'a'
                <= text[i] <= 'f' || 'A' <= text[i] <= 'F' by {
                assert(crate::text::is_hex(text[i]));
            }
        }
    }
}

/// Where a staged bundle may lie: directly in the update directory, under a name of
/// its own, with the directory named from its root.
pub proof fn law_staged_bundles_lie_in_the_directory(directory: Seq<char>, name: Seq<char>)
    requires
        directory.len() > 0,
        directory.last() != '\\',
        directory.last() != '/',
        name.len() > 0,
        name != seq!['.'],
        forall|i: int| 0 <= i < name.len() ==> #[trigger] name[i] != '/' && name[i] != '\\',
    ensures
        staging_result(Some(directory), true, directory.push('\\') + name) is Ok,
        staging_result(Some(directory), false, directory.push('\\') + name) == Err::<
            (),
            UpdateVerificationError,
        >(UpdateVerificationError::IoFailure),
        staging_result(None, true, directory.push('\\') + name) == Err::<
            (),
            UpdateVerificationError,
        >(UpdateVerificationError::IoFailure),
        staging_result(Some(directory), true, name) == Err::<(), UpdateVerificationError>(
            UpdateVerificationError::AssetNameMismatch,
        ),
        staging_result(Some(directory), true, directory.push('\\')) == Err::<
            (),
            UpdateVerificationError,
        >(UpdateVerificationError::AssetNameMismatch),
{
    let path = directory.push('\\') + name;
    let flat = replaced(path, '/', '\\');
    let n: int = directory.len() as int;
    let folder = replaced(directory, '/', '\\');
    assert(flat =~= folder.push('\\') + name);
    lemma_last_index_of(flat, '\\');
    assert(flat[n] == '\\');
    let at = last_index_of(flat, '\\');
    if at > n {
        assert(flat[at] == name[at - n - 1]);
    }
    assert(at == n);
    assert(flat.skip(at + 1) =~= name);
    assert(flat.take(at + 1) =~= folder.push('\\'));
    assert(replaced(folder.push('\\'), '/', '\\') =~= folder.push('\\')) by {
        assert forall|i: int| 0 <= i < folder.len() implies folder[i] != '/' by {}
    }
    reveal_with_fuel(trim_back_of, 3);
    assert(folder.push('\\').drop_last() =~= folder);
    assert(folder.last() == directory.last());
    let flat_name = replaced(name, '/', '\\');
    assert(flat_name =~= name);
    lemma_last_index_of(name, '\\');
    let bare = directory.push('\\');
    let flat_bare = replaced(bare, '/', '\\');
    assert(flat_bare.last() == '\\');
    assert(last_index_of(flat_bare, '\\') == n);
    assert(flat_bare.skip(n + 1) =~= Seq::<char>::empty());
}

/// A staged bundle is accepted exactly where everything about it is in order: the
/// recorded release, its place, every directory and file on the way private, the
/// digest, the signature, and the manifest.
pub proof fn law_what_a_staged_bundle_must_show(
    staged: StagedBundle,
    path: Seq<char>,
    publisher: Seq<char>,
)
    ensures
        (staged_result(staged, path, publisher) is Ok) == ({
            &&& staged.tag is Some
            &&& staged.pending is Some && staged.pending->Some_0@ == path
            &&& staging_result(string_in(staged.directory), staged.directory_absolute, path) is Ok
            &&& forall|i: int|
                0 <= i < staged.attributes@.len() ==> (#[trigger] staged.attributes@[i]) is Some
                    && staged.attributes@[i]->Some_0 & 0x400 == 0
            &&& staged.content is Some
            &&& digest_result(Some(staged.content->Some_0@), string_in(staged.digest_file)) is Ok
            &&& staged.signature == 0
            &&& staged.manifest is Ok
            &&& manifest_result(
                staged.tag->Some_0@,
                staged.manifest->Ok_0.bundle,
                staged.manifest->Ok_0.packages@,
                publisher,
            ) is Ok
        }),
{
    let attributes = staged.attributes@;
    if is_private(attributes) {
        assert forall|i: int| 0 <= i < attributes.len() implies (#[trigger] attributes[i]) is Some
            && attributes[i]->Some_0 & 0x400 == 0 by {}
    }
}

/// A bundle in any other folder is refused, whatever its name.
pub proof fn law_bundles_elsewhere_are_refused(
    directory: Seq<char>,
    other: Seq<char>,
    name: Seq<char>,
)
    requires
        directory.len() > 0,
        directory.last() != '\\',
        directory.last() != '/',
        other.len() > 0,
        other.last() != '\\',
        other.last() != '/',
        forall|i: int| 0 <= i < name.len() ==> #[trigger] name[i] != '/' && name[i] != '\\',
        other.len() != directory.len() || exists|i: int|
            0 <= i < other.len() && #[trigger] other[i] != directory[i] && other[i] != '/'
                && directory[i] != '/',
    ensures
        staging_result(Some(directory), true, other.push('\\') + name) == Err::<
            (),
            UpdateVerificationError,
        >(UpdateVerificationError::AssetNameMismatch),
{
    let path = other.push('\\') + name;
    let flat = replaced(path, '/', '\\');
    let n: int = other.len() as int;
    let folder = replaced(other, '/', '\\');
    let wanted = replaced(directory, '/', '\\');
    assert(flat =~= folder.push('\\') + name);
    lemma_last_index_of(flat, '\\');
    assert(flat[n] == '\\');
    let at = last_index_of(flat, '\\');
    if at > n {
        assert(flat[at] == name[at - n - 1]);
    }
    assert(flat.take(at + 1) =~= folder.push('\\'));
    assert(replaced(folder.push('\\'), '/', '\\') =~= folder.push('\\')) by {
        assert forall|i: int| 0 <= i < folder.len() implies folder[i] != '/' by {}
    }
    reveal_with_fuel(trim_back_of, 3);
    assert(folder.push('\\').drop_last() =~= folder);
    assert(folder.last() == other.last());
    assert(wanted.last() == directory.last());
    assert(folder != wanted) by {
        if other.len() == directory.len() {
            let i = choose|i: int|
                0 <= i < other.len() && #[trigger] other[i] != directory[i] && other[i] != '/'
                    && directory[i] != '/';
            assert(folder[i] == other[i] && wanted[i] == directory[i]);
        } else {
            assert(folder.len() == other.len() && wanted.len() == directory.len());
        }
    }
}

} // verus!
