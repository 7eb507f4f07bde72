//! The checks a staged bundle passes before it is deployed.

use crate::package::STORE_IDENTITY_NAME;
use crate::path::text_in;
use crate::settings::as_deref;
use crate::text::{
    chars_of, decimal, find_last_char, hex, hex_lower, is_hex, last_index_of, lemma_last_index_of,
    part, push_decimal, push_hex_lower, replace_char, replaced, same, same_chars,
    same_ignoring_case, same_text_ignoring_case, string_in, string_of, trim, trim_back_of,
    trim_end_of, trimmed,
};
use crate::update::{expected_bundle_version, is_digest, UpdateVerificationError};
use sha2::{Digest, Sha256};
use vstd::prelude::*;

verus! {

/// What `Sha256::digest` of the `sha2` crate returns for some bytes.
pub uninterp spec fn sha2_digest(bytes: Seq<u8>) -> Seq<u8>;

/// `sha2::Sha256::digest`: the SHA-256 digest of the bytes, which is always
/// thirty-two bytes. Which bytes they are is not stated here.
#[verifier::external_body]
fn sha256_digest(bytes: &[u8]) -> (r: Vec<u8>)
    ensures
        r@ == sha2_digest(bytes@),
        r@.len() == 32,
{
    Sha256::digest(bytes).to_vec()
}

/// Some bytes in lower-case hexadecimal.
pub open spec fn hex_of(bytes: Seq<u8>) -> Seq<char>
    decreases bytes.len(),
{
    if bytes.len() == 0 {
        Seq::empty()
    } else {
        hex_of(bytes.drop_last()) + hex_lower(bytes.last() as nat, 2)
    }
}

/// Some bytes in lower-case hexadecimal.
pub fn hex_string(bytes: &[u8]) -> (r: String)
    ensures
        r@ == hex_of(bytes@),
{
    let mut text: String = String::new();
    for i in 0..bytes.len()
        invariant
            text@ == hex_of(bytes@.take(i as int)),
    {
        proof {
            assert(bytes@.take(i + 1).drop_last() =~= bytes@.take(i as int));
        }
        push_hex_lower(&mut text, bytes[i] as u64, 2);
    }
    assert(bytes@.take(bytes@.len() as int) =~= bytes@);
    text
}

/// Whether the text of a digest file, without surrounding white space, is the
/// hexadecimal form of some digest bytes, in any case.
pub open spec fn digest_file_matches(file: Seq<char>, digest: Seq<u8>) -> bool {
    is_digest(trimmed(file)) && same_ignoring_case(hex_of(digest), trimmed(file))
}

/// Holds the text of a digest file against the digest that was computed.
pub fn compare_digest(file: &str, digest: &[u8]) -> (r: Result<(), UpdateVerificationError>)
    ensures
        r == if digest_file_matches(file@, digest@) {
            Ok::<(), UpdateVerificationError>(())
        } else {
            Err::<(), UpdateVerificationError>(UpdateVerificationError::DigestMismatch)
        },
{
    let chars = chars_of(file);
    let expected = trim(chars.as_slice());
    if expected.len() != 64 {
        return Err(UpdateVerificationError::DigestMismatch);
    }
    for i in 0..expected.len()
        invariant
            expected@ == trimmed(file@),
            expected@.len() == 64,
            forall|j: int| 0 <= j < i ==> is_hex(#[trigger] expected@[j]),
    {
        if !hex(expected[i]) {
            assert(!is_digest(trimmed(file@)));
            return Err(UpdateVerificationError::DigestMismatch);
        }
    }
    if same_text_ignoring_case(hex_string(digest).as_str(), string_of(expected).as_str()) {
        Ok(())
    } else {
        Err(UpdateVerificationError::DigestMismatch)
    }
}

/// Holds a bundle against its digest file. `None` stands for a file that could not
/// be read.
pub fn verify_digest(bundle: Option<&[u8]>, file: Option<&str>) -> (r: Result<
    (),
    UpdateVerificationError,
>)
    ensures
        r == match (file, bundle) {
            (None, _) => Err::<(), UpdateVerificationError>(UpdateVerificationError::IoFailure),
            (Some(text), None) => if is_digest(trimmed(text@)) {
                Err::<(), UpdateVerificationError>(UpdateVerificationError::IoFailure)
            } else {
                Err::<(), UpdateVerificationError>(UpdateVerificationError::DigestMismatch)
            },
            (Some(text), Some(bytes)) => if digest_file_matches(text@, sha2_digest(bytes@)) {
                Ok::<(), UpdateVerificationError>(())
            } else {
                Err::<(), UpdateVerificationError>(UpdateVerificationError::DigestMismatch)
            },
        },
{
    let text = match file {
        Some(text) => text,
        None => {
            return Err(UpdateVerificationError::IoFailure);
        },
    };
    match bundle {
        Some(bytes) => compare_digest(text, sha256_digest(bytes).as_slice()),
        None => {
            if is_digest_text(text) {
                Err(UpdateVerificationError::IoFailure)
            } else {
                Err(UpdateVerificationError::DigestMismatch)
            }
        },
    }
}

/// Whether the text of a digest file has the shape of a digest.
pub fn is_digest_text(file: &str) -> (r: bool)
    ensures
        r == is_digest(trimmed(file@)),
{
    let chars = chars_of(file);
    let expected = trim(chars.as_slice());
    if expected.len() != 64 {
        return false;
    }
    for i in 0..expected.len()
        invariant
            expected@ == trimmed(file@),
            expected@.len() == 64,
            forall|j: int| 0 <= j < i ==> is_hex(#[trigger] expected@[j]),
    {
        if !hex(expected[i]) {
            return false;
        }
    }
    true
}

/// The attribute of a link or junction.
pub const FILE_ATTRIBUTE_REPARSE_POINT: u32 = 0x400;

/// A staged file or one of its folders must be no link.
pub fn verify_not_reparse_point(attributes: u32) -> (r: Result<(), UpdateVerificationError>)
    ensures
        r == if attributes & FILE_ATTRIBUTE_REPARSE_POINT != 0 {
            Err::<(), UpdateVerificationError>(UpdateVerificationError::IoFailure)
        } else {
            Ok::<(), UpdateVerificationError>(())
        },
{
    if attributes & FILE_ATTRIBUTE_REPARSE_POINT != 0 {
        Err(UpdateVerificationError::IoFailure)
    } else {
        Ok(())
    }
}

/// A signature is good exactly when Windows says so.
pub fn verify_authenticode_status(status: i32) -> (r: Result<(), UpdateVerificationError>)
    ensures
        r == if status == 0 {
            Ok::<(), UpdateVerificationError>(())
        } else {
            Err::<(), UpdateVerificationError>(UpdateVerificationError::SignatureFailure)
        },
{
    if status == 0 {
        Ok(())
    } else {
        Err(UpdateVerificationError::SignatureFailure)
    }
}

/// What a package manifest says of the package.
#[derive(Debug, Clone, Copy, PartialEq, Eq)]
pub struct PackageIdentity<'a> {
    pub name: &'a str,
    pub publisher: &'a str,
    pub version: &'a str,
    pub architecture: u32,
}

/// What holding an identity against the expected one gives: the first difference,
/// or the architecture.
pub open spec fn identity_result(
    name: Seq<char>,
    publisher: Seq<char>,
    version: Seq<char>,
    architecture: u32,
    expected_publisher: Seq<char>,
    expected_version: Seq<char>,
) -> Result<u32, UpdateVerificationError> {
    if name != STORE_IDENTITY_NAME@ {
        Err(UpdateVerificationError::IdentityMismatch)
    } else if publisher != expected_publisher {
        Err(UpdateVerificationError::PublisherMismatch)
    } else if version != expected_version {
        Err(UpdateVerificationError::VersionMismatch)
    } else {
        Ok(architecture)
    }
}

/// Holds a package's identity against the expected one.
pub fn verify_package_identity(
    identity: PackageIdentity<'_>,
    expected_publisher: &str,
    expected_version: &str,
) -> (r: Result<u32, UpdateVerificationError>)
    ensures
        r == identity_result(
            identity.name@,
            identity.publisher@,
            identity.version@,
            identity.architecture,
            expected_publisher@,
            expected_version@,
        ),
{
    if !same(identity.name, STORE_IDENTITY_NAME) {
        return Err(UpdateVerificationError::IdentityMismatch);
    }
    if !same(identity.publisher, expected_publisher) {
        return Err(UpdateVerificationError::PublisherMismatch);
    }
    if !same(identity.version, expected_version) {
        return Err(UpdateVerificationError::VersionMismatch);
    }
    Ok(identity.architecture)
}

/// A packed package version as text: four numbers of sixteen bits, the most
/// significant first.
pub open spec fn packed_version_text(packed: u64) -> Seq<char> {
    decimal((packed / 0x1_0000_0000_0000) as nat).push('.') + decimal(
        (packed / 0x1_0000_0000 % 0x1_0000) as nat,
    ).push('.') + decimal((packed / 0x1_0000 % 0x1_0000) as nat).push('.') + decimal(
        (packed % 0x1_0000) as nat,
    )
}

/// A packed package version as text.
pub fn packed_version(packed: u64) -> (r: String)
    ensures
        r@ == packed_version_text(packed),
{
    let mut text: String = String::new();
    push_decimal(&mut text, packed / 0x1_0000_0000_0000);
    text.push('.');
    push_decimal(&mut text, packed / 0x1_0000_0000 % 0x1_0000);
    text.push('.');
    push_decimal(&mut text, packed / 0x1_0000 % 0x1_0000);
    text.push('.');
    push_decimal(&mut text, packed % 0x1_0000);
    assert(text@ =~= packed_version_text(packed));
    text
}

/// What one package of a bundle says of itself, as far as it could be read.
#[derive(Debug, Clone, PartialEq, Eq)]
pub struct PackageReading {
    pub name: Option<String>,
    pub publisher: Option<String>,
    pub version: Option<u64>,
    pub architecture: Option<u32>,
}

/// What holding one package against the expected identity gives. A part that could
/// not be read fails as that part.
pub open spec fn reading_result(
    reading: PackageReading,
    expected_publisher: Seq<char>,
    expected_version: Seq<char>,
) -> Result<u32, UpdateVerificationError> {
    if reading.name is None {
        Err(UpdateVerificationError::IdentityMismatch)
    } else if reading.publisher is None {
        Err(UpdateVerificationError::PublisherMismatch)
    } else if reading.version is None {
        Err(UpdateVerificationError::VersionMismatch)
    } else if reading.architecture is None {
        Err(UpdateVerificationError::ArchitectureMismatch)
    } else {
        identity_result(
            reading.name->Some_0@,
            reading.publisher->Some_0@,
            packed_version_text(reading.version->Some_0),
            reading.architecture->Some_0,
            expected_publisher,
            expected_version,
        )
    }
}

/// Holds one package of a bundle against the expected identity.
pub fn verify_package_id(
    reading: &PackageReading,
    expected_publisher: &str,
    expected_version: &str,
) -> (r: Result<u32, UpdateVerificationError>)
    ensures
        r == reading_result(*reading, expected_publisher@, expected_version@),
{
    let name = match &reading.name {
        Some(name) => name,
        None => {
            return Err(UpdateVerificationError::IdentityMismatch);
        },
    };
    let publisher = match &reading.publisher {
        Some(publisher) => publisher,
        None => {
            return Err(UpdateVerificationError::PublisherMismatch);
        },
    };
    let version = match reading.version {
        Some(version) => packed_version(version),
        None => {
            return Err(UpdateVerificationError::VersionMismatch);
        },
    };
    let architecture = match reading.architecture {
        Some(architecture) => architecture,
        None => {
            return Err(UpdateVerificationError::ArchitectureMismatch);
        },
    };
    verify_package_identity(
        PackageIdentity {
            name: name.as_str(),
            publisher: publisher.as_str(),
            version: version.as_str(),
            architecture,
        },
        expected_publisher,
        expected_version,
    )
}

pub const ARCHITECTURE_X64: u32 = 9;

pub const ARCHITECTURE_ARM64: u32 = 12;

/// Whether a bundle carries exactly the supported architectures: both, and no
/// other.
pub open spec fn are_supported(architectures: Seq<u32>) -> bool {
    &&& architectures.contains(ARCHITECTURE_X64)
    &&& architectures.contains(ARCHITECTURE_ARM64)
    &&& forall|i: int|
        0 <= i < architectures.len() ==> #[trigger] architectures[i] == ARCHITECTURE_X64
            || architectures[i] == ARCHITECTURE_ARM64
}

/// A bundle must carry both supported architectures and no other.
pub fn verify_bundle_architectures(architectures: &[u32]) -> (r: Result<
    (),
    UpdateVerificationError,
>)
    ensures
        r == if are_supported(architectures@) {
            Ok::<(), UpdateVerificationError>(())
        } else {
            Err::<(), UpdateVerificationError>(UpdateVerificationError::ArchitectureMismatch)
        },
{
    let mut seen_x64 = false;
    let mut seen_arm64 = false;
    for i in 0..architectures.len()
        invariant
            seen_x64 ==> architectures@.contains(ARCHITECTURE_X64),
            seen_arm64 ==> architectures@.contains(ARCHITECTURE_ARM64),
            !seen_x64 ==> forall|j: int|
                0 <= j < i ==> #[trigger] architectures@[j] != ARCHITECTURE_X64,
            !seen_arm64 ==> forall|j: int|
                0 <= j < i ==> #[trigger] architectures@[j] != ARCHITECTURE_ARM64,
            forall|j: int|
                0 <= j < i ==> #[trigger] architectures@[j] == ARCHITECTURE_X64 || architectures@[j]
                    == ARCHITECTURE_ARM64,
    {
        let architecture = architectures[i];
        assert(architectures@.contains(architectures@[i as int]));
        if architecture == ARCHITECTURE_X64 {
            seen_x64 = true;
        } else if architecture == ARCHITECTURE_ARM64 {
            seen_arm64 = true;
        } else {
            return Err(UpdateVerificationError::ArchitectureMismatch);
        }
    }
    if seen_x64 && seen_arm64 {
        Ok(())
    } else {
        Err(UpdateVerificationError::ArchitectureMismatch)
    }
}

/// The first refusal among the packages, or their architectures.
pub open spec fn readings_result(
    readings: Seq<PackageReading>,
    expected_publisher: Seq<char>,
    expected_version: Seq<char>,
) -> Result<Seq<u32>, UpdateVerificationError>
    decreases readings.len(),
{
    if readings.len() == 0 {
        Ok(Seq::empty())
    } else {
        match readings_result(readings.drop_last(), expected_publisher, expected_version) {
            Err(error) => Err(error),
            Ok(before) => match reading_result(
                readings.last(),
                expected_publisher,
                expected_version,
            ) {
                Ok(architecture) => Ok(before.push(architecture)),
                Err(error) => Err(error),
            },
        }
    }
}

/// What holding a bundle's manifest against its tag gives: the bundle's own
/// identity first, then every package, then the architectures.
pub open spec fn manifest_result(
    tag: Seq<char>,
    bundle: PackageReading,
    packages: Seq<PackageReading>,
    expected_publisher: Seq<char>,
) -> Result<(), UpdateVerificationError> {
    match crate::update::bundle_version_text(tag) {
        None => Err(UpdateVerificationError::VersionMismatch),
        Some(version) => match reading_result(bundle, expected_publisher, version) {
            Err(error) => Err(error),
            Ok(_) => match readings_result(packages, expected_publisher, version) {
                Err(error) => Err(error),
                Ok(architectures) => if are_supported(architectures) {
                    Ok(())
                } else {
                    Err(UpdateVerificationError::ArchitectureMismatch)
                },
            },
        },
    }
}

/// Holds a bundle's manifest against the tag it was downloaded for.
pub fn verify_bundle_manifest(
    tag: &str,
    bundle: &PackageReading,
    packages: &[PackageReading],
    expected_publisher: &str,
) -> (r: Result<(), UpdateVerificationError>)
    ensures
        r == manifest_result(tag@, *bundle, packages@, expected_publisher@),
{
    let version = match crate::update::expected_bundle_version(tag) {
        Some(version) => version,
        None => {
            return Err(UpdateVerificationError::VersionMismatch);
        },
    };
    if let Err(error) = verify_package_id(bundle, expected_publisher, version.as_str()) {
        return Err(error);
    }
    let mut architectures: Vec<u32> = Vec::new();
    for i in 0..packages.len()
        invariant
            crate::update::bundle_version_text(tag@) == Some(version@),
            reading_result(*bundle, expected_publisher@, version@) is Ok,
            readings_result(packages@.take(i as int), expected_publisher@, version@) == Ok::<
                Seq<u32>,
                UpdateVerificationError,
            >(architectures@),
    {
        proof {
            assert(packages@.take(i + 1).drop_last() =~= packages@.take(i as int));
            assert(packages@.take(i + 1).last() == packages@[i as int]);
        }
        match verify_package_id(&packages[i], expected_publisher, version.as_str()) {
            Ok(architecture) => {
                architectures.push(architecture);
            },
            Err(error) => {
                proof {
                    lemma_refusal_stands(packages@, i as int, expected_publisher@, version@);
                }
                return Err(error);
            },
        }
    }
    assert(packages@.take(packages@.len() as int) =~= packages@);
    verify_bundle_architectures(architectures.as_slice())
}

/// A refused package refuses the bundle, whatever follows it.
proof fn lemma_refusal_stands(
    readings: Seq<PackageReading>,
    at: int,
    expected_publisher: Seq<char>,
    expected_version: Seq<char>,
)
    requires
        0 <= at < readings.len(),
        readings_result(readings.take(at), expected_publisher, expected_version) is Ok,
        reading_result(readings[at], expected_publisher, expected_version) is Err,
    ensures
        readings_result(readings, expected_publisher, expected_version) == Err::<
            Seq<u32>,
            UpdateVerificationError,
        >(reading_result(readings[at], expected_publisher, expected_version)->Err_0),
    decreases readings.len(),
{
    let init = readings.drop_last();
    if at == readings.len() - 1 {
        assert(readings.take(at) =~= init);
    } else {
        assert(init.take(at) =~= readings.take(at));
        lemma_refusal_stands(init, at, expected_publisher, expected_version);
    }
}

/// Whether a path is the bundle that is pending: verification starts from the
/// recorded tag and the path it stands for, never from what it was handed.
pub fn check_staged_path(tag: Option<&str>, pending: Option<&str>, bundle: &str) -> (r: Result<
    (),
    UpdateVerificationError,
>)
    ensures
        r == if tag is None {
            Err::<(), UpdateVerificationError>(UpdateVerificationError::VersionMismatch)
        } else if pending is None {
            Err::<(), UpdateVerificationError>(UpdateVerificationError::IoFailure)
        } else if bundle@ != pending->Some_0@ {
            Err::<(), UpdateVerificationError>(UpdateVerificationError::AssetNameMismatch)
        } else {
            Ok::<(), UpdateVerificationError>(())
        },
{
    if tag.is_none() {
        return Err(UpdateVerificationError::VersionMismatch);
    }
    match pending {
        None => Err(UpdateVerificationError::IoFailure),
        Some(expected) => if same(bundle, expected) {
            Ok(())
        } else {
            Err(UpdateVerificationError::AssetNameMismatch)
        },
    }
}

/// A folder with one kind of separator, and none at its end.
pub open spec fn folder_text(folder: Seq<char>) -> Seq<char> {
    trim_back_of(replaced(folder, '/', '\\'), '\\')
}

/// Whether a path names something directly inside a directory.
pub open spec fn is_directly_in(path: Seq<char>, directory: Seq<char>) -> bool {
    let flat = replaced(path, '/', '\\');
    let at = last_index_of(flat, '\\');
    let name = flat.skip(at + 1);
    &&& directory.len() > 0
    &&& at >= 0
    &&& name.len() > 0
    &&& name != seq!['.']
    &&& folder_text(flat.take(at + 1)) == folder_text(directory)
}

/// What the check of the staging directory gives.
pub open spec fn staging_result(
    directory: Option<Seq<char>>,
    absolute: bool,
    path: Seq<char>,
) -> Result<(), UpdateVerificationError> {
    if directory is None {
        Err(UpdateVerificationError::IoFailure)
    } else if !is_directly_in(path, directory->Some_0) {
        Err(UpdateVerificationError::AssetNameMismatch)
    } else if !absolute {
        Err(UpdateVerificationError::IoFailure)
    } else {
        Ok(())
    }
}

/// A bundle is only ever taken from the update directory itself, and that directory
/// has to be named from its root.
pub fn check_staging_directory(directory: Option<&str>, absolute: bool, path: &str) -> (r: Result<
    (),
    UpdateVerificationError,
>)
    ensures
        r == staging_result(text_in(directory), absolute, path@),
{
    let folder = match directory {
        Some(folder) => folder,
        None => {
            return Err(UpdateVerificationError::IoFailure);
        },
    };
    let mismatch: Result<(), UpdateVerificationError> = Err(
        UpdateVerificationError::AssetNameMismatch,
    );
    let flat = replace_char(chars_of(path).as_slice(), '/', '\\');
    let expected = replace_char(chars_of(folder).as_slice(), '/', '\\');
    let n: usize = flat.len();
    proof {
        lemma_last_index_of(flat@, '\\');
    }
    let at = match find_last_char(flat.as_slice(), '\\') {
        Some(at) => at,
        None => {
            return mismatch;
        },
    };
    let front = part(flat.as_slice(), 0, at + 1);
    let name = part(flat.as_slice(), at + 1, n);
    proof {
        assert(front@ =~= flat@.take(at + 1));
        assert(name@ =~= flat@.skip(at + 1));
        assert(replaced(front@, '/', '\\') =~= front@) by {
            assert forall|j: int| 0 <= j < front@.len() implies front@[j] != '/' by {
                assert(front@[j] == flat@[j]);
            }
        }
    }
    if expected.len() == 0 || name.len() == 0 || !same_chars(
        trim_end_of(front, '\\'),
        trim_end_of(expected.as_slice(), '\\'),
    ) {
        return mismatch;
    }
    if name.len() == 1 && name[0] == '.' {
        assert(name@ =~= seq!['.']);
        return mismatch;
    }
    if absolute {
        Ok(())
    } else {
        Err(UpdateVerificationError::IoFailure)
    }
}

// ---------------------------------------------------------------------------
// Laws
// ---------------------------------------------------------------------------

/// A bundle is accepted only where its digest file is the hexadecimal form of the
/// computed digest: nothing shorter, longer or different passes.
pub proof fn law_accepted_digest_is_the_computed_one(file: Seq<char>, digest: Seq<u8>)
    requires
        digest_file_matches(file, digest),
        digest.len() == 32,
    ensures
        trimmed(file).len() == hex_of(digest).len(),
        forall|i: int|
            0 <= i < trimmed(file).len() ==> crate::text::lower(#[trigger] trimmed(file)[i])
                == crate::text::lower(hex_of(digest)[i]),
{
    assert forall|i: int| 0 <= i < trimmed(file).len() implies crate::text::lower(
        #[trigger] trimmed(file)[i],
    ) == crate::text::lower(hex_of(digest)[i]) by {
        assert(crate::text::lower(hex_of(digest)[i]) == crate::text::lower(trimmed(file)[i]));
    }
}

/// The hexadecimal form of a digest, written to a digest file with white space
/// around it or none, is accepted for that digest.
pub proof fn law_written_digest_is_accepted(file: Seq<char>, digest: Seq<u8>)
    requires
        digest.len() == 32,
        trimmed(file) == hex_of(digest),
    ensures
        digest_file_matches(file, digest),
{
    lemma_hex_of(digest);
}

proof fn lemma_hex_of(bytes: Seq<u8>)
    ensures
        hex_of(bytes).len() == 2 * bytes.len(),
        forall|i: int| 0 <= i < hex_of(bytes).len() ==> is_hex(#[trigger] hex_of(bytes)[i]),
    decreases bytes.len(),
{
    if bytes.len() > 0 {
        let init = bytes.drop_last();
        lemma_hex_of(init);
        crate::text::lemma_hex_lower(bytes.last() as nat, 2);
        assert forall|i: int| 0 <= i < hex_of(bytes).len() implies is_hex(
            #[trigger] hex_of(bytes)[i],
        ) by {
            if i < hex_of(init).len() {
                assert(hex_of(bytes)[i] == hex_of(init)[i]);
            } else {
                assert(hex_of(bytes)[i] == hex_lower(bytes.last() as nat, 2)[i - hex_of(
                    init,
                ).len()]);
            }
        }
    }
}

// ---------------------------------------------------------------------------
// The whole of it
// ---------------------------------------------------------------------------

/// What was read of a staged bundle, in the order in which it is checked. Once a
/// part fails, nothing behind it needs to have been read.
pub struct StagedBundle {
    /// The recorded release.
    pub tag: Option<String>,
    /// Where its bundle is expected.
    pub pending: Option<String>,
    /// The update directory, and whether it is named from its root.
    pub directory: Option<String>,
    pub directory_absolute: bool,
    /// The attributes of each directory above it, of the bundle and of its digest
    /// file, as each was opened and held; `None` for one that could not be.
    pub attributes: Vec<Option<u32>>,
    pub digest_file: Option<String>,
    pub content: Option<Vec<u8>>,
    /// The status of the signature check.
    pub signature: i32,
    /// The manifest, or why it could not be opened.
    pub manifest: Result<BundleManifest, UpdateVerificationError>,
}

/// What a bundle's manifest says of the bundle and of the packages in it.
pub struct BundleManifest {
    pub bundle: PackageReading,
    pub packages: Vec<PackageReading>,
}

/// Whether everything was opened and nothing of it leads elsewhere.
pub open spec fn is_private(attributes: Seq<Option<u32>>) -> bool {
    forall|i: int|
        0 <= i < attributes.len() ==> match #[trigger] attributes[i] {
            Some(bits) => bits & FILE_ATTRIBUTE_REPARSE_POINT == 0,
            None => false,
        }
}

/// What the digest check gives.
pub open spec fn digest_result(content: Option<Seq<u8>>, file: Option<Seq<char>>) -> Result<
    (),
    UpdateVerificationError,
> {
    match file {
        None => Err(UpdateVerificationError::IoFailure),
        Some(text) => if !is_digest(trimmed(text)) {
            Err(UpdateVerificationError::DigestMismatch)
        } else {
            match content {
                None => Err(UpdateVerificationError::IoFailure),
                Some(bytes) => if digest_file_matches(text, sha2_digest(bytes)) {
                    Ok(())
                } else {
                    Err(UpdateVerificationError::DigestMismatch)
                },
            }
        },
    }
}

/// The first check that fails decides.
pub open spec fn staged_result(
    staged: StagedBundle,
    path: Seq<char>,
    expected_publisher: Seq<char>,
) -> Result<(), UpdateVerificationError> {
    let digest = digest_result(
        match staged.content {
            Some(bytes) => Some(bytes@),
            None => None,
        },
        string_in(staged.digest_file),
    );
    let staging = staging_result(string_in(staged.directory), staged.directory_absolute, path);
    if staged.tag is None {
        Err(UpdateVerificationError::VersionMismatch)
    } else if staged.pending is None {
        Err(UpdateVerificationError::IoFailure)
    } else if string_in(staged.pending) != Some(path) {
        Err(UpdateVerificationError::AssetNameMismatch)
    } else if staging is Err {
        staging
    } else if !is_private(staged.attributes@) {
        Err(UpdateVerificationError::IoFailure)
    } else if digest is Err {
        digest
    } else if staged.signature != 0 {
        Err(UpdateVerificationError::SignatureFailure)
    } else if crate::update::bundle_version_text(string_in(staged.tag)->Some_0) is None {
        Err(UpdateVerificationError::VersionMismatch)
    } else {
        match staged.manifest {
            Err(error) => Err(error),
            Ok(manifest) => manifest_result(
                string_in(staged.tag)->Some_0,
                manifest.bundle,
                manifest.packages@,
                expected_publisher,
            ),
        }
    }
}

/// Whether everything was opened and nothing of it leads elsewhere.
fn check_private(attributes: &[Option<u32>]) -> (r: Result<(), UpdateVerificationError>)
    ensures
        r == if is_private(attributes@) {
            Ok::<(), UpdateVerificationError>(())
        } else {
            Err::<(), UpdateVerificationError>(UpdateVerificationError::IoFailure)
        },
{
    for i in 0..attributes.len()
        invariant
            is_private(attributes@.take(i as int)),
    {
        assert(attributes@.take(i + 1)[i as int] == attributes@[i as int]);
        match attributes[i] {
            Some(bits) => {
                if let Err(error) = verify_not_reparse_point(bits) {
                    return Err(error);
                }
            },
            None => {
                return Err(UpdateVerificationError::IoFailure);
            },
        }
        assert forall|j: int| 0 <= j < i + 1 implies match #[trigger] attributes@.take(i + 1)[j] {
            Some(bits) => bits & FILE_ATTRIBUTE_REPARSE_POINT == 0,
            None => false,
        } by {
            if j < i {
                assert(attributes@.take(i + 1)[j] == attributes@.take(i as int)[j]);
            }
        }
    }
    assert(attributes@.take(attributes@.len() as int) =~= attributes@);
    Ok(())
}

/// Accepts a staged bundle only where it is the recorded one, nothing on its path
/// leads elsewhere, its digest and its signature hold, and its manifest names this
/// package in the expected version.
pub fn verify_staged_bundle(staged: &StagedBundle, path: &str, expected_publisher: &str) -> (r:
    Result<(), UpdateVerificationError>)
    ensures
        r == staged_result(*staged, path@, expected_publisher@),
{
    if let Err(error) = check_staged_path(as_deref(&staged.tag), as_deref(&staged.pending), path) {
        return Err(error);
    }
    if let Err(error) = check_staging_directory(
        as_deref(&staged.directory),
        staged.directory_absolute,
        path,
    ) {
        return Err(error);
    }
    if let Err(error) = check_private(staged.attributes.as_slice()) {
        return Err(error);
    }
    let content: Option<&[u8]> = match &staged.content {
        Some(bytes) => Some(bytes.as_slice()),
        None => None,
    };
    if let Err(error) = verify_digest(content, as_deref(&staged.digest_file)) {
        return Err(error);
    }
    if let Err(error) = verify_authenticode_status(staged.signature) {
        return Err(error);
    }
    let tag = match &staged.tag {
        Some(tag) => tag.as_str(),
        None => {
            return Err(UpdateVerificationError::VersionMismatch);
        },
    };
    if expected_bundle_version(tag).is_none() {
        return Err(UpdateVerificationError::VersionMismatch);
    }
    match &staged.manifest {
        Err(error) => Err(*error),
        Ok(manifest) => verify_bundle_manifest(
            tag,
            &manifest.bundle,
            manifest.packages.as_slice(),
            expected_publisher,
        ),
    }
}

}
