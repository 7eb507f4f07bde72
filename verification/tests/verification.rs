//! What a staged bundle has to be before it is handed to the system.

use fwdslash::package::STORE_IDENTITY_NAME;
use fwdslash::update::UpdateVerificationError;
use fwdslash::verification::{
    verify_authenticode_status, verify_bundle_architectures, verify_not_reparse_point,
    verify_package_identity, PackageIdentity, ARCHITECTURE_ARM64, ARCHITECTURE_X64,
    FILE_ATTRIBUTE_REPARSE_POINT,
};

const PUBLISHER: &str = "CN=Fara Technologies LLC";

const FILE_ATTRIBUTE_NORMAL: u32 = 0x80;

fn identity<'a>(
    name: &'a str,
    publisher: &'a str,
    version: &'a str,
    architecture: u32,
) -> PackageIdentity<'a> {
    PackageIdentity {
        name,
        publisher,
        version,
        architecture,
    }
}

fn valid_identity() -> PackageIdentity<'static> {
    identity(
        STORE_IDENTITY_NAME,
        PUBLISHER,
        "0.0.7.0",
        ARCHITECTURE_X64,
    )
}

#[test]
fn an_authenticode_failure_is_never_reclassified() {
    assert_eq!(
        verify_authenticode_status(-1),
        Err(UpdateVerificationError::SignatureFailure)
    );
    assert_eq!(verify_authenticode_status(0), Ok(()));
}

#[test]
fn package_identity_failures_are_precise() {
    let expected_version = "0.0.7.0";
    let mut invalid = valid_identity();
    invalid.name = "unrelated.product";
    assert_eq!(
        verify_package_identity(invalid, PUBLISHER, expected_version),
        Err(UpdateVerificationError::IdentityMismatch)
    );

    let mut invalid = valid_identity();
    invalid.publisher = "CN=Unrelated Publisher";
    assert_eq!(
        verify_package_identity(invalid, PUBLISHER, expected_version),
        Err(UpdateVerificationError::PublisherMismatch)
    );

    let mut invalid = valid_identity();
    invalid.version = "0.0.8.0";
    assert_eq!(
        verify_package_identity(invalid, PUBLISHER, expected_version),
        Err(UpdateVerificationError::VersionMismatch)
    );
}

#[test]
fn a_bundle_requires_exactly_supported_architectures() {
    assert_eq!(
        verify_bundle_architectures(&[ARCHITECTURE_X64]),
        Err(UpdateVerificationError::ArchitectureMismatch)
    );
    assert_eq!(
        verify_bundle_architectures(&[
            ARCHITECTURE_X64,
            ARCHITECTURE_ARM64,
            999,
        ]),
        Err(UpdateVerificationError::ArchitectureMismatch)
    );
    assert_eq!(
        verify_bundle_architectures(&[
            ARCHITECTURE_X64,
            ARCHITECTURE_ARM64,
        ]),
        Ok(())
    );
}

#[test]
fn reparse_point_attributes_are_rejected_for_ancestors_and_bundle_files() {
    assert_eq!(
        verify_not_reparse_point(FILE_ATTRIBUTE_REPARSE_POINT),
        Err(UpdateVerificationError::IoFailure),
        "an ancestor junction must fail closed"
    );
    assert_eq!(
        verify_not_reparse_point(FILE_ATTRIBUTE_REPARSE_POINT | FILE_ATTRIBUTE_NORMAL),
        Err(UpdateVerificationError::IoFailure),
        "a bundle-file link must fail closed"
    );
    assert_eq!(verify_not_reparse_point(FILE_ATTRIBUTE_NORMAL), Ok(()));
}
