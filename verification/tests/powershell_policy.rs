//! The effective execution policy, as a probe reports it.

use fwdslash::powershell_policy::{
    parse_effective_execution_policy, ExecutionPolicy, ProbeError,
};

#[test]
fn parses_restricted_default_and_remote_signed_policy() {
    assert_eq!(
        parse_effective_execution_policy("Restricted\r\n"),
        Ok(ExecutionPolicy::Restricted)
    );
    assert_eq!(
        parse_effective_execution_policy("Undefined\n"),
        Ok(ExecutionPolicy::Undefined)
    );
    assert_eq!(
        parse_effective_execution_policy("RemoteSigned\n"),
        Ok(ExecutionPolicy::RemoteSigned)
    );
}

#[test]
fn rejects_failed_or_malformed_probe_answers() {
    assert_eq!(
        parse_effective_execution_policy("\n"),
        Err(ProbeError::MalformedOutput)
    );
    assert_eq!(
        parse_effective_execution_policy("Unknown\n"),
        Err(ProbeError::MalformedOutput)
    );
    assert_eq!(
        parse_effective_execution_policy("Restricted\nRemoteSigned\n"),
        Err(ProbeError::MalformedOutput)
    );
    assert!(
        ProbeError::Unavailable
            .message()
            .contains("Could not verify")
    );
    assert!(ProbeError::Failed.message().contains("Could not verify"));
    assert!(ProbeError::TimedOut.message().contains("timed out"));
}
