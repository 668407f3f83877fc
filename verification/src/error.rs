//! Shared failure vocabulary for the provisioning agent, and the mapping from
//! failures to process exit classes.

use vstd::prelude::*;

verus! {

/// A metadata-service field, named so that an extraction failure can say
/// which field was absent or malformed.
#[derive(Debug, Clone, Copy, PartialEq, Eq, Structural)]
pub enum ImdsField {
    DisablePasswordAuthentication,
    Username,
    PublicKeys,
    Hostname,
}

/// Every failure the provisioning agent can report.
#[derive(Debug, Clone, PartialEq, Eq)]
pub enum Error {
    /// Every enumerated backend for user creation failed.
    NoUserProvisioner,
    /// Every enumerated backend for password provisioning failed.
    NoPasswordProvisioner,
    /// Every enumerated backend for hostname provisioning failed.
    NoHostnameProvisioner,
    /// A non-empty password was requested through the disable-auth-only path.
    NonEmptyPassword,
    /// The just-created account could not be resolved on the host.
    UserMissing { user: String },
    /// An external command ran but exited with a non-zero status.
    SubprocessFailed { command: String, status: i32 },
    /// An external command could not be spawned at all.
    SpawnFailed { command: String },
    /// The system user database could not be queried.
    UserLookupFailed,
    /// The authorized-keys file could not be installed.
    SshInstallFailed,
    /// A metadata-service field was absent or malformed.
    ImdsFieldInvalid { field: ImdsField },
    /// No candidate configuration medium yielded a valid environment.
    NoViableMedium,
    /// A mounted configuration medium held a document without the required
    /// provisioning fields.
    OvfEnvInvalid,
    /// The goal-state document was malformed or unreachable.
    GoalstateInvalid,
    /// The hypervisor rejected the health report, or its submission failed.
    HealthReportRejected,
    /// A network request failed at the transport layer.
    Transport,
}

/// The exit class of one provisioning run, mapped to a concrete process exit
/// code outside the library.
#[derive(Debug, Clone, Copy, PartialEq, Eq, Structural)]
pub enum ExitKind {
    /// Provisioning completed; exit code 0.
    Success,
    /// A configuration-class failure: the created account was unexpectedly
    /// missing, or a non-empty password was requested.
    ConfigError,
    /// Any other failure.
    Failure,
}

/// The exit class owed for the outcome of a provisioning run: configuration
/// failures are distinguished from all the others.
pub open spec fn spec_exit_kind(r: Result<(), Error>) -> ExitKind {
    match r {
        Ok(_) => ExitKind::Success,
        Err(Error::UserMissing { .. }) => ExitKind::ConfigError,
        Err(Error::NonEmptyPassword) => ExitKind::ConfigError,
        Err(_) => ExitKind::Failure,
    }
}

/// Maps the outcome of a provisioning run to its exit class.
pub fn exit_kind(r: &Result<(), Error>) -> (k: ExitKind)
    ensures
        k == spec_exit_kind(*r),
{
    match r {
        Ok(_) => ExitKind::Success,
        Err(Error::UserMissing { .. }) => ExitKind::ConfigError,
        Err(Error::NonEmptyPassword) => ExitKind::ConfigError,
        Err(_) => ExitKind::Failure,
    }
}

} // verus!
