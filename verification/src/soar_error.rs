//! The errors of the package manager: those of its configuration and those
//! of its operations, each with the message the user reads.

use vstd::prelude::*;

use crate::error::{decimal, decimal_of};
use crate::text::{chars_of, concat, string_of};

verus! {

/// Errors of loading and checking the configuration.
#[derive(Debug)]
pub enum ConfigError {
    /// The configuration file is already there.
    ConfigAlreadyExists,
    /// The packages configuration file is missing.
    PackagesConfigNotFound(String),
    /// The packages configuration file is already there.
    PackagesConfigAlreadyExists,
    /// No profile of this name.
    InvalidProfile(String),
    /// The default profile names no profile.
    MissingDefaultProfile(String),
    /// A profile asked for is not configured.
    MissingProfile(String),
    /// A repository asked for is not configured.
    RepositoryNotFound(String),
    /// A repository name that cannot be a directory name.
    InvalidRepositoryName(String),
    /// A repository URL that does not parse.
    InvalidRepositoryUrl(String),
    /// The name `local` is kept for packages installed from files.
    ReservedRepositoryName,
    /// Two repositories share a name.
    DuplicateRepositoryName(String),
    /// Signature verification without a key to verify with.
    MissingPubkey(String),
    /// An underlying I/O or format error, by its message.
    Io(String),
    /// Any other error, by its message.
    Custom(String),
}

/// `a`, then `s`, then `b`.
fn framed(a: &str, s: &String, b: &str) -> (v: Vec<char>)
    ensures
        v@ == a@ + s@ + b@,
{
    let x = concat(&chars_of(a), &chars_of(s.as_str()));
    concat(&x, &chars_of(b))
}

impl ConfigError {
    /// The message of this error.
    pub open spec fn spec_message(&self) -> Seq<char> {
        match self {
            ConfigError::ConfigAlreadyExists => "Configuration file already exists"@,
            ConfigError::PackagesConfigNotFound(p) => "Packages configuration file not found: "@ + p@
                + ""@,
            ConfigError::PackagesConfigAlreadyExists => "Packages configuration file already exists"@,
            ConfigError::InvalidProfile(p) => "Invalid profile: "@ + p@ + ""@,
            ConfigError::MissingDefaultProfile(p) => "Missing default profile: "@ + p@ + ""@,
            ConfigError::MissingProfile(p) => "Missing profile: "@ + p@ + ""@,
            ConfigError::RepositoryNotFound(r) => "Repository '"@ + r@ + "' is not configured"@,
            ConfigError::InvalidRepositoryName(r) => "Repository name '"@ + r@
                + "' is not a valid directory name"@,
            ConfigError::InvalidRepositoryUrl(u) => "Invalid repository URL: "@ + u@ + ""@,
            ConfigError::ReservedRepositoryName => "Reserved repository name 'local' cannot be used"@,
            ConfigError::DuplicateRepositoryName(r) => "Duplicate repository name: "@ + r@ + ""@,
            ConfigError::MissingPubkey(r) => "Repository '"@ + r@
                + "' has signature verification enabled but no pubkey configured"@,
            ConfigError::Io(m) => ""@ + m@ + ""@,
            ConfigError::Custom(m) => ""@ + m@ + ""@,
        }
    }

    /// The message shown to the user for this error.
    pub fn message(&self) -> (s: String)
        ensures
            s@ == self.spec_message(),
    {
        let v = match self {
            ConfigError::ConfigAlreadyExists => chars_of("Configuration file already exists"),
            ConfigError::PackagesConfigNotFound(p) => framed(
                "Packages configuration file not found: ",
                p,
                "",
            ),
            ConfigError::PackagesConfigAlreadyExists => chars_of(
                "Packages configuration file already exists",
            ),
            ConfigError::InvalidProfile(p) => framed("Invalid profile: ", p, ""),
            ConfigError::MissingDefaultProfile(p) => framed("Missing default profile: ", p, ""),
            ConfigError::MissingProfile(p) => framed("Missing profile: ", p, ""),
            ConfigError::RepositoryNotFound(r) => framed("Repository '", r, "' is not configured"),
            ConfigError::InvalidRepositoryName(r) => framed(
                "Repository name '",
                r,
                "' is not a valid directory name",
            ),
            ConfigError::InvalidRepositoryUrl(u) => framed("Invalid repository URL: ", u, ""),
            ConfigError::ReservedRepositoryName => chars_of(
                "Reserved repository name 'local' cannot be used",
            ),
            ConfigError::DuplicateRepositoryName(r) => framed("Duplicate repository name: ", r, ""),
            ConfigError::MissingPubkey(r) => framed(
                "Repository '",
                r,
                "' has signature verification enabled but no pubkey configured",
            ),
            ConfigError::Io(m) => framed("", m, ""),
            ConfigError::Custom(m) => framed("", m, ""),
        };
        string_of(&v)
    }
}

/// Errors of the package manager's operations.
#[derive(Debug)]
pub enum SoarError {
    /// A configuration error, shown as it is.
    Config(ConfigError),
    /// A database operation failed.
    DatabaseError(String),
    /// Integrating a package into the desktop failed.
    PackageIntegrationFailed(String),
    /// No package of this name.
    PackageNotFound(String),
    /// Fetching from a remote source failed.
    FailedToFetchRemote(String),
    /// A path that cannot be used.
    InvalidPath,
    /// A lock was poisoned.
    PoisonError,
    /// A download did not match its checksum.
    InvalidChecksum,
    /// A package query that does not parse.
    InvalidPackageQuery(String),
    /// Any other error, by its message.
    Custom(String),
    /// A warning, by its message.
    Warning(String),
    /// The kernel has no Landlock.
    SandboxNotSupported,
    /// The Landlock ruleset could not be created.
    SandboxRulesetCreation(String),
    /// A path rule could not be added.
    SandboxPathRule {
        /// The path of the rule.
        path: String,
        /// Why it failed.
        reason: String,
    },
    /// A network rule could not be added.
    SandboxNetworkRule {
        /// The port of the rule.
        port: u16,
        /// Why it failed.
        reason: String,
    },
    /// The sandbox could not be enforced.
    SandboxEnforcement(String),
    /// Running the sandboxed command failed.
    SandboxExecution(String),
}

impl SoarError {
    /// The message of this error.
    pub open spec fn spec_message(&self) -> Seq<char> {
        match self {
            SoarError::Config(e) => e.spec_message(),
            SoarError::DatabaseError(m) => "Database operation failed: "@ + m@ + ""@,
            SoarError::PackageIntegrationFailed(m) => "Package integration failed: "@ + m@ + ""@,
            SoarError::PackageNotFound(p) => "Package '"@ + p@ + "' not found"@,
            SoarError::FailedToFetchRemote(m) => "Failed to fetch from remote source: "@ + m@ + ""@,
            SoarError::InvalidPath => "Invalid path specified"@,
            SoarError::PoisonError => "Thread lock poison error"@,
            SoarError::InvalidChecksum => "Invalid checksum detected"@,
            SoarError::InvalidPackageQuery(m) => "Invalid package query: "@ + m@ + ""@,
            SoarError::Custom(m) => ""@ + m@ + ""@,
            SoarError::Warning(m) => ""@ + m@ + ""@,
            SoarError::SandboxNotSupported => "Landlock is not supported on this system"@,
            SoarError::SandboxRulesetCreation(m) => "Failed to create Landlock ruleset: "@ + m@ + ""@,
            SoarError::SandboxPathRule { path, reason } => "Failed to add sandbox rule for path '"@
                + path@ + "': "@ + (""@ + reason@ + ""@),
            SoarError::SandboxNetworkRule { port, reason } =>
                "Failed to add sandbox network rule for port "@ + decimal(*port as nat) + ": "@ + (
                ""@ + reason@ + ""@),
            SoarError::SandboxEnforcement(m) => "Failed to enforce Landlock sandbox: "@ + m@ + ""@,
            SoarError::SandboxExecution(m) => "Sandboxed command execution failed: "@ + m@ + ""@,
        }
    }

    /// The message shown to the user for this error.
    pub fn message(&self) -> (s: String)
        ensures
            s@ == self.spec_message(),
    {
        let v = match self {
            SoarError::Config(e) => chars_of(e.message().as_str()),
            SoarError::DatabaseError(m) => framed("Database operation failed: ", m, ""),
            SoarError::PackageIntegrationFailed(m) => framed("Package integration failed: ", m, ""),
            SoarError::PackageNotFound(p) => framed("Package '", p, "' not found"),
            SoarError::FailedToFetchRemote(m) => framed(
                "Failed to fetch from remote source: ",
                m,
                "",
            ),
            SoarError::InvalidPath => chars_of("Invalid path specified"),
            SoarError::PoisonError => chars_of("Thread lock poison error"),
            SoarError::InvalidChecksum => chars_of("Invalid checksum detected"),
            SoarError::InvalidPackageQuery(m) => framed("Invalid package query: ", m, ""),
            SoarError::Custom(m) => framed("", m, ""),
            SoarError::Warning(m) => framed("", m, ""),
            SoarError::SandboxNotSupported => chars_of("Landlock is not supported on this system"),
            SoarError::SandboxRulesetCreation(m) => framed(
                "Failed to create Landlock ruleset: ",
                m,
                "",
            ),
            SoarError::SandboxPathRule { path, reason } => {
                let a = framed("Failed to add sandbox rule for path '", path, "': ");
                concat(&a, &framed("", reason, ""))
            },
            SoarError::SandboxNetworkRule { port, reason } => {
                let a = concat(
                    &chars_of("Failed to add sandbox network rule for port "),
                    &decimal_of(*port as usize),
                );
                let b = concat(&a, &chars_of(": "));
                concat(&b, &framed("", reason, ""))
            },
            SoarError::SandboxEnforcement(m) => framed(
                "Failed to enforce Landlock sandbox: ",
                m,
                "",
            ),
            SoarError::SandboxExecution(m) => framed("Sandboxed command execution failed: ", m, ""),
        };
        string_of(&v)
    }
}

} // verus!
