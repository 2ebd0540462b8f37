//! The failure taxonomy of the installer. Every stage returns a typed error
//! with enough context to surface verbatim to the caller.

use vstd::prelude::*;
use vstd::string::StringExecFns;

verus! {

/// Why an install call failed.
#[derive(Debug, PartialEq, Eq)]
pub enum InstallError {
    /// The request named neither a local archive nor a git source.
    UnsupportedSource(String),
    /// A field the chosen source type needs was absent from the request.
    MissingField(String),
    /// The archive could not be parsed or an entry could not be decoded.
    CorruptArchive,
    /// An archive entry path would escape the extraction directory.
    UnsafeArchivePath(String),
    /// No manifest file stands at the root of the staged source.
    ManifestMissing,
    /// The manifest does not declare a usable agent identity.
    ManifestInvalid,
    /// The requested sub-path does not exist inside the checkout.
    SubpathNotFound(String),
    /// Reading or writing the real filesystem failed; reported by the runner.
    Io(String),
    /// Cloning or checking out the git source failed; reported by the runner.
    CloneFailed(String),
    /// Preparing the version's runtime environment failed; reported by the
    /// runner. The placed version directory is left standing, unactivated.
    Provisioning(String),
    /// Swapping the `current` pointer failed; reported by the runner. The
    /// version directory remains installed and addressable by its reference.
    Activation(String),
}

impl InstallError {
    /// The human-readable message for this error.
    pub open spec fn spec_message(self) -> Seq<char> {
        match self {
            InstallError::UnsupportedSource(s) => "Unsupported source type: "@ + s@,
            InstallError::MissingField(s) => "Missing required field: "@ + s@,
            InstallError::CorruptArchive => "Archive is corrupt or cannot be decoded"@,
            InstallError::UnsafeArchivePath(s) => "Archive entry path escapes the destination: "@
                + s@,
            InstallError::ManifestMissing => "No manifest file found in the agent bundle"@,
            InstallError::ManifestInvalid => "Manifest does not declare a valid agent id"@,
            InstallError::SubpathNotFound(s) => "Subpath '"@ + s@ + "' not found in repository"@,
            InstallError::Io(s) => "I/O failure: "@ + s@,
            InstallError::CloneFailed(s) => "Failed to clone repository: "@ + s@,
            InstallError::Provisioning(s) => "Failed to provision environment: "@ + s@,
            InstallError::Activation(s) => "Failed to activate 'current' pointer: "@ + s@,
        }
    }

    /// Render the error as one line of text.
    pub fn message(&self) -> (r: String)
        ensures
            r@ == self.spec_message(),
    {
        match self {
            InstallError::UnsupportedSource(s) => String::from_str(
                "Unsupported source type: ",
            ).concat(s.as_str()),
            InstallError::MissingField(s) => String::from_str("Missing required field: ").concat(
                s.as_str(),
            ),
            InstallError::CorruptArchive => String::from_str(
                "Archive is corrupt or cannot be decoded",
            ),
            InstallError::UnsafeArchivePath(s) => String::from_str(
                "Archive entry path escapes the destination: ",
            ).concat(s.as_str()),
            InstallError::ManifestMissing => String::from_str(
                "No manifest file found in the agent bundle",
            ),
            InstallError::ManifestInvalid => String::from_str(
                "Manifest does not declare a valid agent id",
            ),
            InstallError::SubpathNotFound(s) => String::from_str("Subpath '").concat(
                s.as_str(),
            ).concat("' not found in repository"),
            InstallError::Io(s) => String::from_str("I/O failure: ").concat(s.as_str()),
            InstallError::CloneFailed(s) => String::from_str("Failed to clone repository: ").concat(
                s.as_str(),
            ),
            InstallError::Provisioning(s) => String::from_str(
                "Failed to provision environment: ",
            ).concat(s.as_str()),
            InstallError::Activation(s) => String::from_str(
                "Failed to activate 'current' pointer: ",
            ).concat(s.as_str()),
        }
    }
}

} // verus!
