//! The error taxonomy of the manager. Every failure is a reported,
//! recoverable value; the top-level dispatcher alone turns one into a
//! process exit.

use vstd::prelude::*;

verus! {

/// Every way a management or proxy operation can fail.
#[derive(Debug, Clone)]
pub enum Error {
    /// The invocation name is neither a manager name nor a proxyable binary.
    UnknownBinary { name: String },
    /// No override applies and no default toolchain is configured.
    NoDefaultToolchain,
    /// The named toolchain has no installed prefix.
    ToolchainNotInstalled { name: String },
    /// The requested binary does not exist inside the resolved toolchain.
    BinaryNotFound { name: String },
    /// The on-disk metadata version does not match this binary's expectation.
    MetadataVersionMismatch,
    /// Fetching or unpacking an installation source failed.
    InstallSourceFailure { name: String },
    /// The working directory could not be determined.
    WorkingDirectoryUnavailable,
    /// The child process could not be started.
    ProxySpawnFailure { name: String },
}

impl Error {
    /// A human-readable message, printed by the caller as `error: <message>`.
    pub fn message(&self) -> (r: String)
        ensures
            match self {
                Error::UnknownBinary { name } => r@ == "don't know how to proxy that binary: "@
                    + name@,
                Error::NoDefaultToolchain => r@ == "no default toolchain configured"@,
                Error::ToolchainNotInstalled { name } => r@ == "toolchain is not installed: "@
                    + name@,
                Error::BinaryNotFound { name } => r@ == "binary not found: "@ + name@,
                Error::MetadataVersionMismatch => r@
                    == "metadata version is out of date; run the metadata upgrade command"@,
                Error::InstallSourceFailure { name } => r@ == "failed to install from source: "@
                    + name@,
                Error::WorkingDirectoryUnavailable => r@
                    == "could not determine the working directory"@,
                Error::ProxySpawnFailure { name } => r@ == "failed to start: "@ + name@,
            },
            r@.len() > 0,
    {
        proof {
            reveal_strlit("don't know how to proxy that binary: ");
            reveal_strlit("no default toolchain configured");
            reveal_strlit("toolchain is not installed: ");
            reveal_strlit("binary not found: ");
            reveal_strlit("metadata version is out of date; run the metadata upgrade command");
            reveal_strlit("failed to install from source: ");
            reveal_strlit("could not determine the working directory");
            reveal_strlit("failed to start: ");
        }
        match self {
            Error::UnknownBinary { name } => {
                String::from_str("don't know how to proxy that binary: ").concat(name.as_str())
            },
            Error::NoDefaultToolchain => String::from_str("no default toolchain configured"),
            Error::ToolchainNotInstalled { name } => {
                String::from_str("toolchain is not installed: ").concat(name.as_str())
            },
            Error::BinaryNotFound { name } => {
                String::from_str("binary not found: ").concat(name.as_str())
            },
            Error::MetadataVersionMismatch => {
                String::from_str("metadata version is out of date; run the metadata upgrade command")
            },
            Error::InstallSourceFailure { name } => {
                String::from_str("failed to install from source: ").concat(name.as_str())
            },
            Error::WorkingDirectoryUnavailable => {
                String::from_str("could not determine the working directory")
            },
            Error::ProxySpawnFailure { name } => {
                String::from_str("failed to start: ").concat(name.as_str())
            },
        }
    }
}

} // verus!
