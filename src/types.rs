//! The codes an operation reports to its caller and its log.

use vstd::prelude::*;

verus! {

/// What an operation reports: its outcome, or the reason it failed.
#[derive(Debug, Clone, Copy, PartialEq, Eq, Structural)]
pub enum ResponseTextCode {
    EncryptionSuccessful,
    DecryptionSuccessful,
    EncryptionFailed,
    DecryptionFailed,
    FileOpenFailed,
    FileReadFailed,
    FileCreationFailed,
    KeyGenerationFailed,
    /// A password that breaks the policy, or a frame whose tag does not
    /// verify (a wrong password looks the same as altered data).
    InvalidPassword,
    DbConnFailed,
    ParentDirectoryRetrieveFailed,
    FileNameExtractionFailed,
    FileExtensionExtractionFailed,
    FileCreationSuccessful,
    LogsDownloaded,
    FileDeleteFailed,
}

/// The severity of a log entry.
#[derive(Debug, Clone, Copy, PartialEq, Eq, Structural)]
pub enum LogLevel {
    Info,
    Error,
    Warning,
    Debug,
    Trace,
    Critical,
}

/// Whether an operation succeeded.
#[derive(Debug, Clone, Copy, PartialEq, Eq, Structural)]
pub enum Status {
    Success,
    Error,
}

/// The log level an outcome is recorded at: errors as errors, successes as information.
pub open spec fn spec_level_for(status: Status) -> LogLevel {
    match status {
        Status::Success => LogLevel::Info,
        Status::Error => LogLevel::Error,
    }
}

impl Status {
    /// The level at which an outcome of this status is logged.
    pub fn log_level(self) -> (r: LogLevel)
        ensures
            r == spec_level_for(self),
    {
        match self {
            Status::Success => LogLevel::Info,
            Status::Error => LogLevel::Error,
        }
    }
}

} // verus!
