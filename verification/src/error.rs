//! The library's error type.

use vstd::prelude::*;
use crate::text::concat;

verus! {

/// Every way in which a backup step of this library can fail.
#[derive(Debug, Clone, PartialEq, Eq)]
pub enum ZfsBackupError {
    SshError(String),
    DatabaseError(String),
    ZfsCommandFailed(String),
    ConfigError(String),
    IoError(String),
    InvalidSnapshot(String),
    BackupFailed(String),
    RemoteCommandFailed(String),
    InvalidPattern { pattern: String, message: String },
}

/// The human-readable text of an error.
pub open spec fn error_text(e: ZfsBackupError) -> Seq<char> {
    match e {
        ZfsBackupError::SshError(m) => "SSH error: "@ + m@,
        ZfsBackupError::DatabaseError(m) => "Database error: "@ + m@,
        ZfsBackupError::ZfsCommandFailed(m) => "ZFS command failed: "@ + m@,
        ZfsBackupError::ConfigError(m) => "Configuration error: "@ + m@,
        ZfsBackupError::IoError(m) => "IO error: "@ + m@,
        ZfsBackupError::InvalidSnapshot(m) => "Invalid snapshot state: "@ + m@,
        ZfsBackupError::BackupFailed(m) => "Backup failed: "@ + m@,
        ZfsBackupError::RemoteCommandFailed(m) => "Remote command execution failed: "@ + m@,
        ZfsBackupError::InvalidPattern { pattern, message } => "Invalid skip_filesystems pattern '"@
            + pattern@ + "': "@ + message@,
    }
}

impl ZfsBackupError {
    /// The human-readable text of this error.
    pub fn message(&self) -> (res: String)
        ensures
            res@ == error_text(*self),
    {
        match self {
            ZfsBackupError::SshError(m) => concat("SSH error: ", m.as_str()),
            ZfsBackupError::DatabaseError(m) => concat("Database error: ", m.as_str()),
            ZfsBackupError::ZfsCommandFailed(m) => concat("ZFS command failed: ", m.as_str()),
            ZfsBackupError::ConfigError(m) => concat("Configuration error: ", m.as_str()),
            ZfsBackupError::IoError(m) => concat("IO error: ", m.as_str()),
            ZfsBackupError::InvalidSnapshot(m) => concat("Invalid snapshot state: ", m.as_str()),
            ZfsBackupError::BackupFailed(m) => concat("Backup failed: ", m.as_str()),
            ZfsBackupError::RemoteCommandFailed(m) => concat(
                "Remote command execution failed: ",
                m.as_str(),
            ),
            ZfsBackupError::InvalidPattern { pattern, message } => {
                let a = concat("Invalid skip_filesystems pattern '", pattern.as_str());
                let b = concat(a.as_str(), "': ");
                let c = concat(b.as_str(), message.as_str());
                assert(c@ == "Invalid skip_filesystems pattern '"@ + pattern@ + "': "@ + message@);
                c
            },
        }
    }
}

} // verus!
