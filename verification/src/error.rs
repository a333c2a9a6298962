//! The error type shared by every part of the supervisor.

use vstd::prelude::*;

verus! {

/// Why a step of putting a configuration directory in place failed.
#[derive(Debug, Clone, PartialEq, Eq)]
pub enum ConfigFailure {
    /// A location has no parent directory; the text is the entry's path, or
    /// the directory's where the directory itself was to be made.
    NoParentDirectory(String),
    /// The configuration directory at this path could not be made; the
    /// second text is the system's message.
    DirectoryFailed(String, String),
    /// The parent directory of the link for the entry with this path could
    /// not be made; the second text is the system's message.
    ParentFailed(String, String),
    /// The link for the entry with this path could not be made; the second
    /// text is the system's message.
    LinkFailed(String, String),
}

/// What can go wrong while a manifest is checked or a session runs.
#[derive(Debug, Clone, PartialEq, Eq)]
pub enum Error {
    /// The operating system refused an operation; the text is its message.
    IOErr(String),
    /// The manifest could not be read or is no manifest; the text says why.
    Manifest(String),
    /// The configuration payload could not be turned into its canonical text.
    Serialization(String),
    /// A service declares no executable: its argument vector is empty.
    EmptyArgv(String),
    /// A service name is the empty string.
    EmptyServiceName,
    /// Two services of one manifest share a name.
    DuplicateService(String),
    /// Two configuration entries of one service share a key.
    DuplicateConfigKey(String),
    /// The restart mode is none of `never`, `up-to-count`, `always`.
    UnknownRestartMode(String),
    /// Putting the configuration directory of the named service in place
    /// failed, for the reason that follows.
    ServiceConfigFailed(String, ConfigFailure),
    /// The startup hook could not be started or waited for; the text is the
    /// system's message.
    StartupFailed(String),
    /// The startup hook ended without success: with this exit code, or by a
    /// signal if there is none.
    StartupExited(Option<i32>),
    /// The child of the named service could not be started.
    SpawnFailed(String, String),
    /// Waiting on the child of the named service failed.
    WaitFailed(String, String),
    /// A log drain was asked for on a stream that the child does not have;
    /// the text is the log target.
    MissingStream(String),
    /// A supervision task ended abnormally.
    TaskPanicked(String),
}

} // verus!
