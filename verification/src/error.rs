//! The failures that the library reports.
use vstd::prelude::*;

verus! {

/// Why an operation was refused or could not be carried out.
#[derive(Debug, Clone, PartialEq, Eq)]
pub enum LegionError {
    /// `watch.toml` is missing, malformed or refused.
    WatchConfig(String),
    /// Another watcher with this process id holds the pid lock.
    WatchAlreadyRunning(u32),
    /// A work source plugin is missing or failed.
    WorkSource(String),
    /// No wake attempt with this id is on record.
    WakeAttemptNotFound(String),
    /// The child has no interactive input.
    PtyControlUnsupported,
    /// Reading or writing failed.
    Io(String),
    /// The store could not answer.
    Store(String),
}

} // verus!
