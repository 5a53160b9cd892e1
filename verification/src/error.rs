//! Errors that can occur while loading or applying the system locale.

use vstd::prelude::*;

verus! {

/// Errors that can occur while loading or applying the system locale.
///
/// Operating-system errors are carried as their rendered message.
#[derive(Debug)]
pub enum LocaleError {
    /// The configured locale config file existed but could not be read.
    ReadConfig { path: String, source: String },
    /// The polkit prompt was dismissed or authorisation was denied.
    Cancelled,
    /// systemd-localed (or the system bus) returned an error we don't
    /// recognise as a polkit cancellation.
    Daemon(String),
    /// A non-privileged subprocess (e.g. `locale -a`) failed to launch.
    CommandSpawnFailed { command: String, source: String },
    /// A non-privileged subprocess exited non-zero.
    CommandFailed { command: String, status: i32, stderr: String },
}

impl Clone for LocaleError {
    fn clone(&self) -> (r: Self)
        ensures
            r == *self,
    {
        match self {
            LocaleError::ReadConfig { path, source } => LocaleError::ReadConfig {
                path: path.clone(),
                source: source.clone(),
            },
            LocaleError::Cancelled => LocaleError::Cancelled,
            LocaleError::Daemon(m) => LocaleError::Daemon(m.clone()),
            LocaleError::CommandSpawnFailed { command, source } => LocaleError::CommandSpawnFailed {
                command: command.clone(),
                source: source.clone(),
            },
            LocaleError::CommandFailed { command, status, stderr } => LocaleError::CommandFailed {
                command: command.clone(),
                status: *status,
                stderr: stderr.clone(),
            },
        }
    }
}

/// The outcome of reading a whole text file.
#[derive(Debug, Clone)]
pub enum FileRead {
    /// The file's contents.
    Contents(String),
    /// The file does not exist.
    NotFound,
    /// The file exists but could not be read; the operating system's message.
    Failed(String),
}

} // verus!
