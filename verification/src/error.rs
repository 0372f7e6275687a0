//! Errors reported by the library.
use vstd::prelude::*;

verus! {

/// What went wrong, by area.
#[derive(Debug, PartialEq, Eq)]
pub enum Error {
    /// Invalid or unusable configuration.
    Config {
        /// What was wrong.
        message: String,
    },
    /// A subsystem could not be registered, started, stopped or found.
    Subsystem {
        /// The subsystem concerned.
        name: String,
        /// What was wrong.
        message: String,
    },
    /// A failure while the daemon was running.
    Runtime {
        /// What was wrong.
        message: String,
    },
    /// A file or path operation failed.
    Io {
        /// What was wrong.
        message: String,
    },
    /// An operation did not finish in time.
    Timeout {
        /// The operation that timed out.
        operation: String,
        /// The limit that was exceeded, in milliseconds.
        timeout_ms: u64,
    },
}

impl Error {
    /// A configuration error.
    pub fn config(message: &str) -> (e: Error)
        ensures
            e matches Error::Config { message: m } && m@ == message@,
    {
        Error::Config { message: message.to_owned() }
    }

    /// An error about the subsystem `name`.
    pub fn subsystem(name: &str, message: &str) -> (e: Error)
        ensures
            e matches Error::Subsystem { name: n, message: m } && n@ == name@ && m@ == message@,
    {
        Error::Subsystem { name: name.to_owned(), message: message.to_owned() }
    }

    /// A runtime error.
    pub fn runtime(message: &str) -> (e: Error)
        ensures
            e matches Error::Runtime { message: m } && m@ == message@,
    {
        Error::Runtime { message: message.to_owned() }
    }

    /// An I/O error.
    pub fn io(message: &str) -> (e: Error)
        ensures
            e matches Error::Io { message: m } && m@ == message@,
    {
        Error::Io { message: message.to_owned() }
    }

    /// A timeout of `operation` after `timeout_ms` milliseconds.
    pub fn timeout(operation: &str, timeout_ms: u64) -> (e: Error)
        ensures
            e matches Error::Timeout { operation: o, timeout_ms: t } && o@ == operation@ && t
                == timeout_ms,
    {
        Error::Timeout { operation: operation.to_owned(), timeout_ms }
    }
}

} // verus!
