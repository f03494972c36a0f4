//! Error types

use vstd::prelude::*;

verus! {

/// Kinds of errors
#[derive(Copy, Clone, Debug, PartialEq, Eq, Structural)]
pub enum ErrorKind {
    /// Error in configuration file
    ConfigError,

    /// Input/output error
    IoError,

    /// Error reporting events to the collector
    ReportError,

    /// Error performing an RPC to the Tendermint node
    RpcError,
}

/// Error type: a kind together with a human-readable description.
#[derive(Clone, Debug)]
pub struct Error {
    /// What went wrong
    pub kind: ErrorKind,

    /// Description of what went wrong
    pub msg: String,
}

impl Error {
    /// Create a new error of the given kind
    pub fn new(kind: ErrorKind, msg: String) -> (r: Error)
        ensures
            r.kind == kind,
            r.msg@ == msg@,
    {
        Error { kind, msg }
    }

    /// The kind of this error
    pub fn kind(&self) -> (r: ErrorKind)
        ensures
            r == self.kind,
    {
        self.kind
    }

    /// Human-readable description of this error
    pub fn message(&self) -> (r: &str)
        ensures
            r@ == self.msg@,
    {
        self.msg.as_str()
    }
}

} // verus!
