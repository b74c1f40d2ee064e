//! Errors of the daemon.
use vstd::prelude::*;
use crate::text::concat;

verus! {

/// What went wrong in the daemon.
#[derive(Debug, Clone, Copy, PartialEq, Eq, Structural)]
pub enum DaemonErrorKind {
    Worker,
    Store,
    InvalidState,
    NotFound,
}

/// A daemon failure: its kind and a message.
#[derive(Debug, Clone, PartialEq, Eq)]
pub struct DaemonError {
    pub kind: DaemonErrorKind,
    pub message: String,
}

/// Name of an error kind, as `Debug` writes it.
pub open spec fn kind_name(kind: DaemonErrorKind) -> Seq<char> {
    match kind {
        DaemonErrorKind::Worker => "Worker"@,
        DaemonErrorKind::Store => "Store"@,
        DaemonErrorKind::InvalidState => "InvalidState"@,
        DaemonErrorKind::NotFound => "NotFound"@,
    }
}

/// Whether `r` is an error of kind `kind` with message `m`.
pub open spec fn fails_with<T>(r: Result<T, DaemonError>, kind: DaemonErrorKind, m: Seq<char>) -> bool {
    r matches Err(e) && e.kind == kind && e.message@ == m
}

impl DaemonError {
    pub fn new(kind: DaemonErrorKind, message: String) -> (r: Self)
        ensures
            r.kind == kind,
            r.message@ == message@,
    {
        DaemonError { kind, message }
    }

    pub fn worker(message: String) -> (r: Self)
        ensures
            r.kind == DaemonErrorKind::Worker,
            r.message@ == message@,
    {
        Self::new(DaemonErrorKind::Worker, message)
    }

    pub fn store(message: String) -> (r: Self)
        ensures
            r.kind == DaemonErrorKind::Store,
            r.message@ == message@,
    {
        Self::new(DaemonErrorKind::Store, message)
    }

    pub fn invalid_state(message: String) -> (r: Self)
        ensures
            r.kind == DaemonErrorKind::InvalidState,
            r.message@ == message@,
    {
        Self::new(DaemonErrorKind::InvalidState, message)
    }

    pub fn not_found(message: String) -> (r: Self)
        ensures
            r.kind == DaemonErrorKind::NotFound,
            r.message@ == message@,
    {
        Self::new(DaemonErrorKind::NotFound, message)
    }

    /// The error as text: its kind, a colon and its message.
    pub fn describe(&self) -> (r: String)
        ensures
            r@ == kind_name(self.kind) + ": "@ + self.message@,
    {
        proof {
            reveal_strlit("Worker");
            reveal_strlit("Store");
            reveal_strlit("InvalidState");
            reveal_strlit("NotFound");
        }
        let name = match self.kind {
            DaemonErrorKind::Worker => "Worker",
            DaemonErrorKind::Store => "Store",
            DaemonErrorKind::InvalidState => "InvalidState",
            DaemonErrorKind::NotFound => "NotFound",
        };
        let head = concat(name, ": ");
        concat(head.as_str(), self.message.as_str())
    }
}

} // verus!
