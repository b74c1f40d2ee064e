//! Errors of loading a pipeline manifest.
use vstd::prelude::*;
use crate::text::concat;

verus! {

/// Which stage of loading failed.
#[derive(Debug, Clone, Copy, PartialEq, Eq, Structural)]
pub enum LoaderErrorKind {
    EmptyManifest,
    EnvironmentVariable,
    ManifestParsing,
    ResourceValidation,
    ReferenceResolution,
    ScriptValidation,
}

/// A manifest that could not be loaded: the stage, where the problem is if
/// known, and a message.
#[derive(Debug, Clone, PartialEq, Eq)]
pub struct LoaderError {
    pub kind: LoaderErrorKind,
    pub source: Option<String>,
    pub message: String,
}

/// Whether `r` is an error of kind `kind` with message `m`.
pub open spec fn load_fails_with<T>(r: Result<T, LoaderError>, kind: LoaderErrorKind, m: Seq<char>) -> bool {
    r matches Err(e) && e.kind == kind && e.message@ == m
}

impl LoaderError {
    pub fn new(kind: LoaderErrorKind, message: String) -> (r: Self)
        ensures
            r.kind == kind,
            r.source is None,
            r.message@ == message@,
    {
        LoaderError { kind, source: None, message }
    }

    /// The error as text: where it is, a colon and the message; or the message.
    pub fn describe(&self) -> (r: String)
        ensures
            r@ == match self.source {
                Some(s) => s@ + ": "@ + self.message@,
                None => self.message@,
            },
    {
        match &self.source {
            Some(s) => {
                let head = concat(s.as_str(), ": ");
                concat(head.as_str(), self.message.as_str())
            },
            None => self.message.clone(),
        }
    }
}

} // verus!
