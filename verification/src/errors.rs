//! Error taxonomy: configuration-shape errors located by a context
//! path, and capture-local resolution/execution failures. A failure of
//! one capture is recorded and reported; it never aborts the rest of a
//! run.

use vstd::prelude::*;
use crate::context::{Context, spec_render};

verus! {

/// What went wrong while extracting a typed value from a
/// configuration table.
#[derive(Debug)]
pub enum TableGetErr {
    /// The key was absent where a value was required.
    NoKey,
    /// A value was present but of the wrong type; carries the name of
    /// the expected type.
    WrongType(&'static str),
}

/// A configuration-shape error located by the context path at which it
/// occurred.
#[derive(Debug)]
pub struct TableGetError {
    pub context: Context,
    pub error: TableGetErr,
}

impl TableGetError {
    /// The diagnostic line for this error: it points at the config path
    /// and, for a type mismatch, names the expected type.
    pub fn render(&self) -> (s: String)
        ensures
            self.error is NoKey ==> s@ == "expected key at '"@ + spec_render(self.context@)
                + "', no such key exists"@,
            self.error matches TableGetErr::WrongType(t) ==> s@ == "value for key '"@
                + spec_render(self.context@) + "' is of wrong type (expected "@ + t@ + ")"@,
    {
        let mut s = String::new();
        match self.error {
            TableGetErr::NoKey => {
                s.append("expected key at '");
                s.append(self.context.render().as_str());
                s.append("', no such key exists");
            },
            TableGetErr::WrongType(t) => {
                s.append("value for key '");
                s.append(self.context.render().as_str());
                s.append("' is of wrong type (expected ");
                s.append(t);
                s.append(")");
            },
        }
        s
    }
}

/// Identifier-resolution failures: all are capture-local.
#[derive(Debug)]
pub enum ResolutionError {
    /// The key was absent from the fully merged map.
    NoSuchMapping { map: String, key: String },
    /// A map's inclusions reach back to an already-visited map.
    CyclicInclusion { map: String },
}

/// Failures while invoking a function layer: all are capture-local.
#[derive(Debug)]
pub enum ExecutionError {
    /// The external command exited with a non-zero status.
    CommandFailed { binary: String },
    /// The external command could not be started.
    SpawnFailed { binary: String, detail: String },
    /// The built-in transform name is not in the dispatch table.
    UnknownInternal { name: String },
}

/// A capture-local failure, as collected per group.
#[derive(Debug)]
pub enum BindError {
    /// A definition file was missing, unreadable or malformed; carries
    /// the identifier that was being resolved and the path tried.
    Load { identifier: String, path: String, detail: String },
    /// A resolution failure, located at the capture it struck.
    Resolution { context: Context, error: ResolutionError },
    /// An execution failure, located at the capture it struck.
    Execution { context: Context, error: ExecutionError },
    ConfigShape(TableGetError),
}

} // verus!
