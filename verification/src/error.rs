//! The error taxonomy surfaced at the boundary of the library.

use vstd::prelude::*;

verus! {

/// The kind of a failure, as the sinks that decide on retries and
/// skip-listing see it.
#[derive(Debug, Clone, Copy, PartialEq, Eq, Structural)]
pub enum ErrorKind {
    Timeout,
    OutOfMemory,
    ObjectStore,
    SchemaConflict,
    Limit,
    Corruption,
    Unknown,
}

/// What an error is about, as far as that is known.
#[derive(Debug, Clone, Copy, PartialEq, Eq, Structural)]
pub struct ErrorContext {
    pub partition_id: Option<i64>,
    pub file_id: Option<i64>,
    pub sequence_number: Option<u64>,
}

impl ErrorContext {
    /// Nothing is known.
    pub open spec fn unknown() -> ErrorContext {
        ErrorContext { partition_id: None, file_id: None, sequence_number: None }
    }

    /// Nothing is known.
    pub fn none() -> (c: Self)
        ensures
            c == Self::unknown(),
    {
        ErrorContext { partition_id: None, file_id: None, sequence_number: None }
    }
}

/// A failure with its kind, a human-readable message, and what it is
/// about.
#[derive(Debug)]
pub struct SimpleError {
    kind: ErrorKind,
    msg: String,
    context: ErrorContext,
}

impl SimpleError {
    /// The kind this error was made with.
    pub closed spec fn spec_kind(&self) -> ErrorKind {
        self.kind
    }

    /// The message this error was made with.
    pub closed spec fn spec_message(&self) -> Seq<char> {
        self.msg@
    }

    /// What this error is about.
    pub closed spec fn spec_context(&self) -> ErrorContext {
        self.context
    }

    /// An error of the given kind, about nothing in particular.
    pub fn new(kind: ErrorKind, msg: String) -> (e: Self)
        ensures
            e.spec_kind() == kind,
            e.spec_message() == msg@,
            e.spec_context() == ErrorContext::unknown(),
    {
        SimpleError { kind, msg, context: ErrorContext::none() }
    }

    /// This error, about `context`.
    pub fn with_context(self, context: ErrorContext) -> (e: Self)
        ensures
            e.spec_kind() == self.spec_kind(),
            e.spec_message() == self.spec_message(),
            e.spec_context() == context,
    {
        SimpleError { kind: self.kind, msg: self.msg, context }
    }

    /// The kind under which a sink files this error.
    pub fn classify(&self) -> (k: ErrorKind)
        ensures
            k == self.spec_kind(),
    {
        self.kind
    }

    /// The message, without the kind.
    pub fn message(&self) -> (m: String)
        ensures
            m@ == self.spec_message(),
    {
        self.msg.clone()
    }

    /// What this error is about.
    pub fn context(&self) -> (c: ErrorContext)
        ensures
            c == self.spec_context(),
    {
        self.context
    }
}

} // verus!
