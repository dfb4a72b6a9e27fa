//! The error taxonomy shared by every stage of the pipeline.
use vstd::prelude::*;

verus! {

/// What went wrong, independently of the stage that noticed it.
#[derive(Debug, Clone, Copy, PartialEq, Eq, Structural)]
pub enum ErrorKind {
    LexError,
    ParserError,
    EvalError,
    VmError,
    StackOverFlow,
    Fatal,
}

/// A user-facing error found while scanning or compiling.
#[derive(Debug)]
pub struct CompilationError {
    pub line: usize,
    pub message: String,
    pub where_it_was: Option<String>,
    pub kind: ErrorKind,
}

/// An error raised while the virtual machine runs a chunk.
#[derive(Debug)]
pub struct RuntimeError {
    pub line: usize,
    pub message: String,
    pub kind: ErrorKind,
}

/// An internal invariant violation: a bug in the pipeline, not in the input.
#[derive(Debug)]
pub struct FatalError {
    pub message: String,
}

#[derive(Debug)]
pub enum ReloxError {
    CompilationError(CompilationError),
    RuntimeError(RuntimeError),
    FatalError(FatalError),
}

impl ReloxError {
    /// The kind that `kind` reports.
    pub open spec fn spec_kind(&self) -> ErrorKind {
        match self {
            ReloxError::CompilationError(e) => e.kind,
            ReloxError::RuntimeError(e) => e.kind,
            ReloxError::FatalError(_) => ErrorKind::Fatal,
        }
    }

    pub open spec fn is_compile_error(&self) -> bool {
        self is CompilationError
    }

    pub open spec fn is_runtime_error(&self) -> bool {
        self is RuntimeError
    }

    pub open spec fn is_fatal_error(&self) -> bool {
        self is FatalError
    }

    /// The source line that a compile or runtime error carries (0 for a fatal error).
    pub open spec fn spec_line(&self) -> usize {
        match self {
            ReloxError::CompilationError(e) => e.line,
            ReloxError::RuntimeError(e) => e.line,
            ReloxError::FatalError(_) => 0,
        }
    }

    pub fn new_compile_error(
        line: usize,
        message: String,
        where_it_was: Option<String>,
        kind: ErrorKind,
    ) -> (r: Self)
        ensures
            r is CompilationError,
            r->CompilationError_0.line == line,
            r->CompilationError_0.message@ == message@,
            r->CompilationError_0.where_it_was == where_it_was,
            r->CompilationError_0.kind == kind,
    {
        ReloxError::CompilationError(CompilationError { line, message, where_it_was, kind })
    }

    pub fn new_fatal_error(message: String) -> (r: Self)
        ensures
            r is FatalError,
            r->FatalError_0.message@ == message@,
    {
        ReloxError::FatalError(FatalError { message })
    }

    pub fn new_runtime_error(line: usize, message: String, kind: ErrorKind) -> (r: Self)
        ensures
            r is RuntimeError,
            r->RuntimeError_0.line == line,
            r->RuntimeError_0.message@ == message@,
            r->RuntimeError_0.kind == kind,
    {
        ReloxError::RuntimeError(RuntimeError { line, message, kind })
    }

    pub fn kind(&self) -> (k: ErrorKind)
        ensures
            k == self.spec_kind(),
    {
        match self {
            ReloxError::CompilationError(error) => error.kind,
            ReloxError::RuntimeError(error) => error.kind,
            ReloxError::FatalError(_) => ErrorKind::Fatal,
        }
    }

    /// The message the error carries, whatever its tier.
    pub fn message(&self) -> (m: &String)
        ensures
            m@ == match self {
                ReloxError::CompilationError(e) => e.message@,
                ReloxError::RuntimeError(e) => e.message@,
                ReloxError::FatalError(e) => e.message@,
            },
    {
        match self {
            ReloxError::CompilationError(error) => &error.message,
            ReloxError::RuntimeError(error) => &error.message,
            ReloxError::FatalError(error) => &error.message,
        }
    }
}

} // verus!
