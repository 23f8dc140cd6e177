use vstd::prelude::*;

verus! {

/// Why a command could not be set up.
#[derive(Debug)]
pub enum ShellError {
    /// The name is neither in the command table nor an existing path, or an
    /// alias leads to another alias.
    CommandNotFound(String),
    /// An exclusive-create redirection names a file that exists.
    AlreadyExists(String),
    /// An input redirection names a file that does not exist.
    NotFound(String),
    /// A variable that is not set.
    UndefinedVariable(String),
    /// Fewer captured outputs than the expression has substitutions.
    MissingCapture,
    /// A construct the engine does not run.
    Unsupported(String),
    /// A failed system operation, with the system's message.
    Io(String),
    /// A pipeline without stages, or whose stages are not terminated.
    MalformedPipeline,
}

} // verus!
