//! The fatal errors of a run, and the exit status each one maps to.

use vstd::prelude::*;
use vstd::std_specs::convert::FromSpecImpl;

verus! {

/// `glob::GlobError`: a path that could not be read while a search expression
/// was evaluated. Opaque here; it is only carried to the caller.
#[verifier::external_type_specification]
#[verifier::external_body]
pub struct ExGlobError(glob::GlobError);

/// `glob::PatternError`: the position and message of a syntax error in a
/// search expression. Opaque here; it is only carried to the caller.
#[verifier::external_type_specification]
#[verifier::external_body]
pub struct ExPatternError(glob::PatternError);

/// `std::io::Error`. Opaque here; it is only carried to the caller.
#[verifier::external_type_specification]
#[verifier::external_body]
pub struct ExIoError(std::io::Error);

/// `toml::de::Error`: why a project description could not be deserialized.
/// Opaque here; it is only carried to the caller.
#[verifier::external_type_specification]
#[verifier::external_body]
pub struct ExTomlError(toml::de::Error);

/// A failure that stops the run. There is no "no error" member: success is
/// the `Ok` side of an [`IroncladResult`].
#[derive(Debug)]
pub enum IroncladError {
    /// A path could not be read while a search expression was evaluated.
    Glob(glob::GlobError),
    /// A search expression is not a well-formed pattern. `pattern` is the
    /// offending expression.
    GlobPattern { pattern: String, cause: glob::PatternError },
    /// Reading a file or resolving a path failed.
    StdIoError(std::io::Error),
    /// The project description could not be deserialized.
    TomlConfig(toml::de::Error),
}

/// A result whose error is any fatal error of a run.
pub type IroncladResult<T> = Result<T, IroncladError>;

/// Exit status of a run in which every file was compiled.
pub const EXIT_SUCCESS: i32 = 0;

/// Exit status of a run that finished with failures on individual files.
pub const EXIT_FILE_FAILURES: i32 = 1;

/// The exit status that stands for each kind of fatal error.
pub open spec fn exit_code_of(e: IroncladError) -> int {
    match e {
        IroncladError::TomlConfig(_) => 2,
        IroncladError::GlobPattern { .. } => 3,
        IroncladError::Glob(_) => 4,
        IroncladError::StdIoError(_) => 5,
    }
}

impl IroncladError {
    /// The process exit status for this error: never that of a run that
    /// finished, and different for each kind of error.
    pub fn get_process_exit_code(&self) -> (code: i32)
        ensures
            code == exit_code_of(*self),
            code != EXIT_SUCCESS,
            code != EXIT_FILE_FAILURES,
    {
        match self {
            IroncladError::TomlConfig(_) => 2,
            IroncladError::GlobPattern { .. } => 3,
            IroncladError::Glob(_) => 4,
            IroncladError::StdIoError(_) => 5,
        }
    }
}

/// The exit status of a run that reached the end: success when no file
/// failed, the status for per-file failures otherwise.
pub fn completion_exit_code(failed_files: usize) -> (code: i32)
    ensures
        code == if failed_files == 0 { EXIT_SUCCESS } else { EXIT_FILE_FAILURES },
{
    if failed_files == 0 {
        EXIT_SUCCESS
    } else {
        EXIT_FILE_FAILURES
    }
}

impl From<glob::GlobError> for IroncladError {
    fn from(value: glob::GlobError) -> (r: Self) {
        IroncladError::Glob(value)
    }
}

impl FromSpecImpl<glob::GlobError> for IroncladError {
    open spec fn obeys_from_spec() -> bool {
        true
    }

    open spec fn from_spec(value: glob::GlobError) -> Self {
        IroncladError::Glob(value)
    }
}

impl From<std::io::Error> for IroncladError {
    fn from(value: std::io::Error) -> (r: Self) {
        IroncladError::StdIoError(value)
    }
}

impl FromSpecImpl<std::io::Error> for IroncladError {
    open spec fn obeys_from_spec() -> bool {
        true
    }

    open spec fn from_spec(value: std::io::Error) -> Self {
        IroncladError::StdIoError(value)
    }
}

impl From<toml::de::Error> for IroncladError {
    fn from(value: toml::de::Error) -> (r: Self) {
        IroncladError::TomlConfig(value)
    }
}

impl FromSpecImpl<toml::de::Error> for IroncladError {
    open spec fn obeys_from_spec() -> bool {
        true
    }

    open spec fn from_spec(value: toml::de::Error) -> Self {
        IroncladError::TomlConfig(value)
    }
}

} // verus!
