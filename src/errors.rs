//! Errors of the shell and the non-zero exit codes that commands report.
use vstd::prelude::*;
use vstd::string::*;

verus! {

/// What can go wrong before or while a pipeline runs.
#[derive(Debug, Clone)]
pub enum CustomError {
    /// A redirection operator stands last, with no file name after it.
    FilenameMissing,
    /// A pipeline stage holds no command name.
    EmptyStage,
    /// The command name is neither a builtin nor an executable on the search path.
    CommandNotFound(String),
    /// A list that must hold at least one item was empty.
    EmptyList,
}

/// The text that reports `e`.
pub open spec fn error_message(e: CustomError) -> Seq<char> {
    match e {
        CustomError::FilenameMissing => "Error: missing filename"@,
        CustomError::EmptyStage => "Error: empty pipeline stage"@,
        CustomError::CommandNotFound(name) => name@ + ": Command not found"@,
        CustomError::EmptyList => "Error: list must not be empty"@,
    }
}

impl CustomError {
    /// The text that reports this error.
    pub fn message(&self) -> (r: String)
        ensures
            r@ == error_message(*self),
    {
        match self {
            CustomError::FilenameMissing => String::from_str("Error: missing filename"),
            CustomError::EmptyStage => String::from_str("Error: empty pipeline stage"),
            CustomError::CommandNotFound(name) => name.clone().concat(": Command not found"),
            CustomError::EmptyList => String::from_str("Error: list must not be empty"),
        }
    }
}

/// The exit code of a command that failed: never zero.
#[derive(Debug, Clone, Copy)]
pub struct ErrorExitCode {
    code: i32,
}

impl ErrorExitCode {
    #[verifier::type_invariant]
    spec fn nonzero(self) -> bool {
        self.code != 0
    }

    /// The exit code, as an integer.
    pub closed spec fn view(self) -> int {
        self.code as int
    }

    /// An exit code fixed at compile time.
    pub fn new_const<const EXIT_CODE: u8>() -> (r: Self)
        requires
            EXIT_CODE != 0,
        ensures
            r.view() == EXIT_CODE as int,
    {
        Self { code: EXIT_CODE as i32 }
    }

    pub fn new(code: i32) -> (r: Self)
        requires
            code != 0,
        ensures
            r.view() == code as int,
    {
        Self { code }
    }

    /// The exit code.
    pub fn code(&self) -> (r: i32)
        ensures
            r as int == self.view(),
            r != 0,
    {
        proof {
            use_type_invariant(self);
        }
        self.code
    }
}

} // verus!
