//! What can go wrong while a line is read, resolved and run.

use vstd::prelude::*;

verus! {

/// A failure that the interpreter reports on the error stream. The variants that
/// come from the operating system carry its description of the failure.
#[derive(Debug, PartialEq, Eq)]
pub enum ShellError {
    /// A line, or a stage of a pipeline, holds nothing but white space.
    EmptyInput,
    /// A stage names an execution mode and no command after it.
    MissingModeArgument,
    /// A line could not be read from the terminal.
    ReadFailure(String),
    /// The working directory could not be changed.
    DirectoryChangeFailure(String),
    /// A command could not be started.
    SpawnFailure(String),
    /// The current process could not be replaced by the command.
    ExecFailure(String),
    /// No detached process could be created.
    ForkFailure,
    /// The last stage of a pipeline could not be waited for.
    WaitFailure(String),
}

impl ShellError {
    /// The text of the diagnostic for this failure.
    pub open spec fn text(self) -> Seq<char> {
        match self {
            ShellError::EmptyInput => "Empty!"@,
            ShellError::MissingModeArgument => "Missing command after execution mode"@,
            ShellError::ReadFailure(detail) => detail@,
            ShellError::DirectoryChangeFailure(detail) => detail@,
            ShellError::SpawnFailure(detail) => detail@,
            ShellError::ExecFailure(detail) => detail@,
            ShellError::ForkFailure => "Failed to fork"@,
            ShellError::WaitFailure(detail) => detail@,
        }
    }

    /// Whether the interpreter goes on to the next prompt after this failure.
    /// Only a line that cannot be read and a last stage that cannot be waited
    /// for end the program.
    pub open spec fn is_recoverable(self) -> bool {
        !(self is ReadFailure || self is WaitFailure)
    }

    /// The diagnostic that is printed for this failure.
    pub fn message(&self) -> (text: String)
        ensures
            text@ == self.text(),
    {
        match self {
            ShellError::EmptyInput => "Empty!".to_owned(),
            ShellError::MissingModeArgument => "Missing command after execution mode".to_owned(),
            ShellError::ReadFailure(detail) => detail.clone(),
            ShellError::DirectoryChangeFailure(detail) => detail.clone(),
            ShellError::SpawnFailure(detail) => detail.clone(),
            ShellError::ExecFailure(detail) => detail.clone(),
            ShellError::ForkFailure => "Failed to fork".to_owned(),
            ShellError::WaitFailure(detail) => detail.clone(),
        }
    }

    /// A copy of this failure.
    pub fn duplicate(&self) -> (copy: ShellError)
        ensures
            copy == *self,
    {
        match self {
            ShellError::EmptyInput => ShellError::EmptyInput,
            ShellError::MissingModeArgument => ShellError::MissingModeArgument,
            ShellError::ReadFailure(detail) => ShellError::ReadFailure(detail.clone()),
            ShellError::DirectoryChangeFailure(detail) => ShellError::DirectoryChangeFailure(
                detail.clone(),
            ),
            ShellError::SpawnFailure(detail) => ShellError::SpawnFailure(detail.clone()),
            ShellError::ExecFailure(detail) => ShellError::ExecFailure(detail.clone()),
            ShellError::ForkFailure => ShellError::ForkFailure,
            ShellError::WaitFailure(detail) => ShellError::WaitFailure(detail.clone()),
        }
    }

    /// Whether the interpreter goes on to the next prompt after this failure.
    pub fn recoverable(&self) -> (yes: bool)
        ensures
            yes == self.is_recoverable(),
    {
        match self {
            ShellError::ReadFailure(_) => false,
            ShellError::WaitFailure(_) => false,
            _ => true,
        }
    }
}

} // verus!
