//! The outcome of a shell command.

use vstd::prelude::*;
use vstd::string::StringExecFns;
use crate::errors::{CustomError, Result, is_error_message};

verus! {

/// What a finished shell command left behind.
pub struct CommandResult {
    pub status_code: Option<i32>,
    pub stdout: String,
    pub stderr: String,
    pub command: String,
    /// The command exited with status 0.
    pub success: bool,
}

/// The message of the error for a failed command.
pub open spec fn failed_command_message(command: Seq<char>) -> Seq<char> {
    "A command exited with a non 0 exit code or with a signal. '"@ + command + "'"@
}

/// The error for the failed command `command`.
pub fn failed_command_error(command: &str) -> (res: CustomError)
    ensures
        is_error_message(res, failed_command_message(command@)),
{
    let mut message = "A command exited with a non 0 exit code or with a signal. '".to_owned();
    message.append(command);
    message.append("'");
    CustomError::from_message(message.as_str())
}

impl CommandResult {
    /// The result itself when the command succeeded, else the error naming
    /// the command.
    pub fn as_result(self) -> (res: Result<CommandResult>)
        ensures
            self.success ==> res == Ok::<CommandResult, CustomError>(self),
            !self.success ==> (res matches Err(e) && is_error_message(e, failed_command_message(self.command@))),
    {
        if self.success {
            Ok(self)
        } else {
            Err(failed_command_error(self.command.as_str()))
        }
    }

    /// Like [`CommandResult::as_result`], keeping the result where it is.
    pub fn as_result_ref(&self) -> (res: Result<()>)
        ensures
            self.success ==> res is Ok,
            !self.success ==> (res matches Err(e) && is_error_message(e, failed_command_message(self.command@))),
    {
        if self.success {
            Ok(())
        } else {
            Err(failed_command_error(self.command.as_str()))
        }
    }
}

} // verus!
