//! Errors raised while an input is built or turned into a request.
use vstd::prelude::*;

verus! {

#[derive(Debug, Clone)]
pub enum InputError {
    /// A media path whose extension names no supported image type.
    UnexpectedMediaType { path: String },
    /// A shell-command reference failed; holds the command and its captured output.
    CommandFailed { command: String, output: String },
    /// A file or URL could not be read or parsed; holds the reference and the cause.
    LoadFailed { reference: String, cause: String },
    /// The sentinel was used, but there is no last reply and nothing else was loaded.
    NoLastReply,
    /// Media is attached but the model cannot take images.
    VisionUnsupported,
    /// The model's input-token guard refused the messages; holds its message.
    TokenLimitExceeded { message: String },
}

impl InputError {
    /// A human-readable description of the error.
    pub fn message(&self) -> (r: String)
        ensures
            self matches InputError::CommandFailed { command, output } ==> r@ == "Failed to run `"@
                + command@ + "`\n"@ + output@,
            self matches InputError::UnexpectedMediaType { path } ==> r@ == "Unable to read media file '"@
                + path@ + "': Unexpected media type"@,
            self matches InputError::LoadFailed { reference, cause } ==> r@ == "Unable to load '"@ + reference@
                + "': "@ + cause@,
            self matches InputError::TokenLimitExceeded { message } ==> r@ == message@,
            self is NoLastReply ==> r@ == "No last reply found"@,
            self is VisionUnsupported ==> r@
                == "The current model does not support vision. Is the model configured with `supports_vision: true`?"@,
    {
        match self {
            InputError::UnexpectedMediaType { path } => {
                let mut s = String::from_str("Unable to read media file '");
                s.append(path.as_str());
                s.append("': Unexpected media type");
                s
            },
            InputError::CommandFailed { command, output } => {
                let mut s = String::from_str("Failed to run `");
                s.append(command.as_str());
                s.append("`\n");
                s.append(output.as_str());
                s
            },
            InputError::LoadFailed { reference, cause } => {
                let mut s = String::from_str("Unable to load '");
                s.append(reference.as_str());
                s.append("': ");
                s.append(cause.as_str());
                s
            },
            InputError::NoLastReply => String::from_str("No last reply found"),
            InputError::TokenLimitExceeded { message } => message.clone(),
            InputError::VisionUnsupported => String::from_str(
                "The current model does not support vision. Is the model configured with `supports_vision: true`?",
            ),
        }
    }
}

} // verus!
