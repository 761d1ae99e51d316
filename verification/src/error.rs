//! How a command fails.

use vstd::prelude::*;

verus! {

#[derive(Debug, Clone, PartialEq, Eq)]
pub enum CliError {
    Error(String),
    Warning(String),
    Failure,
}

impl From<String> for CliError {
    fn from(error: String) -> (r: CliError) {
        CliError::Error(error)
    }
}

impl vstd::std_specs::convert::FromSpecImpl<String> for CliError {
    open spec fn obeys_from_spec() -> bool {
        true
    }

    open spec fn from_spec(error: String) -> CliError {
        CliError::Error(error)
    }
}

/// What a command that failed tells on its way out.
pub open spec fn failure_text(error: CliError) -> Option<Seq<char>> {
    match error {
        CliError::Error(message) => Some("error: "@ + message@),
        CliError::Warning(message) => Some("warning: "@ + message@),
        CliError::Failure => None,
    }
}

/// What is printed of an error.
pub fn failure_message(error: &CliError) -> (r: Option<String>)
    ensures
        crate::text::text_option(r) == failure_text(*error),
{
    match error {
        CliError::Error(message) => {
            let mut text = "error: ".to_owned();
            text.push_str(message.as_str());
            Some(text)
        },
        CliError::Warning(message) => {
            let mut text = "warning: ".to_owned();
            text.push_str(message.as_str());
            Some(text)
        },
        CliError::Failure => None,
    }
}

} // verus!
