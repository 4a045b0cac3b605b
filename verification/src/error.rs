//! The errors that the library reports.

use vstd::prelude::*;
use vstd::string::StringExecFns;

verus! {

/// A route pattern that the regular expression engine did not accept.
#[derive(Clone, Debug, PartialEq, Eq)]
pub struct PatternCompileError {
    /// The pattern as it was given.
    pub pattern: String,
    /// What the engine said of it.
    pub message: String,
}

/// A header that a request was asked for and does not hold.
#[derive(Clone, Debug, PartialEq, Eq)]
pub struct HeaderMissingError {
    /// The name that was looked for.
    pub name: String,
}

/// A status code for which there is no canonical reason phrase, so that no
/// status line can be written for it.
#[derive(Clone, Copy, Debug, PartialEq, Eq)]
pub struct ReasonPhraseLookupError {
    /// The status code of the response.
    pub status: u16,
}

impl PatternCompileError {
    /// The text to show for this error.
    pub fn message(&self) -> (text: String)
        ensures
            text@ == "invalid route pattern `"@ + self.pattern@ + "`: "@ + self.message@,
    {
        let mut text = String::from_str("invalid route pattern `");
        text.append(self.pattern.as_str());
        text.append("`: ");
        text.append(self.message.as_str());
        text
    }
}

impl HeaderMissingError {
    /// The text to show for this error.
    pub fn message(&self) -> (text: String)
        ensures
            text@ == "missing header: "@ + self.name@,
    {
        let mut text = String::from_str("missing header: ");
        text.append(self.name.as_str());
        text
    }
}

impl ReasonPhraseLookupError {
    /// The text to show for this error.
    pub fn message(&self) -> (text: String)
        ensures
            text@ == "no canonical reason phrase for the status code"@,
    {
        String::from_str("no canonical reason phrase for the status code")
    }
}

} // verus!
