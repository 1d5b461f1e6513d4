//! Errors of the backend.
use vstd::prelude::*;

verus! {

/// Why a request to the backend failed.
#[derive(Debug, PartialEq, Eq)]
pub enum ProviderError {
    /// The request could not be carried out; the text says why.
    ExecutionError(String),
}

impl View for ProviderError {
    type V = Seq<char>;

    open spec fn view(&self) -> Seq<char> {
        match self {
            ProviderError::ExecutionError(text) => text@,
        }
    }
}

impl ProviderError {
    /// The text of the error.
    pub fn message(&self) -> (text: &str)
        ensures
            text@ == self@,
    {
        match self {
            ProviderError::ExecutionError(text) => text.as_str(),
        }
    }

    /// The same error once more.
    pub fn duplicate(&self) -> (copy: ProviderError)
        ensures
            copy@ == self@,
    {
        match self {
            ProviderError::ExecutionError(text) => ProviderError::ExecutionError(text.clone()),
        }
    }
}

/// An error says exactly its text.
pub proof fn errors_say_their_text(error: ProviderError, text: String)
    ensures
        error == ProviderError::ExecutionError(text) ==> error@ == text@,
{
}

} // verus!
