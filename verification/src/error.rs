//! Configuration errors, surfaced before a channel is opened.

use vstd::prelude::*;

verus! {

/// What can be wrong with a channel configuration. Each variant carries the
/// offending input, as the caller supplied it.
#[derive(Debug)]
pub enum EtwError {
    /// A provider group identity of all zeros.
    EmptyProviderGroupGuid,
    /// A provider group name with a character outside lowercase ASCII
    /// letters and digits.
    InvalidProviderGroupCharacters(String),
    /// A provider name with a character outside ASCII letters, digits and
    /// underscore.
    InvalidProviderNameCharacters(String),
    /// Provider name and group together at or over the 234-byte limit; the
    /// offending combined length is carried.
    TooManyCharacters(usize),
}

impl EtwError {
    /// A short description of the error, for display by the host.
    pub fn message(&self) -> (r: &'static str)
        ensures
            r@ == match self {
                EtwError::EmptyProviderGroupGuid => "Provider group GUID must not be zeros"@,
                EtwError::InvalidProviderGroupCharacters(_) => "Provider group names must be lower case ASCII or numeric digits"@,
                EtwError::InvalidProviderNameCharacters(_) => "Linux provider names must be ASCII alphanumeric"@,
                EtwError::TooManyCharacters(_) => "Linux provider name and provider group must less than 234 characters combined"@,
            },
    {
        match self {
            EtwError::EmptyProviderGroupGuid => "Provider group GUID must not be zeros",
            EtwError::InvalidProviderGroupCharacters(_) => "Provider group names must be lower case ASCII or numeric digits",
            EtwError::InvalidProviderNameCharacters(_) => "Linux provider names must be ASCII alphanumeric",
            EtwError::TooManyCharacters(_) => "Linux provider name and provider group must less than 234 characters combined",
        }
    }
}

} // verus!
