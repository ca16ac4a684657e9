use vstd::prelude::*;

verus! {

/// Enumeration of errors that can occur while checking a submitted code.
#[derive(Debug)]
pub enum Error {
    /// The provided code does not match the expected 6-digit format.
    TotpInvalidFormat,
    /// The provided code is well-formed but wrong or expired.
    TotpInvalid,
    /// The wall clock could not be read; carries the clock error's text.
    SystemTime(String),
}

} // verus!
