use vstd::prelude::*;
use vstd::string::StringExecFns;

use crate::error::Error;

verus! {

/// An internal failure or routing signal raised by a pipeline stage.
///
/// The classifier below is the single place that turns these signals into
/// wire-visible statuses and messages.
#[derive(Debug)]
pub enum Signal {
    /// The downstream work did not finish before the configured deadline.
    Timeout,
    /// The rate limiter rejected the request.
    RateLimited,
    /// The bounded queue was full when the request arrived.
    QueueFull,
    /// The submitted code is not a 6-digit decimal string.
    InvalidFormat,
    /// The submitted code is well-formed but does not match.
    Mismatch,
    /// The wall clock could not be read; carries the clock error's text.
    System(String),
    /// No route matches the request path.
    NotFound,
    /// The path is routable but the method is not accepted there.
    MethodNotAllowed,
}

/// The externally visible outcome of a request: a status code and a short body.
#[derive(Debug)]
pub struct Outcome {
    /// HTTP-style status code.
    pub status: u16,
    /// Short human-readable body.
    pub body: String,
}

/// The status code that each signal maps to.
pub open spec fn spec_status(s: Signal) -> u16 {
    match s {
        Signal::Timeout => 408,
        Signal::RateLimited => 429,
        Signal::QueueFull => 429,
        Signal::InvalidFormat => 400,
        Signal::Mismatch => 401,
        Signal::System(_) => 500,
        Signal::NotFound => 404,
        Signal::MethodNotAllowed => 405,
    }
}

/// The message that each signal maps to. Only the clock error is transparent.
pub open spec fn spec_message(s: Signal) -> Seq<char> {
    match s {
        Signal::Timeout => "request timed out"@,
        Signal::RateLimited => "request count reaches the buffer limit"@,
        Signal::QueueFull => "request count reaches the buffer limit"@,
        Signal::InvalidFormat => "Error: TOTP must be a 6-digit number"@,
        Signal::Mismatch => "Error: invalid TOTP"@,
        Signal::System(m) => "Error: "@ + m@,
        Signal::NotFound => "404 Not Found"@,
        Signal::MethodNotAllowed => "405 Method Not Allowed"@,
    }
}

/// Maps an internal signal to its externally stable status and message.
///
/// No other component decides a status code: every failure mode of the
/// pipeline and of the code check goes through this single translation.
pub fn classify(signal: Signal) -> (r: Outcome)
    ensures
        r.status == spec_status(signal),
        r.body@ == spec_message(signal),
{
    match signal {
        Signal::Timeout => Outcome { status: 408, body: String::from_str("request timed out") },
        Signal::RateLimited => Outcome {
            status: 429,
            body: String::from_str("request count reaches the buffer limit"),
        },
        Signal::QueueFull => Outcome {
            status: 429,
            body: String::from_str("request count reaches the buffer limit"),
        },
        Signal::InvalidFormat => Outcome {
            status: 400,
            body: String::from_str("Error: TOTP must be a 6-digit number"),
        },
        Signal::Mismatch => Outcome { status: 401, body: String::from_str("Error: invalid TOTP") },
        Signal::System(m) => Outcome {
            status: 500,
            body: String::from_str("Error: ").concat(m.as_str()),
        },
        Signal::NotFound => Outcome { status: 404, body: String::from_str("404 Not Found") },
        Signal::MethodNotAllowed => Outcome {
            status: 405,
            body: String::from_str("405 Method Not Allowed"),
        },
    }
}

/// The signal that a failed code check raises.
pub open spec fn spec_signal_of(e: Error) -> Signal {
    match e {
        Error::TotpInvalidFormat => Signal::InvalidFormat,
        Error::TotpInvalid => Signal::Mismatch,
        Error::SystemTime(m) => Signal::System(m),
    }
}

/// Converts a code-check error into the signal the classifier understands.
pub fn signal_of(e: Error) -> (r: Signal)
    ensures
        r == spec_signal_of(e),
{
    match e {
        Error::TotpInvalidFormat => Signal::InvalidFormat,
        Error::TotpInvalid => Signal::Mismatch,
        Error::SystemTime(m) => Signal::System(m),
    }
}

/// Classifies an error raised by the timeout stage around the router: the
/// deadline signal becomes a timeout outcome, anything else is opaque.
pub fn classify_layer_error(is_timeout: bool, detail: String) -> (r: Outcome)
    ensures
        is_timeout ==> r.status == 408 && r.body@ == spec_message(Signal::Timeout),
        !is_timeout ==> r.status == 500 && r.body@ == "internal server error: "@ + detail@,
{
    if is_timeout {
        classify(Signal::Timeout)
    } else {
        Outcome {
            status: 500,
            body: String::from_str("internal server error: ").concat(detail.as_str()),
        }
    }
}

} // verus!
