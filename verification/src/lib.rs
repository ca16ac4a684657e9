//! Verification service for time-based one-time codes.
//!
//! The library holds the verified core of the service: the code engine that
//! derives a six-digit code from a shared secret and a time counter, the
//! handler that validates and checks a submitted code, the admission pieces
//! (rate limiter and bounded queue) that protect the endpoint, and the
//! classifier that turns every internal signal into a stable status and
//! message. Transport, sockets and task scheduling live outside the library.

mod classifier;
mod config;
mod error;
mod limiter;
mod pipeline;
mod queue;
mod totp;

pub use classifier::Outcome;
pub use classifier::Signal;
pub use classifier::classify;
pub use classifier::classify_layer_error;
pub use classifier::signal_of;
pub use classifier::spec_message;
pub use classifier::spec_signal_of;
pub use classifier::spec_status;
pub use config::CRATE_NAME;
pub use config::Config;
pub use config::ConfigError;
pub use config::PKG_NAME;
pub use config::bind_port_from;
pub use config::opt_view;
pub use config::parse_decimal;
pub use config::rate_limit_from;
pub use config::spec_bind_port_of;
pub use config::spec_dec_val;
pub use config::spec_is_dec;
pub use config::spec_is_digit;
pub use config::spec_rate_limit_of;
pub use config::validate_secret;
pub use error::Error;
pub use limiter::Bucket;
pub use limiter::RateLimiter;
pub use limiter::bucket_map;
pub use limiter::lemma_rate_limit_window;
pub use limiter::lemma_sweep_preserves_decisions;
pub use limiter::lemma_window_reset;
pub use limiter::spec_admit;
pub use limiter::spec_admit_all;
pub use limiter::spec_fresh;
pub use limiter::spec_in_window;
pub use limiter::unique_keys;
pub use pipeline::Pipeline;
pub use pipeline::Route;
pub use pipeline::route_of;
pub use pipeline::lemma_rejected_request_bypasses_checker;
pub use pipeline::spec_handle;
pub use pipeline::spec_handled_at;
pub use pipeline::spec_token_view;
pub use pipeline::spec_route;
pub use queue::BoundedQueue;
pub use totp::InputToken;
pub use totp::base32_of;
pub use totp::check_current;
pub use totp::check_token;
pub use totp::compute;
pub use totp::hmac_sha1_of;
pub use totp::lemma_code_six_digits;
pub use totp::lemma_format_rejection_uniform;
pub use totp::lemma_generate_then_check;
pub use totp::secret_base32;
pub use totp::spec_check;
pub use totp::spec_code;
pub use totp::spec_verify;
pub use totp::try_get_token;
pub use totp::verify;
pub use totp::TIME_STEP;
pub use totp::TOKEN_DIGITS;
pub use totp::constant_time_eq;
pub use totp::counter_of;
pub use totp::spec_be_bytes;
pub use totp::spec_code_digits;
pub use totp::spec_counter;
pub use totp::spec_digit_char;
pub use totp::spec_truncate;
pub use totp::spec_valid_format;
pub use totp::valid_format;
