use vstd::prelude::*;
use vstd::string::StrSliceExecFns;
use vstd::string::StringExecFns;

use crate::config::spec_is_digit;
use crate::error::Error;

verus! {

/// Number of decimal digits in a code.
pub const TOKEN_DIGITS: usize = 6;

/// Length of a time window in seconds.
pub const TIME_STEP: u64 = 30;

/// The counter a wall-clock instant falls into: unix seconds quantized into
/// 30-second windows.
pub open spec fn spec_counter(now: u64) -> u64 {
    now / TIME_STEP
}

/// Computes the counter for an instant.
pub fn counter_of(now: u64) -> (r: u64)
    ensures
        r == spec_counter(now),
{
    now / TIME_STEP
}

/// The eight bytes of a counter, most significant first.
pub open spec fn spec_be_bytes(c: u64) -> Seq<u8> {
    seq![
        (c >> 56) as u8,
        (c >> 48) as u8,
        (c >> 40) as u8,
        (c >> 32) as u8,
        (c >> 24) as u8,
        (c >> 16) as u8,
        (c >> 8) as u8,
        c as u8,
    ]
}

/// Dynamic truncation of a 20-byte digest into a 31-bit integer: the low
/// nibble of the last byte picks an offset, and four bytes from there form a
/// big-endian integer with the top bit cleared.
pub open spec fn spec_truncate(digest: Seq<u8>) -> u32 {
    let offset = (digest[19] & 0x0f) as int;
    let b0 = (digest[offset] & 0x7f) as u32;
    let b1 = digest[offset + 1] as u32;
    let b2 = digest[offset + 2] as u32;
    let b3 = digest[offset + 3] as u32;
    (b0 << 24) | (b1 << 16) | (b2 << 8) | b3
}

fn dynamic_truncate(digest: &Vec<u8>) -> (r: u32)
    requires
        digest@.len() == 20,
    ensures
        r == spec_truncate(digest@),
{
    let last = digest[19];
    let offset = (last & 0x0f) as usize;
    proof {
        assert(last & 0x0f < 16) by (bit_vector);
    }
    let b0 = digest[offset] & 0x7f;
    let b1 = digest[offset + 1];
    let b2 = digest[offset + 2];
    let b3 = digest[offset + 3];
    ((b0 as u32) << 24) | ((b1 as u32) << 16) | ((b2 as u32) << 8) | (b3 as u32)
}

/// The character for one decimal digit.
pub open spec fn spec_digit_char(d: int) -> char {
    if d == 0 {
        '0'
    } else if d == 1 {
        '1'
    } else if d == 2 {
        '2'
    } else if d == 3 {
        '3'
    } else if d == 4 {
        '4'
    } else if d == 5 {
        '5'
    } else if d == 6 {
        '6'
    } else if d == 7 {
        '7'
    } else if d == 8 {
        '8'
    } else {
        '9'
    }
}

fn digit_str(d: u32) -> (r: &'static str)
    requires
        d < 10,
    ensures
        r@ =~= seq![spec_digit_char(d as int)],
{
    match d {
        0 => {
            proof {
                reveal_strlit("0");
            }
            "0"
        },
        1 => {
            proof {
                reveal_strlit("1");
            }
            "1"
        },
        2 => {
            proof {
                reveal_strlit("2");
            }
            "2"
        },
        3 => {
            proof {
                reveal_strlit("3");
            }
            "3"
        },
        4 => {
            proof {
                reveal_strlit("4");
            }
            "4"
        },
        5 => {
            proof {
                reveal_strlit("5");
            }
            "5"
        },
        6 => {
            proof {
                reveal_strlit("6");
            }
            "6"
        },
        7 => {
            proof {
                reveal_strlit("7");
            }
            "7"
        },
        8 => {
            proof {
                reveal_strlit("8");
            }
            "8"
        },
        _ => {
            proof {
                reveal_strlit("9");
            }
            "9"
        },
    }
}

/// The six characters of a code value below 10^6, zero-padded.
pub open spec fn spec_code_digits(v: int) -> Seq<char> {
    seq![
        spec_digit_char(v / 100000 % 10),
        spec_digit_char(v / 10000 % 10),
        spec_digit_char(v / 1000 % 10),
        spec_digit_char(v / 100 % 10),
        spec_digit_char(v / 10 % 10),
        spec_digit_char(v % 10),
    ]
}

fn code_digits(v: u32) -> (r: String)
    requires
        v < 1000000,
    ensures
        r@ == spec_code_digits(v as int),
{
    let mut s = String::new();
    s.append(digit_str(v / 100000 % 10));
    s.append(digit_str(v / 10000 % 10));
    s.append(digit_str(v / 1000 % 10));
    s.append(digit_str(v / 100 % 10));
    s.append(digit_str(v / 10 % 10));
    s.append(digit_str(v % 10));
    proof {
        assert(s@ =~= spec_code_digits(v as int));
    }
    s
}

/// A well-formed candidate: exactly six characters, each a decimal digit.
pub open spec fn spec_valid_format(t: Seq<char>) -> bool {
    t.len() == 6 && (forall|i: int| 0 <= i < t.len() ==> spec_is_digit(#[trigger] t[i]))
}

/// Checks the syntactic shape of a candidate code.
pub fn valid_format(t: &str) -> (r: bool)
    ensures
        r == spec_valid_format(t@),
{
    let n = t.unicode_len();
    if n != TOKEN_DIGITS {
        return false;
    }
    let mut i: usize = 0;
    while i < 6
        invariant
            t@.len() == 6,
            0 <= i <= 6,
            forall|j: int| 0 <= j < i ==> spec_is_digit(#[trigger] t@[j]),
        decreases 6 - i,
    {
        let c = t.get_char(i);
        if c < '0' || c > '9' {
            return false;
        }
        i += 1;
    }
    true
}

/// Compares two equal-length strings without an early exit, so the time the
/// comparison takes does not depend on where the strings first differ.
pub fn constant_time_eq(a: &str, b: &str) -> (r: bool)
    requires
        a@.len() == b@.len(),
    ensures
        r == (a@ == b@),
{
    let n = a.unicode_len();
    let mut diff: u32 = 0;
    let mut i: usize = 0;
    while i < n
        invariant
            n == a@.len(),
            a@.len() == b@.len(),
            0 <= i <= n,
            (diff == 0) <==> (forall|j: int| 0 <= j < i ==> a@[j] == b@[j]),
        decreases n - i,
    {
        let ca = a.get_char(i) as u32;
        let cb = b.get_char(i) as u32;
        let x = ca ^ cb;
        proof {
            assert((ca ^ cb == 0) == (ca == cb)) by (bit_vector);
            let od = diff;
            assert(((od | (ca ^ cb)) == 0) == (od == 0 && (ca ^ cb) == 0)) by (bit_vector);
        }
        diff = diff | x;
        i += 1;
    }
    if diff == 0 {
        proof {
            assert(a@ =~= b@);
        }
        true
    } else {
        false
    }
}

/// What HMAC-SHA-1 returns for a key and a message; a function of the two
/// arguments alone.
pub uninterp spec fn hmac_sha1_of(key: Seq<u8>, msg: Seq<u8>) -> Seq<u8>;

/// Relies on totp_rs::Totp::sign with a one-second step: it returns the
/// HMAC-SHA-1 digest of the eight-byte big-endian counter keyed by the
/// secret, a 20-byte value that depends on the two arguments alone. The
/// builder accepts any secret of at least 16 bytes and any non-zero step.
#[verifier::external_body]
fn hmac_sha1_counter(key: &[u8], counter: u64) -> (r: Vec<u8>)
    requires
        key@.len() >= 16,
    ensures
        r@ == hmac_sha1_of(key@, spec_be_bytes(counter)),
        r@.len() == 20,
{
    let totp = totp_rs::Builder::new()
        .with_algorithm(totp_rs::Algorithm::SHA1)
        .with_secret(key)
        .with_step_duration(1)
        .build()
        .expect("a secret of 16 bytes or more and a step of 1 are accepted");
    let signature = totp.sign(counter);
    let digest = signature.as_ref().to_vec();
    digest
}

/// Relies on std::time::SystemTime::now: reads the wall clock as whole unix
/// seconds; fails when the clock lies before the unix epoch, and then carries
/// the clock error's text.
#[verifier::external_body]
pub(crate) fn unix_now() -> (r: Result<u64, String>) {
    match std::time::SystemTime::now().duration_since(std::time::UNIX_EPOCH) {
        Ok(d) => Ok(d.as_secs()),
        Err(e) => Err(format!("{e}")),
    }
}

/// What the RFC 4648 base32 alphabet without padding encodes a byte string
/// to; a function of the bytes alone.
pub uninterp spec fn base32_of(bytes: Seq<u8>) -> Seq<char>;

/// Relies on totp_rs::Secret::to_base32: base32 over the RFC 4648 alphabet
/// without padding, a function of the bytes alone.
#[verifier::external_body]
fn base32_encode(bytes: &[u8]) -> (r: String)
    ensures
        r@ == base32_of(bytes@),
{
    totp_rs::Secret::from(bytes).to_base32()
}

/// The base32 form of a secret, as shown to a user at enrollment.
pub fn secret_base32(secret: &[u8]) -> (r: String)
    ensures
        r@ == base32_of(secret@),
{
    base32_encode(secret)
}

/// The six-digit code for a secret and a counter: dynamic truncation of the
/// HMAC-SHA-1 digest of the eight-byte big-endian counter, modulo 10^6,
/// zero-padded to six digits.
pub open spec fn spec_code(secret: Seq<u8>, counter: u64) -> Seq<char> {
    spec_code_digits((spec_truncate(hmac_sha1_of(secret, spec_be_bytes(counter))) % 1000000) as int)
}

proof fn lemma_code_digits_format(v: int)
    ensures
        spec_valid_format(spec_code_digits(v)),
{
    let s = spec_code_digits(v);
    assert(s.len() == 6);
    assert(spec_is_digit(s[0]));
    assert(spec_is_digit(s[1]));
    assert(spec_is_digit(s[2]));
    assert(spec_is_digit(s[3]));
    assert(spec_is_digit(s[4]));
    assert(spec_is_digit(s[5]));
}

/// Derives the six-digit code for `secret` at `counter`.
pub fn compute(secret: &[u8], counter: u64) -> (r: String)
    requires
        secret@.len() >= 16,
    ensures
        r@ == spec_code(secret@, counter),
        spec_valid_format(r@),
{
    let digest = hmac_sha1_counter(secret, counter);
    let value = dynamic_truncate(&digest) % 1000000;
    let r = code_digits(value);
    proof {
        lemma_code_digits_format(value as int);
    }
    r
}

/// Whether a well-formed candidate matches the code of the window `now`
/// falls in: exact-window acceptance, that is, skew tolerance 0.
pub open spec fn spec_verify(secret: Seq<u8>, candidate: Seq<char>, now: u64) -> bool {
    candidate == spec_code(secret, spec_counter(now))
}

/// Checks a candidate against the current window's code, with the
/// constant-time comparison; a candidate of the wrong length can never
/// match the six-digit code.
pub fn verify(secret: &[u8], candidate: &str, now: u64) -> (r: bool)
    requires
        secret@.len() >= 16,
    ensures
        r == spec_verify(secret@, candidate@, now),
{
    let code = compute(secret, counter_of(now));
    if candidate.unicode_len() != 6 {
        return false;
    }
    constant_time_eq(candidate, code.as_str())
}

/// The outcome of checking a submitted candidate at `now`: a format
/// violation beats everything, then the code either matches or does not.
pub open spec fn spec_check(secret: Seq<u8>, token: Seq<char>, now: u64) -> Result<(), Error> {
    if !spec_valid_format(token) {
        Err(Error::TotpInvalidFormat)
    } else if spec_verify(secret, token, now) {
        Ok(())
    } else {
        Err(Error::TotpInvalid)
    }
}

/// Validates the candidate's shape, then checks it against the code for the
/// window `now` falls in.
pub fn check_token(secret: &[u8], token: &str, now: u64) -> (r: Result<(), Error>)
    requires
        secret@.len() >= 16,
    ensures
        r == spec_check(secret@, token@, now),
{
    if !valid_format(token) {
        return Err(Error::TotpInvalidFormat);
    }
    if verify(secret, token, now) {
        Ok(())
    } else {
        Err(Error::TotpInvalid)
    }
}

/// Law: a candidate that is not six decimal digits is rejected as a format
/// error for every secret and every instant — the code comparison is never
/// reached, so the outcome cannot depend on the secret or the clock.
pub proof fn lemma_format_rejection_uniform(
    token: Seq<char>,
    s1: Seq<u8>,
    s2: Seq<u8>,
    n1: u64,
    n2: u64,
)
    requires
        !spec_valid_format(token),
    ensures
        spec_check(s1, token, n1) == Err::<(), Error>(Error::TotpInvalidFormat),
        spec_check(s1, token, n1) == spec_check(s2, token, n2),
{
}

/// Law: the code is six decimal digits for every secret and counter; with
/// `compute`'s contract pinning its result to `spec_code`, any two
/// computations on equal inputs also return the same code.
pub proof fn lemma_code_six_digits(secret: Seq<u8>, counter: u64)
    ensures
        spec_code(secret, counter).len() == 6,
        spec_valid_format(spec_code(secret, counter)),
{
    lemma_code_digits_format(
        (spec_truncate(hmac_sha1_of(secret, spec_be_bytes(counter))) % 1000000) as int,
    );
}

/// Law: generate-then-check round trip. The code computed for the window
/// that `now` falls in is accepted by the checker at `now`.
pub proof fn lemma_generate_then_check(secret: Seq<u8>, now: u64)
    ensures
        spec_check(secret, spec_code(secret, spec_counter(now)), now) == Ok::<(), Error>(()),
{
    lemma_code_six_digits(secret, spec_counter(now));
}

/// Generates the code for the current window: the code engine applied at
/// the wall clock's instant. Fails exactly when the clock cannot be read.
pub fn try_get_token(secret: &[u8]) -> (r: Result<String, Error>)
    requires
        secret@.len() >= 16,
    ensures
        match r {
            Ok(t) => {
                &&& spec_valid_format(t@)
                &&& exists|now: u64| t@ == spec_code(secret@, spec_counter(now))
            },
            Err(e) => e is SystemTime,
        },
{
    match unix_now() {
        Ok(now) => {
            let token = compute(secret, counter_of(now));
            proof {
                assert(token@ == spec_code(secret@, spec_counter(now)));
            }
            Ok(token)
        },
        Err(msg) => Err(Error::SystemTime(msg)),
    }
}

/// Checks a submitted token against the wall clock. The format decision
/// never depends on the clock; past it, either the check for the instant the
/// clock gave is returned, or the clock's own failure.
pub fn check_current(secret: &[u8], input: &InputToken) -> (r: Result<(), Error>)
    requires
        secret@.len() >= 16,
    ensures
        !spec_valid_format(input.token@) ==> r == Err::<(), Error>(Error::TotpInvalidFormat),
        spec_valid_format(input.token@) ==> match r {
            Ok(u) => exists|now: u64| spec_check(secret@, input.token@, now) == Ok::<(), Error>(()),
            Err(e) => {
                &&& (e is TotpInvalid || e is SystemTime)
                &&& (e is TotpInvalid ==> exists|now: u64|
                    spec_check(secret@, input.token@, now) == Err::<(), Error>(Error::TotpInvalid))
            },
        },
{
    if !valid_format(input.token.as_str()) {
        return Err(Error::TotpInvalidFormat);
    }
    match unix_now() {
        Ok(now) => check_token(secret, input.token.as_str(), now),
        Err(msg) => Err(Error::SystemTime(msg)),
    }
}

/// The six-digit code that users submit.
#[derive(Debug)]
pub struct InputToken {
    /// The submitted candidate code.
    pub token: String,
}

impl InputToken {
    /// Creates a new `InputToken`.
    pub fn new(value: String) -> (r: InputToken)
        ensures
            r.token@ == value@,
    {
        InputToken { token: value }
    }
}

} // verus!
