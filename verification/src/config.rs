use vstd::prelude::*;
use vstd::string::StrSliceExecFns;

verus! {

/// Crate name, with an underscore.
pub const CRATE_NAME: &'static str = "totp_server";

/// Package name, with a hyphen.
pub const PKG_NAME: &'static str = "totp-server";

/// Reasons startup validation can refuse the given configuration.
#[derive(Debug, Clone, Copy, PartialEq, Eq, Structural)]
pub enum ConfigError {
    /// The secret holds fewer than 16 bytes (128 bits).
    SecretTooShort,
    /// The rate limit is not a positive decimal number that fits in 32 bits.
    BadRateLimit,
    /// The bind port is not a non-zero decimal number that fits in 16 bits.
    BadBindPort,
}

/// Whether `c` is an ASCII decimal digit.
pub open spec fn spec_is_digit(c: char) -> bool {
    '0' <= c <= '9'
}

/// Whether `s` is a non-empty string of ASCII decimal digits.
pub open spec fn spec_is_dec(s: Seq<char>) -> bool {
    s.len() >= 1 && forall|i: int| 0 <= i < s.len() ==> spec_is_digit(#[trigger] s[i])
}

/// The numeric value of a decimal digit string, most significant digit first.
pub open spec fn spec_dec_val(s: Seq<char>) -> int
    decreases s.len(),
{
    if s.len() == 0 {
        0
    } else {
        spec_dec_val(s.drop_last()) * 10 + (s.last() as int - '0' as int)
    }
}

proof fn lemma_dec_val_prefix_le(s: Seq<char>, k: int)
    requires
        spec_is_dec(s),
        0 <= k <= s.len(),
    ensures
        spec_dec_val(s.take(k)) <= spec_dec_val(s),
    decreases s.len() - k,
{
    if k == s.len() {
        assert(s.take(k) =~= s);
    } else {
        assert(s.take(k + 1).drop_last() =~= s.take(k));
        assert(s.take(k + 1).last() == s[k]);
        assert(spec_is_digit(s[k]));
        assert(spec_dec_val(s.take(k)) >= 0) by {
            lemma_dec_val_nonneg(s.take(k));
        }
        assert(spec_dec_val(s.take(k)) <= spec_dec_val(s.take(k + 1)));
        lemma_dec_val_prefix_le(s, k + 1);
    }
}

proof fn lemma_dec_val_nonneg(s: Seq<char>)
    requires
        forall|i: int| 0 <= i < s.len() ==> spec_is_digit(#[trigger] s[i]),
    ensures
        spec_dec_val(s) >= 0,
    decreases s.len(),
{
    if s.len() > 0 {
        assert(forall|i: int| 0 <= i < s.drop_last().len() ==> spec_is_digit(
            #[trigger] s.drop_last()[i],
        ));
        lemma_dec_val_nonneg(s.drop_last());
        assert(spec_is_digit(s.last()));
    }
}

/// Parses a non-empty ASCII decimal string into a number no larger than
/// `max`; rejects anything else.
pub fn parse_decimal(s: &str, max: u64) -> (r: Option<u64>)
    ensures
        match r {
            Some(v) => spec_is_dec(s@) && spec_dec_val(s@) == v && v <= max,
            None => !spec_is_dec(s@) || spec_dec_val(s@) > max,
        },
{
    let n = s.unicode_len();
    if n == 0 {
        return None;
    }
    let mut v: u64 = 0;
    let mut i: usize = 0;
    while i < n
        invariant
            n == s@.len(),
            0 <= i <= n,
            v <= max,
            max <= 0xffff_ffff_ffff_ffffu64,
            forall|j: int| 0 <= j < i ==> spec_is_digit(#[trigger] s@[j]),
            v == spec_dec_val(s@.take(i as int)),
        decreases n - i,
    {
        let c = s.get_char(i);
        if c < '0' || c > '9' {
            return None;
        }
        let d: u64 = (c as u32 - '0' as u32) as u64;
        proof {
            assert(s@.take(i as int + 1).drop_last() =~= s@.take(i as int));
            assert(s@.take(i as int + 1).last() == s@[i as int]);
        }
        if d > max || v > (max - d) / 10 {
            // The value so far already forces the total over `max`.
            proof {
                assert(spec_dec_val(s@.take(i as int + 1)) == v * 10 + d);
                assert(v * 10 + d > max) by (nonlinear_arith)
                    requires
                        d > max || v > (max - d) / 10,
                        d <= 9,
                        v >= 0,
                        max >= 0,
                ;
                if spec_is_dec(s@) {
                    lemma_dec_val_prefix_le(s@, i as int + 1);
                }
            }
            return None;
        }
        proof {
            assert(v * 10 + d <= max) by (nonlinear_arith)
                requires
                    d <= max,
                    v <= (max - d) / 10,
                    d <= 9,
                    v >= 0,
                    max >= 0,
            ;
        }
        v = v * 10 + d;
        i += 1;
    }
    proof {
        assert(s@.take(n as int) =~= s@);
    }
    Some(v)
}

/// What the optional raw strings denote at the specification level.
pub open spec fn opt_view(o: Option<&str>) -> Option<Seq<char>> {
    match o {
        Some(s) => Some(s@),
        None => None,
    }
}

/// The permit count a raw setting denotes: absent means 25 per window; a
/// present value must be a positive decimal number that fits in 32 bits.
pub open spec fn spec_rate_limit_of(raw: Option<Seq<char>>) -> Result<u32, ConfigError> {
    match raw {
        None => Ok(25u32),
        Some(s) => if spec_is_dec(s) && 1 <= spec_dec_val(s) <= 0xffff_ffffu64 {
            Ok(spec_dec_val(s) as u32)
        } else {
            Err(ConfigError::BadRateLimit)
        },
    }
}

/// The bind port a raw setting denotes: absent means 9000; a present value
/// must be a non-zero decimal number that fits in 16 bits.
pub open spec fn spec_bind_port_of(raw: Option<Seq<char>>) -> Result<u16, ConfigError> {
    match raw {
        None => Ok(9000u16),
        Some(s) => if spec_is_dec(s) && 1 <= spec_dec_val(s) <= 0xffffu64 {
            Ok(spec_dec_val(s) as u16)
        } else {
            Err(ConfigError::BadBindPort)
        },
    }
}

/// Parses and defaults the permit count exactly as `spec_rate_limit_of` says.
pub fn rate_limit_from(raw: Option<&str>) -> (r: Result<u32, ConfigError>)
    ensures
        r == spec_rate_limit_of(opt_view(raw)),
{
    match raw {
        None => Ok(25),
        Some(s) => match parse_decimal(s, 0xffff_ffff) {
            Some(v) => if v >= 1 {
                Ok(v as u32)
            } else {
                Err(ConfigError::BadRateLimit)
            },
            None => Err(ConfigError::BadRateLimit),
        },
    }
}

/// Parses and defaults the bind port exactly as `spec_bind_port_of` says.
pub fn bind_port_from(raw: Option<&str>) -> (r: Result<u16, ConfigError>)
    ensures
        r == spec_bind_port_of(opt_view(raw)),
{
    match raw {
        None => Ok(9000),
        Some(s) => match parse_decimal(s, 0xffff) {
            Some(v) => if v >= 1 {
                Ok(v as u16)
            } else {
                Err(ConfigError::BadBindPort)
            },
            None => Err(ConfigError::BadBindPort),
        },
    }
}

/// Checks the secret-length invariant: at least 16 bytes (128 bits).
pub fn validate_secret(secret: &[u8]) -> (r: Result<(), ConfigError>)
    ensures
        r is Ok <==> secret@.len() >= 16,
        r is Err ==> r == Err::<(), ConfigError>(ConfigError::SecretTooShort),
{
    if secret.len() >= 16 {
        Ok(())
    } else {
        Err(ConfigError::SecretTooShort)
    }
}

/// The validated startup configuration, built once and passed to every
/// component that needs it.
pub struct Config {
    /// Shared secret, at least 16 bytes.
    pub secret: Vec<u8>,
    /// Permits per rate-limit window.
    pub rate_limit: u32,
    /// TCP port to bind.
    pub bind_port: u16,
    /// Deadline for one request, in seconds.
    pub timeout_secs: u64,
    /// Interval of the stale-bucket sweep, in seconds.
    pub sweep_secs: u64,
}

impl Config {
    /// Validity of a built configuration.
    pub open spec fn wf(&self) -> bool {
        &&& self.secret@.len() >= 16
        &&& self.rate_limit >= 1
        &&& self.bind_port >= 1
        &&& self.timeout_secs >= 1
        &&& self.sweep_secs >= 1
    }

    /// Startup validation: refuses a short secret, then a bad rate limit,
    /// then a bad port; on success fills in the fixed timeout (1 s) and
    /// sweep interval (60 s).
    pub fn build(secret: Vec<u8>, rate_limit_raw: Option<&str>, bind_port_raw: Option<&str>) -> (r:
        Result<Config, ConfigError>)
        ensures
            match r {
                Ok(c) => {
                    &&& c.wf()
                    &&& c.secret@ == secret@
                    &&& secret@.len() >= 16
                    &&& spec_rate_limit_of(opt_view(rate_limit_raw)) == Ok::<u32, ConfigError>(
                        c.rate_limit,
                    )
                    &&& spec_bind_port_of(opt_view(bind_port_raw)) == Ok::<u16, ConfigError>(
                        c.bind_port,
                    )
                    &&& c.timeout_secs == 1
                    &&& c.sweep_secs == 60
                },
                Err(e) => match e {
                    ConfigError::SecretTooShort => secret@.len() < 16,
                    ConfigError::BadRateLimit => secret@.len() >= 16 && spec_rate_limit_of(
                        opt_view(rate_limit_raw),
                    ) is Err,
                    ConfigError::BadBindPort => secret@.len() >= 16 && spec_rate_limit_of(
                        opt_view(rate_limit_raw),
                    ) is Ok && spec_bind_port_of(opt_view(bind_port_raw)) is Err,
                },
            },
    {
        if secret.len() < 16 {
            return Err(ConfigError::SecretTooShort);
        }
        let rate_limit = match rate_limit_from(rate_limit_raw) {
            Ok(v) => v,
            Err(e) => {
                return Err(e);
            },
        };
        let bind_port = match bind_port_from(bind_port_raw) {
            Ok(v) => v,
            Err(e) => {
                return Err(e);
            },
        };
        Ok(Config { secret, rate_limit, bind_port, timeout_secs: 1, sweep_secs: 60 })
    }
}

} // verus!
