use vstd::prelude::*;
use vstd::string::StrSliceExecFns;

use crate::classifier::Outcome;
use crate::classifier::Signal;
use crate::classifier::classify;
use crate::classifier::signal_of;
use crate::classifier::spec_message;
use crate::classifier::spec_signal_of;
use crate::classifier::spec_status;
use crate::config::Config;
use crate::limiter::Bucket;
use crate::limiter::RateLimiter;
use crate::limiter::spec_admit;
use crate::limiter::spec_fresh;
use crate::totp::InputToken;
use crate::totp::TIME_STEP;
use crate::totp::check_token;
use crate::totp::spec_check;
use crate::totp::unix_now;

verus! {

/// Where a request is dispatched: the code-check route, the liveness probe,
/// or one of the two fixed fallbacks.
#[derive(Debug, Clone, Copy, PartialEq, Eq, Structural)]
pub enum Route {
    /// `POST /`: check a submitted code.
    VerifyCode,
    /// `GET /health`: liveness probe.
    Health,
    /// A known path with a method not accepted there.
    MethodNotAllowed,
    /// No route matches the path.
    NotFound,
}

/// Compares two strings character by character.
fn str_eq(a: &str, b: &str) -> (r: bool)
    ensures
        r == (a@ == b@),
{
    let na = a.unicode_len();
    let nb = b.unicode_len();
    if na != nb {
        return false;
    }
    let mut i: usize = 0;
    while i < na
        invariant
            na == a@.len(),
            a@.len() == b@.len(),
            0 <= i <= na,
            forall|j: int| 0 <= j < i ==> a@[j] == b@[j],
        decreases na - i,
    {
        if a.get_char(i) != b.get_char(i) {
            return false;
        }
        i += 1;
    }
    proof {
        assert(a@ =~= b@);
    }
    true
}

/// The route a method and path pair dispatches to.
pub open spec fn spec_route(method: Seq<char>, path: Seq<char>) -> Route {
    if path == "/"@ {
        if method == "POST"@ {
            Route::VerifyCode
        } else {
            Route::MethodNotAllowed
        }
    } else if path == "/health"@ {
        if method == "GET"@ {
            Route::Health
        } else {
            Route::MethodNotAllowed
        }
    } else {
        Route::NotFound
    }
}

/// Dispatches a method and path to a route, exactly as `spec_route` says.
pub fn route_of(method: &str, path: &str) -> (r: Route)
    ensures
        r == spec_route(method@, path@),
{
    if str_eq(path, "/") {
        if str_eq(method, "POST") {
            Route::VerifyCode
        } else {
            Route::MethodNotAllowed
        }
    } else if str_eq(path, "/health") {
        if str_eq(method, "GET") {
            Route::Health
        } else {
            Route::MethodNotAllowed
        }
    } else {
        Route::NotFound
    }
}

/// The full synchronous decision for one request: admission first — a
/// rejected request never reaches the code engine — then routing, then the
/// code check for the verification route; every failure goes through the
/// classifier's mapping.
pub open spec fn spec_handle(
    m: Map<u64, Bucket>,
    limit: u32,
    window: u64,
    secret: Seq<u8>,
    method: Seq<char>,
    path: Seq<char>,
    token: Seq<char>,
    client: u64,
    now: u64,
) -> (Map<u64, Bucket>, u16, Seq<char>) {
    let m2 = spec_admit(m, limit, window, client, now).0;
    let admitted = spec_admit(m, limit, window, client, now).1;
    if !admitted {
        (m2, 429, spec_message(Signal::RateLimited))
    } else {
        match spec_route(method, path) {
            Route::Health => (m2, 200, Seq::<char>::empty()),
            Route::NotFound => (m2, 404, spec_message(Signal::NotFound)),
            Route::MethodNotAllowed => (m2, 405, spec_message(Signal::MethodNotAllowed)),
            Route::VerifyCode => match spec_check(secret, token, now) {
                Ok(u) => (m2, 200, Seq::<char>::empty()),
                Err(e) => (m2, spec_status(spec_signal_of(e)), spec_message(spec_signal_of(e))),
            },
        }
    }
}

/// Law: the admission stage runs before the handler. A request the limiter
/// rejects is answered 429 with the fixed message, and its outcome cannot
/// depend on the secret or on the submitted body — the code engine is never
/// reached.
pub proof fn lemma_rejected_request_bypasses_checker(
    m: Map<u64, Bucket>,
    limit: u32,
    window: u64,
    s1: Seq<u8>,
    s2: Seq<u8>,
    method: Seq<char>,
    path: Seq<char>,
    t1: Seq<char>,
    t2: Seq<char>,
    client: u64,
    now: u64,
)
    requires
        !spec_admit(m, limit, window, client, now).1,
    ensures
        spec_handle(m, limit, window, s1, method, path, t1, client, now).1 == 429,
        spec_handle(m, limit, window, s1, method, path, t1, client, now) == spec_handle(
            m,
            limit,
            window,
            s2,
            method,
            path,
            t2,
            client,
            now,
        ),
{
}

/// What a request body denotes: the submitted candidate, or nothing.
pub open spec fn spec_token_view(token: Option<&InputToken>) -> Seq<char> {
    match token {
        Some(t) => t.token@,
        None => Seq::<char>::empty(),
    }
}

/// Whether processing a request at instant `now` turns the limiter state
/// `pre` into `post` with the wire-visible `status` and `body`.
pub open spec fn spec_handled_at(
    pre: Map<u64, Bucket>,
    limit: u32,
    window: u64,
    secret: Seq<u8>,
    method: Seq<char>,
    path: Seq<char>,
    token: Seq<char>,
    client: u64,
    now: u64,
    post: Map<u64, Bucket>,
    status: u16,
    body: Seq<char>,
) -> bool {
    spec_handle(pre, limit, window, secret, method, path, token, client, now) == (
        post,
        status,
        body,
    )
}

/// The admission pipeline and handler state of the service: the secret, the
/// rate limiter, and the configured deadlines that the transport enforces
/// around each request.
pub struct Pipeline {
    secret: Vec<u8>,
    limiter: RateLimiter,
    timeout_secs: u64,
    sweep_secs: u64,
}

impl Pipeline {
    /// The shared secret.
    pub closed spec fn spec_secret(&self) -> Seq<u8> {
        self.secret@
    }

    /// The limiter's buckets.
    pub closed spec fn spec_limiter(&self) -> Map<u64, Bucket> {
        self.limiter@
    }

    /// Permits per window.
    pub closed spec fn spec_limit(&self) -> u32 {
        self.limiter.spec_limit()
    }

    /// Window length in seconds.
    pub closed spec fn spec_window(&self) -> u64 {
        self.limiter.spec_window()
    }

    /// The deadline the transport must impose on each request, in seconds.
    pub closed spec fn spec_timeout_secs(&self) -> u64 {
        self.timeout_secs
    }

    /// The interval of the stale-bucket sweep, in seconds.
    pub closed spec fn spec_sweep_secs(&self) -> u64 {
        self.sweep_secs
    }

    /// Internal invariant.
    pub closed spec fn wf(&self) -> bool {
        self.limiter.wf() && self.secret@.len() >= 16
    }

    /// Builds the pipeline from a validated configuration: the limiter gets
    /// the configured permit count per 30-second window and starts empty.
    pub fn new(cfg: Config) -> (r: Pipeline)
        requires
            cfg.wf(),
        ensures
            r.wf(),
            r.spec_secret() == cfg.secret@,
            r.spec_limit() == cfg.rate_limit,
            r.spec_window() == TIME_STEP,
            r.spec_limiter() == Map::<u64, Bucket>::empty(),
            r.spec_timeout_secs() == cfg.timeout_secs,
            r.spec_sweep_secs() == cfg.sweep_secs,
    {
        Pipeline {
            secret: cfg.secret,
            limiter: RateLimiter::new(cfg.rate_limit, TIME_STEP),
            timeout_secs: cfg.timeout_secs,
            sweep_secs: cfg.sweep_secs,
        }
    }

    /// The deadline the transport must impose on each request, in seconds.
    pub fn timeout_secs(&self) -> (r: u64)
        ensures
            r == self.spec_timeout_secs(),
    {
        self.timeout_secs
    }

    /// The interval of the stale-bucket sweep, in seconds.
    pub fn sweep_secs(&self) -> (r: u64)
        ensures
            r == self.spec_sweep_secs(),
    {
        self.sweep_secs
    }

    /// Processes one request at instant `now`, stages in their fixed order:
    /// the limiter decides first, so a rejected request never reaches the
    /// code engine; then the route dispatches; the code check runs only for
    /// the verification route; every failure goes through the classifier.
    pub fn handle_request(
        &mut self,
        method: &str,
        path: &str,
        token: Option<&InputToken>,
        client: u64,
        now: u64,
    ) -> (r: Outcome)
        requires
            old(self).wf(),
            spec_route(method@, path@) is VerifyCode ==> token is Some,
        ensures
            final(self).wf(),
            final(self).spec_secret() == old(self).spec_secret(),
            final(self).spec_limit() == old(self).spec_limit(),
            final(self).spec_window() == old(self).spec_window(),
            final(self).spec_timeout_secs() == old(self).spec_timeout_secs(),
            final(self).spec_sweep_secs() == old(self).spec_sweep_secs(),
            ({
                let out = spec_handle(
                    old(self).spec_limiter(),
                    old(self).spec_limit(),
                    old(self).spec_window(),
                    old(self).spec_secret(),
                    method@,
                    path@,
                    spec_token_view(token),
                    client,
                    now,
                );
                final(self).spec_limiter() == out.0 && r.status == out.1 && r.body@ == out.2
            }),
    {
        let admitted = self.limiter.try_admit(client, now);
        if !admitted {
            return classify(Signal::RateLimited);
        }
        match route_of(method, path) {
            Route::Health => Outcome { status: 200, body: String::new() },
            Route::NotFound => classify(Signal::NotFound),
            Route::MethodNotAllowed => classify(Signal::MethodNotAllowed),
            Route::VerifyCode => {
                match token {
                    Some(t) => {
                        match check_token(self.secret.as_slice(), t.token.as_str(), now) {
                            Ok(u) => Outcome { status: 200, body: String::new() },
                            Err(e) => classify(signal_of(e)),
                        }
                    },
                    None => {
                        // The verification route requires a body, so this
                        // arm cannot be reached.
                        proof {
                            assert(false);
                        }
                        classify(Signal::NotFound)
                    },
                }
            },
        }
    }

    /// Processes one request at the wall clock's instant: either the
    /// decision for the instant the clock gave, or — when the clock cannot
    /// be read — the system-error outcome with the limiter untouched.
    pub fn handle_request_current(
        &mut self,
        method: &str,
        path: &str,
        token: Option<&InputToken>,
        client: u64,
    ) -> (r: Outcome)
        requires
            old(self).wf(),
            spec_route(method@, path@) is VerifyCode ==> token is Some,
        ensures
            final(self).wf(),
            final(self).spec_secret() == old(self).spec_secret(),
            final(self).spec_limit() == old(self).spec_limit(),
            final(self).spec_window() == old(self).spec_window(),
            final(self).spec_timeout_secs() == old(self).spec_timeout_secs(),
            final(self).spec_sweep_secs() == old(self).spec_sweep_secs(),
            (exists|now: u64|
                #[trigger] spec_handled_at(
                    old(self).spec_limiter(),
                    old(self).spec_limit(),
                    old(self).spec_window(),
                    old(self).spec_secret(),
                    method@,
                    path@,
                    spec_token_view(token),
                    client,
                    now,
                    final(self).spec_limiter(),
                    r.status,
                    r.body@,
                )) || (final(self).spec_limiter() == old(self).spec_limiter() && r.status == 500),
    {
        match unix_now() {
            Ok(now) => {
                let r = self.handle_request(method, path, token, client, now);
                proof {
                    assert(spec_handled_at(
                        old(self).spec_limiter(),
                        old(self).spec_limit(),
                        old(self).spec_window(),
                        old(self).spec_secret(),
                        method@,
                        path@,
                        spec_token_view(token),
                        client,
                        now,
                        self.spec_limiter(),
                        r.status,
                        r.body@,
                    ));
                }
                r
            },
            Err(msg) => classify(Signal::System(msg)),
        }
    }

    /// Runs the stale-bucket sweep at `now`: evicts every bucket whose
    /// window has passed, and nothing else.
    pub fn sweep(&mut self, now: u64)
        requires
            old(self).wf(),
        ensures
            final(self).wf(),
            final(self).spec_secret() == old(self).spec_secret(),
            final(self).spec_limit() == old(self).spec_limit(),
            final(self).spec_window() == old(self).spec_window(),
            final(self).spec_timeout_secs() == old(self).spec_timeout_secs(),
            final(self).spec_sweep_secs() == old(self).spec_sweep_secs(),
            forall|k: u64| #[trigger] final(self).spec_limiter().contains_key(k) <==> (old(self).spec_limiter().contains_key(k) && spec_fresh(
                old(self).spec_limiter()[k],
                old(self).spec_window(),
                now,
            )),
            forall|k: u64| #[trigger] final(self).spec_limiter().contains_key(k) ==> final(self).spec_limiter()[k] == old(self).spec_limiter()[k],
    {
        self.limiter.sweep(now);
    }
}

} // verus!
