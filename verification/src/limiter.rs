use vstd::prelude::*;

verus! {

/// One client's admission budget within its current window.
#[derive(Debug, Clone, Copy, PartialEq, Eq, Structural)]
pub struct Bucket {
    /// Unix second at which this bucket's window started.
    pub start: u64,
    /// Requests admitted since `start`.
    pub count: u32,
}

/// The map that an association list of buckets denotes: later entries win,
/// though the limiter below keeps keys unique so order never matters.
pub open spec fn bucket_map(s: Seq<(u64, Bucket)>) -> Map<u64, Bucket>
    decreases s.len(),
{
    if s.len() == 0 {
        Map::empty()
    } else {
        bucket_map(s.drop_last()).insert(s.last().0, s.last().1)
    }
}

/// Every key appears at most once in the association list.
pub open spec fn unique_keys(s: Seq<(u64, Bucket)>) -> bool {
    forall|i: int, j: int| 0 <= i < j < s.len() ==> s[i].0 != s[j].0
}

proof fn lemma_bucket_map_index(s: Seq<(u64, Bucket)>, i: int)
    requires
        unique_keys(s),
        0 <= i < s.len(),
    ensures
        bucket_map(s).contains_key(s[i].0),
        bucket_map(s)[s[i].0] == s[i].1,
    decreases s.len(),
{
    if i < s.len() - 1 {
        assert(s.drop_last()[i] == s[i]);
        lemma_bucket_map_index(s.drop_last(), i);
        assert(s.last().0 != s[i].0);
    }
}

proof fn lemma_bucket_map_absent(s: Seq<(u64, Bucket)>, key: u64)
    requires
        forall|i: int| 0 <= i < s.len() ==> (#[trigger] s[i]).0 != key,
    ensures
        !bucket_map(s).contains_key(key),
    decreases s.len(),
{
    if s.len() > 0 {
        lemma_bucket_map_absent(s.drop_last(), key);
    }
}

proof fn lemma_bucket_map_update(s: Seq<(u64, Bucket)>, i: int, b: Bucket)
    requires
        unique_keys(s),
        0 <= i < s.len(),
    ensures
        bucket_map(s.update(i, (s[i].0, b))) == bucket_map(s).insert(s[i].0, b),
    decreases s.len(),
{
    let t = s.update(i, (s[i].0, b));
    if i == s.len() - 1 {
        assert(t.drop_last() =~= s.drop_last());
        assert(bucket_map(t) =~= bucket_map(s).insert(s[i].0, b));
    } else {
        assert(t.drop_last() =~= s.drop_last().update(i, (s[i].0, b)));
        assert(s.drop_last()[i] == s[i]);
        lemma_bucket_map_update(s.drop_last(), i, b);
        assert(s.last().0 != s[i].0);
        assert(bucket_map(t) =~= bucket_map(s).insert(s[i].0, b));
    }
}

proof fn lemma_bucket_map_push(s: Seq<(u64, Bucket)>, key: u64, b: Bucket)
    ensures
        bucket_map(s.push((key, b))) == bucket_map(s).insert(key, b),
{
    assert(s.push((key, b)).drop_last() =~= s);
}

/// A bucket admits at `now` while `now` lies inside its window.
pub open spec fn spec_in_window(b: Bucket, window: u64, now: u64) -> bool {
    b.start <= now < b.start + window
}

/// A bucket is fresh while its window has not yet passed.
pub open spec fn spec_fresh(b: Bucket, window: u64, now: u64) -> bool {
    now < b.start + window
}

/// One admission decision: within the key's current window the request is
/// admitted while the count is below the limit; outside any window the key
/// starts a fresh bucket and the request is admitted.
pub open spec fn spec_admit(
    m: Map<u64, Bucket>,
    limit: u32,
    window: u64,
    key: u64,
    now: u64,
) -> (Map<u64, Bucket>, bool) {
    if m.contains_key(key) && spec_in_window(m[key], window, now) {
        if m[key].count < limit {
            (
                m.insert(key, Bucket { start: m[key].start, count: (m[key].count + 1) as u32 }),
                true,
            )
        } else {
            (m, false)
        }
    } else {
        (m.insert(key, Bucket { start: now, count: 1 }), true)
    }
}

/// Shared admission state: per-key buckets over a fixed window, never
/// blocking, updated by every request that reaches the service.
pub struct RateLimiter {
    limit: u32,
    window: u64,
    entries: Vec<(u64, Bucket)>,
}

impl View for RateLimiter {
    type V = Map<u64, Bucket>;

    closed spec fn view(&self) -> Map<u64, Bucket> {
        bucket_map(self.entries@)
    }
}

impl RateLimiter {
    /// Permits per window.
    pub closed spec fn spec_limit(&self) -> u32 {
        self.limit
    }

    /// Window length in seconds.
    pub closed spec fn spec_window(&self) -> u64 {
        self.window
    }

    /// Internal invariant: unique keys, positive limit and window.
    pub closed spec fn wf(&self) -> bool {
        &&& unique_keys(self.entries@)
        &&& self.limit >= 1
        &&& self.window >= 1
    }

    /// Creates an empty limiter with the given permit count and window.
    pub fn new(limit: u32, window: u64) -> (r: RateLimiter)
        requires
            limit >= 1,
            window >= 1,
        ensures
            r.wf(),
            r@ == Map::<u64, Bucket>::empty(),
            r.spec_limit() == limit,
            r.spec_window() == window,
    {
        RateLimiter { limit, window, entries: Vec::new() }
    }

    /// Admits or rejects one request from `key` at `now`, exactly as
    /// `spec_admit` says; never blocks and touches only `key`'s bucket.
    pub fn try_admit(&mut self, key: u64, now: u64) -> (r: bool)
        requires
            old(self).wf(),
        ensures
            final(self).wf(),
            final(self).spec_limit() == old(self).spec_limit(),
            final(self).spec_window() == old(self).spec_window(),
            final(self)@ == spec_admit(old(self)@, old(self).spec_limit(), old(self).spec_window(), key, now).0,
            r == spec_admit(old(self)@, old(self).spec_limit(), old(self).spec_window(), key, now).1,
    {
        let mut i: usize = 0;
        while i < self.entries.len()
            invariant
                self == old(self),
                old(self).wf(),
                i <= self.entries.len(),
                forall|j: int| 0 <= j < i ==> (#[trigger] self.entries@[j]).0 != key,
            decreases self.entries.len() - i,
        {
            if self.entries[i].0 == key {
                let b = self.entries[i].1;
                proof {
                    lemma_bucket_map_index(self.entries@, i as int);
                }
                if now >= b.start && now - b.start < self.window {
                    if b.count < self.limit {
                        let b2 = Bucket { start: b.start, count: b.count + 1 };
                        proof {
                            lemma_bucket_map_update(self.entries@, i as int, b2);
                        }
                        self.entries[i] = (key, b2);
                        proof {
                            assert(unique_keys(self.entries@));
                        }
                        return true;
                    } else {
                        return false;
                    }
                } else {
                    let b2 = Bucket { start: now, count: 1 };
                    proof {
                        lemma_bucket_map_update(self.entries@, i as int, b2);
                    }
                    self.entries[i] = (key, b2);
                    proof {
                        assert(unique_keys(self.entries@));
                    }
                    return true;
                }
            }
            i += 1;
        }
        proof {
            lemma_bucket_map_absent(self.entries@, key);
            lemma_bucket_map_push(self.entries@, key, Bucket { start: now, count: 1 });
        }
        self.entries.push((key, Bucket { start: now, count: 1 }));
        true
    }

    /// Evicts every bucket whose window has passed, and nothing else: the
    /// periodic compaction that bounds the limiter's memory.
    pub fn sweep(&mut self, now: u64)
        requires
            old(self).wf(),
        ensures
            final(self).wf(),
            final(self).spec_limit() == old(self).spec_limit(),
            final(self).spec_window() == old(self).spec_window(),
            forall|k: u64| #[trigger] final(self)@.contains_key(k) <==> (old(self)@.contains_key(k)
                && spec_fresh(old(self)@[k], old(self).spec_window(), now)),
            forall|k: u64| #[trigger] final(self)@.contains_key(k) ==> final(self)@[k] == old(self)@[k],
    {
        let mut kept: Vec<(u64, Bucket)> = Vec::new();
        let mut i: usize = 0;
        while i < self.entries.len()
            invariant
                self == old(self),
                old(self).wf(),
                i <= self.entries.len(),
                unique_keys(kept@),
                forall|k: u64| #[trigger] bucket_map(kept@).contains_key(k) <==> (bucket_map(
                    self.entries@.take(i as int),
                ).contains_key(k) && spec_fresh(
                    bucket_map(self.entries@.take(i as int))[k],
                    self.spec_window(),
                    now,
                )),
                forall|k: u64| #[trigger] bucket_map(kept@).contains_key(k) ==> bucket_map(kept@)[k]
                    == bucket_map(self.entries@.take(i as int))[k],
            decreases self.entries.len() - i,
        {
            let e = self.entries[i];
            proof {
                assert(self.entries@.take(i as int + 1) =~= self.entries@.take(i as int).push(e));
                assert(forall|j: int| 0 <= j < i ==> (#[trigger] self.entries@.take(i as int)[j]).0
                    != e.0);
                lemma_bucket_map_absent(self.entries@.take(i as int), e.0);
                lemma_bucket_map_push(self.entries@.take(i as int), e.0, e.1);
            }
            let fresh_entry = if now >= e.1.start {
                now - e.1.start < self.window
            } else {
                true
            };
            if fresh_entry {
                proof {
                    assert forall|j: int| 0 <= j < kept@.len() implies (#[trigger] kept@[j]).0
                        != e.0 by {
                        lemma_bucket_map_index(kept@, j);
                    }
                    lemma_bucket_map_push(kept@, e.0, e.1);
                }
                kept.push(e);
            }
            i += 1;
        }
        proof {
            assert(self.entries@.take(self.entries@.len() as int) =~= self.entries@);
        }
        self.entries = kept;
    }
}

/// Applies `spec_admit` once per instant in `times`, oldest first, returning
/// the final state and each request's decision.
pub open spec fn spec_admit_all(
    m: Map<u64, Bucket>,
    limit: u32,
    window: u64,
    key: u64,
    times: Seq<u64>,
) -> (Map<u64, Bucket>, Seq<bool>)
    decreases times.len(),
{
    if times.len() == 0 {
        (m, Seq::empty())
    } else {
        let prev = spec_admit_all(m, limit, window, key, times.drop_last());
        let step = spec_admit(prev.0, limit, window, key, times.last());
        (step.0, prev.1.push(step.1))
    }
}

/// Law: with a permit count of `limit` per window, a client not seen before
/// has its first `limit` requests within one window admitted, and every
/// further request in that same window rejected.
pub proof fn lemma_rate_limit_window(
    m: Map<u64, Bucket>,
    limit: u32,
    window: u64,
    key: u64,
    times: Seq<u64>,
)
    requires
        !m.contains_key(key),
        times.len() >= 1,
        limit >= 1,
        forall|i: int| 0 <= i < times.len() ==> times[0] <= #[trigger] times[i] < times[0] + window,
    ensures
        spec_admit_all(m, limit, window, key, times).1.len() == times.len(),
        forall|i: int| 0 <= i < times.len() ==> ((#[trigger] spec_admit_all(
            m,
            limit,
            window,
            key,
            times,
        ).1[i]) <==> i < limit),
        spec_admit_all(m, limit, window, key, times).0.contains_key(key),
        spec_admit_all(m, limit, window, key, times).0[key] == (Bucket {
            start: times[0],
            count: if times.len() < limit { times.len() as u32 } else { limit },
        }),
    decreases times.len(),
{
    let front = times.drop_last();
    let last = times.last();
    let prev = spec_admit_all(m, limit, window, key, front);
    if times.len() == 1 {
        assert(front.len() == 0);
        assert(prev == (m, Seq::<bool>::empty()));
        assert(last == times[0]);
        assert(spec_admit(m, limit, window, key, last) == (
            m.insert(key, Bucket { start: times[0], count: 1 }),
            true,
        ));
        assert(spec_admit_all(m, limit, window, key, times).1 =~= seq![true]);
        assert(spec_admit_all(m, limit, window, key, times).0[key] == (Bucket {
            start: times[0],
            count: 1,
        }));
    } else {
        assert(front[0] == times[0]);
        assert forall|i: int| 0 <= i < front.len() implies front[0] <= #[trigger] front[i]
            < front[0] + window by {
            assert(front[i] == times[i]);
        }
        lemma_rate_limit_window(m, limit, window, key, front);
        assert(times[0] <= last < times[0] + window);
        let c_prev: u32 = if front.len() < limit {
            front.len() as u32
        } else {
            limit
        };
        assert(prev.0[key] == (Bucket { start: times[0], count: c_prev }));
        assert(spec_in_window(prev.0[key], window, last));
        if front.len() < limit {
            assert(spec_admit(prev.0, limit, window, key, last).1);
            assert(spec_admit_all(m, limit, window, key, times).0[key] == (Bucket {
                start: times[0],
                count: (c_prev + 1) as u32,
            }));
        } else {
            assert(!(prev.0[key].count < limit));
            assert(spec_admit(prev.0, limit, window, key, last) == (prev.0, false));
        }
        assert forall|i: int| 0 <= i < times.len() implies ((#[trigger] spec_admit_all(
            m,
            limit,
            window,
            key,
            times,
        ).1[i]) <==> i < limit) by {
            if i < times.len() - 1 {
                assert(spec_admit_all(m, limit, window, key, times).1[i] == prev.1[i]);
            }
        }
    }
}

/// Law: the sweep bounds memory without changing behaviour. If `m2` is `m`
/// swept at `sweep_at` — every bucket whose window had passed evicted, the
/// rest kept — then any later request gets the same decision and leaves the
/// same bucket for its key as it would have under `m`.
pub proof fn lemma_sweep_preserves_decisions(
    m: Map<u64, Bucket>,
    m2: Map<u64, Bucket>,
    limit: u32,
    window: u64,
    key: u64,
    sweep_at: u64,
    now: u64,
)
    requires
        sweep_at <= now,
        forall|k: u64| #[trigger] m2.contains_key(k) <==> (m.contains_key(k) && spec_fresh(
            m[k],
            window,
            sweep_at,
        )),
        forall|k: u64| #[trigger] m2.contains_key(k) ==> m2[k] == m[k],
    ensures
        spec_admit(m2, limit, window, key, now).1 == spec_admit(m, limit, window, key, now).1,
        spec_admit(m2, limit, window, key, now).0[key] == spec_admit(
            m,
            limit,
            window,
            key,
            now,
        ).0[key],
{
    if m.contains_key(key) && !spec_fresh(m[key], window, sweep_at) {
        assert(!spec_in_window(m[key], window, now));
    }
}

/// Law: once a key's window has passed, the next request is admitted again
/// and starts a fresh window.
pub proof fn lemma_window_reset(m: Map<u64, Bucket>, limit: u32, window: u64, key: u64, now: u64)
    requires
        limit >= 1,
        m.contains_key(key),
        now >= m[key].start + window,
    ensures
        spec_admit(m, limit, window, key, now).1,
        spec_admit(m, limit, window, key, now).0[key] == (Bucket { start: now, count: 1 }),
{
}

} // verus!
