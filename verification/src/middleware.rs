//! Cross-cutting request policies: the per-key token-bucket rate limiter,
//! request-id assignment, and the CORS origin policy helper.
//!
//! Token counts are held in millionths of a token, so the continuous refill
//! of the bucket is exact integer arithmetic: a rate of `r` requests per
//! second refills `r * 1000` micro-tokens per elapsed millisecond.

use vstd::prelude::*;
use vstd::string::StrSliceExecFns;
use crate::config::CorsConfig;
use crate::strutil::str_eq;

verus! {

/// Micro-tokens per whole token.
pub const MICROS_PER_TOKEN: u64 = 1_000_000;

/// Per-key limiter state: the tokens still available (in micro-tokens) and
/// when they were last refilled (milliseconds on the caller's clock).
#[derive(Debug, Clone, Copy, PartialEq, Eq, Structural)]
pub struct Bucket {
    pub tokens_micro: u64,
    pub last_refill_ms: u64,
}

/// Bucket capacity in micro-tokens.
pub open spec fn spec_cap_micro(burst: u32) -> int {
    burst * (MICROS_PER_TOKEN as int)
}

/// Tokens available after refilling `b` at `now_ms`: the elapsed time adds
/// `rate * 1000` micro-tokens per millisecond, capped at the capacity.
pub open spec fn spec_refilled_tokens(b: Bucket, now_ms: u64, rate: u32, burst: u32) -> int {
    let elapsed: int = if now_ms >= b.last_refill_ms {
        now_ms - b.last_refill_ms
    } else {
        0
    };
    vstd::math::min(spec_cap_micro(burst), b.tokens_micro + elapsed * rate * 1000)
}

/// Tokens available at `now_ms` for a key whose bucket is `b`; a key never
/// seen before starts with a full bucket.
pub open spec fn spec_avail_tokens(b: Option<Bucket>, now_ms: u64, rate: u32, burst: u32) -> int {
    match b {
        Some(b) => spec_refilled_tokens(b, now_ms, rate, burst),
        None => spec_cap_micro(burst),
    }
}

/// Whether one acquisition succeeds: a whole token must be available.
pub open spec fn spec_acquire_allowed(b: Option<Bucket>, now_ms: u64, rate: u32, burst: u32) -> bool {
    spec_avail_tokens(b, now_ms, rate, burst) >= MICROS_PER_TOKEN
}

/// The bucket after one acquisition attempt: refilled, then decremented by
/// one token if the acquisition was allowed.
pub open spec fn spec_bucket_after(b: Option<Bucket>, now_ms: u64, rate: u32, burst: u32) -> Bucket {
    let t = spec_avail_tokens(b, now_ms, rate, burst);
    Bucket {
        tokens_micro: (if t >= MICROS_PER_TOKEN {
            t - MICROS_PER_TOKEN
        } else {
            t
        }) as u64,
        last_refill_ms: now_ms,
    }
}

/// The bucket stored for `key`: the first entry with that key, if any.
pub open spec fn spec_find_bucket(bs: Seq<(String, Bucket)>, key: Seq<char>) -> Option<Bucket>
    decreases bs.len(),
{
    if bs.len() == 0 {
        None
    } else if bs[0].0@ == key {
        Some(bs[0].1)
    } else {
        spec_find_bucket(bs.drop_first(), key)
    }
}

proof fn lemma_find_first(bs: Seq<(String, Bucket)>, i: int, key: Seq<char>)
    requires
        0 <= i < bs.len(),
        bs[i].0@ == key,
        forall|j: int| 0 <= j < i ==> bs[j].0@ != key,
    ensures
        spec_find_bucket(bs, key) == Some(bs[i].1),
    decreases i,
{
    if i > 0 {
        assert(bs.drop_first()[i - 1] == bs[i]);
        assert(forall|j: int| 0 <= j < i - 1 ==> bs.drop_first()[j] == bs[j + 1]);
        lemma_find_first(bs.drop_first(), i - 1, key);
    }
}

proof fn lemma_find_absent(bs: Seq<(String, Bucket)>, key: Seq<char>)
    requires
        forall|j: int| 0 <= j < bs.len() ==> bs[j].0@ != key,
    ensures
        spec_find_bucket(bs, key) is None,
    decreases bs.len(),
{
    if bs.len() > 0 {
        assert(forall|j: int| 0 <= j < bs.drop_first().len() ==> bs.drop_first()[j] == bs[j + 1]);
        lemma_find_absent(bs.drop_first(), key);
    }
}

proof fn lemma_find_update(bs: Seq<(String, Bucket)>, i: int, nb: Bucket, key: Seq<char>)
    requires
        0 <= i < bs.len(),
        bs[i].0@ == key,
        forall|j: int| 0 <= j < i ==> bs[j].0@ != key,
    ensures
        spec_find_bucket(bs.update(i, (bs[i].0, nb)), key) == Some(nb),
        forall|k: Seq<char>|
            k != key ==> spec_find_bucket(bs.update(i, (bs[i].0, nb)), k) == spec_find_bucket(
                bs,
                k,
            ),
    decreases bs.len(),
{
    let bs2 = bs.update(i, (bs[i].0, nb));
    if i == 0 {
        assert(bs2[0] == (bs[0].0, nb));
        assert(bs2.drop_first() =~= bs.drop_first());
        assert forall|k: Seq<char>| k != key implies spec_find_bucket(bs2, k)
            == spec_find_bucket(bs, k) by {
            assert(spec_find_bucket(bs2, k) == spec_find_bucket(bs2.drop_first(), k));
            assert(spec_find_bucket(bs, k) == spec_find_bucket(bs.drop_first(), k));
        }
    } else {
        assert(bs2[0] == bs[0]);
        assert(bs2.drop_first() =~= bs.drop_first().update(i - 1, (bs.drop_first()[i - 1].0, nb)));
        assert(forall|j: int| 0 <= j < i - 1 ==> bs.drop_first()[j] == bs[j + 1]);
        lemma_find_update(bs.drop_first(), i - 1, nb, key);
        assert(spec_find_bucket(bs2, key) == Some(nb));
        assert forall|k: Seq<char>| k != key implies spec_find_bucket(bs2, k)
            == spec_find_bucket(bs, k) by {
            if bs[0].0@ != k {
                assert(spec_find_bucket(bs2, k) == spec_find_bucket(bs2.drop_first(), k));
                assert(spec_find_bucket(bs, k) == spec_find_bucket(bs.drop_first(), k));
            }
        }
    }
}

proof fn lemma_find_push(bs: Seq<(String, Bucket)>, e: (String, Bucket))
    requires
        spec_find_bucket(bs, e.0@) is None,
    ensures
        spec_find_bucket(bs.push(e), e.0@) == Some(e.1),
        forall|k: Seq<char>|
            k != e.0@ ==> spec_find_bucket(bs.push(e), k) == spec_find_bucket(bs, k),
    decreases bs.len(),
{
    let bs2 = bs.push(e);
    if bs.len() == 0 {
        assert(bs2[0] == e);
        assert(bs2.drop_first() =~= Seq::<(String, Bucket)>::empty());
        assert forall|k: Seq<char>| k != e.0@ implies spec_find_bucket(bs2, k)
            == spec_find_bucket(bs, k) by {
            assert(spec_find_bucket(bs2, k) == spec_find_bucket(bs2.drop_first(), k));
        }
    } else {
        assert(bs2[0] == bs[0]);
        assert(bs2.drop_first() =~= bs.drop_first().push(e));
        lemma_find_push(bs.drop_first(), e);
        assert forall|k: Seq<char>| k != e.0@ implies spec_find_bucket(bs2, k)
            == spec_find_bucket(bs, k) by {
            if bs[0].0@ != k {
                assert(spec_find_bucket(bs2, k) == spec_find_bucket(bs2.drop_first(), k));
                assert(spec_find_bucket(bs, k) == spec_find_bucket(bs.drop_first(), k));
            }
        }
    }
}

/// An in-memory token-bucket rate limiter, keyed by an arbitrary string.
/// Each key's bucket starts full and refills continuously; an acquisition
/// never blocks — it either takes a token or reports denial. Time is
/// supplied by the caller as a milliseconds reading of a monotonic clock,
/// so the decision logic itself is pure.
#[derive(Debug)]
pub struct RateLimiter {
    pub buckets: Vec<(String, Bucket)>,
    pub requests_per_second: u32,
    pub burst: u32,
}

impl RateLimiter {
    /// The bucket currently stored for `key`, if the key has been seen.
    pub open spec fn spec_bucket_of(&self, key: Seq<char>) -> Option<Bucket> {
        spec_find_bucket(self.buckets@, key)
    }

    /// A fresh limiter: sustained rate `requests_per_second`, capacity
    /// `burst`, and no keys seen yet.
    pub fn new(requests_per_second: u32, burst: u32) -> (r: Self)
        ensures
            r.requests_per_second == requests_per_second,
            r.burst == burst,
            forall|k: Seq<char>| r.spec_bucket_of(k) is None,
    {
        RateLimiter { buckets: Vec::new(), requests_per_second, burst }
    }

    /// Try to take one token for `key` at time `now_ms`. Returns whether
    /// the request is allowed; the key's bucket is refilled and updated,
    /// and every other key's bucket is left untouched.
    pub fn try_acquire_at(&mut self, key: &str, now_ms: u64) -> (allowed: bool)
        ensures
            final (self).requests_per_second == old(self).requests_per_second,
            final (self).burst == old(self).burst,
            allowed == spec_acquire_allowed(
                old(self).spec_bucket_of(key@),
                now_ms,
                old(self).requests_per_second,
                old(self).burst,
            ),
            final (self).spec_bucket_of(key@) == Some(
                spec_bucket_after(
                    old(self).spec_bucket_of(key@),
                    now_ms,
                    old(self).requests_per_second,
                    old(self).burst,
                ),
            ),
            forall|k: Seq<char>|
                k != key@ ==> final (self).spec_bucket_of(k) == old(self).spec_bucket_of(k),
    {
        let n = self.buckets.len();
        let mut i: usize = 0;
        let mut idx: usize = n;
        while i < n
            invariant
                i <= n,
                n == self.buckets@.len(),
                idx == n || (idx < i && self.buckets@[idx as int].0@ == key@ && forall|j: int|
                    0 <= j < idx ==> self.buckets@[j].0@ != key@),
                idx == n ==> forall|j: int| 0 <= j < i ==> self.buckets@[j].0@ != key@,
            decreases n - i,
        {
            if idx == n && str_eq(self.buckets[i].0.as_str(), key) {
                idx = i;
            }
            i = i + 1;
        }
        let ghost b0 = self.spec_bucket_of(key@);
        let rate = self.requests_per_second;
        let burst = self.burst;
        let cap: u64 = (burst as u64) * MICROS_PER_TOKEN;
        let (tokens0, last0): (u64, u64) = if idx < n {
            proof {
                lemma_find_first(self.buckets@, idx as int, key@);
            }
            let b = self.buckets[idx].1;
            (b.tokens_micro, b.last_refill_ms)
        } else {
            proof {
                lemma_find_absent(self.buckets@, key@);
            }
            (cap, now_ms)
        };
        let elapsed: u64 = if now_ms >= last0 {
            now_ms - last0
        } else {
            0
        };
        let added: Option<u64> = match elapsed.checked_mul(rate as u64) {
            Some(a) => a.checked_mul(1000),
            None => None,
        };
        let avail: u64 = match added {
            Some(a) => match tokens0.checked_add(a) {
                Some(s) => if s > cap {
                    cap
                } else {
                    s
                },
                None => cap,
            },
            None => cap,
        };
        proof {
            assert(avail == spec_avail_tokens(b0, now_ms, rate, burst));
        }
        let allowed = avail >= MICROS_PER_TOKEN;
        let nb = Bucket {
            tokens_micro: if allowed {
                avail - MICROS_PER_TOKEN
            } else {
                avail
            },
            last_refill_ms: now_ms,
        };
        if idx < n {
            proof {
                lemma_find_update(self.buckets@, idx as int, nb, key@);
            }
            self.buckets[idx].1 = nb;
        } else {
            let entry = (key.to_owned(), nb);
            proof {
                lemma_find_push(self.buckets@, entry);
            }
            self.buckets.push(entry);
        }
        allowed
    }
}

/// How many of `n` immediate acquisition attempts succeed, starting from
/// bucket state `b` with no time passing between attempts.
pub open spec fn spec_allowed_count(
    b: Option<Bucket>,
    now_ms: u64,
    rate: u32,
    burst: u32,
    n: nat,
) -> nat
    decreases n,
{
    if n == 0 {
        0
    } else {
        let ok = spec_acquire_allowed(b, now_ms, rate, burst);
        let b1 = Some(spec_bucket_after(b, now_ms, rate, burst));
        (if ok {
            1nat
        } else {
            0nat
        }) + spec_allowed_count(b1, now_ms, rate, burst, (n - 1) as nat)
    }
}

proof fn lemma_burst_steps(b: Bucket, now_ms: u64, rate: u32, burst: u32, m: nat, n: nat)
    requires
        b.last_refill_ms == now_ms,
        b.tokens_micro == m * MICROS_PER_TOKEN,
        m <= burst,
    ensures
        spec_allowed_count(Some(b), now_ms, rate, burst, n) == vstd::math::min(
            n as int,
            m as int,
        ),
    decreases n,
{
    if n > 0 {
        let avail = spec_avail_tokens(Some(b), now_ms, rate, burst);
        assert(m * (MICROS_PER_TOKEN as int) <= burst * (MICROS_PER_TOKEN as int))
            by (nonlinear_arith)
            requires
                m <= burst,
        ;
        let elapsed: int = if now_ms >= b.last_refill_ms {
            now_ms - b.last_refill_ms
        } else {
            0
        };
        assert(elapsed == 0);
        assert(elapsed * rate * 1000 == 0) by (nonlinear_arith)
            requires
                elapsed == 0,
        ;
        assert(avail == b.tokens_micro as int);
        let b1 = spec_bucket_after(Some(b), now_ms, rate, burst);
        if m > 0 {
            assert(b1.tokens_micro == (m - 1) * MICROS_PER_TOKEN) by (nonlinear_arith)
                requires
                    b1.tokens_micro == m * MICROS_PER_TOKEN - MICROS_PER_TOKEN,
            ;
            lemma_burst_steps(b1, now_ms, rate, burst, (m - 1) as nat, (n - 1) as nat);
        } else {
            lemma_burst_steps(b1, now_ms, rate, burst, 0, (n - 1) as nat);
        }
    }
}

/// Law: a key never seen before allows exactly its burst of back-to-back
/// acquisitions — of `n` immediate attempts with no time elapsing, exactly
/// `min(n, burst)` succeed and the rest are denied.
pub proof fn lemma_fresh_key_burst(now_ms: u64, rate: u32, burst: u32, n: nat)
    ensures
        spec_allowed_count(None, now_ms, rate, burst, n) == vstd::math::min(
            n as int,
            burst as int,
        ),
{
    if n > 0 {
        let cap = spec_cap_micro(burst);
        assert(spec_avail_tokens(None, now_ms, rate, burst) == cap);
        let b1 = spec_bucket_after(None, now_ms, rate, burst);
        if burst >= 1 {
            assert(cap >= MICROS_PER_TOKEN) by (nonlinear_arith)
                requires
                    cap == burst * (MICROS_PER_TOKEN as int),
                    burst >= 1,
            ;
            assert(b1.tokens_micro == (burst - 1) * MICROS_PER_TOKEN) by (nonlinear_arith)
                requires
                    b1.tokens_micro == burst * (MICROS_PER_TOKEN as int) - MICROS_PER_TOKEN,
            ;
            lemma_burst_steps(b1, now_ms, rate, burst, (burst - 1) as nat, (n - 1) as nat);
        } else {
            assert(b1.tokens_micro == 0);
            lemma_burst_steps(b1, now_ms, rate, burst, 0, (n - 1) as nat);
        }
    }
}

// ---------------------------------------------------------------------------
// Request-id assignment
// ---------------------------------------------------------------------------

/// Relies on uuid's `Uuid::new_v4` and its display form: a freshly drawn
/// random identifier, rendered as the 36-character hyphenated format.
#[verifier::external_body]
fn new_request_id() -> (r: String)
    ensures
        r@.len() == 36,
{
    uuid::Uuid::new_v4().to_string()
}

/// The request id attached to a request and echoed on its response: the
/// inbound one when the client sent one, else a newly generated identifier.
pub fn ensure_request_id(existing: Option<String>) -> (r: String)
    ensures
        existing matches Some(id) ==> r == id,
        existing is None ==> r@.len() == 36,
{
    match existing {
        Some(id) => id,
        None => new_request_id(),
    }
}

// ---------------------------------------------------------------------------
// CORS policy helper
// ---------------------------------------------------------------------------

/// Whether the policy lists the wildcard origin.
pub open spec fn spec_any_origin(origins: Seq<String>) -> bool {
    exists|i: int| 0 <= i < origins.len() && origins[i]@ == "*"@
}

/// Whether the CORS policy allows any origin (the `*` wildcard is listed).
pub fn cors_allows_any_origin(config: &CorsConfig) -> (r: bool)
    ensures
        r == spec_any_origin(config.allowed_origins@),
{
    let n = config.allowed_origins.len();
    let mut i: usize = 0;
    while i < n
        invariant
            i <= n,
            n == config.allowed_origins@.len(),
            forall|j: int| 0 <= j < i ==> config.allowed_origins@[j]@ != "*"@,
        decreases n - i,
    {
        if str_eq(config.allowed_origins[i].as_str(), "*") {
            return true;
        }
        i = i + 1;
    }
    false
}

} // verus!
