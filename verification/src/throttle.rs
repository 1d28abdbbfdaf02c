//! The quota model and the GCRA rate-limiting engine.
//!
//! A bucket's entire state is one timestamp, the theoretical arrival time
//! (TAT): the instant at which the bucket would be drained if all admitted
//! work flowed out at the sustained rate. A request of `quantity` actions
//! moves the TAT forward by `quantity * period`; it is admitted exactly
//! when the moved TAT stays within the bucket's credit window.

use vstd::prelude::*;

use crate::error::ThrottleError;
use crate::units::{nanos_to_seconds, scale_nanos, sub_saturating_nanos, MAX_CREDIT, MAX_TAT,
    NANOS_PER_SEC};

pub mod store;

use store::{opt_nanos, Store};

verus! {

/// Bound on read-decide-write rounds retried after a lost conditional
/// write before the evaluation surfaces a transient failure.
pub const CAS_ATTEMPTS: u64 = 3;

/// The sustained rate: one action per `period` nanoseconds.
#[derive(Debug, Clone, Copy, PartialEq, Eq, Structural)]
pub struct Rate {
    /// Nanoseconds that must elapse between successive admitted
    /// single-unit actions at the sustained rate. Always positive.
    pub period: i64,
}

impl Rate {
    /// A well-formed rate has a positive period small enough that a full
    /// credit window still fits the engine's arithmetic bounds.
    pub open spec fn wf(self) -> bool {
        1 <= self.period <= MAX_CREDIT
    }

    /// One action per `period_seconds / count` of time: the rate at which
    /// `count` actions may flow per `period_seconds` seconds. The derived
    /// per-action period is truncated to whole nanoseconds and must come
    /// out positive.
    pub fn per_period(count: i64, period_seconds: i64) -> (r: Result<Rate, ThrottleError>)
        ensures
            r matches Ok(rate) ==> {
                &&& rate.wf()
                &&& rate.period == (period_seconds * NANOS_PER_SEC) as int / count as int
            },
            r is Ok <==> {
                &&& 1 <= count
                &&& 1 <= period_seconds
                &&& period_seconds * NANOS_PER_SEC <= MAX_CREDIT
                &&& 1 <= (period_seconds * NANOS_PER_SEC) as int / count as int
            },
            r is Err ==> r matches Err(ThrottleError::Quota(_)),
    {
        if count < 1 || period_seconds < 1 {
            return Err(ThrottleError::Quota("count and period must be positive".to_owned()));
        }
        if period_seconds > MAX_CREDIT / NANOS_PER_SEC {
            proof {
                assert(period_seconds * NANOS_PER_SEC > MAX_CREDIT) by (nonlinear_arith)
                    requires
                        period_seconds > MAX_CREDIT / NANOS_PER_SEC,
                        period_seconds >= 1,
                ;
            }
            return Err(ThrottleError::Quota("period is out of range".to_owned()));
        }
        proof {
            assert(period_seconds * NANOS_PER_SEC <= MAX_CREDIT && period_seconds * NANOS_PER_SEC
                >= NANOS_PER_SEC) by (nonlinear_arith)
                requires
                    1 <= period_seconds <= MAX_CREDIT / NANOS_PER_SEC,
            ;
        }
        let total: i64 = period_seconds * NANOS_PER_SEC;
        let period: i64 = ((total as u64) / (count as u64)) as i64;
        if period < 1 {
            return Err(ThrottleError::Quota("rate is too fast to represent".to_owned()));
        }
        Ok(Rate { period })
    }
}

/// The policy for a bucket class: a burst allowance on top of a sustained
/// rate.
#[derive(Debug, Clone, Copy, PartialEq, Eq, Structural)]
pub struct RateQuota {
    /// Number of actions admissible instantaneously above the sustained
    /// rate. Nonnegative.
    pub max_burst: i64,
    /// The sustained rate.
    pub max_rate: Rate,
}

impl RateQuota {
    /// Nanoseconds of cost per single action.
    pub open spec fn emission_interval(self) -> int {
        self.max_rate.period as int
    }

    /// Maximum credit the bucket accumulates: how far past `now` its TAT
    /// may sit before further work is throttled.
    pub open spec fn delay_variation_tolerance(self) -> int {
        self.max_burst * self.emission_interval()
    }

    /// A well-formed quota keeps a full credit window plus one emission
    /// interval within the engine's arithmetic bounds.
    pub open spec fn wf(self) -> bool {
        &&& self.max_rate.wf()
        &&& 0 <= self.max_burst
        &&& (self.max_burst + 1) * self.emission_interval() <= MAX_CREDIT
    }

    /// Validates and builds a quota; rejecting a negative burst or a
    /// credit window beyond the representable range.
    pub fn new(max_burst: i64, max_rate: Rate) -> (r: Result<RateQuota, ThrottleError>)
        requires
            max_rate.wf(),
        ensures
            r matches Ok(q) ==> q == (RateQuota { max_burst, max_rate }) && q.wf(),
            r is Ok <==> 0 <= max_burst && (max_burst + 1) * max_rate.period as int <= MAX_CREDIT,
            r is Err ==> r matches Err(ThrottleError::Quota(_)),
    {
        if max_burst < 0 {
            return Err(ThrottleError::Quota("max_burst must be nonnegative".to_owned()));
        }
        if max_burst >= MAX_CREDIT {
            proof {
                assert((max_burst + 1) * max_rate.period > MAX_CREDIT) by (nonlinear_arith)
                    requires
                        max_burst + 1 > MAX_CREDIT,
                        max_rate.period >= 1,
                ;
            }
            return Err(ThrottleError::Quota("max_burst is out of range".to_owned()));
        }
        match (max_burst + 1).checked_mul(max_rate.period) {
            Some(credit) => {
                if credit <= MAX_CREDIT {
                    Ok(RateQuota { max_burst, max_rate })
                } else {
                    Err(ThrottleError::Quota("burst credit is out of range".to_owned()))
                }
            },
            None => Err(ThrottleError::Quota("burst credit is out of range".to_owned())),
        }
    }
}

/// What one evaluation reports back to the caller. Durations are
/// nanoseconds; the boundary methods truncate them to whole seconds.
#[derive(Debug, Clone, Copy)]
pub struct RateLimitResult {
    /// Total capacity expressed as a count of requests: `max_burst + 1`.
    pub limit: i64,
    /// Further single-unit actions currently admissible.
    pub remaining: i64,
    /// Minimum wait before a retry of the same quantity could succeed.
    /// `None` when the request was admitted, or when no wait can ever
    /// make it succeed under this quota.
    pub retry_after: Option<i64>,
    /// Time until the bucket returns to a fully-available state.
    pub reset_after: i64,
}

impl RateLimitResult {
    /// `retry_after` in whole seconds, `-1` standing for "not
    /// applicable".
    pub fn retry_after_seconds(&self) -> (s: i64)
        requires
            self.retry_after matches Some(n) ==> 0 <= n,
        ensures
            match self.retry_after {
                Some(n) => s == n as int / (NANOS_PER_SEC as int),
                None => s == -1,
            },
    {
        match self.retry_after {
            Some(n) => nanos_to_seconds(n),
            None => -1,
        }
    }

    /// `reset_after` in whole seconds.
    pub fn reset_after_seconds(&self) -> (s: i64)
        requires
            0 <= self.reset_after,
        ensures
            s == self.reset_after as int / (NANOS_PER_SEC as int),
    {
        nanos_to_seconds(self.reset_after)
    }
}

/// Everything one GCRA evaluation decides, as mathematical integers: the
/// admission verdict, the TAT committed on admission, the expiry horizon
/// of that write, and the figures reported to the caller.
pub ghost struct GcraDecision {
    pub throttled: bool,
    pub commit: Option<int>,
    pub ttl: int,
    pub limit: int,
    pub remaining: int,
    pub retry_after: Option<int>,
    pub reset_after: int,
}

/// The TAT an evaluation starts from: the persisted value, floored at
/// `now` (an absent or past TAT means the bucket is fully available).
pub open spec fn base_tat(stored: Option<int>, now: int) -> int {
    match stored {
        Some(t) => if t >= now {
            t
        } else {
            now
        },
        None => now,
    }
}

/// Further single-unit actions admissible once the TAT stands at
/// `tat_after`: `max_burst - floor((tat_after - now - ei) / ei)`, clamped
/// at zero.
pub open spec fn spec_remaining(tat_after: int, now: int, max_burst: int, ei: int) -> int {
    let raw = max_burst - (tat_after - now - ei) / ei;
    if raw < 0 {
        0
    } else {
        raw
    }
}

/// One GCRA evaluation: from the persisted TAT (or its absence), the
/// backend clock, the quota, and the requested quantity, decide admission
/// and all reported figures. A throttled evaluation commits nothing.
pub open spec fn gcra_decide(
    stored: Option<int>,
    now: int,
    quota: RateQuota,
    quantity: int,
) -> GcraDecision {
    let ei = quota.emission_interval();
    let dvt = quota.delay_variation_tolerance();
    let tat = base_tat(stored, now);
    let increment = quantity * ei;
    let new_tat = tat + increment;
    let allow_at = new_tat - dvt - ei;
    if allow_at > now {
        GcraDecision {
            throttled: true,
            commit: None,
            ttl: dvt + increment,
            limit: quota.max_burst + 1,
            remaining: spec_remaining(tat, now, quota.max_burst as int, ei),
            retry_after: if increment <= dvt + ei {
                Some(allow_at - now)
            } else {
                None
            },
            reset_after: tat - now,
        }
    } else {
        GcraDecision {
            throttled: false,
            commit: Some(new_tat),
            ttl: dvt + increment,
            limit: quota.max_burst + 1,
            remaining: spec_remaining(new_tat, now, quota.max_burst as int, ei),
            retry_after: None,
            reset_after: new_tat - now,
        }
    }
}

/// The bucket state after `k` admitted single-unit requests issued
/// back-to-back at instant `now` against a bucket that started fully
/// available: absent for `k == 0`, else a TAT `k` emission intervals past
/// `now`.
pub open spec fn burst_tat(now: int, quota: RateQuota, k: int) -> Option<int> {
    if k <= 0 {
        None
    } else {
        Some(now + k * quota.emission_interval())
    }
}

/// Burst admission: with `max_burst = b`, the `(k+1)`-th of a train of
/// single-unit requests issued with no elapsed time is admitted for every
/// `k <= b`, reports `remaining == b - k` (starting at `b`), and moves the
/// bucket to the next burst state — so exactly `b + 1` such requests are
/// admitted, however the train was interleaved, since the store's
/// conditional write serializes the commits.
pub proof fn lemma_burst_step(now: int, quota: RateQuota, k: int)
    requires
        quota.wf(),
        0 <= k <= quota.max_burst,
    ensures
        ({
            let d = gcra_decide(burst_tat(now, quota, k), now, quota, 1);
            &&& !d.throttled
            &&& d.limit == quota.max_burst + 1
            &&& d.remaining == quota.max_burst - k
            &&& d.commit == burst_tat(now, quota, k + 1)
            &&& d.reset_after == (k + 1) * quota.emission_interval()
        }),
{
    let ei = quota.emission_interval();
    let mb = quota.max_burst as int;
    assert(0 <= k * ei && k * ei <= mb * ei && (k + 1) * ei == k * ei + ei && 1 * ei == ei)
        by (nonlinear_arith)
        requires
            0 <= k <= mb,
            1 <= ei,
    ;
    let tat = base_tat(burst_tat(now, quota, k), now);
    assert(tat == now + k * ei);
    vstd::arithmetic::div_mod::lemma_fundamental_div_mod_converse(k * ei, ei, k, 0);
}

/// Burst exhaustion: from the state left by a full burst of
/// `max_burst + 1` admitted single-unit requests, the next immediate
/// single-unit request is throttled with `remaining == 0` and a retry
/// wait of exactly one emission interval.
pub proof fn lemma_burst_exhausted(now: int, quota: RateQuota)
    requires
        quota.wf(),
    ensures
        ({
            let d = gcra_decide(burst_tat(now, quota, quota.max_burst + 1), now, quota, 1);
            &&& d.throttled
            &&& d.commit is None
            &&& d.remaining == 0
            &&& d.retry_after == Some(quota.emission_interval())
            &&& d.reset_after == (quota.max_burst + 1) * quota.emission_interval()
        }),
{
    let ei = quota.emission_interval();
    let mb = quota.max_burst as int;
    assert(0 <= mb * ei && (mb + 1) * ei == mb * ei + ei && (mb + 2) * ei == mb * ei + ei + ei && 1
        * ei == ei) by (nonlinear_arith)
        requires
            0 <= mb,
            1 <= ei,
    ;
    let tat = base_tat(burst_tat(now, quota, mb + 1), now);
    assert(tat == now + (mb + 1) * ei);
    vstd::arithmetic::div_mod::lemma_fundamental_div_mod_converse(mb * ei, ei, mb, 0);
}

/// Rejection is idempotent: a throttled evaluation commits nothing, and
/// the engine writes a bucket only through the decision's commit — so a
/// throttled call leaves every later evaluation exactly as if it had
/// never been made.
pub proof fn lemma_rejection_commits_nothing(
    stored: Option<int>,
    now: int,
    quota: RateQuota,
    quantity: int,
)
    ensures
        gcra_decide(stored, now, quota, quantity).throttled ==> gcra_decide(
            stored,
            now,
            quota,
            quantity,
        ).commit is None,
{
}

/// Monotonic recovery: after a throttled decision with a finite
/// `retry_after` wait, evaluating the same quantity against the unchanged
/// bucket exactly that much later is admitted.
pub proof fn lemma_retry_then_admitted(
    stored: Option<int>,
    now: int,
    quota: RateQuota,
    quantity: int,
)
    requires
        quota.wf(),
        1 <= quantity,
        gcra_decide(stored, now, quota, quantity).throttled,
        gcra_decide(stored, now, quota, quantity).retry_after is Some,
    ensures
        ({
            let wait = gcra_decide(stored, now, quota, quantity).retry_after.unwrap();
            &&& 0 < wait
            &&& !gcra_decide(stored, now + wait, quota, quantity).throttled
        }),
{
}

/// Full reset: once the clock has reached a bucket's TAT — that is, once
/// `reset_after` has elapsed from whatever state the bucket was in — a
/// single-unit evaluation is admitted and reports `remaining ==
/// max_burst`, the fully-available figure.
pub proof fn lemma_full_reset(stored_tat: int, now: int, quota: RateQuota)
    requires
        quota.wf(),
        stored_tat <= now,
    ensures
        ({
            let d = gcra_decide(Some(stored_tat), now, quota, 1);
            &&& !d.throttled
            &&& d.remaining == quota.max_burst
            &&& d.reset_after == quota.emission_interval()
        }),
{
    let ei = quota.emission_interval();
    let mb = quota.max_burst as int;
    assert(0 <= mb * ei && 1 * ei == ei) by (nonlinear_arith)
        requires
            0 <= mb,
            1 <= ei,
    ;
    vstd::arithmetic::div_mod::lemma_fundamental_div_mod_converse(0, ei, 0, 0);
}

/// Computes `spec_remaining` without overflow. `tat_after` never trails
/// `now`: a throttled evaluation keeps `tat >= now`, an admitted one
/// moves it at least one interval past `now`.
fn compute_remaining(tat_after: i64, now: i64, max_burst: i64, ei: i64) -> (r: i64)
    requires
        0 <= now <= tat_after,
        tat_after <= MAX_TAT + MAX_CREDIT,
        1 <= ei <= MAX_CREDIT,
        0 <= max_burst < MAX_CREDIT,
    ensures
        r as int == spec_remaining(tat_after as int, now as int, max_burst as int, ei as int),
{
    let d = tat_after - now;
    if d < ei {
        proof {
            vstd::arithmetic::div_mod::lemma_fundamental_div_mod_converse(
                d - ei,
                ei as int,
                -1,
                d as int,
            );
        }
        max_burst + 1
    } else {
        let steps_u: u64 = ((d - ei) as u64) / (ei as u64);
        proof {
            vstd::arithmetic::div_mod::lemma_div_pos_is_pos(d - ei, ei as int);
            vstd::arithmetic::div_mod::lemma_fundamental_div_mod(d - ei, ei as int);
            assert((d - ei) / (ei as int) <= d - ei) by (nonlinear_arith)
                requires
                    1 <= ei,
                    0 <= d - ei,
                    0 <= (d - ei) / (ei as int),
                    d - ei == ei * ((d - ei) / (ei as int)) + (d - ei) % (ei as int),
                    0 <= (d - ei) % (ei as int),
            ;
        }
        let steps: i64 = steps_u as i64;
        if steps >= max_burst {
            0
        } else {
            max_burst - steps
        }
    }
}

/// The rate limiter engine: one GCRA evaluation per call, all state in
/// the store.
pub struct RateLimiter<S: Store> {
    /// The store holding every bucket's TAT; borrowed for the duration of
    /// one evaluation only.
    pub store: S,
    /// The policy evaluations are made under.
    pub quota: RateQuota,
}

impl<S: Store> RateLimiter<S> {
    /// A usable limiter: a well-formed store under a well-formed quota.
    pub open spec fn wf(self) -> bool {
        &&& self.store.inv()
        &&& self.quota.wf()
    }

    /// Builds a limiter over `store` with policy `quota`.
    pub fn new(store: S, quota: RateQuota) -> (r: RateLimiter<S>)
        requires
            store.inv(),
            quota.wf(),
        ensures
            r.wf(),
            r.store == store,
            r.quota == quota,
    {
        RateLimiter { store, quota }
    }

    /// Evaluates one request of `quantity` actions against `bucket`.
    ///
    /// Reads the bucket's state and clock from the store, decides per
    /// `gcra_decide`, and persists the moved TAT through the store's
    /// conditional write only on admission — a throttled or failed
    /// evaluation leaves every bucket exactly as it was. A lost
    /// conditional write is retried from a fresh read a bounded number of
    /// times before surfacing as `Contended`.
    pub fn rate_limit(&mut self, bucket: &str, quantity: i64) -> (r: Result<
        (bool, RateLimitResult),
        ThrottleError,
    >)
        requires
            old(self).wf(),
        ensures
            final(self).wf(),
            final(self).quota == old(self).quota,
            final(self).store.infallible() == old(self).store.infallible(),
            final(self).store.now_ns() == old(self).store.now_ns(),
            forall|k: Seq<char>| #![trigger final(self).store.tat_of(k)]
                k != bucket@ ==> final(self).store.tat_of(k) == old(self).store.tat_of(k),
            forall|k: Seq<char>| #![trigger final(self).store.expiry_of(k)]
                k != bucket@ ==> final(self).store.expiry_of(k) == old(self).store.expiry_of(k),
            quantity <= 0 ==> r matches Err(ThrottleError::Usage(_)),
            r is Err ==> final(self).store.tat_of(bucket@) == old(self).store.tat_of(bucket@)
                && final(self).store.expiry_of(bucket@) == old(self).store.expiry_of(bucket@),
            old(self).store.infallible() && quantity >= 1 ==> r is Ok,
            r matches Ok(p) ==> ({
                let d = gcra_decide(
                    old(self).store.tat_of(bucket@),
                    old(self).store.now_ns(),
                    old(self).quota,
                    quantity as int,
                );
                &&& quantity >= 1
                &&& p.0 == d.throttled
                &&& p.1.limit as int == d.limit
                &&& p.1.remaining as int == d.remaining
                &&& opt_nanos(p.1.retry_after) == d.retry_after
                &&& p.1.reset_after as int == d.reset_after
                &&& (d.throttled ==> final(self).store.tat_of(bucket@)
                    == old(self).store.tat_of(bucket@) && final(self).store.expiry_of(bucket@)
                    == old(self).store.expiry_of(bucket@))
                &&& (!d.throttled ==> final(self).store.tat_of(bucket@) == d.commit
                    && final(self).store.expiry_of(bucket@)
                    == Some(old(self).store.now_ns() + d.ttl))
            }),
    {
        if quantity <= 0 {
            return Err(ThrottleError::Usage("quantity must be positive".to_owned()));
        }
        let max_burst = self.quota.max_burst;
        let ei = self.quota.max_rate.period;
        proof {
            assert(0 <= max_burst * ei && max_burst * ei + ei == (max_burst + 1) * ei && max_burst
                + 1 <= (max_burst + 1) * ei) by (nonlinear_arith)
                requires
                    0 <= max_burst,
                    1 <= ei,
            ;
        }
        let dvt = scale_nanos(ei, max_burst);
        let limit = max_burst + 1;
        let mut attempt: u64 = 0;
        while attempt < CAS_ATTEMPTS
            invariant
                self.wf(),
                self.quota == old(self).quota,
                self.store.infallible() == old(self).store.infallible(),
                self.store.now_ns() == old(self).store.now_ns(),
                forall|k: Seq<char>| #![trigger self.store.tat_of(k)]
                    self.store.tat_of(k) == old(self).store.tat_of(k),
                forall|k: Seq<char>| #![trigger self.store.expiry_of(k)]
                    self.store.expiry_of(k) == old(self).store.expiry_of(k),
                attempt > 0 ==> !old(self).store.infallible(),
                1 <= quantity,
                max_burst == self.quota.max_burst,
                ei == self.quota.max_rate.period,
                dvt == max_burst * ei,
                limit == max_burst + 1,
                0 <= dvt,
                dvt + ei <= MAX_CREDIT,
                limit <= MAX_CREDIT,
            decreases CAS_ATTEMPTS - attempt,
        {
            let (stored, now) = match self.store.get_with_time(bucket) {
                Ok(p) => p,
                Err(e) => {
                    return Err(ThrottleError::Store(e));
                },
            };
            let tat = match stored {
                Some(t) => if t >= now {
                    t
                } else {
                    now
                },
                None => now,
            };
            if quantity > limit {
                proof {
                    assert(quantity * ei > dvt + ei) by (nonlinear_arith)
                        requires
                            quantity > max_burst + 1,
                            1 <= ei,
                            dvt == max_burst * ei,
                    ;
                }
                let rem = compute_remaining(tat, now, max_burst, ei);
                return Ok(
                    (
                        true,
                        RateLimitResult {
                            limit,
                            remaining: rem,
                            retry_after: None,
                            reset_after: tat - now,
                        },
                    ),
                );
            }
            proof {
                assert(ei <= quantity * ei && quantity * ei <= limit * ei) by (nonlinear_arith)
                    requires
                        1 <= quantity <= limit,
                        1 <= ei,
                ;
                assert(limit * ei == dvt + ei) by (nonlinear_arith)
                    requires
                        limit == max_burst + 1,
                        dvt == max_burst * ei,
                ;
            }
            let increment = scale_nanos(ei, quantity);
            let new_tat = tat + increment;
            let allow_at = new_tat - dvt - ei;
            if allow_at > now {
                let rem = compute_remaining(tat, now, max_burst, ei);
                let wait = sub_saturating_nanos(allow_at, now);
                return Ok(
                    (
                        true,
                        RateLimitResult {
                            limit,
                            remaining: rem,
                            retry_after: Some(wait),
                            reset_after: tat - now,
                        },
                    ),
                );
            }
            let ttl = dvt + increment;
            match self.store.compare_and_swap_with_ttl(bucket, stored, new_tat, ttl) {
                Ok(true) => {
                    let rem = compute_remaining(new_tat, now, max_burst, ei);
                    return Ok(
                        (
                            false,
                            RateLimitResult {
                                limit,
                                remaining: rem,
                                retry_after: None,
                                reset_after: new_tat - now,
                            },
                        ),
                    );
                },
                Ok(false) => {
                    proof {
                        assert(!old(self).store.infallible());
                    }
                    attempt = attempt + 1;
                },
                Err(e) => {
                    return Err(ThrottleError::Store(e));
                },
            }
        }
        Err(ThrottleError::Contended)
    }
}

} // verus!
