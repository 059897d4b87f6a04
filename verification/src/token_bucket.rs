//! Token-bucket rate gate: the permit bookkeeping and its law.
//!
//! The bucket holds up to `cap` permits. A background ticker, driven by
//! the surrounding process once per refill interval, adds one permit
//! unless the bucket is full; missed ticks are skipped, not queued.
//! An acquisition consumes its permits only when enough are available;
//! otherwise the caller waits for further ticks.

use vstd::prelude::*;

verus! {

/// Permit bookkeeping of one rate gate.
pub struct TokenBucket {
    permits: u64,
    cap: u64,
    refill_interval_ms: u64,
}

/// One thing that happens to a bucket: a refill tick, or an attempt to
/// take `n` permits.
#[derive(Debug, Clone, Copy, PartialEq, Eq, Structural)]
pub enum BucketStep {
    Tick,
    Acquire { n: u64 },
}

/// The permit count after one step: a tick adds one permit below the
/// capacity, an acquisition of `n` consumes `n` when available and
/// changes nothing otherwise.
pub open spec fn step_permits(cap: u64, p: u64, step: BucketStep) -> u64 {
    match step {
        BucketStep::Tick => if p < cap {
            (p + 1) as u64
        } else {
            p
        },
        BucketStep::Acquire { n } => if n <= p {
            (p - n) as u64
        } else {
            p
        },
    }
}

/// The permit count after a sequence of steps, applied in order.
pub open spec fn run_permits(cap: u64, p0: u64, steps: Seq<BucketStep>) -> u64
    decreases steps.len(),
{
    if steps.len() == 0 {
        p0
    } else {
        step_permits(cap, run_permits(cap, p0, steps.drop_last()), steps.last())
    }
}

/// How many acquisitions of at least one permit complete along the steps.
pub open spec fn completed_acquires(cap: u64, p0: u64, steps: Seq<BucketStep>) -> nat
    decreases steps.len(),
{
    if steps.len() == 0 {
        0
    } else {
        completed_acquires(cap, p0, steps.drop_last()) + match steps.last() {
            BucketStep::Acquire { n } => if 1 <= n <= run_permits(cap, p0, steps.drop_last()) {
                1nat
            } else {
                0nat
            },
            BucketStep::Tick => 0nat,
        }
    }
}

/// How many refill ticks the steps contain.
pub open spec fn tick_count(steps: Seq<BucketStep>) -> nat
    decreases steps.len(),
{
    if steps.len() == 0 {
        0
    } else {
        tick_count(steps.drop_last()) + if steps.last() is Tick {
            1nat
        } else {
            0nat
        }
    }
}

/// Each completed acquisition consumes at least one permit and each tick
/// supplies at most one, so permits plus completions never outrun the
/// initial permits plus the ticks.
proof fn lemma_completions_plus_permits(cap: u64, p0: u64, steps: Seq<BucketStep>)
    ensures
        run_permits(cap, p0, steps) + completed_acquires(cap, p0, steps) <= p0 + tick_count(steps),
    decreases steps.len(),
{
    if steps.len() > 0 {
        lemma_completions_plus_permits(cap, p0, steps.drop_last());
    }
}

/// Rate law of the bucket: in any window, starting from at most `cap`
/// permits, the acquisitions (of one or more permits) that complete are
/// at most the capacity plus the refill ticks in that window. A ticker
/// with interval `D` that skips missed ticks fires at most `ceil(T / D)`
/// times in a window of length `T`, so at most `cap + ceil(T / D)`
/// acquisitions of a single permit can complete in such a window.
pub proof fn lemma_completed_acquires_bounded(cap: u64, p0: u64, steps: Seq<BucketStep>)
    requires
        p0 <= cap,
    ensures
        completed_acquires(cap, p0, steps) <= cap + tick_count(steps),
{
    lemma_completions_plus_permits(cap, p0, steps);
}

impl TokenBucket {
    /// Permits available right now.
    pub closed spec fn spec_permits(&self) -> u64 {
        self.permits
    }

    /// Capacity `K`: the most permits the bucket ever holds.
    pub closed spec fn spec_cap(&self) -> u64 {
        self.cap
    }

    /// Refill interval in milliseconds, for the ticker that drives
    /// `refill_tick`.
    pub closed spec fn spec_refill_interval_ms(&self) -> u64 {
        self.refill_interval_ms
    }

    /// The bucket never holds more than its capacity.
    pub open spec fn wf(&self) -> bool {
        self.spec_permits() <= self.spec_cap()
    }

    /// A bucket of capacity `cap`, starting full, refilled once per
    /// `refill_interval_ms`.
    pub fn new(cap: u64, refill_interval_ms: u64) -> (r: Self)
        ensures
            r.spec_cap() == cap,
            r.spec_permits() == cap,
            r.spec_refill_interval_ms() == refill_interval_ms,
            r.wf(),
    {
        Self { permits: cap, cap, refill_interval_ms }
    }

    /// The capacity the bucket was built with.
    pub fn capacity(&self) -> (r: u64)
        ensures
            r == self.spec_cap(),
    {
        self.cap
    }

    /// The refill interval the bucket was built with.
    pub fn refill_interval_ms(&self) -> (r: u64)
        ensures
            r == self.spec_refill_interval_ms(),
    {
        self.refill_interval_ms
    }

    /// One firing of the refill ticker: one permit back, capped at `cap`.
    pub fn refill_tick(&mut self)
        requires
            old(self).wf(),
        ensures
            final(self).spec_permits() == step_permits(
                old(self).spec_cap(),
                old(self).spec_permits(),
                BucketStep::Tick,
            ),
            final(self).spec_cap() == old(self).spec_cap(),
            final(self).spec_refill_interval_ms() == old(self).spec_refill_interval_ms(),
            final(self).wf(),
    {
        if self.permits < self.cap {
            self.permits = self.permits + 1;
        }
    }

    /// Try to take `n` permits: consumes them and reports success exactly
    /// when `n` are available, and changes nothing otherwise. A waiter
    /// retries after the next tick; permits are only consumed on success,
    /// so abandoning the wait leaks nothing.
    pub fn try_acquire(&mut self, n: u64) -> (ok: bool)
        ensures
            ok == (n <= old(self).spec_permits()),
            final(self).spec_permits() == step_permits(
                old(self).spec_cap(),
                old(self).spec_permits(),
                BucketStep::Acquire { n },
            ),
            final(self).spec_cap() == old(self).spec_cap(),
            final(self).spec_refill_interval_ms() == old(self).spec_refill_interval_ms(),
            old(self).wf() ==> final(self).wf(),
    {
        if n <= self.permits {
            self.permits = self.permits - n;
            true
        } else {
            false
        }
    }

    /// Take `n` permits once they are available; they are not returned.
    pub fn acquire(&mut self, n: u64)
        requires
            n <= old(self).spec_permits(),
        ensures
            final(self).spec_permits() == old(self).spec_permits() - n,
            final(self).spec_cap() == old(self).spec_cap(),
            final(self).spec_refill_interval_ms() == old(self).spec_refill_interval_ms(),
            old(self).wf() ==> final(self).wf(),
    {
        self.permits = self.permits - n;
    }
}

} // verus!
