//! The metadata backfill policy: which documents still need enrichment, the
//! bounded exponential backoff around one extraction, and the batch summary.
use vstd::prelude::*;

use crate::models::BackfillResponse;
use crate::store::Document;

verus! {

/// How many attempts one document gets in a batch.
pub const MAX_EXTRACTION_ATTEMPTS: u32 = 3;

/// Two to the power `n`.
pub open spec fn pow2(n: nat) -> nat
    decreases n,
{
    if n == 0 {
        1
    } else {
        2 * pow2((n - 1) as nat)
    }
}

/// A document still needs enrichment unless both keywords and topics are
/// set.
pub open spec fn spec_needs_backfill(d: Document) -> bool {
    d.keywords is None || d.topics is None
}

/// Whether the batch must process this document: it is skipped only when
/// both keywords and topics are already set.
pub fn needs_backfill(d: &Document) -> (r: bool)
    ensures
        r == spec_needs_backfill(*d),
{
    !(d.keywords.is_some() && d.topics.is_some())
}

/// The retry state around failing extractions: how many attempts failed so
/// far and how long to wait before the next one. The delay starts at one
/// second and doubles after every failure, and is never reset between
/// documents of a batch.
pub struct RetryState {
    pub failures: u32,
    pub delay_secs: u64,
}

/// What to do after a failure: wait and retry, or give up.
pub enum RetryDecision {
    Retry { delay_secs: u64 },
    GiveUp,
}

impl RetryState {
    /// The delay always equals two to the number of failures, in seconds.
    pub open spec fn wf(self) -> bool {
        self.failures <= 32 && self.delay_secs == pow2(self.failures as nat)
    }

    /// The state before any failure: the first wait would be one second.
    pub fn new() -> (r: RetryState)
        ensures
            r.wf(),
            r.failures == 0,
            r.delay_secs == 1,
    {
        RetryState { failures: 0, delay_secs: 1 }
    }

    /// Records one failed attempt; `attempts_made` counts the attempts the
    /// current document has had, this one included as the last. While the
    /// document has attempts left, the caller is told to wait exactly the
    /// current delay, which then doubles; once the document used all its
    /// attempts the failure is given up on and surfaced.
    pub fn on_failure(&mut self, attempts_made: u32, max_attempts: u32) -> (d: RetryDecision)
        requires
            old(self).wf(),
            attempts_made < max_attempts,
            old(self).failures < 32,
        ensures
            final(self).wf(),
            final(self).failures == old(self).failures + 1,
            final(self).delay_secs == 2 * old(self).delay_secs,
            attempts_made + 1 < max_attempts ==> (d matches RetryDecision::Retry {
                delay_secs,
            } && delay_secs == pow2(old(self).failures as nat)),
            attempts_made + 1 == max_attempts ==> d is GiveUp,
    {
        let waited = self.delay_secs;
        self.failures = self.failures + 1;
        proof {
            assert(pow2((old(self).failures + 1) as nat) == 2 * pow2(
                old(self).failures as nat,
            ));
            lemma_pow2_fits_u64(self.failures as nat);
        }
        self.delay_secs = self.delay_secs * 2;
        if attempts_made + 1 >= max_attempts {
            RetryDecision::GiveUp
        } else {
            RetryDecision::Retry { delay_secs: waited }
        }
    }
}

/// Two to any power is positive.
proof fn lemma_pow2_pos(n: nat)
    ensures
        pow2(n) >= 1,
    decreases n,
{
    if n > 0 {
        lemma_pow2_pos((n - 1) as nat)
    }
}

/// Two to a power of at most 32 fits in 64 bits.
proof fn lemma_pow2_fits_u64(n: nat)
    requires
        n <= 32,
    ensures
        pow2(n) <= 0x1_0000_0000,
{
    lemma_pow2_mono(n, 32);
    assert(pow2(32) == 0x1_0000_0000) by {
        reveal_with_fuel(pow2, 33);
    }
}

/// Two to the power is monotone.
proof fn lemma_pow2_mono(a: nat, b: nat)
    requires
        a <= b,
    ensures
        pow2(a) <= pow2(b),
    decreases b,
{
    if a < b {
        lemma_pow2_mono(a, (b - 1) as nat);
        lemma_pow2_pos((b - 1) as nat);
    }
}

/// The waits a fully failing extraction makes under a fresh backoff state,
/// in seconds: one second before the second attempt, two before the third,
/// doubling on — one wait fewer than there are attempts.
pub fn backoff_delays(max_attempts: u32) -> (r: Vec<u64>)
    requires
        max_attempts >= 1,
        max_attempts <= 32,
    ensures
        r@.len() == max_attempts - 1,
        forall|i: int| 0 <= i < r@.len() ==> r@[i] == pow2(i as nat),
{
    let mut st = RetryState::new();
    let mut r: Vec<u64> = Vec::new();
    let mut k: u32 = 0;
    while k < max_attempts - 1
        invariant
            max_attempts >= 1,
            max_attempts <= 32,
            k <= max_attempts - 1,
            st.wf(),
            st.failures == k,
            r@.len() == k,
            forall|i: int| 0 <= i < r@.len() ==> r@[i] == pow2(i as nat),
        decreases max_attempts - 1 - k,
    {
        match st.on_failure(k, max_attempts) {
            RetryDecision::Retry { delay_secs } => {
                r.push(delay_secs);
            },
            RetryDecision::GiveUp => {
                proof {
                    assert(k + 1 < max_attempts);
                    assert(false);
                }
            },
        }
        k = k + 1;
    }
    r
}

/// The running counts of one backfill batch. Only documents still needing
/// enrichment are processed; each processed document either succeeded or
/// failed, and a failure never stops the batch.
pub struct BackfillProgress {
    pub processed: usize,
    pub succeeded: usize,
    pub failed: usize,
}

impl BackfillProgress {
    /// Every processed document is counted exactly once.
    pub open spec fn wf(self) -> bool {
        self.processed == self.succeeded + self.failed
    }

    /// An empty batch.
    pub fn new() -> (r: BackfillProgress)
        ensures
            r.wf(),
            r.processed == 0,
            r.succeeded == 0,
            r.failed == 0,
    {
        BackfillProgress { processed: 0, succeeded: 0, failed: 0 }
    }

    /// Counts one processed document. A failure is reflected only here, in
    /// the failed count; it is not propagated.
    pub fn record(&mut self, success: bool) -> (r: Result<(), ()>)
        requires
            old(self).wf(),
        ensures
            final(self).wf(),
            old(self).processed < usize::MAX ==> {
                &&& r is Ok
                &&& final(self).processed == old(self).processed + 1
                &&& final(self).succeeded == old(self).succeeded + if success {
                    1int
                } else {
                    0int
                }
                &&& final(self).failed == old(self).failed + if success {
                    0int
                } else {
                    1int
                }
            },
            old(self).processed == usize::MAX ==> r is Err && *final(self) == *old(self),
    {
        if self.processed == usize::MAX {
            return Err(());
        }
        self.processed = self.processed + 1;
        if success {
            self.succeeded = self.succeeded + 1;
        } else {
            self.failed = self.failed + 1;
        }
        Ok(())
    }

    /// The batch summary.
    pub fn into_response(self) -> (r: BackfillResponse)
        ensures
            r.processed == self.processed,
            r.succeeded == self.succeeded,
            r.failed == self.failed,
    {
        BackfillResponse {
            processed: self.processed,
            succeeded: self.succeeded,
            failed: self.failed,
        }
    }
}

} // verus!
