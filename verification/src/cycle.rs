//! One synchronization cycle: checkpoint arithmetic, batching, and
//! bounded-retry delivery, driven as a state machine.
//!
//! The surrounding application performs the I/O: it persists cursors, runs
//! the extraction query, and delivers batches. Every decision — which cursor
//! to persist, which records form the next batch, when to retry, when to
//! abort and which cursor to roll back to — is made here.

use vstd::prelude::*;
use vstd::arithmetic::div_mod::lemma_fundamental_div_mod_converse;
use crate::record::Metric;

verus! {

/// Lower bound for the next extraction when no checkpoint has been
/// persisted yet: the epoch start.
pub open spec fn spec_initial_cursor(stored: Option<i64>) -> int {
    match stored {
        Some(c) => c as int,
        None => 0,
    }
}

/// Returns the extraction lower bound for a cycle: the persisted cursor, or
/// the epoch start when none exists. Never fails for a missing checkpoint.
pub fn initial_cursor(stored: Option<i64>) -> (c: i64)
    ensures
        c as int == spec_initial_cursor(stored),
{
    match stored {
        Some(c) => c,
        None => 0,
    }
}

/// The optimistically advanced cursor: `now - lookback`, clamped at the
/// smallest representable timestamp.
pub open spec fn spec_advance_target(now: int, lookback: int) -> int {
    if now - lookback >= i64::MIN {
        now - lookback
    } else {
        i64::MIN as int
    }
}

/// Computes the cursor to persist before extraction: the current time minus
/// the configured lookback window.
pub fn advance_cursor(now: i64, lookback: i64) -> (c: i64)
    requires
        lookback >= 0,
    ensures
        c as int == spec_advance_target(now as int, lookback as int),
{
    if now >= i64::MIN + lookback {
        now - lookback
    } else {
        i64::MIN
    }
}

/// Checkpoint monotonicity: the cursor persisted by a successful cycle is
/// `now - lookback`, so across cycles whose wall-clock readings do not
/// decrease, the persisted cursor never decreases either.
pub proof fn lemma_checkpoint_monotonic(now1: int, now2: int, lookback: int)
    requires
        now1 <= now2,
    ensures
        spec_advance_target(now1, lookback) <= spec_advance_target(now2, lookback),
{
}

/// Checkpoint monotonicity across a run: each successful cycle persists
/// `now - lookback` and never rolls back, so over any run whose wall-clock
/// readings do not decrease, the sequence of persisted cursors does not
/// decrease either.
pub proof fn lemma_checkpoint_monotonic_run(nows: Seq<int>, lookback: int)
    requires
        forall|i: int, j: int| 0 <= i <= j < nows.len() ==> nows[i] <= nows[j],
    ensures
        forall|i: int, j: int|
            0 <= i <= j < nows.len() ==> spec_advance_target(#[trigger] nows[i], lookback)
                <= spec_advance_target(#[trigger] nows[j], lookback),
{
    assert forall|i: int, j: int|
        0 <= i <= j < nows.len() implies spec_advance_target(#[trigger] nows[i], lookback)
        <= spec_advance_target(#[trigger] nows[j], lookback) by {
        lemma_checkpoint_monotonic(nows[i], nows[j], lookback);
    }
}

/// Relies on chrono's `Utc::now` and `DateTime::timestamp`: the current
/// wall-clock time in whole seconds since the epoch. The clock is outside
/// the program, so nothing further is promised of the value.
#[verifier::external_body]
fn now_epoch_seconds() -> (r: i64) {
    chrono::Utc::now().timestamp()
}

/// Computes the cursor values that begin a cycle: the extraction lower
/// bound from the stored checkpoint, the wall-clock reading, and the
/// optimistically advanced cursor `now - lookback` that is persisted
/// before extraction. Returns `(query_from, now, advance)`.
pub fn cycle_bounds(lookback: i64, stored: Option<i64>) -> (r: (i64, i64, i64))
    requires
        lookback >= 0,
    ensures
        r.0 as int == spec_initial_cursor(stored),
        r.2 as int == spec_advance_target(r.1 as int, lookback as int),
{
    let query_from = initial_cursor(stored);
    let now = now_epoch_seconds();
    let advance = advance_cursor(now, lookback);
    (query_from, now, advance)
}

/// Where a cycle stands between two calls into it.
#[derive(Clone, Copy, Debug, PartialEq, Eq, Structural)]
pub enum Phase {
    /// The next batch may be requested.
    Ready,
    /// A batch is out for delivery; the payload says whether it is the
    /// final, possibly under-capacity tail batch.
    Awaiting(bool),
    /// Every batch was flushed.
    Succeeded,
    /// Delivery attempts for one batch were exhausted; the caller must
    /// roll the checkpoint back.
    Aborted,
}

/// The outcome a cycle reports.
#[derive(Clone, Copy, Debug, PartialEq, Eq, Structural)]
pub enum CycleStatus {
    InProgress,
    Succeeded,
    Aborted,
}

/// One synchronization cycle over an extracted, mapped record sequence.
///
/// The caller alternates `next_flush`, which hands out the next batch to
/// deliver, and `record_result`, which reports whether delivery succeeded.
/// Full batches are retried up to `max_attempts`; exhaustion aborts the
/// cycle, and `rollback_cursor` then names the cursor to restore. The
/// final, possibly under-capacity tail batch is flushed exactly once,
/// unconditionally, as the baseline design prescribes.
pub struct SyncCycle {
    /// Records of one full batch; at least 1.
    pub batch_size: usize,
    /// Delivery attempts allowed per full batch; at least 1.
    pub max_attempts: u32,
    /// The cursor read at cycle start, before the optimistic advance;
    /// restored on abort.
    pub pre_cycle_cursor: i64,
    /// The mapped records, in extraction order.
    pub records: Vec<Metric>,
    /// How many records stand in full batches already delivered.
    pub delivered: usize,
    /// Failed delivery attempts for the full batch now in flight or about
    /// to be reissued.
    pub attempts: u32,
    /// Where the cycle stands.
    pub phase: Phase,
}

impl SyncCycle {
    /// Records not yet covered by a delivered full batch.
    pub open spec fn remaining(self) -> int {
        self.records@.len() - self.delivered
    }

    /// Whether the next batch to issue is the tail batch.
    pub open spec fn next_is_tail(self) -> bool {
        self.remaining() < self.batch_size
    }

    /// The length of the next batch to issue.
    pub open spec fn next_batch_len(self) -> int {
        if self.next_is_tail() {
            self.remaining()
        } else {
            self.batch_size as int
        }
    }

    /// Internal consistency of a cycle value.
    pub open spec fn wf(self) -> bool {
        &&& self.batch_size >= 1
        &&& self.max_attempts >= 1
        &&& self.delivered <= self.records@.len()
        &&& self.delivered as int % self.batch_size as int == 0
        &&& (self.phase == Phase::Aborted || self.attempts < self.max_attempts)
        &&& (match self.phase {
            Phase::Awaiting(tail) => tail == self.next_is_tail(),
            Phase::Succeeded => self.next_is_tail(),
            _ => true,
        })
    }

    /// Starts a cycle over a mapped record sequence. `pre_cycle_cursor` is
    /// the cursor the cycle was extracted from, kept so an abort can
    /// restore it.
    pub fn new(
        batch_size: usize,
        max_attempts: u32,
        pre_cycle_cursor: i64,
        records: Vec<Metric>,
    ) -> (s: SyncCycle)
        requires
            batch_size >= 1,
            max_attempts >= 1,
        ensures
            s.wf(),
            s.batch_size == batch_size,
            s.max_attempts == max_attempts,
            s.pre_cycle_cursor == pre_cycle_cursor,
            s.records@ == records@,
            s.delivered == 0,
            s.attempts == 0,
            s.phase == Phase::Ready,
    {
        SyncCycle {
            batch_size,
            max_attempts,
            pre_cycle_cursor,
            records,
            delivered: 0,
            attempts: 0,
            phase: Phase::Ready,
        }
    }

    /// Hands out the next batch to deliver: the records from `delivered`
    /// on, capped at `batch_size`. Returns `None` exactly when the cycle
    /// has finished, in success or abort. A batch whose delivery failed
    /// short of exhaustion is handed out again, unchanged.
    pub fn next_flush(&mut self) -> (r: Option<Vec<Metric>>)
        requires
            old(self).wf(),
            !(old(self).phase matches Phase::Awaiting(_)),
        ensures
            final(self).wf(),
            final(self).batch_size == old(self).batch_size,
            final(self).max_attempts == old(self).max_attempts,
            final(self).pre_cycle_cursor == old(self).pre_cycle_cursor,
            final(self).records@ == old(self).records@,
            final(self).delivered == old(self).delivered,
            final(self).attempts == old(self).attempts,
            r is None <==> (old(self).phase == Phase::Succeeded || old(self).phase
                == Phase::Aborted),
            (match r {
                Some(batch) => {
                    &&& old(self).phase == Phase::Ready
                    &&& final(self).phase == Phase::Awaiting(old(self).next_is_tail())
                    &&& batch@.len() == old(self).next_batch_len()
                    &&& forall|q: int|
                        0 <= q < batch@.len() ==> (#[trigger] batch@[q])@ == old(self).records@[
                            old(self).delivered + q
                        ]@
                },
                None => *final(self) == *old(self),
            }),
    {
        match self.phase {
            Phase::Succeeded => None,
            Phase::Aborted => None,
            Phase::Awaiting(_) => {
                proof {
                    assert(false);
                }
                None
            },
            Phase::Ready => {
                let len = self.records.len();
                let rem = len - self.delivered;
                let is_tail = rem < self.batch_size;
                let take = if is_tail {
                    rem
                } else {
                    self.batch_size
                };
                let start = self.delivered;
                let mut batch: Vec<Metric> = Vec::new();
                let mut j: usize = 0;
                while j < take
                    invariant
                        j <= take,
                        start == self.delivered,
                        len == self.records@.len(),
                        start + take <= len,
                        batch@.len() == j,
                        forall|q: int|
                            0 <= q < j ==> (#[trigger] batch@[q])@ == self.records@[start + q]@,
                    decreases take - j,
                {
                    let m = self.records[start + j].duplicate();
                    batch.push(m);
                    j = j + 1;
                }
                self.phase = Phase::Awaiting(is_tail);
                Some(batch)
            },
        }
    }

    /// Reports the delivery outcome of the batch handed out last.
    ///
    /// A successful full batch advances the cycle and resets the attempt
    /// counter. A failed full batch counts one more attempt; when that
    /// reaches `max_attempts`, the cycle aborts — the batch is discarded
    /// and the checkpoint must be rolled back to the pre-cycle cursor. The
    /// tail batch finishes the cycle whatever its outcome: it is flushed
    /// once, without retry.
    pub fn record_result(&mut self, ok: bool)
        requires
            old(self).wf(),
            old(self).phase matches Phase::Awaiting(_),
        ensures
            final(self).wf(),
            final(self).batch_size == old(self).batch_size,
            final(self).max_attempts == old(self).max_attempts,
            final(self).pre_cycle_cursor == old(self).pre_cycle_cursor,
            final(self).records@ == old(self).records@,
            (match old(self).phase {
                Phase::Awaiting(true) => {
                    &&& final(self).phase == Phase::Succeeded
                    &&& final(self).delivered == old(self).delivered
                    &&& final(self).attempts == old(self).attempts
                },
                Phase::Awaiting(false) => {
                    if ok {
                        &&& final(self).phase == Phase::Ready
                        &&& final(self).delivered == old(self).delivered + old(self).batch_size
                        &&& final(self).attempts == 0
                    } else {
                        &&& final(self).delivered == old(self).delivered
                        &&& final(self).attempts == old(self).attempts + 1
                        &&& final(self).phase == (if old(self).attempts + 1 == old(
                            self,
                        ).max_attempts {
                            Phase::Aborted
                        } else {
                            Phase::Ready
                        })
                    }
                },
                _ => false,
            }),
    {
        match self.phase {
            Phase::Awaiting(true) => {
                self.phase = Phase::Succeeded;
            },
            Phase::Awaiting(false) => {
                if ok {
                    let len = self.records.len();
                    proof {
                        assert(self.delivered + self.batch_size <= len);
                        assert((self.delivered as int + self.batch_size as int) % self.batch_size
                            as int == 0) by (nonlinear_arith)
                            requires
                                self.delivered as int % self.batch_size as int == 0,
                                self.batch_size >= 1,
                        ;
                    }
                    self.delivered = self.delivered + self.batch_size;
                    self.attempts = 0;
                    self.phase = Phase::Ready;
                } else {
                    self.attempts = self.attempts + 1;
                    if self.attempts == self.max_attempts {
                        self.phase = Phase::Aborted;
                    } else {
                        self.phase = Phase::Ready;
                    }
                }
            },
            _ => {
                proof {
                    assert(false);
                }
            },
        }
    }

    /// Where the cycle stands: still in progress, succeeded, or aborted.
    pub fn status(&self) -> (st: CycleStatus)
        ensures
            st == (match self.phase {
                Phase::Succeeded => CycleStatus::Succeeded,
                Phase::Aborted => CycleStatus::Aborted,
                _ => CycleStatus::InProgress,
            }),
    {
        match self.phase {
            Phase::Succeeded => CycleStatus::Succeeded,
            Phase::Aborted => CycleStatus::Aborted,
            _ => CycleStatus::InProgress,
        }
    }

    /// Rollback correctness: the cursor an aborted cycle restores is
    /// exactly the pre-cycle cursor, so the next cycle re-extracts from
    /// the original lower bound and reprocesses every batch of this one.
    pub fn rollback_cursor(&self) -> (c: i64)
        ensures
            c == self.pre_cycle_cursor,
    {
        self.pre_cycle_cursor
    }

    /// Batch threshold, at cycle level: a cycle that has succeeded
    /// delivered exactly one full batch for each complete group of
    /// `batch_size` records — the consecutive chunks of the record
    /// sequence — and then the tail batch holding the remainder. With the
    /// batch decomposition laws this pins the flush count at
    /// `len / batch_size + 1` and the batch sizes at `batch_size` for
    /// every flush but the last.
    pub proof fn lemma_succeeded_covers_all(self)
        requires
            self.wf(),
            self.phase == Phase::Succeeded,
        ensures
            self.delivered as int / self.batch_size as int == self.records@.len() as int
                / self.batch_size as int,
            self.delivered as int == (self.records@.len() as int / self.batch_size as int)
                * self.batch_size as int,
            self.remaining() == self.records@.len() as int % self.batch_size as int,
    {
        let bs = self.batch_size as int;
        let d = self.delivered as int;
        let n = self.records@.len() as int;
        let q = d / bs;
        assert(d == q * bs) by (nonlinear_arith)
            requires
                bs >= 1,
                d >= 0,
                d % bs == 0,
                q == d / bs,
        ;
        lemma_fundamental_div_mod_converse(n, bs, q, n - d);
    }

    /// Progress after a successful full-batch delivery, as a percentage of
    /// all records in the cycle.
    pub fn progress_percent(&self) -> (p: u64)
        requires
            self.wf(),
            self.records@.len() > 0,
        ensures
            p as int == self.delivered as int * 100 / self.records@.len() as int,
            p <= 100,
    {
        let d = (self.delivered as u128) * 100;
        let t = self.records.len() as u128;
        proof {
            assert(d / t <= 100 && d / t == self.delivered as int * 100 / self.records@.len()
                as int) by (nonlinear_arith)
                requires
                    d == self.delivered as int * 100,
                    t == self.records@.len() as int,
                    0 < t,
                    self.delivered as int <= t,
            ;
        }
        (d / t) as u64
    }
}

} // verus!
