//! Allocation counters and the pacing rule that sizes each collection step.

use vstd::prelude::*;

verus! {

/// Counters kept by an arena, and the threshold that paces collection.
///
/// `total_allocated` and `freed_bytes` only ever grow. `allocated_bytes` is
/// the allocation debt: the bytes allocated since the last cycle ended.
/// `work_done` counts the objects the collector has handled in the current
/// cycle. `wakeup_amount` is the number of allocated bytes that pays for one
/// unit of collector work.
#[derive(Debug, Clone, Copy, PartialEq, Eq, Structural)]
pub struct Metrics {
    pub allocated_bytes: usize,
    pub freed_bytes: usize,
    pub total_allocated: usize,
    pub wakeup_amount: usize,
    pub work_done: usize,
}

/// The units of work that `allocated` bytes of debt pay for at a threshold of
/// `wakeup` bytes per unit. A threshold of zero makes every byte pay for a
/// unit.
pub open spec fn earned_work(allocated: int, wakeup: int) -> int {
    if wakeup <= 0 {
        allocated
    } else {
        allocated / wakeup
    }
}

impl Metrics {
    /// The work a step may perform now: what the debt has earned in this cycle
    /// less what has been performed already.
    pub open spec fn budget(self) -> int {
        let earned = earned_work(self.allocated_bytes as int, self.wakeup_amount as int);
        if earned > self.work_done {
            earned - self.work_done
        } else {
            0
        }
    }

    /// The bytes held by allocations that have not been freed.
    pub open spec fn live_bytes(self) -> int {
        self.total_allocated - self.freed_bytes
    }

    /// Counters can only be consistent when no more was freed than allocated,
    /// and the debt of a cycle is part of the total.
    pub open spec fn wf(self) -> bool {
        &&& self.freed_bytes <= self.total_allocated
        &&& self.allocated_bytes <= self.total_allocated
    }

    /// Fresh counters with the given threshold.
    pub fn new(wakeup_amount: usize) -> (m: Metrics)
        ensures
            m == (Metrics {
                allocated_bytes: 0,
                freed_bytes: 0,
                total_allocated: 0,
                wakeup_amount,
                work_done: 0,
            }),
            m.wf(),
    {
        Metrics { allocated_bytes: 0, freed_bytes: 0, total_allocated: 0, wakeup_amount, work_done: 0 }
    }

    /// Bytes allocated since the last cycle ended.
    pub fn allocated_bytes(&self) -> (n: usize)
        ensures
            n == self.allocated_bytes,
    {
        self.allocated_bytes
    }

    /// Bytes freed since the arena was made.
    pub fn freed_bytes(&self) -> (n: usize)
        ensures
            n == self.freed_bytes,
    {
        self.freed_bytes
    }

    /// Bytes allocated since the arena was made.
    pub fn total_allocated(&self) -> (n: usize)
        ensures
            n == self.total_allocated,
    {
        self.total_allocated
    }

    /// The debt threshold.
    pub fn wakeup_amount(&self) -> (n: usize)
        ensures
            n == self.wakeup_amount,
    {
        self.wakeup_amount
    }

    /// Units of work performed in the current cycle.
    pub fn work_done(&self) -> (n: usize)
        ensures
            n == self.work_done,
    {
        self.work_done
    }

    /// Returns the work that a step may perform now.
    pub fn allocation_debt(&self) -> (n: usize)
        ensures
            n == self.budget(),
    {
        let earned: usize = if self.wakeup_amount == 0 {
            self.allocated_bytes
        } else {
            self.allocated_bytes / self.wakeup_amount
        };
        if earned > self.work_done {
            earned - self.work_done
        } else {
            0
        }
    }
}

/// The work earned grows with the debt: more bytes never earn less.
pub proof fn lemma_earned_work_monotonic(a: int, b: int, wakeup: int)
    requires
        0 <= a <= b,
    ensures
        earned_work(a, wakeup) <= earned_work(b, wakeup),
{
    if wakeup > 0 {
        vstd::arithmetic::div_mod::lemma_div_is_ordered(a, b, wakeup);
    }
}

/// The work earned is proportional to the debt: `k` thresholds' worth of
/// bytes earn exactly `k` units, and less than one threshold earns none.
pub proof fn lemma_earned_work_proportional(k: int, wakeup: int, small: int)
    requires
        0 <= k,
        0 < wakeup,
        0 <= small < wakeup,
    ensures
        earned_work(k * wakeup, wakeup) == k,
        earned_work(small, wakeup) == 0,
        earned_work(k * wakeup + small, wakeup) == k,
{
    vstd::arithmetic::div_mod::lemma_fundamental_div_mod_converse(k * wakeup, wakeup, k, 0);
    vstd::arithmetic::div_mod::lemma_fundamental_div_mod_converse(small, wakeup, 0, small);
    vstd::arithmetic::div_mod::lemma_fundamental_div_mod_converse(k * wakeup + small, wakeup, k, small);
}

/// The work that further debt earns is in proportion to it, to within one
/// unit: `more` bytes on top of `debt` earn as many units as `more` bytes by
/// themselves, or one more where the remainder carried over from `debt` fills
/// up a unit. With no remainder carried over they earn exactly as many.
pub proof fn lemma_earned_work_difference(debt: int, more: int, wakeup: int)
    requires
        0 <= debt,
        0 <= more,
        0 < wakeup,
    ensures
        earned_work(debt + more, wakeup) - earned_work(debt, wakeup) >= earned_work(more, wakeup),
        earned_work(debt + more, wakeup) - earned_work(debt, wakeup) <= earned_work(more, wakeup)
            + 1,
        debt % wakeup == 0 ==> earned_work(debt + more, wakeup) - earned_work(debt, wakeup)
            == earned_work(more, wakeup),
{
    let q = debt / wakeup;
    let r = debt % wakeup;
    let p = more / wakeup;
    let s = more % wakeup;
    vstd::arithmetic::div_mod::lemma_fundamental_div_mod(debt, wakeup);
    vstd::arithmetic::div_mod::lemma_fundamental_div_mod(more, wakeup);
    vstd::arithmetic::div_mod::lemma_mod_bound(debt, wakeup);
    vstd::arithmetic::div_mod::lemma_mod_bound(more, wakeup);
    assert(debt + more == (q + p) * wakeup + (r + s)) by (nonlinear_arith)
        requires
            debt == wakeup * q + r,
            more == wakeup * p + s,
    ;
    if r + s < wakeup {
        vstd::arithmetic::div_mod::lemma_fundamental_div_mod_converse(
            debt + more,
            wakeup,
            q + p,
            r + s,
        );
    } else {
        assert(debt + more == (q + p + 1) * wakeup + (r + s - wakeup)) by (nonlinear_arith)
            requires
                debt + more == (q + p) * wakeup + (r + s),
        ;
        vstd::arithmetic::div_mod::lemma_fundamental_div_mod_converse(
            debt + more,
            wakeup,
            q + p + 1,
            r + s - wakeup,
        );
    }
}

} // verus!
