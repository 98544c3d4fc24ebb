//! Per-display adaptive choice of the capture method.
//!
//! Each display keeps a consecutive-success counter per capture method and a
//! preferred method.  A validated capture bumps only the used method's
//! counter; a failure resets only that counter.  A method whose counter
//! reaches [`SUCCESS_THRESHOLD`] is promoted to preferred, faster methods
//! winning ties.

use std::collections::HashMap;
use vstd::prelude::*;

verus! {

broadcast use vstd::std_specs::hash::group_hash_axioms;

/// Number of consecutive validated captures a method needs before it becomes
/// the preferred starting point for its display.
pub const SUCCESS_THRESHOLD: u32 = 3;

/// One of the interchangeable compositor-duplication strategies for obtaining
/// a frame.  The bit-block-transfer fallback is not part of the adaptive
/// choice: it is tried unconditionally after these are exhausted.
#[derive(Copy, Clone, Debug, Eq, PartialEq, Hash, Structural)]
pub enum CaptureMethod {
    Optimized,
    Standard,
    Alternative,
}

impl CaptureMethod {
    /// Position in the performance order; a lower rank is faster.
    pub open spec fn rank(self) -> int {
        match self {
            CaptureMethod::Optimized => 0,
            CaptureMethod::Standard => 1,
            CaptureMethod::Alternative => 2,
        }
    }
}

/// Consecutive-success counters and the current preference for one display.
#[derive(Clone, Copy, Debug, PartialEq, Eq, Structural)]
pub struct CaptureStats {
    pub consec_optimized: u32,
    pub consec_standard: u32,
    pub consec_alternative: u32,
    pub preferred: CaptureMethod,
}

impl CaptureStats {
    /// The state of a display that has not been captured yet.
    pub open spec fn initial() -> CaptureStats {
        CaptureStats {
            consec_optimized: 0,
            consec_standard: 0,
            consec_alternative: 0,
            preferred: CaptureMethod::Optimized,
        }
    }

    /// The consecutive-success counter of `method`.
    pub open spec fn consec(self, method: CaptureMethod) -> u32 {
        match method {
            CaptureMethod::Optimized => self.consec_optimized,
            CaptureMethod::Standard => self.consec_standard,
            CaptureMethod::Alternative => self.consec_alternative,
        }
    }

    /// `self` with the counter of `method` replaced by `count`.
    pub open spec fn with_counter(self, method: CaptureMethod, count: u32) -> CaptureStats {
        match method {
            CaptureMethod::Optimized => CaptureStats {
                consec_optimized: count,
                consec_standard: self.consec_standard,
                consec_alternative: self.consec_alternative,
                preferred: self.preferred,
            },
            CaptureMethod::Standard => CaptureStats {
                consec_optimized: self.consec_optimized,
                consec_standard: count,
                consec_alternative: self.consec_alternative,
                preferred: self.preferred,
            },
            CaptureMethod::Alternative => CaptureStats {
                consec_optimized: self.consec_optimized,
                consec_standard: self.consec_standard,
                consec_alternative: count,
                preferred: self.preferred,
            },
        }
    }

    /// The statistics after one recorded attempt: a success increments only
    /// the used method's counter (saturating), a failure resets only that
    /// counter; then the fastest method whose counter has reached
    /// [`SUCCESS_THRESHOLD`] becomes preferred, or the preference is kept.
    pub open spec fn spec_record(self, method: CaptureMethod, success: bool) -> CaptureStats {
        let count = if success {
            if self.consec(method) == u32::MAX {
                u32::MAX
            } else {
                (self.consec(method) + 1) as u32
            }
        } else {
            0u32
        };
        let updated = self.with_counter(method, count);
        let preferred = if updated.consec_optimized >= SUCCESS_THRESHOLD {
            CaptureMethod::Optimized
        } else if updated.consec_standard >= SUCCESS_THRESHOLD {
            CaptureMethod::Standard
        } else if updated.consec_alternative >= SUCCESS_THRESHOLD {
            CaptureMethod::Alternative
        } else {
            self.preferred
        };
        CaptureStats {
            consec_optimized: updated.consec_optimized,
            consec_standard: updated.consec_standard,
            consec_alternative: updated.consec_alternative,
            preferred,
        }
    }

    /// The method a capture attempt for this display starts with: the
    /// fastest method whose counter has reached the threshold, otherwise the
    /// stored preference.
    pub open spec fn spec_choose(self) -> CaptureMethod {
        if self.consec_optimized >= SUCCESS_THRESHOLD {
            CaptureMethod::Optimized
        } else if self.consec_standard >= SUCCESS_THRESHOLD {
            CaptureMethod::Standard
        } else if self.consec_alternative >= SUCCESS_THRESHOLD {
            CaptureMethod::Alternative
        } else {
            self.preferred
        }
    }
}

impl Default for CaptureStats {
    fn default() -> (r: CaptureStats)
        ensures
            r == CaptureStats::initial(),
    {
        CaptureStats {
            consec_optimized: 0,
            consec_standard: 0,
            consec_alternative: 0,
            preferred: CaptureMethod::Optimized,
        }
    }
}

/// The capture statistics of every display, keyed by display ordinal.
/// Entries appear lazily, on the first recorded attempt for a display.
pub struct SelectorState {
    stats: HashMap<usize, CaptureStats>,
}

impl View for SelectorState {
    type V = Map<usize, CaptureStats>;

    closed spec fn view(&self) -> Map<usize, CaptureStats> {
        self.stats@
    }
}

impl SelectorState {
    /// The statistics recorded for a display, a fresh default when none are.
    pub open spec fn spec_stats(self, monitor_id: usize) -> CaptureStats {
        if self@.contains_key(monitor_id) {
            self@[monitor_id]
        } else {
            CaptureStats::initial()
        }
    }

    pub fn new() -> (r: SelectorState)
        ensures
            r@ == Map::<usize, CaptureStats>::empty(),
    {
        SelectorState { stats: HashMap::new() }
    }

    /// Current statistics for a display.
    pub fn stats_for(&self, monitor_id: usize) -> (r: CaptureStats)
        ensures
            r == self.spec_stats(monitor_id),
    {
        match self.stats.get(&monitor_id) {
            Some(s) => *s,
            None => CaptureStats::default(),
        }
    }

    /// The method the attempt sequence for `monitor_id` starts with.
    pub fn choose_start_method(&self, monitor_id: usize) -> (r: CaptureMethod)
        ensures
            r == self.spec_stats(monitor_id).spec_choose(),
    {
        let s = self.stats_for(monitor_id);
        if s.consec_optimized >= SUCCESS_THRESHOLD {
            CaptureMethod::Optimized
        } else if s.consec_standard >= SUCCESS_THRESHOLD {
            CaptureMethod::Standard
        } else if s.consec_alternative >= SUCCESS_THRESHOLD {
            CaptureMethod::Alternative
        } else {
            s.preferred
        }
    }

    /// Record the outcome of one capture attempt with `method` on the given
    /// display.  Only that display's entry changes, and within it only the
    /// used method's counter and the promotion that may follow.
    pub fn record_result(&mut self, monitor_id: usize, method: CaptureMethod, success: bool)
        ensures
            final(self)@ == old(self)@.insert(
                monitor_id,
                old(self).spec_stats(monitor_id).spec_record(method, success),
            ),
            forall|other: usize| other != monitor_id
                ==> #[trigger] final(self).spec_stats(other) == old(self).spec_stats(other),
    {
        let entry = self.stats_for(monitor_id);
        let prev: u32 = match method {
            CaptureMethod::Optimized => entry.consec_optimized,
            CaptureMethod::Standard => entry.consec_standard,
            CaptureMethod::Alternative => entry.consec_alternative,
        };
        let count = if success {
            if prev == u32::MAX {
                u32::MAX
            } else {
                prev + 1
            }
        } else {
            0
        };
        let mut updated = entry;
        match method {
            CaptureMethod::Optimized => {
                updated.consec_optimized = count;
            },
            CaptureMethod::Standard => {
                updated.consec_standard = count;
            },
            CaptureMethod::Alternative => {
                updated.consec_alternative = count;
            },
        }
        updated.preferred = if updated.consec_optimized >= SUCCESS_THRESHOLD {
            CaptureMethod::Optimized
        } else if updated.consec_standard >= SUCCESS_THRESHOLD {
            CaptureMethod::Standard
        } else if updated.consec_alternative >= SUCCESS_THRESHOLD {
            CaptureMethod::Alternative
        } else {
            entry.preferred
        };
        self.stats.insert(monitor_id, updated);
    }

    /// The full attempt sequence for one capture on `monitor_id`: the
    /// methods of [`attempt_order`], starting from this display's choice.
    pub fn plan_attempts(&self, monitor_id: usize) -> (r: Vec<CaptureMethod>)
        ensures
            r@ == match self.spec_stats(monitor_id).spec_choose() {
                CaptureMethod::Optimized => seq![
                    CaptureMethod::Optimized,
                    CaptureMethod::Standard,
                    CaptureMethod::Alternative,
                ],
                CaptureMethod::Standard => seq![
                    CaptureMethod::Standard,
                    CaptureMethod::Alternative,
                ],
                CaptureMethod::Alternative => seq![CaptureMethod::Alternative],
            },
    {
        attempt_order(self.choose_start_method(monitor_id))
    }

    /// The consecutive-success counter of `method` on `monitor_id`, as exec
    /// code; mostly of use to callers that report statistics.
    pub fn consecutive_successes(&self, monitor_id: usize, method: CaptureMethod) -> (r: u32)
        ensures
            r == self.spec_stats(monitor_id).consec(method),
    {
        let s = self.stats_for(monitor_id);
        match method {
            CaptureMethod::Optimized => s.consec_optimized,
            CaptureMethod::Standard => s.consec_standard,
            CaptureMethod::Alternative => s.consec_alternative,
        }
    }
}

/// The attempt sequence for one capture: start at the given method and fall
/// through to strictly slower duplication strategies.  A cold start retries
/// everything; once Standard or Alternative has proven necessary, the faster
/// options are skipped.
pub fn attempt_order(start: CaptureMethod) -> (r: Vec<CaptureMethod>)
    ensures
        r@ == match start {
            CaptureMethod::Optimized => seq![
                CaptureMethod::Optimized,
                CaptureMethod::Standard,
                CaptureMethod::Alternative,
            ],
            CaptureMethod::Standard => seq![CaptureMethod::Standard, CaptureMethod::Alternative],
            CaptureMethod::Alternative => seq![CaptureMethod::Alternative],
        },
{
    let mut order: Vec<CaptureMethod> = Vec::new();
    match start {
        CaptureMethod::Optimized => {
            order.push(CaptureMethod::Optimized);
            order.push(CaptureMethod::Standard);
            order.push(CaptureMethod::Alternative);
            proof {
                assert(order@ =~= seq![
                    CaptureMethod::Optimized,
                    CaptureMethod::Standard,
                    CaptureMethod::Alternative,
                ]);
            }
        },
        CaptureMethod::Standard => {
            order.push(CaptureMethod::Standard);
            order.push(CaptureMethod::Alternative);
            proof {
                assert(order@ =~= seq![CaptureMethod::Standard, CaptureMethod::Alternative]);
            }
        },
        CaptureMethod::Alternative => {
            order.push(CaptureMethod::Alternative);
            proof {
                assert(order@ =~= seq![CaptureMethod::Alternative]);
            }
        },
    }
    order
}

/// A recorded success on `method` leaves that method's counter at least 1 --
/// saturating increment of the previous value -- and every other method's
/// counter untouched.
pub proof fn lemma_success_touches_only_its_counter(s: CaptureStats, method: CaptureMethod)
    ensures
        s.spec_record(method, true).consec(method) >= 1,
        s.spec_record(method, true).consec(method) == if s.consec(method) == u32::MAX {
            u32::MAX
        } else {
            (s.consec(method) + 1) as u32
        },
        forall|m: CaptureMethod| m != method
            ==> #[trigger] s.spec_record(method, true).consec(m) == s.consec(m),
{
}

/// A recorded failure on `method` resets that method's counter to 0 and
/// leaves every other method's counter untouched.
pub proof fn lemma_failure_resets_only_its_counter(s: CaptureStats, method: CaptureMethod)
    ensures
        s.spec_record(method, false).consec(method) == 0,
        forall|m: CaptureMethod| m != method
            ==> #[trigger] s.spec_record(method, false).consec(m) == s.consec(m),
{
}

/// The statistics after `n` consecutive recorded successes on `method`, with
/// no other event for the display in between.
pub open spec fn spec_record_successes(s: CaptureStats, method: CaptureMethod, n: nat)
    -> CaptureStats
    decreases n,
{
    if n == 0 {
        s
    } else {
        spec_record_successes(s, method, (n - 1) as nat).spec_record(method, true)
    }
}

/// During a streak of successes on `method`, the other methods' counters do
/// not move, and `method`'s counter grows one per success until it saturates.
pub proof fn lemma_streak_counters(s: CaptureStats, method: CaptureMethod, n: nat)
    ensures
        spec_record_successes(s, method, n).consec(method) == if s.consec(method) + n > u32::MAX {
            u32::MAX
        } else {
            (s.consec(method) + n) as u32
        },
        forall|m: CaptureMethod| m != method
            ==> #[trigger] spec_record_successes(s, method, n).consec(m) == s.consec(m),
    decreases n,
{
    if n > 0 {
        lemma_streak_counters(s, method, (n - 1) as nat);
        lemma_success_touches_only_its_counter(
            spec_record_successes(s, method, (n - 1) as nat),
            method,
        );
    }
}

/// Promotion is monotonic within a streak: after `n >= SUCCESS_THRESHOLD`
/// consecutive successes on `method`, the display prefers `method` -- as long
/// as no faster method had already reached the threshold when the streak
/// began.  (Faster methods' counters do not move during the streak; one that
/// was already at the threshold would win the promotion instead.)
pub proof fn lemma_streak_promotes(s: CaptureStats, method: CaptureMethod, n: nat)
    requires
        n >= SUCCESS_THRESHOLD,
        forall|m: CaptureMethod| m.rank() < method.rank()
            ==> #[trigger] s.consec(m) < SUCCESS_THRESHOLD,
    ensures
        spec_record_successes(s, method, n).preferred == method,
        spec_record_successes(s, method, n).consec(method) >= SUCCESS_THRESHOLD,
{
    let before = spec_record_successes(s, method, (n - 1) as nat);
    let after = spec_record_successes(s, method, n);
    lemma_streak_counters(s, method, (n - 1) as nat);
    lemma_streak_counters(s, method, n);
    assert(after == before.spec_record(method, true));
    assert(after.consec(method) >= SUCCESS_THRESHOLD);
    match method {
        CaptureMethod::Optimized => {
            assert(after.consec(CaptureMethod::Optimized) == after.consec_optimized);
        },
        CaptureMethod::Standard => {
            assert(before.consec(CaptureMethod::Optimized) == s.consec(CaptureMethod::Optimized));
            assert(after.consec(CaptureMethod::Standard) == after.consec_standard);
            assert(after.consec_optimized == before.consec_optimized);
            assert(s.consec(CaptureMethod::Optimized) < SUCCESS_THRESHOLD);
        },
        CaptureMethod::Alternative => {
            assert(before.consec(CaptureMethod::Optimized) == s.consec(CaptureMethod::Optimized));
            assert(before.consec(CaptureMethod::Standard) == s.consec(CaptureMethod::Standard));
            assert(after.consec(CaptureMethod::Alternative) == after.consec_alternative);
            assert(after.consec_optimized == before.consec_optimized);
            assert(after.consec_standard == before.consec_standard);
            assert(s.consec(CaptureMethod::Optimized) < SUCCESS_THRESHOLD);
            assert(s.consec(CaptureMethod::Standard) < SUCCESS_THRESHOLD);
        },
    }
}

} // verus!
