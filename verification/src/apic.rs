//! The local APIC timer's calibration arithmetic: turning counted ticks over
//! a measured interval into an effective frequency, and the initial count
//! for a desired tick rate. The register writes themselves belong to the
//! unverifiable hardware layer.

use vstd::prelude::*;

verus! {

/// How many values of the sequence are at least `v` (with `ge`) or at most
/// `v` (without).
pub open spec fn num_sat(s: Seq<u32>, v: u32, ge: bool) -> int
    decreases s.len(),
{
    if s.len() == 0 {
        0int
    } else {
        num_sat(s.drop_last(), v, ge) + if (ge && s.last() >= v) || (!ge && s.last() <= v) {
            1int
        } else {
            0int
        }
    }
}

/// Removing one value lowers the count by exactly that value's own
/// contribution.
proof fn lemma_num_sat_remove(s: Seq<u32>, k: int, v: u32, ge: bool)
    requires
        0 <= k < s.len(),
    ensures
        num_sat(s, v, ge) == num_sat(s.remove(k), v, ge) + if (ge && s[k] >= v) || (!ge && s[k]
            <= v) {
            1int
        } else {
            0int
        },
    decreases s.len(),
{
    if k == s.len() - 1 {
        assert(s.remove(k) =~= s.drop_last());
    } else {
        let t = s.drop_last();
        assert(s.remove(k).drop_last() =~= t.remove(k));
        assert(s.remove(k).last() == s.last());
        lemma_num_sat_remove(t, k, v, ge);
    }
}

/// Sequences with the same multiset of values count alike.
proof fn lemma_num_sat_permutation(s1: Seq<u32>, s2: Seq<u32>, v: u32, ge: bool)
    requires
        s1.to_multiset() == s2.to_multiset(),
    ensures
        num_sat(s1, v, ge) == num_sat(s2, v, ge),
    decreases s1.len(),
{
    s1.to_multiset_ensures();
    s2.to_multiset_ensures();
    if s1.len() == 0 {
        assert(s2.len() == 0);
    } else {
        let x = s1.last();
        let t1 = s1.drop_last();
        assert(s1.remove(s1.len() - 1) =~= t1);
        assert(t1.to_multiset() =~= s1.to_multiset().remove(x));
        assert(s1.contains(x)) by {
            assert(s1[s1.len() - 1] == x);
        }
        assert(s2.to_multiset().count(x) > 0);
        let k = choose|k: int| 0 <= k < s2.len() && s2[k] == x;
        assert(s2.remove(k).to_multiset() =~= s2.to_multiset().remove(x));
        lemma_num_sat_permutation(t1, s2.remove(k), v, ge);
        lemma_num_sat_remove(s2, k, v, ge);
    }
}

/// Errors raised by the APIC timer.
#[derive(Debug, Clone, Copy, PartialEq, Eq, Structural)]
pub enum ApicError {
    /// The timer has not been calibrated yet.
    NotCalibrated,
    /// Calibration measured nothing.
    CalibrationFailed,
    /// The controller could not be initialised.
    InitFailed,
    /// A zero tick rate was asked for.
    InvalidFrequency,
}

/// The interrupt vector the calibrated timer fires on.
pub const TIMER_INTERRUPT_VECTOR: u8 = 32;

/// The APIC timer's calibration state.
#[derive(Debug, Clone, Copy, PartialEq, Eq, Structural)]
pub struct ApicTimer {
    /// Effective timer frequency in Hz; zero before calibration.
    pub calibrated_hz: u32,
}

impl ApicTimer {
    /// An uncalibrated timer.
    pub fn new() -> (r: Self)
        ensures
            r.calibrated_hz == 0,
    {
        Self { calibrated_hz: 0 }
    }

    /// The effective frequency a measurement gives: the ticks the counter
    /// consumed over `interval_ms` milliseconds, scaled to one second.
    pub open spec fn spec_effective_hz(ticks_consumed: u32, interval_ms: u32) -> int {
        ticks_consumed * (1000 as int / interval_ms as int)
    }

    /// Record a calibration run against a reference clock: the counter
    /// consumed `ticks_consumed` ticks over `interval_ms` milliseconds.
    /// Fails with `CalibrationFailed` exactly when the effective frequency
    /// comes out zero.
    pub fn calibrate_timer(&mut self, ticks_consumed: u32, interval_ms: u32) -> (r: Result<
        (),
        ApicError,
    >)
        requires
            0 < interval_ms <= 1000,
            ticks_consumed * (1000 as int / interval_ms as int) <= u32::MAX,
        ensures
            Self::spec_effective_hz(ticks_consumed, interval_ms) == 0 ==> r == Err::<(), ApicError>(
                ApicError::CalibrationFailed,
            ) && final (self).calibrated_hz == 0,
            Self::spec_effective_hz(ticks_consumed, interval_ms) > 0 ==> r == Ok::<(), ApicError>(())
                && final (self).calibrated_hz == Self::spec_effective_hz(
                ticks_consumed,
                interval_ms,
            ),
    {
        proof {
            assert(ticks_consumed * (1000 as int / interval_ms as int) >= 0) by (nonlinear_arith)
                requires
                    interval_ms > 0,
            ;
        }
        let scale = 1000 / interval_ms;
        let hz = ticks_consumed * scale;
        self.calibrated_hz = hz;
        if hz == 0 {
            return Err(ApicError::CalibrationFailed);
        }
        Ok(())
    }

    /// The middle of five calibration samples, as the PIT-based fallback
    /// uses: sort, then take the median, discarding outliers. The result is
    /// one of the samples, with at least three samples at or below it and at
    /// least three at or above it.
    pub fn median_of_samples(samples: &Vec<u32>) -> (r: u32)
        requires
            samples@.len() == 5,
        ensures
            exists|i: int| 0 <= i < 5 && r == samples@[i],
            num_sat(samples@, r, false) >= 3,
            num_sat(samples@, r, true) >= 3,
    {
        let mut sorted: Vec<u32> = Vec::new();
        let mut i: usize = 0;
        proof {
            assert(samples@.take(0) =~= Seq::<u32>::empty());
            assert(sorted@.to_multiset() =~= samples@.take(0).to_multiset());
        }
        while i < 5
            invariant
                samples@.len() == 5,
                i <= 5,
                sorted@.len() == i,
                sorted@.to_multiset() == samples@.take(i as int).to_multiset(),
                forall|a: int, b: int| 0 <= a < b < i ==> sorted@[a] <= sorted@[b],
                forall|j: int|
                    0 <= j < i ==> exists|k: int| 0 <= k < 5 && #[trigger] sorted@[j] == samples@[k],
            decreases 5 - i,
        {
            // Insertion sort into the scratch list.
            let v = samples[i];
            let ghost entry = sorted@;
            let mut pos: usize = 0;
            while pos < sorted.len() && sorted[pos] <= v
                invariant
                    sorted@ == entry,
                    pos <= sorted@.len(),
                    forall|j: int| 0 <= j < pos ==> sorted@[j] <= v,
                decreases sorted@.len() - pos,
            {
                pos = pos + 1;
            }
            let ghost before = sorted@;
            sorted.insert(pos, v);
            proof {
                assert(sorted@[pos as int] == v);
                assert(sorted@.remove(pos as int) =~= before);
                before.to_multiset_ensures();
                sorted@.to_multiset_ensures();
                assert(sorted@.to_multiset().remove(v) =~= before.to_multiset());
                assert(sorted@.contains(v));
                assert(sorted@.to_multiset() =~= before.to_multiset().insert(v));
                assert(samples@.take(i + 1) =~= samples@.take(i as int).push(samples@[i as int]));
                samples@.take(i as int).to_multiset_ensures();
                assert forall|a: int, b: int| 0 <= a < b < sorted@.len() implies sorted@[a]
                    <= sorted@[b] by {
                    if b < pos {
                        assert(sorted@[a] == before[a] && sorted@[b] == before[b]);
                    } else if a > pos {
                        assert(sorted@[a] == before[a - 1] && sorted@[b] == before[b - 1]);
                    } else if a < pos && b == pos {
                        assert(sorted@[a] == before[a]);
                    } else if a == pos {
                        assert(sorted@[b] == before[b - 1] && !(before[b - 1] <= v));
                    } else {
                        assert(sorted@[a] == before[a] && sorted@[b] == before[b - 1] && !(
                        before[b - 1] <= v));
                    }
                }
                assert forall|j: int|
                    0 <= j < sorted@.len() implies exists|k: int|
                    0 <= k < 5 && #[trigger] sorted@[j] == samples@[k] by {
                    if j < pos {
                        assert(sorted@[j] == before[j]);
                    } else if j > pos {
                        assert(sorted@[j] == before[j - 1]);
                    } else {
                        assert(sorted@[j] == samples@[i as int]);
                    }
                }
            }
            i = i + 1;
        }
        let r = sorted[2];
        proof {
            assert(samples@.take(5) =~= samples@);
            lemma_num_sat_permutation(sorted@, samples@, r, false);
            lemma_num_sat_permutation(sorted@, samples@, r, true);
            reveal_with_fuel(num_sat, 6);
            assert(sorted@.drop_last().drop_last() =~= sorted@.take(3));
            assert(num_sat(sorted@, r, false) >= 3);
            assert(num_sat(sorted@, r, true) >= 3);
        }
        r
    }

    /// The initial-count register value for a desired tick rate: the
    /// calibrated frequency divided by it. Fails with `InvalidFrequency` on
    /// a zero rate and with `NotCalibrated` before calibration.
    pub fn init_timer(&self, frequency_hz: u32) -> (r: Result<u32, ApicError>)
        ensures
            frequency_hz == 0 ==> r == Err::<u32, ApicError>(ApicError::InvalidFrequency),
            frequency_hz > 0 && self.calibrated_hz == 0 ==> r == Err::<u32, ApicError>(
                ApicError::NotCalibrated,
            ),
            frequency_hz > 0 && self.calibrated_hz > 0 ==> r == Ok::<u32, ApicError>(
                (self.calibrated_hz / frequency_hz) as u32,
            ),
    {
        if frequency_hz == 0 {
            return Err(ApicError::InvalidFrequency);
        }
        if self.calibrated_hz == 0 {
            return Err(ApicError::NotCalibrated);
        }
        Ok(self.calibrated_hz / frequency_hz)
    }
}

} // verus!
