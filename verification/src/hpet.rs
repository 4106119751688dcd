//! The HPET time source, modelled over counter values: the monotonic
//! elapsed-time arithmetic and the busy-wait target computation. Reading the
//! hardware counter itself is the unverifiable layer's job; every function
//! here takes the counter value it observed.

use vstd::prelude::*;

verus! {

/// Femtoseconds per second.
pub const FEMTOS_PER_SECOND: u64 = 1_000_000_000_000_000;

/// The HPET state captured at initialisation: the counter period from the
/// capability register and the counter value at the epoch.
#[derive(Debug, Clone, Copy, PartialEq, Eq, Structural)]
pub struct Hpet {
    /// Whether the platform has an HPET at all.
    pub available: bool,
    /// Femtoseconds per counter tick (zero when unavailable).
    pub period_fs: u64,
    /// The counter value when timekeeping began.
    pub start_counter: u64,
}

impl Hpet {
    /// Capture an HPET whose capability register reported `period_fs` and
    /// whose counter read `start_counter` at initialisation.
    pub fn init(period_fs: u64, start_counter: u64) -> (r: Self)
        ensures
            r == (Hpet { available: period_fs > 0, period_fs, start_counter }),
    {
        Self { available: period_fs > 0, period_fs, start_counter }
    }

    /// An absent HPET.
    pub fn none() -> (r: Self)
        ensures
            r == (Hpet { available: false, period_fs: 0, start_counter: 0 }),
    {
        Self { available: false, period_fs: 0, start_counter: 0 }
    }

    /// Whether an HPET was found.
    pub fn is_available(&self) -> (r: bool)
        ensures
            r == self.available,
    {
        self.available
    }

    /// Counter frequency in Hz: `10^15 / period_fs`, zero when unavailable.
    pub fn frequency(&self) -> (r: u64)
        ensures
            self.period_fs > 0 ==> r == FEMTOS_PER_SECOND as int / self.period_fs as int,
            self.period_fs == 0 ==> r == 0,
    {
        if self.period_fs > 0 {
            FEMTOS_PER_SECOND / self.period_fs
        } else {
            0
        }
    }

    /// Counter ticks that make up `ns` nanoseconds: the busy-wait target of
    /// a delay. Zero when the HPET is unavailable.
    pub fn delay_ns(&self, ns: u64) -> (r: u64)
        requires
            ns * 1_000_000 <= u64::MAX,
        ensures
            self.available && self.period_fs > 0 ==> r == (ns * 1_000_000) as u64 as int
                / self.period_fs as int,
            !(self.available && self.period_fs > 0) ==> r == 0,
    {
        if !self.available || self.period_fs == 0 {
            return 0;
        }
        (ns * 1_000_000) / self.period_fs
    }

    /// Counter ticks that make up `us` microseconds.
    pub fn delay_us(&self, us: u64) -> (r: u64)
        requires
            us * 1_000_000_000 <= u64::MAX,
        ensures
            self.available && self.period_fs > 0 ==> r == (us * 1_000 * 1_000_000) as u64 as int
                / self.period_fs as int,
            !(self.available && self.period_fs > 0) ==> r == 0,
    {
        self.delay_ns(us * 1_000)
    }

    /// Counter ticks that make up `ms` milliseconds.
    pub fn delay_ms(&self, ms: u64) -> (r: u64)
        requires
            ms * 1_000_000_000_000 <= u64::MAX,
        ensures
            self.available && self.period_fs > 0 ==> r == (ms * 1_000_000 * 1_000_000) as u64 as int
                / self.period_fs as int,
            !(self.available && self.period_fs > 0) ==> r == 0,
    {
        proof {
            assert(ms * 1_000_000 * 1_000_000 == ms * 1_000_000_000_000) by (nonlinear_arith);
        }
        self.delay_ns(ms * 1_000_000)
    }

    /// Counter ticks since the epoch, given the counter value read now; the
    /// counter may have wrapped once.
    pub fn elapsed_counts(&self, current_counter: u64) -> (r: u64)
        ensures
            r == (current_counter - self.start_counter) % 0x1_0000_0000_0000_0000,
    {
        current_counter.wrapping_sub(self.start_counter)
    }

    /// Nanoseconds since the epoch, given the counter value read now.
    ///
    /// Computed as `(counts / 10^6) * period + (counts % 10^6) * period / 10^6`
    /// so the femtosecond product cannot overflow; the result equals
    /// `counts * period_fs / 10^6` exactly.
    pub fn elapsed_ns(&self, current_counter: u64) -> (r: u64)
        requires
            self.period_fs <= 100_000_000,
            ((current_counter - self.start_counter) % 0x1_0000_0000_0000_0000) / 1_000_000
                * self.period_fs <= u64::MAX - 100_000_000,
        ensures
            !(self.available && self.period_fs > 0) ==> r == 0,
            self.available && self.period_fs > 0 ==> r == ((current_counter - self.start_counter)
                % 0x1_0000_0000_0000_0000) * self.period_fs / 1_000_000,
    {
        if !self.available || self.period_fs == 0 {
            return 0;
        }
        let counts = self.elapsed_counts(current_counter);
        let whole = (counts / 1_000_000) * self.period_fs;
        proof {
            vstd::arithmetic::div_mod::lemma_mod_bound(counts as int, 1_000_000);
            assert((counts % 1_000_000) * self.period_fs <= 1_000_000 * 100_000_000)
                by (nonlinear_arith)
                requires
                    counts % 1_000_000 < 1_000_000,
                    self.period_fs <= 100_000_000,
            ;
        }
        let part = (counts % 1_000_000) * self.period_fs / 1_000_000;
        proof {
            lemma_split_scaled_division(counts as int, self.period_fs as int);
            vstd::arithmetic::div_mod::lemma_mod_bound(counts as int, 1_000_000);
            assert((counts % 1_000_000) * self.period_fs <= 1_000_000 * 100_000_000)
                by (nonlinear_arith)
                requires
                    counts % 1_000_000 < 1_000_000,
                    self.period_fs <= 100_000_000,
            ;
            assert(part <= 100_000_000) by (nonlinear_arith)
                requires
                    part == ((counts % 1_000_000) * self.period_fs) as u64 as int / 1_000_000,
                    (counts % 1_000_000) * self.period_fs <= 1_000_000 * 100_000_000,
            ;
        }
        whole + part
    }

    /// Microseconds since the epoch.
    pub fn elapsed_us(&self, current_counter: u64) -> (r: u64)
        requires
            self.period_fs <= 100_000_000,
            ((current_counter - self.start_counter) % 0x1_0000_0000_0000_0000) / 1_000_000
                * self.period_fs <= u64::MAX - 100_000_000,
        ensures
            !(self.available && self.period_fs > 0) ==> r == 0,
            self.available && self.period_fs > 0 ==> r == ((current_counter - self.start_counter)
                % 0x1_0000_0000_0000_0000) * self.period_fs / 1_000_000 / 1_000,
    {
        self.elapsed_ns(current_counter) / 1_000
    }

    /// Milliseconds since the epoch.
    pub fn elapsed_ms(&self, current_counter: u64) -> (r: u64)
        requires
            self.period_fs <= 100_000_000,
            ((current_counter - self.start_counter) % 0x1_0000_0000_0000_0000) / 1_000_000
                * self.period_fs <= u64::MAX - 100_000_000,
        ensures
            !(self.available && self.period_fs > 0) ==> r == 0,
            self.available && self.period_fs > 0 ==> r == ((current_counter - self.start_counter)
                % 0x1_0000_0000_0000_0000) * self.period_fs / 1_000_000 / 1_000_000,
    {
        self.elapsed_ns(current_counter) / 1_000_000
    }

    /// Whole seconds since the epoch.
    pub fn elapsed_secs(&self, current_counter: u64) -> (r: u64)
        requires
            self.period_fs <= 100_000_000,
            ((current_counter - self.start_counter) % 0x1_0000_0000_0000_0000) / 1_000_000
                * self.period_fs <= u64::MAX - 100_000_000,
        ensures
            !(self.available && self.period_fs > 0) ==> r == 0,
            self.available && self.period_fs > 0 ==> r == ((current_counter - self.start_counter)
                % 0x1_0000_0000_0000_0000) * self.period_fs / 1_000_000 / 1_000_000_000,
    {
        self.elapsed_ns(current_counter) / 1_000_000_000
    }
}

/// Splitting `counts` at one million before scaling by the period computes
/// exactly `counts * period / 10^6`.
proof fn lemma_split_scaled_division(counts: int, period: int)
    requires
        counts >= 0,
        period >= 1,
    ensures
        (counts / 1_000_000) * period + (counts % 1_000_000) * period / 1_000_000 == counts
            * period / 1_000_000,
{
    let q = counts / 1_000_000;
    let r = counts % 1_000_000;
    vstd::arithmetic::div_mod::lemma_fundamental_div_mod(counts, 1_000_000);
    vstd::arithmetic::div_mod::lemma_mod_bound(counts, 1_000_000);
    assert(counts * period == (q * period) * 1_000_000 + r * period) by (nonlinear_arith)
        requires
            counts == 1_000_000 * q + r,
    ;
    vstd::arithmetic::div_mod::lemma_hoist_over_denominator(r * period, q * period, 1_000_000);
}

} // verus!
