//! Conversion of a free-running cycle counter to milliseconds.
//!
//! The hardware counts core cycles in a 32-bit register that wraps around
//! within seconds. The clock turns differences between two counter readings
//! into milliseconds, and adds them up to a millisecond timestamp that wraps
//! only with its own 32 bits.

use vstd::prelude::*;
use vstd::arithmetic::div_mod::lemma_fundamental_div_mod_converse;
use vstd::arithmetic::div_mod::lemma_fundamental_div_mod;

verus! {

/// Milliseconds per second.
pub const MS_PER_SECOND: u32 = 1000;

/// Lowest core frequency a clock takes: one cycle per millisecond.
pub const MIN_FREQUENCY_HZ: u32 = 1000;

/// Cycles counted from the reading `since` to the reading `now` of a 32-bit
/// counter that wraps around.
pub open spec fn cycles_between(since: u32, now: u32) -> u32 {
    if now >= since {
        (now - since) as u32
    } else {
        (now - since + 0x1_0000_0000) as u32
    }
}

/// Whole milliseconds that `cycles` cycles take at `frequency_hz`.
pub open spec fn cycles_to_ms(frequency_hz: u32, cycles: u32) -> int {
    cycles * MS_PER_SECOND / (frequency_hz as int)
}

/// What a clock holds, as mathematics.
pub struct ClockModel {
    pub frequency_hz: u32,
    /// The counter reading that the timestamp was last brought up to.
    pub last_cycles: u32,
    /// The millisecond timestamp, wrapping with its 32 bits.
    pub millis: u32,
    /// What is left of the cycles counted so far after taking whole
    /// milliseconds, in thousandths of a cycle.
    pub residue: u64,
}

impl ClockModel {
    /// The clock at the moment the counter is started.
    pub open spec fn initial(frequency_hz: u32) -> ClockModel {
        ClockModel { frequency_hz, last_cycles: 0, millis: 0, residue: 0 }
    }

    /// The clock after it was brought up to the counter reading `now`.
    pub open spec fn advanced(self, now: u32) -> ClockModel {
        let scaled = self.residue + cycles_between(self.last_cycles, now) * MS_PER_SECOND;
        ClockModel {
            frequency_hz: self.frequency_hz,
            last_cycles: now,
            millis: ((self.millis + scaled / (self.frequency_hz as int)) % 0x1_0000_0000) as u32,
            residue: (scaled % (self.frequency_hz as int)) as u64,
        }
    }

    /// The clock accounts for exactly `total` cycles since the counter was
    /// started: its timestamp is the whole milliseconds in them, wrapped to
    /// 32 bits, and its residue is what they leave over.
    pub open spec fn accounts_for(self, total: nat) -> bool {
        &&& self.frequency_hz >= MIN_FREQUENCY_HZ
        &&& self.millis == (total * MS_PER_SECOND / (self.frequency_hz as int)) % 0x1_0000_0000
        &&& self.residue == (total * MS_PER_SECOND) % (self.frequency_hz as int)
    }
}

/// Converts readings of the cycle counter to milliseconds, for a core
/// frequency fixed at construction.
pub struct CycleClock {
    frequency_hz: u32,
    last_cycles: u32,
    millis: u32,
    residue: u64,
}

impl View for CycleClock {
    type V = ClockModel;

    closed spec fn view(&self) -> ClockModel {
        ClockModel {
            frequency_hz: self.frequency_hz,
            last_cycles: self.last_cycles,
            millis: self.millis,
            residue: self.residue,
        }
    }
}

impl CycleClock {
    #[verifier::type_invariant]
    spec fn well_formed(self) -> bool {
        self.frequency_hz >= MIN_FREQUENCY_HZ && self.residue < self.frequency_hz
    }

    /// A clock for a core that runs at `frequency_hz`, at the moment the
    /// counter is started.
    pub fn new(frequency_hz: u32) -> (clock: Self)
        requires
            frequency_hz >= MIN_FREQUENCY_HZ,
        ensures
            clock@ == ClockModel::initial(frequency_hz),
    {
        CycleClock { frequency_hz, last_cycles: 0, millis: 0, residue: 0 }
    }

    /// The core frequency the clock was made for.
    pub fn frequency_hz(&self) -> (hz: u32)
        ensures
            hz == self@.frequency_hz,
            hz >= MIN_FREQUENCY_HZ,
    {
        proof {
            use_type_invariant(self);
        }
        self.frequency_hz
    }

    /// Whole milliseconds from the counter reading `since` to the reading
    /// `now`, across a wrap of the counter.
    pub fn elapsed_ms(&self, since: u32, now: u32) -> (ms: u32)
        ensures
            ms == cycles_to_ms(self@.frequency_hz, cycles_between(since, now)),
    {
        proof {
            use_type_invariant(self);
        }
        let cycles: u32 = now.wrapping_sub(since);
        let scaled: u64 = cycles as u64 * MS_PER_SECOND as u64;
        let ms: u64 = scaled / self.frequency_hz as u64;
        assert(ms <= cycles) by (nonlinear_arith)
            requires
                ms == (cycles * 1000) / (self.frequency_hz as int),
                self.frequency_hz >= 1000,
                cycles >= 0,
        ;
        ms as u32
    }

    /// Brings the millisecond timestamp up to the counter reading `now` and
    /// returns it.
    ///
    /// Every cycle since the previous reading is counted, as long as the
    /// counter has wrapped at most once in between; what does not fill a
    /// whole millisecond is carried over to the next call.
    pub fn timestamp_ms(&mut self, now: u32) -> (ms: u32)
        ensures
            final(self)@ == old(self)@.advanced(now),
            ms == final(self)@.millis,
    {
        proof {
            use_type_invariant(&*self);
        }
        let cycles: u32 = now.wrapping_sub(self.last_cycles);
        assert(cycles * MS_PER_SECOND <= 0xffff_ffff * 1000);
        let scaled: u64 = self.residue + cycles as u64 * MS_PER_SECOND as u64;
        let whole: u64 = scaled / self.frequency_hz as u64;
        let sum: u64 = self.millis as u64 + whole;
        self.last_cycles = now;
        self.millis = (sum % 0x1_0000_0000) as u32;
        self.residue = scaled % self.frequency_hz as u64;
        self.millis
    }
}

/// The timestamp loses no cycle: a clock that accounts for `total` cycles
/// and is brought up to a new reading accounts for `total` plus the cycles
/// counted since the previous reading.
pub proof fn lemma_timestamp_counts_every_cycle(clock: ClockModel, total: nat, now: u32)
    requires
        clock.accounts_for(total),
    ensures
        clock.advanced(now).accounts_for(total + cycles_between(clock.last_cycles, now) as nat),
{
    let f = clock.frequency_hz as int;
    let before = total * MS_PER_SECOND;
    let added = cycles_between(clock.last_cycles, now) * MS_PER_SECOND;
    let scaled = clock.residue + added;
    let q = before / f;
    lemma_fundamental_div_mod(before, f);
    lemma_fundamental_div_mod(scaled, f);
    assert(before + added == (q + scaled / f) * f + scaled % f) by (nonlinear_arith)
        requires
            before == f * q + clock.residue,
            scaled == f * (scaled / f) + scaled % f,
            scaled == clock.residue + added,
    ;
    lemma_fundamental_div_mod_converse(before + added, f, q + scaled / f, scaled % f);
    assert((total + cycles_between(clock.last_cycles, now)) * MS_PER_SECOND == before + added)
        by (nonlinear_arith)
        requires
            before == total * MS_PER_SECOND,
            added == cycles_between(clock.last_cycles, now) * MS_PER_SECOND,
    ;
    let m = 0x1_0000_0000int;
    assert((q % m + scaled / f) % m == (q + scaled / f) % m) by {
        vstd::arithmetic::div_mod::lemma_add_mod_noop(q, scaled / f, m);
        vstd::arithmetic::div_mod::lemma_add_mod_noop(q % m, scaled / f, m);
        vstd::arithmetic::div_mod::lemma_mod_twice(q, m);
    }
}

/// A new clock accounts for no cycles.
pub proof fn lemma_new_clock_accounts_for_nothing(frequency_hz: u32)
    requires
        frequency_hz >= MIN_FREQUENCY_HZ,
    ensures
        ClockModel::initial(frequency_hz).accounts_for(0),
{
    let f = frequency_hz as int;
    assert(0int / f == 0 && 0int % f == 0) by (nonlinear_arith)
        requires
            f >= 1000,
    ;
}

} // verus!
