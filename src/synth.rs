use crate::arrays::{lemma_roll_concat, roll_vec, rolled};
use vstd::prelude::*;

verus! {

/// One period of a square wave of `len` samples: the first half, rounded up,
/// at `high`, the rest at `low`.
pub open spec fn square_wave<T>(len: nat, high: T, low: T) -> Seq<T> {
    Seq::new(len, |i: int| if i < (len + 1) / 2 { high } else { low })
}

/// Appends one period of a square wave of `len` samples to `period`.
pub fn populate_square_period<T: Copy>(period: &mut Vec<T>, len: usize, high: T, low: T)
    ensures
        final(period)@ == old(period)@ + square_wave(len as nat, high, low),
{
    let high_len = len - len / 2;
    let mut pushed: usize = 0;
    while pushed < len
        invariant
            pushed <= len,
            high_len == (len + 1) / 2,
            period@.len() == old(period)@.len() + pushed,
            forall|i: int| 0 <= i < old(period)@.len() ==> #[trigger] period@[i] == old(period)@[i],
            forall|i: int|
                0 <= i < pushed ==> #[trigger] period@[old(period)@.len() + i] == (if i
                    < high_len {
                    high
                } else {
                    low
                }),
        decreases len - pushed,
    {
        if pushed < high_len {
            period.push(high);
        } else {
            period.push(low);
        }
        pushed = pushed + 1;
    }
    assert(period@ =~= old(period)@ + square_wave(len as nat, high, low)) by {
        assert forall|i: int| 0 <= i < period@.len() implies #[trigger] period@[i] == (old(period)@
            + square_wave(len as nat, high, low))[i] by {
            if i >= old(period)@.len() {
                assert(period@[old(period)@.len() + (i - old(period)@.len())] == period@[i]);
            }
        }
    }
}

/// A sample generator that plays a cached period over and over, remembering
/// where in the period the last request stopped.
pub struct Oscillator<T> {
    period_cache: Vec<T>,
    phase: usize,
}

impl<T: Copy> Oscillator<T> {
    /// The cached period.
    pub closed spec fn period(&self) -> Seq<T> {
        self.period_cache@
    }

    /// The position in the period at which the next sample is read.
    pub closed spec fn phase(&self) -> nat {
        self.phase as nat
    }

    pub open spec fn wf(&self) -> bool {
        &&& self.period().len() >= 1
        &&& self.phase() < self.period().len()
    }

    /// An oscillator over `period_cache`, starting at its first sample.
    pub fn new(period_cache: Vec<T>) -> (osc: Oscillator<T>)
        requires
            period_cache@.len() >= 1,
        ensures
            osc.wf(),
            osc.period() == period_cache@,
            osc.phase() == 0,
    {
        Oscillator { period_cache, phase: 0 }
    }

    /// The next `num` samples, read from the current phase on and wrapping
    /// around the period; the phase then moves on by `num`.
    pub fn get_samples(&mut self, num: usize) -> (samples: Vec<T>)
        requires
            old(self).wf(),
        ensures
            final(self).wf(),
            samples@ == rolled(old(self).period(), old(self).phase() as int, num as nat),
            final(self).period() == old(self).period(),
            final(self).phase() == (old(self).phase() + num) % (old(self).period().len() as int),
    {
        let samples = roll_vec(&self.period_cache, self.phase, num);
        let len = self.period_cache.len();
        let step = num % len;
        proof {
            vstd::arithmetic::div_mod::lemma_add_mod_noop(self.phase as int, num as int, len as int);
            vstd::arithmetic::div_mod::lemma_small_mod(self.phase as nat, len as nat);
        }
        if self.phase >= len - step {
            proof {
                vstd::arithmetic::div_mod::lemma_mod_sub_multiples_vanish(
                    (self.phase + step) as int,
                    len as int,
                );
                vstd::arithmetic::div_mod::lemma_small_mod(
                    (self.phase + step - len) as nat,
                    len as nat,
                );
            }
            self.phase = self.phase - (len - step);
        } else {
            proof {
                vstd::arithmetic::div_mod::lemma_small_mod((self.phase + step) as nat, len as nat);
            }
            self.phase = self.phase + step;
        }
        samples
    }
}

/// Phase continuity: two requests in a row give the same samples as one
/// request for both counts together.
pub proof fn lemma_phase_continuity<T>(period: Seq<T>, phase: nat, n1: nat, n2: nat)
    requires
        period.len() >= 1,
        phase < period.len(),
    ensures
        rolled(period, phase as int, n1) + rolled(
            period,
            ((phase + n1) as int) % (period.len() as int),
            n2,
        ) == rolled(period, phase as int, n1 + n2),
{
    lemma_roll_concat(period, phase as int, n1, n2);
}

} // verus!
