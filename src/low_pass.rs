//! The single-pole low-pass filter (an exponential moving average).
use vstd::prelude::*;

use crate::coefficient::{
    alpha_of, encode_coefficient, one_minus_alpha_of, FULL_SCALE, MAX_ALPHA_RAW, SCALE,
};

verus! {

/// The mathematical state of a filter: its two weights and its last output.
pub ghost struct FilterState {
    pub alpha: int,
    pub one_minus_alpha: int,
    pub last_output: int,
}

impl FilterState {
    /// The weights are those that `encode_coefficient` gives.
    pub open spec fn wf(self) -> bool {
        &&& 1 <= self.alpha < FULL_SCALE
        &&& self.alpha + self.one_minus_alpha == FULL_SCALE - 1
        &&& 0 <= self.last_output <= u16::MAX
    }

    /// The state of a fresh filter built from a raw coefficient.
    pub open spec fn initial(alpha_raw: int) -> FilterState {
        FilterState {
            alpha: alpha_of(alpha_raw),
            one_minus_alpha: one_minus_alpha_of(alpha_raw),
            last_output: 0,
        }
    }

    /// The output that the next sample `input` produces.
    pub open spec fn next_output(self, input: int) -> int {
        low_pass_step(self.alpha, self.one_minus_alpha, self.last_output, input)
    }

    /// The state after processing `input`: same weights, new last output.
    pub open spec fn after(self, input: int) -> FilterState {
        FilterState { last_output: self.next_output(input), ..self }
    }
}

/// One update of the moving average:
/// `(alpha * input + one_minus_alpha * last) / 2^(SCALE + 1)`, truncated.
pub open spec fn low_pass_step(alpha: int, one_minus_alpha: int, last: int, input: int) -> int {
    (alpha * input + one_minus_alpha * last) / (FULL_SCALE as int)
}

/// A single-pole low-pass filter over `u16` samples.
pub struct LowPassFilter {
    alpha: u16,
    one_minus_alpha: u16,
    last_output: u16,
}

impl View for LowPassFilter {
    type V = FilterState;

    closed spec fn view(&self) -> FilterState {
        FilterState {
            alpha: self.alpha as int,
            one_minus_alpha: self.one_minus_alpha as int,
            last_output: self.last_output as int,
        }
    }
}

impl LowPassFilter {
    /// The filter's state is well formed.
    pub open spec fn wf(&self) -> bool {
        self@.wf()
    }

    /// A filter with coefficient `alpha + 1` and a last output of zero.
    pub fn new(alpha: u16) -> (r: Self)
        requires
            alpha <= MAX_ALPHA_RAW,
        ensures
            r.wf(),
            r@ == FilterState::initial(alpha as int),
    {
        let (a, one_minus_a) = encode_coefficient(alpha);
        LowPassFilter { alpha: a, one_minus_alpha: one_minus_a, last_output: 0 }
    }

    /// Feeds one sample; returns the new last output.
    pub fn low_pass(&mut self, input: u16) -> (r: u16)
        requires
            old(self).wf(),
        ensures
            final(self).wf(),
            final(self)@ == old(self)@.after(input as int),
            r as int == old(self)@.next_output(input as int),
    {
        proof {
            let (a, b, x, y) = (
                self.alpha as int,
                self.one_minus_alpha as int,
                input as int,
                self.last_output as int,
            );
            assert(a * x + b * y <= 127 * 65535 && 0 <= a * x && 0 <= b * y) by (nonlinear_arith)
                requires
                    0 <= a,
                    0 <= b,
                    a + b == 127,
                    0 <= x <= 65535,
                    0 <= y <= 65535,
            ;
        }
        let weighted_input: u32 = self.alpha as u32 * input as u32;
        let weighted_last: u32 = self.one_minus_alpha as u32 * self.last_output as u32;
        let sum: u32 = weighted_input + weighted_last;
        assert(sum >> (SCALE + 1) == sum / 128) by (bit_vector);
        self.last_output = (sum >> (SCALE + 1)) as u16;
        self.last_output
    }

    /// Replaces the coefficient as `new` computes it; the last output stays.
    pub fn set_alpha(&mut self, alpha: u16)
        requires
            old(self).wf(),
            alpha <= MAX_ALPHA_RAW,
        ensures
            final(self).wf(),
            final(self)@ == (FilterState {
                last_output: old(self)@.last_output,
                ..FilterState::initial(alpha as int)
            }),
    {
        let (a, one_minus_a) = encode_coefficient(alpha);
        self.alpha = a;
        self.one_minus_alpha = one_minus_a;
    }

    /// Sets the last output to zero; the coefficient stays.
    pub fn reset(&mut self)
        requires
            old(self).wf(),
        ensures
            final(self).wf(),
            final(self)@ == (FilterState { last_output: 0, ..old(self)@ }),
    {
        self.last_output = 0;
    }
}

} // verus!
