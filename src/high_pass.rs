//! The single-pole high-pass filter, built on an owned low-pass filter.
//!
//! Its output is the input minus the low-pass output for the same sample,
//! computed without underflow and clamped at zero where the low-pass output
//! lies above the input. The coefficient has the same sense as in the
//! low-pass filter: `set_alpha(a)` and `new(a)` both hand `a` on unchanged.
use vstd::prelude::*;

use crate::coefficient::MAX_ALPHA_RAW;
use crate::low_pass::{FilterState, LowPassFilter};

verus! {

/// The high-pass output for a sample `input` whose low-pass output is `low`.
pub open spec fn high_pass_output(input: int, low: int) -> int {
    if low <= input {
        input - low
    } else {
        0
    }
}

/// A single-pole high-pass filter over `u16` samples.
pub struct HighPassFilter {
    low_pass: LowPassFilter,
}

impl View for HighPassFilter {
    type V = FilterState;

    /// The state of the owned low-pass filter.
    closed spec fn view(&self) -> FilterState {
        self.low_pass@
    }
}

impl HighPassFilter {
    /// The filter's state is well formed.
    pub open spec fn wf(&self) -> bool {
        self@.wf()
    }

    /// A filter whose low-pass part has coefficient `alpha + 1` and a last
    /// output of zero.
    pub fn new(alpha: u16) -> (r: Self)
        requires
            alpha <= MAX_ALPHA_RAW,
        ensures
            r.wf(),
            r@ == FilterState::initial(alpha as int),
    {
        let low_pass = LowPassFilter::new(alpha);
        HighPassFilter { low_pass }
    }

    /// Feeds one sample; returns the input minus the low-pass output, or zero
    /// where the low-pass output is the larger.
    pub fn high_pass(&mut self, input: u16) -> (r: u16)
        requires
            old(self).wf(),
        ensures
            final(self).wf(),
            final(self)@ == old(self)@.after(input as int),
            r as int == high_pass_output(input as int, old(self)@.next_output(input as int)),
    {
        let low = self.low_pass.low_pass(input);
        input.saturating_sub(low)
    }

    /// Replaces the coefficient of the low-pass part; the last output stays.
    pub fn set_alpha(&mut self, alpha: u16)
        requires
            old(self).wf(),
            alpha <= MAX_ALPHA_RAW,
        ensures
            final(self).wf(),
            final(self)@ == (FilterState {
                last_output: old(self)@.last_output,
                ..FilterState::initial(alpha as int)
            }),
    {
        self.low_pass.set_alpha(alpha);
    }

    /// Sets the last output of the low-pass part to zero; the coefficient stays.
    pub fn reset(&mut self)
        requires
            old(self).wf(),
        ensures
            final(self).wf(),
            final(self)@ == (FilterState { last_output: 0, ..old(self)@ }),
    {
        self.low_pass.reset();
    }
}

} // verus!
