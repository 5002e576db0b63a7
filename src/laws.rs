//! Properties of the filters that hold over all inputs or over runs of calls.
use vstd::prelude::*;
use vstd::arithmetic::power2::{lemma2_to64, lemma_pow2_pos, lemma_pow2_strictly_increases, pow2};

use crate::coefficient::FULL_SCALE;
use crate::high_pass::high_pass_output;
use crate::low_pass::{low_pass_step, FilterState};
use crate::normalized::{
    aligned_term, lemma_bit_width_bounds, bit_width, operand_shift, NormalizedState, UNITY,
};

verus! {

/// The state after feeding the samples of `inputs`, in order.
pub open spec fn run(s: FilterState, inputs: Seq<int>) -> FilterState
    decreases inputs.len(),
{
    if inputs.len() == 0 {
        s
    } else {
        run(s, inputs.drop_last()).after(inputs.last())
    }
}

/// The state after feeding the sample `v` `n` times.
pub open spec fn run_constant(s: FilterState, v: int, n: nat) -> FilterState
    decreases n,
{
    if n == 0 {
        s
    } else {
        run_constant(s, v, (n - 1) as nat).after(v)
    }
}

/// On a constant input `v`, one update moves the output toward `v`.
///
/// Because the two weights sum to one less than full scale, the output settles
/// at or below `alpha * v / (alpha + 1)`. Below that level, which a filter
/// at zero starts in, the output never decreases and never passes it, and it
/// rises strictly while at least `FULL_SCALE / (alpha + 1)` below it. Above
/// `v` the output falls strictly at every step.
pub proof fn lemma_constant_input_step(s: FilterState, v: int)
    requires
        s.wf(),
        0 <= v <= u16::MAX,
    ensures
        (s.alpha + 1) * s.last_output <= s.alpha * v ==> {
            &&& s.last_output <= s.next_output(v) <= v
            &&& (s.alpha + 1) * s.next_output(v) <= s.alpha * v
        },
        (s.alpha + 1) * s.last_output + FULL_SCALE <= s.alpha * v ==> s.last_output
            < s.next_output(v),
        v < s.last_output ==> s.next_output(v) < s.last_output,
        s.after(v).wf(),
{
    let (a, b, y) = (s.alpha, s.one_minus_alpha, s.last_output);
    let n = s.next_output(v);
    assert(n == (a * v + b * y) / 128);
    assert(0 <= n <= u16::MAX) by (nonlinear_arith)
        requires
            n == (a * v + b * y) / 128,
            1 <= a,
            0 <= b,
            a + b == 127,
            0 <= v <= 65535,
            0 <= y <= 65535,
    ;
    if (a + 1) * y <= a * v {
        assert(y <= n && n <= v && (a + 1) * n <= a * v) by (nonlinear_arith)
            requires
                n == (a * v + b * y) / 128,
                1 <= a,
                0 <= b,
                a + b == 127,
                0 <= v,
                0 <= y,
                (a + 1) * y <= a * v,
        ;
    }
    if (a + 1) * y + 128 <= a * v {
        assert(y < n) by (nonlinear_arith)
            requires
                n == (a * v + b * y) / 128,
                a + b == 127,
                (a + 1) * y + 128 <= a * v,
        ;
    }
    if v < y {
        assert(n < y) by (nonlinear_arith)
            requires
                n == (a * v + b * y) / 128,
                1 <= a,
                0 <= b,
                a + b == 127,
                0 <= v < y,
        ;
    }
}

/// Started at zero, a filter fed a constant `v` gives a non-decreasing
/// sequence of outputs, none above `v`.
pub proof fn lemma_constant_input_from_zero(s: FilterState, v: int, n: nat)
    requires
        s.wf(),
        s.last_output == 0,
        0 <= v <= u16::MAX,
    ensures
        run_constant(s, v, n).wf(),
        run_constant(s, v, n).last_output <= run_constant(s, v, n + 1).last_output <= v,
{
    lemma_rising_region(s, v, n);
    lemma_constant_input_step(run_constant(s, v, n), v);
}

/// Started at zero on a constant input, the state stays below the level at
/// which the output settles.
proof fn lemma_rising_region(s: FilterState, v: int, n: nat)
    requires
        s.wf(),
        s.last_output == 0,
        0 <= v <= u16::MAX,
    ensures
        run_constant(s, v, n).wf(),
        run_constant(s, v, n).alpha == s.alpha,
        (s.alpha + 1) * run_constant(s, v, n).last_output <= s.alpha * v,
    decreases n,
{
    if n == 0 {
        assert((s.alpha + 1) * s.last_output <= s.alpha * v) by (nonlinear_arith)
            requires
                s.last_output == 0,
                s.alpha >= 1,
                v >= 0,
        ;
    } else {
        lemma_rising_region(s, v, (n - 1) as nat);
        lemma_constant_input_step(run_constant(s, v, (n - 1) as nat), v);
    }
}

/// No output exceeds the largest of the samples fed so far and the state
/// the filter started from.
pub proof fn lemma_output_bounded_above(s: FilterState, inputs: Seq<int>, m: int)
    requires
        s.wf(),
        s.last_output <= m,
        forall|i: int| 0 <= i < inputs.len() ==> 0 <= #[trigger] inputs[i] <= m,
        forall|i: int| 0 <= i < inputs.len() ==> #[trigger] inputs[i] <= u16::MAX,
    ensures
        run(s, inputs).wf(),
        run(s, inputs).last_output <= m,
    decreases inputs.len(),
{
    if inputs.len() > 0 {
        let rest = inputs.drop_last();
        assert forall|i: int| 0 <= i < rest.len() implies 0 <= #[trigger] rest[i] <= m && rest[i]
            <= u16::MAX by {
            assert(rest[i] == inputs[i]);
        }
        lemma_output_bounded_above(s, rest, m);
        let p = run(s, rest);
        let (a, b, y, v) = (p.alpha, p.one_minus_alpha, p.last_output, inputs.last());
        lemma_weighted_mean_le(a, b, v, y, m);
        lemma_weighted_mean_le(a, b, v, y, u16::MAX as int);
    }
}

/// A truncated weighted mean of two values at most `m` is at most `m`.
proof fn lemma_weighted_mean_le(a: int, b: int, v: int, y: int, m: int)
    requires
        0 <= a,
        0 <= b,
        a + b == FULL_SCALE - 1,
        0 <= v <= m,
        0 <= y <= m,
    ensures
        0 <= low_pass_step(a, b, y, v) <= m,
{
    assert(0 <= a * v <= a * m) by (nonlinear_arith)
        requires
            0 <= a,
            0 <= v <= m,
    ;
    assert(0 <= b * y <= b * m) by (nonlinear_arith)
        requires
            0 <= b,
            0 <= y <= m,
    ;
    assert(a * m + b * m == 127 * m) by (nonlinear_arith)
        requires
            a + b == 127,
    ;
    let x = a * v + b * y;
    assert(0 <= x / 128 <= m) by (nonlinear_arith)
        requires
            0 <= x <= 127 * m,
    ;
}

/// The high-pass output and the low-pass output of one sample, from one
/// state, add up to the sample wherever the low-pass output does not exceed
/// it, and to the low-pass output elsewhere.
pub proof fn lemma_high_plus_low(s: FilterState, input: int)
    requires
        s.wf(),
        0 <= input <= u16::MAX,
    ensures
        s.next_output(input) <= input ==> high_pass_output(input, s.next_output(input))
            + s.next_output(input) == input,
        high_pass_output(input, s.next_output(input)) + s.next_output(input) == if s.next_output(
            input,
        ) <= input {
            input
        } else {
            s.next_output(input)
        },
{
}

/// A sample of at most ten bits is not narrowed, and without a coefficient
/// shift its product is the plain product.
proof fn lemma_short_operand(w: nat, x: nat)
    requires
        x < 1024,
    ensures
        operand_shift(x) == 0,
        aligned_term(w, x, 0) == w * x,
{
    lemma2_to64();
    lemma_bit_width_bounds(x);
    if bit_width(x) > 11 {
        lemma_pow2_strictly_increases(10, (bit_width(x) - 1) as nat);
    }
    assert(pow2(0) == 1);
    assert(x / 1 == x);
    assert(w * x * 1 == w * x) by (nonlinear_arith);
}

/// A narrowed product never exceeds the plain product.
proof fn lemma_aligned_term_le(w: nat, x: nat)
    ensures
        aligned_term(w, x, 0) <= w * x,
{
    let d = pow2(operand_shift(x));
    lemma_pow2_pos(operand_shift(x));
    assert(aligned_term(w, x, 0) == w * (x / d) * d);
    assert(w * (x / d) * d <= w * x) by (nonlinear_arith)
        requires
            d > 0,
    ;
}

/// With an unshifted coefficient, an output never exceeds the larger of the
/// sample and the previous output.
pub proof fn lemma_normalized_no_overshoot(s: NormalizedState, input: nat)
    requires
        s.wf(),
        s.alpha_shift == 0,
        input <= u16::MAX,
    ensures
        s.next_output(input) <= if input >= s.last_output {
            input
        } else {
            s.last_output
        },
{
    let (a, y) = (s.alpha, s.last_output);
    let hi = if input >= y { input } else { y };
    lemma_aligned_term_le(a, input);
    lemma_aligned_term_le((UNITY - a) as nat, y);
    let t = aligned_term(a, input, 0) + aligned_term((UNITY - a) as nat, y, 0);
    assert(t / 64 <= hi) by (nonlinear_arith)
        requires
            t <= a * input + (64 - a) * y,
            a < 64,
            input <= hi,
            y <= hi,
    ;
}

/// From a last output at or below a sample `v` of at most ten bits, with an
/// unshifted coefficient, the output does not fall, does not pass `v`, and
/// rises strictly while `alpha * (v - last_output)` reaches `UNITY`; it stays
/// put only once that product is below `UNITY`.
pub proof fn lemma_normalized_step_response(s: NormalizedState, v: nat)
    requires
        s.wf(),
        s.alpha_shift == 0,
        s.last_output <= v < 1024,
    ensures
        s.last_output <= s.next_output(v) <= v,
        s.alpha * (v - s.last_output) >= UNITY ==> s.last_output < s.next_output(v),
        s.next_output(v) == s.last_output ==> s.alpha * (v - s.last_output) < UNITY,
{
    let (a, y) = (s.alpha, s.last_output);
    lemma_short_operand(a, v);
    lemma_short_operand((UNITY - a) as nat, y);
    let t = a * v + (64 - a) * y;
    assert(t / 64 <= v && y <= t / 64 && (a * (v - y) >= 64 ==> y < t / 64)) by (nonlinear_arith)
        requires
            t == a * v + (64 - a) * y,
            a < 64,
            y <= v,
    ;
    assert(t / 64 <= u16::MAX);
}

} // verus!
