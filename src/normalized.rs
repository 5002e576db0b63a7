//! A low-pass filter that narrows its operands before each multiply so that
//! every product of a sample with the coefficient fits in 16 bits.
//!
//! The coefficient is kept to `PRECISION` significant bits. Before the
//! multiply-accumulate, an operand (the sample or the last output) that would
//! push a product past 16 bits is shifted right by just enough bits. After the
//! multiply, each product is shifted back left by its own operand's shift (and
//! by the coefficient's shift), so both products stand at the same binary
//! point before they are summed and scaled down by `2^PRECISION`. Realigning
//! each product by its own shift keeps the output between the two operands
//! (up to the coefficient's gain), where realigning by the sample's shift alone
//! would let the output overshoot a constant input.
use vstd::prelude::*;
use vstd::arithmetic::power2::{lemma2_to64, lemma_pow2_adds, lemma_pow2_pos, lemma_pow2_strictly_increases, pow2};
use vstd::bits::{lemma_u16_shr_is_div, lemma_u64_shl_is_mul};
use vstd::std_specs::bits::{axiom_u16_leading_zeros, u16_leading_zeros};

verus! {

/// Significant bits kept of the coefficient.
pub const PRECISION: u32 = 6;

/// Width of a sample and of a product of narrowed operands.
pub const SAMPLE_BITS: u32 = 16;

/// The coefficient's unit: weights are fractions of `2^PRECISION`.
pub const UNITY: u16 = 64;

/// Position of the highest set bit of `x`, counting from 1; zero for zero.
pub open spec fn bit_width(x: nat) -> nat
    decreases x,
{
    if x == 0 {
        0
    } else {
        1 + bit_width(x / 2)
    }
}

/// How far `x` is shifted right so that only its `keep` highest bits remain.
pub open spec fn excess_bits(x: nat, keep: nat) -> nat {
    if bit_width(x) > keep {
        (bit_width(x) - keep) as nat
    } else {
        0
    }
}

/// The shift applied to a sample or last output before the multiply: the
/// bits by which `PRECISION + bit_width(x)` exceeds `SAMPLE_BITS`.
pub open spec fn operand_shift(x: nat) -> nat {
    excess_bits(x, (SAMPLE_BITS - PRECISION) as nat)
}

/// The shift applied to a raw coefficient to keep `PRECISION` bits of it.
pub open spec fn coefficient_shift(alpha_raw: nat) -> nat {
    excess_bits(alpha_raw, PRECISION as nat)
}

/// `weight` times the narrowed `operand`, shifted back by the operand's own
/// shift and by the coefficient's shift.
pub open spec fn aligned_term(weight: nat, operand: nat, alpha_shift: nat) -> nat {
    weight * (operand / pow2(operand_shift(operand))) * pow2(alpha_shift + operand_shift(operand))
}

/// One update of the filter, saturated to the sample range.
pub open spec fn normalized_step(alpha: nat, alpha_shift: nat, last: nat, input: nat) -> nat {
    let total = (aligned_term(alpha, input, alpha_shift) + aligned_term(
        (UNITY - alpha) as nat,
        last,
        alpha_shift,
    )) / (UNITY as nat);
    if total > u16::MAX {
        u16::MAX as nat
    } else {
        total
    }
}

/// The bit width is characterised by `2^(w - 1) <= x < 2^w`.
pub proof fn lemma_bit_width_bounds(x: nat)
    ensures
        x < pow2(bit_width(x)),
        x > 0 ==> pow2((bit_width(x) - 1) as nat) <= x,
    decreases x,
{
    lemma2_to64();
    if x > 0 {
        lemma_bit_width_bounds(x / 2);
        lemma_pow2_adds((bit_width(x) - 1) as nat, 1);
        if x / 2 > 0 {
            lemma_pow2_adds((bit_width(x / 2) - 1) as nat, 1);
        }
    }
}

/// No width but `bit_width(x)` meets the bounds of `lemma_bit_width_bounds`.
pub proof fn lemma_bit_width_unique(x: nat, w: nat)
    requires
        x < pow2(w),
        w > 0 ==> pow2((w - 1) as nat) <= x,
    ensures
        bit_width(x) == w,
{
    lemma_bit_width_bounds(x);
    let b = bit_width(x);
    if b < w {
        if b <= (w - 1) as nat && b < (w - 1) as nat {
            lemma_pow2_strictly_increases(b, (w - 1) as nat);
        }
    } else if b > w {
        if w < (b - 1) as nat {
            lemma_pow2_strictly_increases(w, (b - 1) as nat);
        }
    }
}

/// `16 - x.leading_zeros()` is the bit width of `x`.
proof fn lemma_leading_zeros_width(x: u16)
    ensures
        16 - u16_leading_zeros(x) == bit_width(x as nat),
{
    broadcast use axiom_u16_leading_zeros;

    lemma2_to64();
    let lz = u16_leading_zeros(x);
    let w = (16 - lz) as nat;
    if lz > 0 {
        let s = (16 - lz) as u16;
        lemma_u16_shr_is_div(x, s);
        lemma_pow2_pos(w);
        assert(x < pow2(w)) by (nonlinear_arith)
            requires
                x as nat / pow2(w) == 0,
                pow2(w) > 0,
        ;
    }
    if lz < 16 {
        let s = (15 - lz) as u16;
        let y = x >> s;
        assert(y & 1u16 != 0u16 ==> y >= 1) by (bit_vector);
        lemma_u16_shr_is_div(x, s);
        lemma_pow2_pos((w - 1) as nat);
        assert(pow2((w - 1) as nat) <= x) by (nonlinear_arith)
            requires
                x as nat / pow2((w - 1) as nat) >= 1,
                pow2((w - 1) as nat) > 0,
        ;
    }
    lemma_bit_width_unique(x as nat, w);
}

/// Shifting out `excess_bits(x, keep)` leaves fewer than `keep` bits.
proof fn lemma_excess_bits(x: nat, keep: nat)
    requires
        keep <= 16,
    ensures
        x / pow2(excess_bits(x, keep)) < pow2(keep),
        x < pow2(16) ==> excess_bits(x, keep) <= 16 - keep,
{
    lemma_bit_width_bounds(x);
    let b = bit_width(x);
    let e = excess_bits(x, keep);
    lemma_pow2_pos(e);
    lemma_pow2_pos(keep);
    if b > keep {
        lemma_pow2_adds(e, keep);
        assert(x / pow2(e) < pow2(keep)) by (nonlinear_arith)
            requires
                x < pow2(e) * pow2(keep),
                pow2(e) > 0,
        ;
    } else {
        if b < keep {
            lemma_pow2_strictly_increases(b, keep);
        }
        assert(x / pow2(0) == x) by {
            lemma2_to64();
        }
    }
    if x < pow2(16) && b > 17 {
        lemma_pow2_strictly_increases(16, (b - 1) as nat);
    }
}

/// The mathematical state of a normalized filter.
pub ghost struct NormalizedState {
    /// The coefficient, kept to `PRECISION` significant bits.
    pub alpha: nat,
    /// The bits dropped from the raw coefficient.
    pub alpha_shift: nat,
    pub last_output: nat,
}

impl NormalizedState {
    pub open spec fn wf(self) -> bool {
        &&& self.alpha < UNITY
        &&& self.alpha_shift <= SAMPLE_BITS - PRECISION
        &&& self.last_output <= u16::MAX
    }

    /// The state of a fresh filter built from a raw coefficient.
    pub open spec fn initial(alpha_raw: nat) -> NormalizedState {
        NormalizedState {
            alpha: alpha_raw / pow2(coefficient_shift(alpha_raw)),
            alpha_shift: coefficient_shift(alpha_raw),
            last_output: 0,
        }
    }

    /// The output that the next sample `input` produces.
    pub open spec fn next_output(self, input: nat) -> nat {
        normalized_step(self.alpha, self.alpha_shift, self.last_output, input)
    }
}

/// A low-pass filter that rescales its operands to keep every product of a
/// sample with the coefficient within 16 bits.
pub struct NormalizedLowPassFilter {
    alpha: u16,
    alpha_shift: u32,
    last_output: u16,
}

impl View for NormalizedLowPassFilter {
    type V = NormalizedState;

    closed spec fn view(&self) -> NormalizedState {
        NormalizedState {
            alpha: self.alpha as nat,
            alpha_shift: self.alpha_shift as nat,
            last_output: self.last_output as nat,
        }
    }
}

/// The bit width of `x`, from its count of leading zeros.
fn bit_width_of(x: u16) -> (r: u32)
    ensures
        r == bit_width(x as nat),
{
    broadcast use axiom_u16_leading_zeros;

    proof {
        lemma_leading_zeros_width(x);
    }
    SAMPLE_BITS - x.leading_zeros()
}

/// The bits to shift `x` right by to keep its `keep` highest bits.
fn excess_bits_of(x: u16, keep: u32) -> (r: u32)
    ensures
        r == excess_bits(x as nat, keep as nat),
{
    let width = bit_width_of(x);
    if width > keep {
        width - keep
    } else {
        0
    }
}

/// `aligned_term(weight, operand, alpha_shift)`, computed on the narrowed
/// operand.
fn aligned_product(weight: u16, operand: u16, alpha_shift: u32) -> (r: u64)
    requires
        weight <= UNITY,
        alpha_shift <= SAMPLE_BITS - PRECISION,
    ensures
        r == aligned_term(weight as nat, operand as nat, alpha_shift as nat),
        r <= 64 * 1023 * 65536,
{
    let shift = excess_bits_of(operand, SAMPLE_BITS - PRECISION);
    proof {
        lemma2_to64();
        lemma_excess_bits(operand as nat, 10);
        lemma_u16_shr_is_div(operand, shift as u16);
    }
    let narrowed: u16 = operand >> (shift as u16);
    assert(weight as u64 * narrowed as u64 <= 64 * 1023) by (nonlinear_arith)
        requires
            weight <= 64,
            narrowed <= 1023,
    ;
    let product: u64 = weight as u64 * narrowed as u64;
    let total_shift: u64 = (alpha_shift + shift) as u64;
    proof {
        if total_shift < 16 {
            lemma_pow2_strictly_increases(total_shift as nat, 16);
        }
        assert(product * pow2(total_shift as nat) <= 64 * 1023 * 65536) by (nonlinear_arith)
            requires
                product == weight * narrowed,
                weight <= 64,
                narrowed <= 1023,
                pow2(total_shift as nat) <= 65536,
        ;
        lemma_u64_shl_is_mul(product, total_shift);
    }
    product << total_shift
}

impl NormalizedLowPassFilter {
    /// The filter's state is well formed.
    pub open spec fn wf(&self) -> bool {
        self@.wf()
    }

    /// A filter whose coefficient keeps the `PRECISION` highest bits of
    /// `alpha`, and whose last output is zero.
    pub fn new(alpha: u16) -> (r: Self)
        ensures
            r.wf(),
            r@ == NormalizedState::initial(alpha as nat),
    {
        let alpha_shift = excess_bits_of(alpha, PRECISION);
        proof {
            lemma2_to64();
            lemma_excess_bits(alpha as nat, PRECISION as nat);
            lemma_u16_shr_is_div(alpha, alpha_shift as u16);
        }
        let kept: u16 = alpha >> (alpha_shift as u16);
        NormalizedLowPassFilter { alpha: kept, alpha_shift, last_output: 0 }
    }

    /// Feeds one sample; returns the new last output.
    pub fn low_pass(&mut self, input: u16) -> (r: u16)
        requires
            old(self).wf(),
        ensures
            final(self).wf(),
            final(self)@ == (NormalizedState {
                last_output: old(self)@.next_output(input as nat),
                ..old(self)@
            }),
            r == final(self)@.last_output,
    {
        let term_input = aligned_product(self.alpha, input, self.alpha_shift);
        let term_last = aligned_product(UNITY - self.alpha, self.last_output, self.alpha_shift);
        let sum: u64 = term_input + term_last;
        assert(sum >> 6u64 == sum / 64) by (bit_vector);
        let total: u64 = sum >> (PRECISION as u64);
        self.last_output = if total > u16::MAX as u64 {
            u16::MAX
        } else {
            total as u16
        };
        self.last_output
    }

    /// Sets the last output to zero; the coefficient stays.
    pub fn reset(&mut self)
        requires
            old(self).wf(),
        ensures
            final(self).wf(),
            final(self)@ == (NormalizedState { last_output: 0, ..old(self)@ }),
    {
        self.last_output = 0;
    }
}

} // verus!
