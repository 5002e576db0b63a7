//! Fixed-point single-pole smoothing filters on 16-bit unsigned samples:
//! a low-pass filter, a high-pass filter built on it, and a low-pass variant
//! that narrows its operands to keep every product within 16 bits.
pub mod coefficient;
pub mod high_pass;
pub mod laws;
pub mod low_pass;
pub mod normalized;

pub use high_pass::HighPassFilter;
pub use low_pass::LowPassFilter;
pub use normalized::NormalizedLowPassFilter;
