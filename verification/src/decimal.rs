//! Arbitrary-precision decimal values as the canonical rate/size type.
//!
//! A value is held in plain form — a signed mantissa and a base-10 scale —
//! so that the logic around it can be verified. Parsing a decimal string and
//! multiplying two decimals are delegated to the `rust_decimal` crate through
//! trusted wrappers; everything else works on the plain representation.

use vstd::prelude::*;

verus! {

/// Largest mantissa magnitude a decimal may carry: a 96-bit unsigned value.
pub const MAX_MANTISSA: i128 = 0xFFFF_FFFF_FFFF_FFFF_FFFF_FFFF;

/// Largest supported base-10 scale.
pub const MAX_SCALE: u32 = 28;

/// A decimal number `mantissa * 10^(-scale)`.
#[derive(Clone, Copy, Debug, PartialEq, Eq, Structural)]
pub struct Dec {
    pub mantissa: i128,
    pub scale: u32,
}

impl Dec {
    /// The representation invariant: the mantissa fits in 96 bits and the
    /// scale does not exceed the supported maximum.
    pub open spec fn wf(self) -> bool {
        &&& -MAX_MANTISSA <= self.mantissa <= MAX_MANTISSA
        &&& self.scale <= MAX_SCALE
    }
}

/// Well-formedness of an optional decimal.
pub open spec fn opt_dec_wf(o: Option<Dec>) -> bool {
    match o {
        Some(d) => d.wf(),
        None => true,
    }
}

/// The decimal that `rust_decimal` parses out of a string, if any; a
/// function of the characters alone.
pub uninterp spec fn dec_of_str(s: Seq<char>) -> Option<Dec>;

/// Relies on `rust_decimal::Decimal`'s `from_str` (which also accepts
/// scientific notation by falling back to `from_scientific_lossy`), and on
/// its representation: the mantissa of a parsed value fits in 96 bits and
/// its scale is at most 28.
#[verifier::external_body]
pub fn dec_from_str(s: &str) -> (r: Option<Dec>)
    ensures
        r == dec_of_str(s@),
        r matches Some(d) ==> d.wf(),
{
    match s.parse::<rust_decimal::Decimal>() {
        Ok(d) => Some(Dec { mantissa: d.mantissa(), scale: d.scale() }),
        Err(_) => None,
    }
}

/// The product that `rust_decimal` computes for two well-formed decimals
/// (`None` when it overflows); a function of the two operands alone.
pub uninterp spec fn dec_mul_of(a: Dec, b: Dec) -> Option<Dec>;

/// Relies on `rust_decimal::Decimal::checked_mul` and on
/// `Decimal::from_i128_with_scale`, which panics only when the mantissa
/// exceeds 96 bits or the scale exceeds 28 — ruled out by `wf`.
#[verifier::external_body]
pub fn dec_mul(a: Dec, b: Dec) -> (r: Option<Dec>)
    requires
        a.wf(),
        b.wf(),
    ensures
        r == dec_mul_of(a, b),
        r matches Some(d) ==> d.wf(),
{
    let x = rust_decimal::Decimal::from_i128_with_scale(a.mantissa, a.scale);
    let y = rust_decimal::Decimal::from_i128_with_scale(b.mantissa, b.scale);
    match x.checked_mul(y) {
        Some(d) => Some(Dec { mantissa: d.mantissa(), scale: d.scale() }),
        None => None,
    }
}

} // verus!
