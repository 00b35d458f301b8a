use vstd::prelude::*;

verus! {

/// Number of fixed-point units in one whole kilocalorie, serving or kilogram.
///
/// Calories, servings and body metrics are held as integers counted in
/// thousandths, so `2500` servings means two and a half servings.
pub const SCALE: u64 = 1000;

/// Clamps a non-negative quantity to what a `u64` can hold.
pub open spec fn saturate(x: int) -> nat {
    if x > u64::MAX {
        u64::MAX as nat
    } else if x < 0 {
        0
    } else {
        x as nat
    }
}

/// `servings` times `value`, both in thousandths, truncated to thousandths and saturated.
pub open spec fn scaled(servings: nat, value: nat) -> nat {
    saturate((servings as int * value as int) / (SCALE as int))
}

/// Saturating sum of two quantities.
pub open spec fn plus(a: nat, b: nat) -> nat {
    saturate(a as int + b as int)
}

/// Multiplies two fixed-point quantities, saturating at `u64::MAX`.
pub fn mul_scaled(servings: u64, value: u64) -> (r: u64)
    ensures
        r == scaled(servings as nat, value as nat),
{
    let a: u128 = servings as u128;
    let b: u128 = value as u128;
    assert(a * b <= (u64::MAX as int) * (u64::MAX as int)) by (nonlinear_arith)
        requires
            a <= u64::MAX,
            b <= u64::MAX,
    ;
    let p: u128 = a * b;
    let q: u128 = p / (SCALE as u128);
    if q > u64::MAX as u128 {
        u64::MAX
    } else {
        q as u64
    }
}

/// Adds two quantities, saturating at `u64::MAX`.
pub fn add_saturating(a: u64, b: u64) -> (r: u64)
    ensures
        r == plus(a as nat, b as nat),
{
    if a > u64::MAX - b {
        u64::MAX
    } else {
        a + b
    }
}

} // verus!
