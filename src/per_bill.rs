//! Exact fractions in parts per billion.

use vstd::prelude::*;

verus! {

/// The number of parts that make up one whole.
pub const ACCURACY: u32 = 1_000_000_000;

/// Relies on `sp_arithmetic::Perbill::from_percent`: `min(x, 100)` hundredths of a whole.
#[verifier::external_body]
fn parts_from_percent(x: u32) -> (r: u32)
    ensures
        r == (if x <= 100 { x } else { 100 }) * 10_000_000,
{
    sp_arithmetic::Perbill::from_percent(x).deconstruct()
}

/// Relies on `sp_arithmetic::Perbill::from_parts`: the parts, clamped to one whole.
#[verifier::external_body]
fn parts_from_parts(x: u32) -> (r: u32)
    ensures
        r == (if x <= ACCURACY { x } else { ACCURACY }),
{
    sp_arithmetic::Perbill::from_parts(x).deconstruct()
}

/// Relies on `CheckedAdd for sp_arithmetic::Perbill`: the sum, unless it exceeds one whole.
#[verifier::external_body]
fn parts_checked_add(a: u32, b: u32) -> (r: Option<u32>)
    requires
        a <= ACCURACY,
        b <= ACCURACY,
    ensures
        a + b <= ACCURACY ==> r == Some((a + b) as u32),
        a + b > ACCURACY ==> r is None,
{
    sp_arithmetic::traits::CheckedAdd::checked_add(
        &sp_arithmetic::Perbill::from_parts(a),
        &sp_arithmetic::Perbill::from_parts(b),
    ).map(|p| p.deconstruct())
}

/// Relies on `sp_arithmetic::Perbill::mul_floor`: `floor(parts * b / ACCURACY)`, computed
/// without overflow.
#[verifier::external_body]
fn parts_mul_floor(parts: u32, b: u64) -> (r: u64)
    requires
        parts <= ACCURACY,
    ensures
        r == (parts as int) * (b as int) / (ACCURACY as int),
{
    sp_arithmetic::Perbill::from_parts(parts).mul_floor(b)
}

/// A fraction in the closed range [0, 1], held as a whole number of parts per billion.
#[derive(Clone, Copy, Debug, PartialEq, Eq, Structural)]
pub struct Perbill {
    parts: u32,
}

impl View for Perbill {
    type V = nat;

    /// The number of parts per billion.
    closed spec fn view(&self) -> nat {
        self.parts as nat
    }
}

impl Perbill {
    #[verifier::type_invariant]
    spec fn at_most_one(self) -> bool {
        self.parts <= ACCURACY
    }

    /// `x` percent; a value above 100 counts as 100.
    pub fn from_percent(x: u32) -> (r: Self)
        ensures
            r@ == (if x <= 100 { x } else { 100 }) * 10_000_000,
    {
        Perbill { parts: parts_from_percent(x) }
    }

    /// `x` parts per billion; a value above one whole counts as one whole.
    pub fn from_parts(x: u32) -> (r: Self)
        ensures
            r@ == (if x <= ACCURACY { x } else { ACCURACY }),
    {
        Perbill { parts: parts_from_parts(x) }
    }

    /// The fraction zero.
    pub fn zero() -> (r: Self)
        ensures
            r@ == 0,
    {
        Perbill { parts: 0 }
    }

    /// The whole.
    pub fn one() -> (r: Self)
        ensures
            r@ == ACCURACY,
    {
        Perbill { parts: ACCURACY }
    }

    /// The number of parts per billion.
    pub fn deconstruct(self) -> (r: u32)
        ensures
            r == self@,
            r <= ACCURACY,
    {
        proof {
            use_type_invariant(&self);
        }
        self.parts
    }

    /// The sum of two fractions, or `None` where it exceeds one whole.
    pub fn checked_add(self, other: Self) -> (r: Option<Self>)
        ensures
            self@ + other@ <= ACCURACY ==> r is Some && r->Some_0@ == self@ + other@,
            self@ + other@ > ACCURACY ==> r is None,
    {
        let a = self.deconstruct();
        let b = other.deconstruct();
        match parts_checked_add(a, b) {
            Some(s) => Some(Perbill { parts: s }),
            None => None,
        }
    }

    /// `floor(self * b)`: never more than the exact product.
    pub fn mul_floor(self, b: u64) -> (r: u64)
        ensures
            r == self@ * b / (ACCURACY as int),
            r <= b,
    {
        let p = self.deconstruct();
        let r = parts_mul_floor(p, b);
        proof {
            assert((p as int) * (b as int) <= (ACCURACY as int) * (b as int)) by (nonlinear_arith)
                requires p <= ACCURACY;
            assert((p as int) * (b as int) / (ACCURACY as int) <= b) by (nonlinear_arith)
                requires (p as int) * (b as int) <= (ACCURACY as int) * (b as int), ACCURACY > 0;
        }
        r
    }
}

} // verus!
