//! Exact rational numbers: a ghost model (`Rat`) for contracts, an
//! executable carrier (`Frac`) for emitted coordinates, and the ordering
//! lemmas the layout decision rests on.

use vstd::prelude::*;

verus! {

/// A rational number in specification space, valued `num / den`.
pub ghost struct Rat {
    pub num: int,
    pub den: int,
}

/// Builds a specification rational from a numerator and a denominator.
pub open spec fn rat(num: int, den: int) -> Rat {
    Rat { num, den }
}

/// A rational is well formed when its denominator is positive.
pub open spec fn rat_wf(a: Rat) -> bool {
    a.den > 0
}

/// `a <= b` by cross-multiplication; meaningful when both are well formed.
pub open spec fn rat_le(a: Rat, b: Rat) -> bool {
    a.num * b.den <= b.num * a.den
}

/// `a < b` by cross-multiplication; meaningful when both are well formed.
pub open spec fn rat_lt(a: Rat, b: Rat) -> bool {
    a.num * b.den < b.num * a.den
}

/// `a == b` as values, by cross-multiplication.
pub open spec fn rat_eq(a: Rat, b: Rat) -> bool {
    a.num * b.den == b.num * a.den
}

/// An exact rational carried at run time; the denominator is positive.
#[derive(Clone, Copy, Debug)]
pub struct Frac {
    pub num: i64,
    pub den: u64,
}

impl View for Frac {
    type V = Rat;

    open spec fn view(&self) -> Rat {
        Rat { num: self.num as int, den: self.den as int }
    }
}

impl Frac {
    /// Well-formedness of a run-time rational.
    pub open spec fn wf(self) -> bool {
        self.den > 0
    }
}

/// A product of values in known non-negative ranges stays in range.
pub proof fn lemma_mul_le(a: int, b: int, x: int, y: int)
    by (nonlinear_arith)
    requires
        0 <= a <= x,
        0 <= b <= y,
    ensures
        0 <= a * b,
        a * b <= x * y,
{
}

/// Products with the literal parts of the rationals 0/1 and 1/1.
pub proof fn lemma_unit_products(n: int, d: int)
    by (nonlinear_arith)
    ensures
        0 * d == 0,
        n * 1 == n,
        1 * d == d,
{
}

/// A rational with a non-negative numerator is at least zero.
pub proof fn lemma_rat_nonneg(a: Rat)
    requires
        0 <= a.num,
    ensures
        rat_le(rat(0, 1), a),
{
    lemma_unit_products(a.num, a.den);
}

/// A rational whose numerator is at most its denominator is at most one.
pub proof fn lemma_rat_le_one(a: Rat)
    requires
        a.num <= a.den,
    ensures
        rat_le(a, rat(1, 1)),
{
    lemma_unit_products(a.num, a.den);
}

/// Transitivity of the cross-multiplied `<=`, on raw parts.
pub proof fn lemma_le_trans_cross(an: int, ad: int, bn: int, bd: int, cn: int, cd: int)
    by (nonlinear_arith)
    requires
        ad > 0,
        bd > 0,
        cd > 0,
        an * bd <= bn * ad,
        bn * cd <= cn * bd,
    ensures
        an * cd <= cn * ad,
{
}

/// Transitivity of `<=` on rationals.
pub proof fn lemma_rat_le_trans(a: Rat, b: Rat, c: Rat)
    requires
        rat_wf(a),
        rat_wf(b),
        rat_wf(c),
        rat_le(a, b),
        rat_le(b, c),
    ensures
        rat_le(a, c),
{
    lemma_le_trans_cross(a.num, a.den, b.num, b.den, c.num, c.den);
}

/// Compares two non-negative rationals whose parts are small enough that the
/// cross products fit in 64 bits.
pub(crate) fn scale_le(an: u64, ad: u64, bn: u64, bd: u64) -> (r: bool)
    requires
        0 < ad <= 0x1000_0000,
        0 < bd <= 0x1000_0000,
        an <= 0x1_0000_0000,
        bn <= 0x1_0000_0000,
    ensures
        r == rat_le(rat(an as int, ad as int), rat(bn as int, bd as int)),
{
    proof {
        lemma_mul_le(an as int, bd as int, 0x1_0000_0000, 0x1000_0000);
        lemma_mul_le(bn as int, ad as int, 0x1_0000_0000, 0x1000_0000);
    }
    an * bd <= bn * ad
}

/// Strict variant of `scale_le`.
pub(crate) fn scale_lt(an: u64, ad: u64, bn: u64, bd: u64) -> (r: bool)
    requires
        0 < ad <= 0x1000_0000,
        0 < bd <= 0x1000_0000,
        an <= 0x1_0000_0000,
        bn <= 0x1_0000_0000,
    ensures
        r == rat_lt(rat(an as int, ad as int), rat(bn as int, bd as int)),
{
    proof {
        lemma_mul_le(an as int, bd as int, 0x1_0000_0000, 0x1000_0000);
        lemma_mul_le(bn as int, ad as int, 0x1_0000_0000, 0x1000_0000);
    }
    an * bd < bn * ad
}

} // verus!
