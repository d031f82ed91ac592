//! Exact decimal numbers: an integer mantissa over a power of ten.

use rust_decimal::Decimal;
use std::str::FromStr;
use vstd::prelude::*;

verus! {

/// Ten to the power `n`.
pub open spec fn pow10(n: nat) -> int
    decreases n,
{
    if n == 0 {
        1
    } else {
        10 * pow10((n - 1) as nat)
    }
}

/// The decimal number `mantissa / 10^scale`.
///
/// Two coordinates with different fields may stand for the same number
/// (`1.0` and `1.00`): [`Coordinate::same_value`] compares the numbers,
/// `==` compares the fields.
#[derive(Clone, Copy, Debug, PartialEq, Eq, Hash, Structural)]
pub struct Coordinate {
    pub mantissa: i128,
    pub scale: u32,
}

impl Coordinate {
    /// Whether `self` and `other` stand for the same number.
    pub open spec fn same_value(self, other: Coordinate) -> bool {
        self.mantissa * pow10(other.scale as nat) == other.mantissa * pow10(self.scale as nat)
    }

    /// Whether no trailing zero of the fraction is left to strip.
    pub open spec fn is_canonical(self) -> bool {
        self.scale == 0 || self.mantissa % 10 != 0
    }

    /// The representation of the number of `self` with the smallest scale.
    pub open spec fn canonical(self) -> Coordinate
        decreases self.scale,
    {
        if self.scale > 0 && self.mantissa % 10 == 0 {
            (Coordinate {
                mantissa: (self.mantissa / 10) as i128,
                scale: (self.scale - 1) as u32,
            }).canonical()
        } else {
            self
        }
    }

    /// Tells whether `self` and `other` stand for the same number.
    pub fn is_same_value(&self, other: &Coordinate) -> (same: bool)
        ensures
            same == self.same_value(*other),
    {
        proof {
            lemma_same_value_canonical(*self, *other);
        }
        let a = self.normalize();
        let b = other.normalize();
        a.mantissa == b.mantissa && a.scale == b.scale
    }

    /// Strips the trailing zeros of the fraction.
    pub fn normalize(self) -> (r: Coordinate)
        ensures
            r == self.canonical(),
    {
        let mut m: i128 = self.mantissa;
        let mut s: u32 = self.scale;
        while s > 0 && m % 10 == 0
            invariant
                (Coordinate { mantissa: m, scale: s }).canonical() == self.canonical(),
            decreases s,
        {
            m = m / 10;
            s = s - 1;
        }
        Coordinate { mantissa: m, scale: s }
    }
}

/// The number that `rust_decimal` reads from `text`, by its mantissa and
/// scale; `None` where it reads no number.
pub uninterp spec fn decimal_of_text(text: Seq<char>) -> Option<Coordinate>;

/// `Decimal::from_str` on the text that `token` spells, with the number
/// taken apart by `Decimal::mantissa` and `Decimal::scale`. The result
/// depends on the characters alone.
#[verifier::external_body]
pub(crate) fn read_decimal(token: &Vec<char>) -> (r: Option<Coordinate>)
    ensures
        r == decimal_of_text(token@),
{
    let text: String = token.iter().collect();
    match Decimal::from_str(&text) {
        Ok(d) => Some(Coordinate { mantissa: d.mantissa(), scale: d.scale() }),
        Err(_) => None,
    }
}

/// Every power of ten is positive.
pub proof fn lemma_pow10_positive(n: nat)
    ensures
        pow10(n) > 0,
    decreases n,
{
    if n > 0 {
        lemma_pow10_positive((n - 1) as nat);
    }
}

/// Powers of ten multiply by adding their exponents.
pub proof fn lemma_pow10_sum(a: nat, b: nat)
    ensures
        pow10(a + b) == pow10(a) * pow10(b),
    decreases b,
{
    if b > 0 {
        lemma_pow10_sum(a, (b - 1) as nat);
        let x = pow10(a);
        let y = pow10((b - 1) as nat);
        assert(10 * (x * y) == x * (10 * y)) by (nonlinear_arith);
    }
}

proof fn lemma_cancel(x: int, y: int, p: int)
    requires
        p > 0,
        x * p == y * p,
    ensures
        x == y,
{
    assert(x == y) by (nonlinear_arith)
        requires
            p > 0,
            x * p == y * p,
    ;
}

/// Standing for the same number is transitive.
pub proof fn lemma_same_value_transitive(a: Coordinate, b: Coordinate, c: Coordinate)
    requires
        a.same_value(b),
        b.same_value(c),
    ensures
        a.same_value(c),
{
    let pa = pow10(a.scale as nat);
    let pb = pow10(b.scale as nat);
    let pc = pow10(c.scale as nat);
    let (ma, mb, mc) = (a.mantissa as int, b.mantissa as int, c.mantissa as int);
    lemma_pow10_positive(b.scale as nat);
    assert((ma * pc) * pb == (mc * pa) * pb) by (nonlinear_arith)
        requires
            ma * pb == mb * pa,
            mb * pc == mc * pb,
    ;
    lemma_cancel(ma * pc, mc * pa, pb);
}

/// The canonical representation has no trailing zero left to strip, and
/// stands for the number it was made from.
pub proof fn lemma_canonical(c: Coordinate)
    ensures
        c.canonical().is_canonical(),
        c.canonical().same_value(c),
        c.canonical().scale <= c.scale,
    decreases c.scale,
{
    if c.scale > 0 && c.mantissa % 10 == 0 {
        let d = Coordinate { mantissa: (c.mantissa / 10) as i128, scale: (c.scale - 1) as u32 };
        lemma_canonical(d);
        let m = c.mantissa as int;
        let p = pow10(d.scale as nat);
        assert(d.mantissa == m / 10);
        assert((m / 10) * (10 * p) == m * p) by (nonlinear_arith)
            requires
                m % 10 == 0,
        ;
        assert(d.same_value(c));
        lemma_same_value_transitive(c.canonical(), d, c);
    }
}

/// Two canonical representations of one number have the same fields.
pub proof fn lemma_canonical_unique(a: Coordinate, b: Coordinate)
    requires
        a.is_canonical(),
        b.is_canonical(),
        a.same_value(b),
    ensures
        a == b,
{
    if a.scale <= b.scale {
        lemma_canonical_ordered(a, b);
    } else {
        lemma_canonical_ordered(b, a);
    }
}

proof fn lemma_canonical_ordered(a: Coordinate, b: Coordinate)
    requires
        a.is_canonical(),
        b.is_canonical(),
        a.same_value(b),
        a.scale <= b.scale,
    ensures
        a == b,
{
    let d = (b.scale - a.scale) as nat;
    let pa = pow10(a.scale as nat);
    let pd = pow10(d);
    let (ma, mb) = (a.mantissa as int, b.mantissa as int);
    lemma_pow10_sum(a.scale as nat, d);
    lemma_pow10_positive(a.scale as nat);
    assert(pow10(b.scale as nat) == pa * pd);
    assert((ma * pd) * pa == mb * pa) by (nonlinear_arith)
        requires
            ma * (pa * pd) == mb * pa,
    ;
    lemma_cancel(ma * pd, mb, pa);
    if d > 0 {
        let q = pow10((d - 1) as nat);
        assert(mb == 10 * (ma * q)) by (nonlinear_arith)
            requires
                ma * pd == mb,
                pd == 10 * q,
        ;
        assert(mb % 10 == 0);
    }
}

/// Two coordinates stand for the same number exactly when their canonical
/// representations have the same fields.
pub proof fn lemma_same_value_canonical(a: Coordinate, b: Coordinate)
    ensures
        a.same_value(b) <==> a.canonical() == b.canonical(),
{
    lemma_canonical(a);
    lemma_canonical(b);
    let (ca, cb) = (a.canonical(), b.canonical());
    if a.same_value(b) {
        lemma_same_value_transitive(ca, a, b);
        assert(b.same_value(cb));
        lemma_same_value_transitive(ca, b, cb);
        lemma_canonical_unique(ca, cb);
    }
    if ca == cb {
        assert(a.same_value(ca));
        lemma_same_value_transitive(a, ca, b);
    }
}

} // verus!
