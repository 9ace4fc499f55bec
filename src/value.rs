use vstd::prelude::*;

verus! {

/// Largest magnitude allowed for the numerator and denominator of a [`Ratio`].
pub const RATIO_BOUND: i64 = 0x100_0000_0000;

/// Bound on the cross products of two well-formed ratios.
pub const CROSS_BOUND: i128 = 0x1_0000_0000_0000_0000_0000;

/// An exact fraction `num / den` used for normalized element values.
///
/// Axis values lie in `[-1, 1]` and button values in `[0, 1]`; storing them as fractions of
/// integers keeps normalization exact (no rounding) and comparisons decidable.
#[derive(Clone, Copy, Debug)]
pub struct Ratio {
    pub num: i64,
    pub den: i64,
}

impl Ratio {
    /// Denominator positive, both parts bounded so that cross products fit in `i128`.
    pub open spec fn wf(self) -> bool {
        &&& 0 < self.den < RATIO_BOUND
        &&& -RATIO_BOUND < self.num < RATIO_BOUND
    }

    /// `self` and `o` denote the same rational number.
    pub open spec fn same(self, o: Ratio) -> bool {
        self.num * o.den == o.num * self.den
    }

    /// `self <= o` as rational numbers (both denominators positive).
    pub open spec fn le_spec(self, o: Ratio) -> bool {
        self.num * o.den <= o.num * self.den
    }

    /// `self < o` as rational numbers (both denominators positive).
    pub open spec fn lt_spec(self, o: Ratio) -> bool {
        self.num * o.den < o.num * self.den
    }

    /// The rational number lies in `[-1, 1]`.
    pub open spec fn in_unit_range(self) -> bool {
        -self.den <= self.num <= self.den
    }

    /// The rational number lies in `[0, 1]`.
    pub open spec fn in_half_unit_range(self) -> bool {
        0 <= self.num <= self.den
    }

    /// `|self - o| < eps` as rational numbers.
    pub open spec fn close_spec(self, o: Ratio, eps: Ratio) -> bool {
        let d = self.num * o.den - o.num * self.den;
        let ad = if d < 0 { -d } else { d };
        ad * eps.den < eps.num * (self.den * o.den)
    }

    pub fn new(num: i64, den: i64) -> (r: Ratio)
        requires
            0 < den < RATIO_BOUND,
            -RATIO_BOUND < num < RATIO_BOUND,
        ensures
            r.num == num,
            r.den == den,
            r.wf(),
    {
        Ratio { num, den }
    }

    /// The number zero.
    pub fn zero() -> (r: Ratio)
        ensures
            r.num == 0,
            r.den == 1,
            r.wf(),
    {
        Ratio { num: 0, den: 1 }
    }

    /// The number one.
    pub fn one() -> (r: Ratio)
        ensures
            r.num == 1,
            r.den == 1,
            r.wf(),
    {
        Ratio { num: 1, den: 1 }
    }

    /// Whether the fraction is well formed.
    pub fn is_wf(&self) -> (r: bool)
        ensures
            r == self.wf(),
    {
        0 < self.den && self.den < RATIO_BOUND && -RATIO_BOUND < self.num && self.num < RATIO_BOUND
    }

    /// Whether the two fractions denote the same number.
    pub fn eq_value(&self, o: &Ratio) -> (r: bool)
        requires
            self.wf(),
            o.wf(),
        ensures
            r == self.same(*o),
    {
        proof {
            lemma_cross_bounds(*self, *o);
        }
        (self.num as i128) * (o.den as i128) == (o.num as i128) * (self.den as i128)
    }

    /// Whether `self <= o` as numbers.
    pub fn le(&self, o: &Ratio) -> (r: bool)
        requires
            self.wf(),
            o.wf(),
        ensures
            r == self.le_spec(*o),
    {
        proof {
            lemma_cross_bounds(*self, *o);
        }
        (self.num as i128) * (o.den as i128) <= (o.num as i128) * (self.den as i128)
    }

    /// Whether `self < o` as numbers.
    pub fn lt(&self, o: &Ratio) -> (r: bool)
        requires
            self.wf(),
            o.wf(),
        ensures
            r == self.lt_spec(*o),
    {
        proof {
            lemma_cross_bounds(*self, *o);
        }
        (self.num as i128) * (o.den as i128) < (o.num as i128) * (self.den as i128)
    }

    /// Whether `|self - o| < eps`.
    pub fn is_close(&self, o: &Ratio, eps: &Ratio) -> (r: bool)
        requires
            self.wf(),
            o.wf(),
            eps.wf(),
        ensures
            r == self.close_spec(*o, *eps),
    {
        proof {
            lemma_cross_bounds(*self, *o);
            lemma_close_bounds(*self, *o, *eps);
        }
        let d: i128 = (self.num as i128) * (o.den as i128) - (o.num as i128) * (self.den as i128);
        let ad: i128 = if d < 0 { -d } else { d };
        let dd: i128 = (self.den as i128) * (o.den as i128);
        ad * (eps.den as i128) < (eps.num as i128) * dd
    }
}

/// Product bound: `|x| < a` and `0 <= y < b` give `|x * y| < a * b`.
proof fn lemma_mul_bound(x: int, y: int, a: int, b: int)
    requires
        -a < x < a,
        0 <= y < b,
    ensures
        -(a * b) < x * y < a * b,
{
    assert(-(a * b) < x * y < a * b) by (nonlinear_arith)
        requires
            -a < x < a,
            0 <= y < b,
    ;
}

proof fn lemma_cross_bounds(a: Ratio, b: Ratio)
    requires
        a.wf(),
        b.wf(),
    ensures
        -CROSS_BOUND < a.num * b.den < CROSS_BOUND,
        -CROSS_BOUND < b.num * a.den < CROSS_BOUND,
        0 < a.den * b.den < CROSS_BOUND,
{
    lemma_mul_bound(a.num as int, b.den as int, RATIO_BOUND as int, RATIO_BOUND as int);
    lemma_mul_bound(b.num as int, a.den as int, RATIO_BOUND as int, RATIO_BOUND as int);
    lemma_mul_bound(a.den as int, b.den as int, RATIO_BOUND as int, RATIO_BOUND as int);
    assert(0 < a.den * b.den) by (nonlinear_arith)
        requires
            0 < a.den,
            0 < b.den,
    ;
}

proof fn lemma_close_bounds(a: Ratio, b: Ratio, eps: Ratio)
    requires
        a.wf(),
        b.wf(),
        eps.wf(),
        -CROSS_BOUND < a.num * b.den < CROSS_BOUND,
        -CROSS_BOUND < b.num * a.den < CROSS_BOUND,
        0 < a.den * b.den < CROSS_BOUND,
    ensures
        forall|ad: int|
            0 <= ad < 2 * CROSS_BOUND ==> -(2 * CROSS_BOUND * RATIO_BOUND) < #[trigger] (ad
                * eps.den) < 2 * CROSS_BOUND * RATIO_BOUND,
        -(CROSS_BOUND * RATIO_BOUND) < eps.num * (a.den * b.den) < CROSS_BOUND * RATIO_BOUND,
{
    assert forall|ad: int| 0 <= ad < 2 * CROSS_BOUND implies -(2 * CROSS_BOUND * RATIO_BOUND)
        < #[trigger] (ad * eps.den) < 2 * CROSS_BOUND * RATIO_BOUND by {
        lemma_mul_bound(eps.den as int, ad, RATIO_BOUND as int, 2 * CROSS_BOUND as int);
        assert(eps.den * ad == ad * eps.den) by (nonlinear_arith);
    }
    lemma_mul_bound(eps.num as int, a.den * b.den, RATIO_BOUND as int, CROSS_BOUND as int);
}

} // verus!
