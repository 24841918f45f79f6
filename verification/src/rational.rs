//! Exact rational scalars.
//!
//! A scalar is a fraction `n / d` with a positive denominator. Fractions are
//! not kept reduced: two values denote the same rational exactly when the
//! cross products agree (`q_eq`). The executable type `Rat` holds 128-bit
//! components; each arithmetic operation checks its intermediate products and
//! returns `None` instead of overflowing, and the `c_*` spec functions state
//! exactly when that happens.

use vstd::prelude::*;

verus! {

/// Mathematical value of a rational scalar: an integer numerator over a
/// positive integer denominator.
pub ghost struct Q {
    pub n: int,
    pub d: int,
}

/// Well-formed mathematical rational: the denominator is positive.
pub open spec fn q_wf(a: Q) -> bool {
    a.d > 0
}

/// The rational with integer value `n`.
pub open spec fn q_int(n: int) -> Q {
    Q { n, d: 1 }
}

/// `a + b`, as fractions: `(a.n * b.d + b.n * a.d) / (a.d * b.d)`.
pub open spec fn q_add(a: Q, b: Q) -> Q {
    Q { n: a.n * b.d + b.n * a.d, d: a.d * b.d }
}

/// `a - b`, as fractions.
pub open spec fn q_sub(a: Q, b: Q) -> Q {
    Q { n: a.n * b.d - b.n * a.d, d: a.d * b.d }
}

/// `a * b`, as fractions.
pub open spec fn q_mul(a: Q, b: Q) -> Q {
    Q { n: a.n * b.n, d: a.d * b.d }
}

/// `-a`.
pub open spec fn q_neg(a: Q) -> Q {
    Q { n: -a.n, d: a.d }
}

/// `a / b`, as fractions, with the sign moved into the numerator so that the
/// denominator stays positive. Not well-formed when `b.n == 0`.
pub open spec fn q_div(a: Q, b: Q) -> Q {
    if b.n < 0 {
        Q { n: -(a.n * b.d), d: -(a.d * b.n) }
    } else {
        Q { n: a.n * b.d, d: a.d * b.n }
    }
}

/// The two fractions denote the same rational number.
pub open spec fn q_eq(a: Q, b: Q) -> bool {
    a.n * b.d == b.n * a.d
}

/// `a <= b` as rationals (for positive denominators).
pub open spec fn q_le(a: Q, b: Q) -> bool {
    a.n * b.d <= b.n * a.d
}

/// `a < b` as rationals (for positive denominators).
pub open spec fn q_lt(a: Q, b: Q) -> bool {
    a.n * b.d < b.n * a.d
}

/// `x` fits in a 128-bit signed integer.
pub open spec fn fits(x: int) -> bool {
    i128::MIN <= x <= i128::MAX
}

/// Checked sum: `Some(q_add(a, b))` exactly when every intermediate product
/// and the final numerator fit in 128 bits.
pub open spec fn c_add(a: Q, b: Q) -> Option<Q> {
    if fits(a.n * b.d) && fits(b.n * a.d) && fits(a.n * b.d + b.n * a.d) && fits(a.d * b.d) {
        Some(q_add(a, b))
    } else {
        None
    }
}

/// Checked difference.
pub open spec fn c_sub(a: Q, b: Q) -> Option<Q> {
    if fits(a.n * b.d) && fits(b.n * a.d) && fits(a.n * b.d - b.n * a.d) && fits(a.d * b.d) {
        Some(q_sub(a, b))
    } else {
        None
    }
}

/// Checked product.
pub open spec fn c_mul(a: Q, b: Q) -> Option<Q> {
    if fits(a.n * b.n) && fits(a.d * b.d) {
        Some(q_mul(a, b))
    } else {
        None
    }
}

/// Checked negation.
pub open spec fn c_neg(a: Q) -> Option<Q> {
    if fits(-a.n) {
        Some(q_neg(a))
    } else {
        None
    }
}

/// Checked quotient: `None` when the divisor is zero or an intermediate
/// product overflows.
pub open spec fn c_div(a: Q, b: Q) -> Option<Q> {
    if b.n == 0 {
        None
    } else if !(fits(a.n * b.d) && fits(a.d * b.n)) {
        None
    } else if b.n < 0 {
        if fits(-(a.n * b.d)) && fits(-(a.d * b.n)) {
            Some(q_div(a, b))
        } else {
            None
        }
    } else {
        Some(q_div(a, b))
    }
}

/// Lifts `c_add` over absent operands.
pub open spec fn o_add(a: Option<Q>, b: Option<Q>) -> Option<Q> {
    match (a, b) {
        (Some(x), Some(y)) => c_add(x, y),
        _ => None,
    }
}

/// Lifts `c_sub` over absent operands.
pub open spec fn o_sub(a: Option<Q>, b: Option<Q>) -> Option<Q> {
    match (a, b) {
        (Some(x), Some(y)) => c_sub(x, y),
        _ => None,
    }
}

/// Lifts `c_mul` over absent operands.
pub open spec fn o_mul(a: Option<Q>, b: Option<Q>) -> Option<Q> {
    match (a, b) {
        (Some(x), Some(y)) => c_mul(x, y),
        _ => None,
    }
}

/// Lifts `c_div` over absent operands.
pub open spec fn o_div(a: Option<Q>, b: Option<Q>) -> Option<Q> {
    match (a, b) {
        (Some(x), Some(y)) => c_div(x, y),
        _ => None,
    }
}

/// Exact rational scalar: numerator `n` over positive denominator `d`.
#[derive(Clone, Copy, Debug)]
pub struct Rat {
    pub n: i128,
    pub d: i128,
}

impl View for Rat {
    type V = Q;

    open spec fn view(&self) -> Q {
        Q { n: self.n as int, d: self.d as int }
    }
}

/// The mathematical values of an optional rational result.
pub open spec fn rat_opt(r: Option<Rat>) -> Option<Q> {
    match r {
        Some(v) => Some(v@),
        None => None,
    }
}

/// Every well-formed `Rat` in an optional result stays well-formed.
pub open spec fn rat_opt_wf(r: Option<Rat>) -> bool {
    match r {
        Some(v) => v.wf(),
        None => true,
    }
}

impl Rat {
    /// The denominator is positive.
    pub open spec fn wf(self) -> bool {
        self.d > 0
    }

    /// The fraction `n / d`; `None` exactly when `d == 0`. A negative
    /// denominator is normalized away by negating both components.
    pub fn new(n: i64, d: i64) -> (r: Option<Rat>)
        ensures
            d != 0 ==> (r matches Some(v) && v.wf() && q_eq(v@, Q { n: n as int, d: d as int })),
            d == 0 ==> r is None,
    {
        if d == 0 {
            None
        } else if d < 0 {
            proof {
                assert((-(n as int)) * (d as int) == (n as int) * (-(d as int))) by (nonlinear_arith);
            }
            Some(Rat { n: -(n as i128), d: -(d as i128) })
        } else {
            Some(Rat { n: n as i128, d: d as i128 })
        }
    }

    /// The rational with integer value `n`.
    pub fn from_int(n: i64) -> (r: Rat)
        ensures
            r.wf(),
            r@ == q_int(n as int),
    {
        Rat { n: n as i128, d: 1 }
    }

    /// The value is exactly zero.
    pub fn is_zero(&self) -> (r: bool)
        requires
            self.wf(),
        ensures
            r == q_eq(self@, q_int(0)),
    {
        self.n == 0
    }

    /// Checked sum.
    pub fn checked_add(&self, other: &Rat) -> (r: Option<Rat>)
        requires
            self.wf(),
            other.wf(),
        ensures
            rat_opt(r) == c_add(self@, other@),
            rat_opt_wf(r),
    {
        let p1: Option<i128> = self.n.checked_mul(other.d);
        let p2: Option<i128> = other.n.checked_mul(self.d);
        let dd: Option<i128> = self.d.checked_mul(other.d);
        match (p1, p2, dd) {
            (Some(x), Some(y), Some(d)) => match x.checked_add(y) {
                Some(n) => {
                    proof {
                        assert(self@.d * other@.d > 0) by (nonlinear_arith)
                            requires
                                self@.d > 0,
                                other@.d > 0,
                        ;
                    }
                    Some(Rat { n, d })
                },
                None => None,
            },
            _ => None,
        }
    }

    /// Checked difference.
    pub fn checked_sub(&self, other: &Rat) -> (r: Option<Rat>)
        requires
            self.wf(),
            other.wf(),
        ensures
            rat_opt(r) == c_sub(self@, other@),
            rat_opt_wf(r),
    {
        let p1: Option<i128> = self.n.checked_mul(other.d);
        let p2: Option<i128> = other.n.checked_mul(self.d);
        let dd: Option<i128> = self.d.checked_mul(other.d);
        match (p1, p2, dd) {
            (Some(x), Some(y), Some(d)) => match x.checked_sub(y) {
                Some(n) => {
                    proof {
                        assert(self@.d * other@.d > 0) by (nonlinear_arith)
                            requires
                                self@.d > 0,
                                other@.d > 0,
                        ;
                    }
                    Some(Rat { n, d })
                },
                None => None,
            },
            _ => None,
        }
    }

    /// Checked product.
    pub fn checked_mul(&self, other: &Rat) -> (r: Option<Rat>)
        requires
            self.wf(),
            other.wf(),
        ensures
            rat_opt(r) == c_mul(self@, other@),
            rat_opt_wf(r),
    {
        let nn: Option<i128> = self.n.checked_mul(other.n);
        let dd: Option<i128> = self.d.checked_mul(other.d);
        match (nn, dd) {
            (Some(n), Some(d)) => {
                proof {
                    assert(self@.d * other@.d > 0) by (nonlinear_arith)
                        requires
                            self@.d > 0,
                            other@.d > 0,
                    ;
                }
                Some(Rat { n, d })
            },
            _ => None,
        }
    }

    /// Checked negation.
    pub fn checked_neg(&self) -> (r: Option<Rat>)
        requires
            self.wf(),
        ensures
            rat_opt(r) == c_neg(self@),
            rat_opt_wf(r),
    {
        let z: i128 = 0;
        match z.checked_sub(self.n) {
            Some(n) => Some(Rat { n, d: self.d }),
            None => None,
        }
    }

    /// Checked quotient; `None` when `other` is zero.
    pub fn checked_div(&self, other: &Rat) -> (r: Option<Rat>)
        requires
            self.wf(),
            other.wf(),
        ensures
            rat_opt(r) == c_div(self@, other@),
            rat_opt_wf(r),
    {
        if other.n == 0 {
            return None;
        }
        let p: Option<i128> = self.n.checked_mul(other.d);
        let q: Option<i128> = self.d.checked_mul(other.n);
        match (p, q) {
            (Some(x), Some(y)) => {
                if other.n < 0 {
                    let z: i128 = 0;
                    match (z.checked_sub(x), z.checked_sub(y)) {
                        (Some(nx), Some(ny)) => {
                            proof {
                                assert(self@.d * other@.n < 0) by (nonlinear_arith)
                                    requires
                                        self@.d > 0,
                                        other@.n < 0,
                                ;
                            }
                            Some(Rat { n: nx, d: ny })
                        },
                        _ => None,
                    }
                } else {
                    proof {
                        assert(self@.d * other@.n > 0) by (nonlinear_arith)
                            requires
                                self@.d > 0,
                                other@.n > 0,
                        ;
                    }
                    Some(Rat { n: x, d: y })
                }
            },
            _ => None,
        }
    }

    /// Exact equality test of the denoted rationals; `None` when a cross
    /// product overflows.
    pub fn eq_checked(&self, other: &Rat) -> (r: Option<bool>)
        requires
            self.wf(),
            other.wf(),
        ensures
            r matches Some(e) ==> e == q_eq(self@, other@),
            r is Some <==> fits(self@.n * other@.d) && fits(other@.n * self@.d),
    {
        let p1: Option<i128> = self.n.checked_mul(other.d);
        let p2: Option<i128> = other.n.checked_mul(self.d);
        match (p1, p2) {
            (Some(x), Some(y)) => Some(x == y),
            _ => None,
        }
    }

    /// Exact order test (`self <= other`); `None` when a cross product
    /// overflows.
    pub fn le_checked(&self, other: &Rat) -> (r: Option<bool>)
        requires
            self.wf(),
            other.wf(),
        ensures
            r matches Some(e) ==> e == q_le(self@, other@),
            r is Some <==> fits(self@.n * other@.d) && fits(other@.n * self@.d),
    {
        let p1: Option<i128> = self.n.checked_mul(other.d);
        let p2: Option<i128> = other.n.checked_mul(self.d);
        match (p1, p2) {
            (Some(x), Some(y)) => Some(x <= y),
            _ => None,
        }
    }
}

/// Cancellation of a positive common factor.
pub proof fn lemma_mul_cancel(x: int, y: int, k: int)
    requires
        k > 0,
        x * k == y * k,
    ensures
        x == y,
{
    assert(x == y) by (nonlinear_arith)
        requires
            k > 0,
            x * k == y * k,
    ;
}

/// `q_eq` is transitive over well-formed rationals.
pub proof fn lemma_q_eq_trans(a: Q, b: Q, c: Q)
    requires
        q_wf(a),
        q_wf(b),
        q_wf(c),
        q_eq(a, b),
        q_eq(b, c),
    ensures
        q_eq(a, c),
{
    assert((a.n * c.d) * b.d == (c.n * a.d) * b.d) by (nonlinear_arith)
        requires
            a.n * b.d == b.n * a.d,
            b.n * c.d == c.n * b.d,
    ;
    lemma_mul_cancel(a.n * c.d, c.n * a.d, b.d);
}

/// `q_lt` is transitive over well-formed rationals.
pub proof fn lemma_q_lt_trans(a: Q, b: Q, c: Q)
    requires
        q_wf(a),
        q_wf(b),
        q_wf(c),
        q_lt(a, b),
        q_lt(b, c),
    ensures
        q_lt(a, c),
{
    assert(a.n * c.d < c.n * a.d) by (nonlinear_arith)
        requires
            a.n * b.d < b.n * a.d,
            b.n * c.d < c.n * b.d,
            a.d > 0,
            b.d > 0,
            c.d > 0,
    ;
}

/// Strictly ordered rationals are not equal.
pub proof fn lemma_q_lt_ne(a: Q, b: Q)
    requires
        q_lt(a, b),
    ensures
        !q_eq(a, b),
{
}

/// Sums of equal rationals are equal.
pub proof fn lemma_q_add_congr(a: Q, a2: Q, b: Q, b2: Q)
    requires
        q_wf(a),
        q_wf(a2),
        q_wf(b),
        q_wf(b2),
        q_eq(a, a2),
        q_eq(b, b2),
    ensures
        q_eq(q_add(a, b), q_add(a2, b2)),
{
    assert(a.n * b.d * (a2.d * b2.d) == a2.n * b2.d * (a.d * b.d)) by (nonlinear_arith)
        requires
            a.n * a2.d == a2.n * a.d,
    ;
    assert(b.n * a.d * (a2.d * b2.d) == b2.n * a2.d * (a.d * b.d)) by (nonlinear_arith)
        requires
            b.n * b2.d == b2.n * b.d,
    ;
    assert((a.n * b.d + b.n * a.d) * (a2.d * b2.d) == (a2.n * b2.d + b2.n * a2.d) * (a.d * b.d))
        by (nonlinear_arith)
        requires
            a.n * b.d * (a2.d * b2.d) == a2.n * b2.d * (a.d * b.d),
            b.n * a.d * (a2.d * b2.d) == b2.n * a2.d * (a.d * b.d),
    ;
}

/// Differences of equal rationals are equal.
pub proof fn lemma_q_sub_congr(a: Q, a2: Q, b: Q, b2: Q)
    requires
        q_wf(a),
        q_wf(a2),
        q_wf(b),
        q_wf(b2),
        q_eq(a, a2),
        q_eq(b, b2),
    ensures
        q_eq(q_sub(a, b), q_sub(a2, b2)),
{
    assert(a.n * b.d * (a2.d * b2.d) == a2.n * b2.d * (a.d * b.d)) by (nonlinear_arith)
        requires
            a.n * a2.d == a2.n * a.d,
    ;
    assert(b.n * a.d * (a2.d * b2.d) == b2.n * a2.d * (a.d * b.d)) by (nonlinear_arith)
        requires
            b.n * b2.d == b2.n * b.d,
    ;
    assert((a.n * b.d - b.n * a.d) * (a2.d * b2.d) == (a2.n * b2.d - b2.n * a2.d) * (a.d * b.d))
        by (nonlinear_arith)
        requires
            a.n * b.d * (a2.d * b2.d) == a2.n * b2.d * (a.d * b.d),
            b.n * a.d * (a2.d * b2.d) == b2.n * a2.d * (a.d * b.d),
    ;
}

/// Products of equal rationals are equal.
pub proof fn lemma_q_mul_congr(a: Q, a2: Q, b: Q, b2: Q)
    requires
        q_wf(a),
        q_wf(a2),
        q_wf(b),
        q_wf(b2),
        q_eq(a, a2),
        q_eq(b, b2),
    ensures
        q_eq(q_mul(a, b), q_mul(a2, b2)),
{
    assert((a.n * b.n) * (a2.d * b2.d) == (a2.n * b2.n) * (a.d * b.d)) by (nonlinear_arith)
        requires
            a.n * a2.d == a2.n * a.d,
            b.n * b2.d == b2.n * b.d,
    ;
}

/// A fraction divided by an equal fraction is one.
pub proof fn lemma_q_div_self(x: Q, y: Q)
    requires
        q_wf(x),
        q_wf(y),
        y.n != 0,
        q_eq(x, y),
    ensures
        q_eq(q_div(x, y), q_int(1)),
{
    if y.n < 0 {
        assert((-(x.n * y.d)) * 1 == 1 * (-(x.d * y.n))) by (nonlinear_arith)
            requires
                x.n * y.d == y.n * x.d,
        ;
    } else {
        assert((x.n * y.d) * 1 == 1 * (x.d * y.n)) by (nonlinear_arith)
            requires
                x.n * y.d == y.n * x.d,
        ;
    }
}

/// Adding a fraction with zero numerator changes nothing.
pub proof fn lemma_q_add_zero_right(a: Q, z: Q)
    requires
        q_wf(a),
        q_wf(z),
        z.n == 0,
    ensures
        q_eq(q_add(a, z), a),
{
    assert((a.n * z.d + z.n * a.d) * a.d == a.n * (a.d * z.d)) by (nonlinear_arith)
        requires
            z.n == 0,
    ;
}

/// Adding a fraction with zero numerator on the left changes nothing.
pub proof fn lemma_q_add_zero_left(z: Q, a: Q)
    requires
        q_wf(a),
        q_wf(z),
        z.n == 0,
    ensures
        q_eq(q_add(z, a), a),
{
    assert((z.n * a.d + a.n * z.d) * a.d == a.n * (z.d * a.d)) by (nonlinear_arith)
        requires
            z.n == 0,
    ;
}

/// Multiplying by a fraction equal to one changes nothing.
pub proof fn lemma_q_mul_one_left(c: Q, u: Q)
    requires
        q_wf(c),
        q_wf(u),
        q_eq(c, q_int(1)),
    ensures
        q_eq(q_mul(c, u), u),
{
    assert((c.n * u.n) * u.d == u.n * (c.d * u.d)) by (nonlinear_arith)
        requires
            c.n == c.d,
    ;
}

/// Consecutive differences telescope: `(c - b) + (b - a)` equals `c - a`.
pub proof fn lemma_q_sub_add_cancel(c: Q, b: Q, a: Q)
    requires
        q_wf(a),
        q_wf(b),
        q_wf(c),
    ensures
        q_eq(q_add(q_sub(c, b), q_sub(b, a)), q_sub(c, a)),
{
    let x1 = q_sub(c, b);
    let x2 = q_sub(b, a);
    let s = q_add(x1, x2);
    let k: int = c.n * a.d - a.n * c.d;
    let bb: int = b.d * b.d;
    assert(x1.n * x2.d == (c.n * b.d) * (b.d * a.d) - (b.n * c.d) * (b.d * a.d))
        by (nonlinear_arith)
        requires
            x1.n == c.n * b.d - b.n * c.d,
            x2.d == b.d * a.d,
    ;
    assert(x2.n * x1.d == (b.n * a.d) * (c.d * b.d) - (a.n * b.d) * (c.d * b.d))
        by (nonlinear_arith)
        requires
            x2.n == b.n * a.d - a.n * b.d,
            x1.d == c.d * b.d,
    ;
    assert((b.n * c.d) * (b.d * a.d) == (b.n * a.d) * (c.d * b.d)) by (nonlinear_arith);
    assert((c.n * b.d) * (b.d * a.d) == bb * (c.n * a.d)) by (nonlinear_arith)
        requires
            bb == b.d * b.d,
    ;
    assert((a.n * b.d) * (c.d * b.d) == bb * (a.n * c.d)) by (nonlinear_arith)
        requires
            bb == b.d * b.d,
    ;
    assert(s.n == bb * (c.n * a.d) - bb * (a.n * c.d));
    assert(bb * (c.n * a.d) - bb * (a.n * c.d) == bb * k) by (nonlinear_arith)
        requires
            k == c.n * a.d - a.n * c.d,
    ;
    assert(s.d == bb * (c.d * a.d)) by (nonlinear_arith)
        requires
            s.d == x1.d * x2.d,
            x1.d == c.d * b.d,
            x2.d == b.d * a.d,
            bb == b.d * b.d,
    ;
    assert(s.n * (c.d * a.d) == k * s.d) by (nonlinear_arith)
        requires
            s.n == bb * k,
            s.d == bb * (c.d * a.d),
    ;
}

/// Fractions over a common divisor add: `x1/d + x2/d` equals `(x1 + x2)/d`.
pub proof fn lemma_q_div_add(x1: Q, x2: Q, d: Q)
    requires
        q_wf(x1),
        q_wf(x2),
        q_wf(d),
        d.n != 0,
    ensures
        q_eq(q_add(q_div(x1, d), q_div(x2, d)), q_div(q_add(x1, x2), d)),
{
    let l = q_add(q_div(x1, d), q_div(x2, d));
    let s = q_add(x1, x2);
    let r = q_div(s, d);
    let sn: int = x1.n * x2.d + x2.n * x1.d;
    let dd: int = d.d * d.n;
    if d.n < 0 {
        assert((-(x1.n * d.d)) * (-(x2.d * d.n)) == dd * (x1.n * x2.d)) by (nonlinear_arith)
            requires
                dd == d.d * d.n,
        ;
        assert((-(x2.n * d.d)) * (-(x1.d * d.n)) == dd * (x2.n * x1.d)) by (nonlinear_arith)
            requires
                dd == d.d * d.n,
        ;
        assert(dd * (x1.n * x2.d) + dd * (x2.n * x1.d) == dd * sn) by (nonlinear_arith)
            requires
                sn == x1.n * x2.d + x2.n * x1.d,
        ;
        assert(l.n == dd * sn);
        let xx: int = x1.d * x2.d;
        assert(l.d == xx * (d.n * d.n)) by (nonlinear_arith)
            requires
                l.d == (-(x1.d * d.n)) * (-(x2.d * d.n)),
                xx == x1.d * x2.d,
        ;
        assert(l.n * r.d == r.n * l.d) by (nonlinear_arith)
            requires
                l.n == dd * sn,
                dd == d.d * d.n,
                l.d == xx * (d.n * d.n),
                r.n == -(sn * d.d),
                r.d == -(xx * d.n),
        ;
    } else {
        assert((x1.n * d.d) * (x2.d * d.n) == dd * (x1.n * x2.d)) by (nonlinear_arith)
            requires
                dd == d.d * d.n,
        ;
        assert((x2.n * d.d) * (x1.d * d.n) == dd * (x2.n * x1.d)) by (nonlinear_arith)
            requires
                dd == d.d * d.n,
        ;
        assert(dd * (x1.n * x2.d) + dd * (x2.n * x1.d) == dd * sn) by (nonlinear_arith)
            requires
                sn == x1.n * x2.d + x2.n * x1.d,
        ;
        assert(l.n == dd * sn);
        assert(l.n * r.d == r.n * l.d) by (nonlinear_arith)
            requires
                l.n == dd * sn,
                dd == d.d * d.n,
                l.d == (x1.d * d.n) * (x2.d * d.n),
                r.n == sn * d.d,
                r.d == (x1.d * x2.d) * d.n,
        ;
    }
}

/// Multiplication distributes over addition: `c1*w + c2*w` equals
/// `(c1 + c2)*w`.
pub proof fn lemma_q_mul_dist(c1: Q, c2: Q, w: Q)
    requires
        q_wf(c1),
        q_wf(c2),
        q_wf(w),
    ensures
        q_eq(q_add(q_mul(c1, w), q_mul(c2, w)), q_mul(q_add(c1, c2), w)),
{
    let l = q_add(q_mul(c1, w), q_mul(c2, w));
    let r = q_mul(q_add(c1, c2), w);
    let sn: int = c1.n * c2.d + c2.n * c1.d;
    let ww: int = w.n * w.d;
    assert((c1.n * w.n) * (c2.d * w.d) == ww * (c1.n * c2.d)) by (nonlinear_arith)
        requires
            ww == w.n * w.d,
    ;
    assert((c2.n * w.n) * (c1.d * w.d) == ww * (c2.n * c1.d)) by (nonlinear_arith)
        requires
            ww == w.n * w.d,
    ;
    assert(ww * (c1.n * c2.d) + ww * (c2.n * c1.d) == ww * sn) by (nonlinear_arith)
        requires
            sn == c1.n * c2.d + c2.n * c1.d,
    ;
    assert(l.n == ww * sn);
    assert(l.n * r.d == r.n * l.d) by (nonlinear_arith)
        requires
            l.n == ww * sn,
            ww == w.n * w.d,
            l.d == (c1.d * w.d) * (c2.d * w.d),
            r.n == sn * w.n,
            r.d == (c1.d * c2.d) * w.d,
    ;
}

/// Sums of nonnegative well-formed rationals have nonnegative numerators.
pub proof fn lemma_q_add_nonneg(u: Q, v: Q)
    requires
        q_wf(u),
        q_wf(v),
        u.n >= 0,
        v.n >= 0,
    ensures
        q_add(u, v).n >= 0,
{
    assert(u.n * v.d + v.n * u.d >= 0) by (nonlinear_arith)
        requires
            u.n >= 0,
            v.n >= 0,
            u.d > 0,
            v.d > 0,
    ;
}

/// Sums, differences and products of well-formed rationals are well-formed.
pub proof fn lemma_q_wf_ops(a: Q, b: Q)
    requires
        q_wf(a),
        q_wf(b),
    ensures
        q_wf(q_add(a, b)),
        q_wf(q_sub(a, b)),
        q_wf(q_mul(a, b)),
{
    assert(a.d * b.d > 0) by (nonlinear_arith)
        requires
            a.d > 0,
            b.d > 0,
    ;
}

/// Quotients by a nonzero rational are well-formed.
pub proof fn lemma_q_wf_div(a: Q, b: Q)
    requires
        q_wf(a),
        q_wf(b),
        b.n != 0,
    ensures
        q_wf(q_div(a, b)),
{
    if b.n < 0 {
        assert(-(a.d * b.n) > 0) by (nonlinear_arith)
            requires
                a.d > 0,
                b.n < 0,
        ;
    } else {
        assert(a.d * b.n > 0) by (nonlinear_arith)
            requires
                a.d > 0,
                b.n > 0,
        ;
    }
}

} // verus!
