//! Linear interpolation.
//!
//! `lerp(a, b, t) = a + (b - a) * t`, applied component-wise to vectors.

use vstd::prelude::*;

use crate::rational::{
    c_sub, lemma_q_add_zero_right, lemma_q_eq_trans, lemma_q_mul_congr, lemma_q_wf_ops, o_add,
    o_mul, q_add, q_eq, q_int, q_le, q_mul, q_sub, q_wf, rat_opt, rat_opt_wf, Q, Rat,
};
use crate::vector::{p_cross, p_sub, pt_eq, pt_wf, vec2_opt, vec2_opt_wf, Pt, Vector2};

verus! {

/// Mathematical linear interpolation: `a + (b - a) * t`.
pub open spec fn q_lerp(a: Q, b: Q, t: Q) -> Q {
    q_add(a, q_mul(q_sub(b, a), t))
}

/// Checked linear interpolation: the same formula, `None` exactly when an
/// intermediate 128-bit product overflows.
pub open spec fn c_lerp(a: Q, b: Q, t: Q) -> Option<Q> {
    o_add(Some(a), o_mul(c_sub(b, a), Some(t)))
}

/// Component-wise mathematical linear interpolation of plane vectors.
pub open spec fn p_lerp(a: Pt, b: Pt, t: Q) -> Pt {
    Pt { x: q_lerp(a.x, b.x, t), y: q_lerp(a.y, b.y, t) }
}

/// Component-wise checked linear interpolation of plane vectors.
pub open spec fn cp_lerp(a: Pt, b: Pt, t: Q) -> Option<Pt> {
    match (c_lerp(a.x, b.x, t), c_lerp(a.y, b.y, t)) {
        (Some(x), Some(y)) => Some(Pt { x, y }),
        _ => None,
    }
}

impl Rat {
    /// Linear interpolation of scalars; `None` only on 128-bit overflow.
    pub fn lerp(a: &Rat, b: &Rat, t: &Rat) -> (r: Option<Rat>)
        requires
            a.wf(),
            b.wf(),
            t.wf(),
        ensures
            rat_opt(r) == c_lerp(a@, b@, t@),
            rat_opt_wf(r),
    {
        let s: Option<Rat> = b.checked_sub(a);
        match s {
            Some(s) => {
                let m: Option<Rat> = s.checked_mul(t);
                match m {
                    Some(m) => a.checked_add(&m),
                    None => None,
                }
            },
            None => None,
        }
    }
}

impl Vector2 {
    /// Linear interpolation of plane vectors, component-wise; `None` only on
    /// 128-bit overflow.
    pub fn lerp(a: &Vector2, b: &Vector2, t: &Rat) -> (r: Option<Vector2>)
        requires
            a.wf(),
            b.wf(),
            t.wf(),
        ensures
            vec2_opt(r) == cp_lerp(a@, b@, t@),
            vec2_opt_wf(r),
    {
        match (Rat::lerp(&a.x, &b.x, t), Rat::lerp(&a.y, &b.y, t)) {
            (Some(x), Some(y)) => Some(Vector2 { x, y }),
            _ => None,
        }
    }
}

/// A checked interpolation that returns a value returns the mathematical one.
pub proof fn lemma_c_lerp_sound(a: Q, b: Q, t: Q)
    ensures
        c_lerp(a, b, t) matches Some(v) ==> v == q_lerp(a, b, t),
{
}

/// A checked vector interpolation that returns a value returns the
/// mathematical one.
pub proof fn lemma_cp_lerp_sound(a: Pt, b: Pt, t: Q)
    ensures
        cp_lerp(a, b, t) matches Some(v) ==> v == p_lerp(a, b, t),
{
}

/// Interpolating at zero gives the start point.
pub proof fn lemma_q_lerp_zero(a: Q, b: Q)
    requires
        q_wf(a),
        q_wf(b),
    ensures
        q_eq(q_lerp(a, b, q_int(0)), a),
{
    let m = q_mul(q_sub(b, a), q_int(0));
    lemma_q_wf_ops(b, a);
    lemma_q_wf_ops(q_sub(b, a), q_int(0));
    assert(m.n == 0);
    lemma_q_add_zero_right(a, m);
}

/// Interpolating at one gives the end point.
pub proof fn lemma_q_lerp_one(a: Q, b: Q)
    requires
        q_wf(a),
        q_wf(b),
    ensures
        q_eq(q_lerp(a, b, q_int(1)), b),
{
    let s = q_sub(b, a);
    let m = q_mul(s, q_int(1));
    let r = q_add(a, m);
    assert(r.n * b.d == b.n * r.d) by (nonlinear_arith)
        requires
            r.n == a.n * m.d + m.n * a.d,
            r.d == a.d * m.d,
            m.n == s.n * 1,
            m.d == s.d * 1,
            s.n == b.n * a.d - a.n * b.d,
            s.d == b.d * a.d,
    ;
}

/// Interpolating between a point and itself gives that point, for every `t`.
pub proof fn lemma_q_lerp_same(a: Q, t: Q)
    requires
        q_wf(a),
        q_wf(t),
    ensures
        q_eq(q_lerp(a, a, t), a),
{
    let s = q_sub(a, a);
    let m = q_mul(s, t);
    lemma_q_wf_ops(a, a);
    lemma_q_wf_ops(s, t);
    assert(m.n == 0);
    lemma_q_add_zero_right(a, m);
}

/// Linear interpolation of vectors reaches both endpoints and keeps equal
/// endpoints fixed.
pub proof fn lemma_lerp_endpoints(a: Pt, b: Pt, t: Q)
    requires
        pt_wf(a),
        pt_wf(b),
        q_wf(t),
    ensures
        pt_eq(p_lerp(a, b, q_int(0)), a),
        pt_eq(p_lerp(a, b, q_int(1)), b),
        pt_eq(p_lerp(a, a, t), a),
{
    lemma_q_lerp_zero(a.x, b.x);
    lemma_q_lerp_zero(a.y, b.y);
    lemma_q_lerp_one(a.x, b.x);
    lemma_q_lerp_one(a.y, b.y);
    lemma_q_lerp_same(a.x, t);
    lemma_q_lerp_same(a.y, t);
}

/// The offset of the interpolant from the start point is the parameter times
/// the segment direction.
pub proof fn lemma_q_lerp_sub(a: Q, b: Q, t: Q)
    requires
        q_wf(a),
        q_wf(b),
        q_wf(t),
    ensures
        q_eq(q_sub(q_lerp(a, b, t), a), q_mul(t, q_sub(b, a))),
{
    let s = q_sub(b, a);
    let m = q_mul(s, t);
    let l = q_add(a, m);
    let u = q_sub(l, a);
    let v = q_mul(t, s);
    assert(u.n * v.d == v.n * u.d) by (nonlinear_arith)
        requires
            u.n == l.n * a.d - a.n * l.d,
            u.d == l.d * a.d,
            l.n == a.n * m.d + m.n * a.d,
            l.d == a.d * m.d,
            m.n == s.n * t.n,
            m.d == s.d * t.d,
            v.n == t.n * s.n,
            v.d == t.d * s.d,
    ;
}

/// For `t` in `[0, 1]` the scalar interpolant lies between the endpoints,
/// whichever way they are ordered.
pub proof fn lemma_q_lerp_between(a: Q, b: Q, t: Q)
    requires
        q_wf(a),
        q_wf(b),
        q_wf(t),
        q_le(q_int(0), t),
        q_le(t, q_int(1)),
    ensures
        q_le(a, b) ==> q_le(a, q_lerp(a, b, t)) && q_le(q_lerp(a, b, t), b),
        q_le(b, a) ==> q_le(b, q_lerp(a, b, t)) && q_le(q_lerp(a, b, t), a),
{
    let s = q_sub(b, a);
    let m = q_mul(s, t);
    let l = q_add(a, m);
    assert(t.n >= 0);
    assert(t.n <= t.d);
    // The two boundary gaps, as one sign-independent identity each:
    // l - a carries the factor m.n, and b - l the factor s.n * (t.d - t.n).
    assert(l.n * a.d - a.n * l.d == m.n * (a.d * a.d)) by (nonlinear_arith)
        requires
            l.n == a.n * m.d + m.n * a.d,
            l.d == a.d * m.d,
    ;
    assert(l.n * b.d == a.n * b.d * m.d + m.n * (a.d * b.d)) by (nonlinear_arith)
        requires
            l.n == a.n * m.d + m.n * a.d,
    ;
    assert(b.n * l.d == b.n * a.d * m.d) by (nonlinear_arith)
        requires
            l.d == a.d * m.d,
    ;
    assert(b.n * a.d * m.d - a.n * b.d * m.d == s.n * m.d) by (nonlinear_arith)
        requires
            s.n == b.n * a.d - a.n * b.d,
    ;
    assert(s.n * m.d == s.n * (a.d * b.d) * t.d) by (nonlinear_arith)
        requires
            m.d == s.d * t.d,
            s.d == b.d * a.d,
    ;
    assert(m.n * (a.d * b.d) == s.n * t.n * (a.d * b.d)) by (nonlinear_arith)
        requires
            m.n == s.n * t.n,
    ;
    assert(s.n * (a.d * b.d) * t.d - s.n * t.n * (a.d * b.d) == s.n * (a.d * b.d) * (t.d - t.n))
        by (nonlinear_arith);
    assert(b.n * l.d - l.n * b.d == s.n * (a.d * b.d) * (t.d - t.n));
    if q_le(a, b) {
        assert(s.n >= 0);
        assert(m.n >= 0) by (nonlinear_arith)
            requires
                m.n == s.n * t.n,
                s.n >= 0,
                t.n >= 0,
        ;
        assert(m.n * (a.d * a.d) >= 0) by (nonlinear_arith)
            requires
                m.n >= 0,
                a.d > 0,
        ;
        assert(s.n * (a.d * b.d) * (t.d - t.n) >= 0) by (nonlinear_arith)
            requires
                s.n >= 0,
                a.d > 0,
                b.d > 0,
                t.d - t.n >= 0,
        ;
    }
    if q_le(b, a) {
        assert(s.n <= 0);
        assert(m.n <= 0) by (nonlinear_arith)
            requires
                m.n == s.n * t.n,
                s.n <= 0,
                t.n >= 0,
        ;
        assert(m.n * (a.d * a.d) <= 0) by (nonlinear_arith)
            requires
                m.n <= 0,
                a.d > 0,
        ;
        assert(s.n * (a.d * b.d) * (t.d - t.n) <= 0) by (nonlinear_arith)
            requires
                s.n <= 0,
                a.d > 0,
                b.d > 0,
                t.d - t.n >= 0,
        ;
    }
}

/// For `t` in `[0, 1]` the vector interpolant lies on the segment between the
/// two points: on their line, and between them in each coordinate.
pub proof fn lemma_lerp_on_segment(a: Pt, b: Pt, t: Q)
    requires
        pt_wf(a),
        pt_wf(b),
        q_wf(t),
        q_le(q_int(0), t),
        q_le(t, q_int(1)),
    ensures
        q_eq(p_cross(p_sub(p_lerp(a, b, t), a), p_sub(b, a)), q_int(0)),
        q_le(a.x, b.x) ==> q_le(a.x, p_lerp(a, b, t).x) && q_le(p_lerp(a, b, t).x, b.x),
        q_le(b.x, a.x) ==> q_le(b.x, p_lerp(a, b, t).x) && q_le(p_lerp(a, b, t).x, a.x),
        q_le(a.y, b.y) ==> q_le(a.y, p_lerp(a, b, t).y) && q_le(p_lerp(a, b, t).y, b.y),
        q_le(b.y, a.y) ==> q_le(b.y, p_lerp(a, b, t).y) && q_le(p_lerp(a, b, t).y, a.y),
{
    lemma_lerp_collinear(a, b, t);
    lemma_q_lerp_between(a.x, b.x, t);
    lemma_q_lerp_between(a.y, b.y, t);
}

/// The interpolant lies on the line through the two points: the cross product
/// of its offset from the start with the segment direction is zero.
pub proof fn lemma_lerp_collinear(a: Pt, b: Pt, t: Q)
    requires
        pt_wf(a),
        pt_wf(b),
        q_wf(t),
    ensures
        q_eq(p_cross(p_sub(p_lerp(a, b, t), a), p_sub(b, a)), q_int(0)),
{
    let s = p_sub(b, a);
    let u = p_sub(p_lerp(a, b, t), a);
    lemma_q_lerp_sub(a.x, b.x, t);
    lemma_q_lerp_sub(a.y, b.y, t);
    // Well-formedness of every intermediate fraction.
    lemma_q_wf_ops(b.x, a.x);
    lemma_q_wf_ops(b.y, a.y);
    lemma_q_wf_ops(s.x, t);
    lemma_q_wf_ops(s.y, t);
    lemma_q_wf_ops(a.x, q_mul(s.x, t));
    lemma_q_wf_ops(a.y, q_mul(s.y, t));
    lemma_q_wf_ops(q_lerp(a.x, b.x, t), a.x);
    lemma_q_wf_ops(q_lerp(a.y, b.y, t), a.y);
    lemma_q_wf_ops(t, s.x);
    lemma_q_wf_ops(t, s.y);
    // u.x == t * s.x and u.y == t * s.y as rationals, so the two cross terms
    // denote the same rational and their difference has a zero numerator.
    lemma_q_mul_congr(u.x, q_mul(t, s.x), s.y, s.y);
    lemma_q_mul_congr(u.y, q_mul(t, s.y), s.x, s.x);
    let p1 = q_mul(q_mul(t, s.x), s.y);
    let p2 = q_mul(q_mul(t, s.y), s.x);
    assert(p1.n * p2.d == p2.n * p1.d) by (nonlinear_arith)
        requires
            p1.n == (t.n * s.x.n) * s.y.n,
            p1.d == (t.d * s.x.d) * s.y.d,
            p2.n == (t.n * s.y.n) * s.x.n,
            p2.d == (t.d * s.y.d) * s.x.d,
    ;
    let m1 = q_mul(u.x, s.y);
    let m2 = q_mul(u.y, s.x);
    lemma_q_wf_ops(u.x, s.y);
    lemma_q_wf_ops(u.y, s.x);
    lemma_q_wf_ops(q_mul(t, s.x), s.y);
    lemma_q_wf_ops(q_mul(t, s.y), s.x);
    lemma_q_eq_trans(m1, p1, p2);
    lemma_q_eq_trans(m1, p2, m2);
    assert(p_cross(u, s).n == m1.n * m2.d - m2.n * m1.d);
    assert(q_eq(p_cross(u, s), q_int(0)));
}

} // verus!
