//! Derivatives of quadratic and cubic Bezier curves.
//!
//! For control points `a` (start), `u`, `v` (controls) and `b` (end):
//! `d/dt B2(t) = 2(1-t)(u-a) + 2t(b-u)` and
//! `d/dt B3(t) = 3(1-t)^2(u-a) + 6(1-t)t(v-u) + 3t^2(b-v)`.
//! The mirrored variant reflects the second control point through the end
//! point, `v' = 2b - v`, as spline editors do to keep tangent continuity
//! across chained segments, and is by construction the plain cubic
//! derivative at `v'`.

use vstd::prelude::*;

use crate::rational::{
    c_mul, c_sub, lemma_q_add_zero_left, lemma_q_add_zero_right, lemma_q_eq_trans,
    lemma_q_wf_ops, o_mul, q_add, q_eq, q_int, q_mul, q_sub, q_wf, Q, Rat,
};
use crate::vector::{
    cp_add, cp_sub, op_add, op_scale, op_sub, p_add, p_scale, p_sub, pt_eq, pt_wf, vec2_opt,
    vec2_opt_wf, Pt, Vector2,
};

verus! {

/// Mathematical quadratic Bezier derivative: `2(1-t)(u-a) + 2t(b-u)`.
pub open spec fn p_quadratic_bezier_derivative(t: Q, a: Pt, u: Pt, b: Pt) -> Pt {
    p_add(
        p_scale(q_mul(q_int(2), q_sub(q_int(1), t)), p_sub(u, a)),
        p_scale(q_mul(q_int(2), t), p_sub(b, u)),
    )
}

/// Checked quadratic Bezier derivative: the same formula, `None` exactly when
/// an intermediate 128-bit product overflows.
pub open spec fn cp_quadratic_bezier_derivative(t: Q, a: Pt, u: Pt, b: Pt) -> Option<Pt> {
    op_add(
        op_scale(o_mul(Some(q_int(2)), c_sub(q_int(1), t)), cp_sub(u, a)),
        op_scale(c_mul(q_int(2), t), cp_sub(b, u)),
    )
}

/// Mathematical cubic Bezier derivative:
/// `3(1-t)^2(u-a) + 6(1-t)t(v-u) + 3t^2(b-v)`.
pub open spec fn p_cubic_bezier_derivative(t: Q, a: Pt, u: Pt, v: Pt, b: Pt) -> Pt {
    let one_t = q_sub(q_int(1), t);
    p_add(
        p_add(
            p_scale(q_mul(q_int(3), q_mul(one_t, one_t)), p_sub(u, a)),
            p_scale(q_mul(q_mul(q_int(6), one_t), t), p_sub(v, u)),
        ),
        p_scale(q_mul(q_int(3), q_mul(t, t)), p_sub(b, v)),
    )
}

/// Checked cubic Bezier derivative.
pub open spec fn cp_cubic_bezier_derivative(t: Q, a: Pt, u: Pt, v: Pt, b: Pt) -> Option<Pt> {
    let one_t = c_sub(q_int(1), t);
    op_add(
        op_add(
            op_scale(o_mul(Some(q_int(3)), o_mul(one_t, one_t)), cp_sub(u, a)),
            op_scale(o_mul(o_mul(Some(q_int(6)), one_t), Some(t)), cp_sub(v, u)),
        ),
        op_scale(o_mul(Some(q_int(3)), c_mul(t, t)), cp_sub(b, v)),
    )
}

/// Mathematical mirrored cubic Bezier derivative: the plain cubic derivative
/// with the reflected control point `2b - v` (an exact algebraic identity by
/// construction).
pub open spec fn p_cubic_bezier_mirrored_derivative(t: Q, a: Pt, u: Pt, v: Pt, b: Pt) -> Pt {
    p_cubic_bezier_derivative(t, a, u, p_sub(p_add(b, b), v), b)
}

/// Checked mirrored cubic Bezier derivative.
pub open spec fn cp_cubic_bezier_mirrored_derivative(
    t: Q,
    a: Pt,
    u: Pt,
    v: Pt,
    b: Pt,
) -> Option<Pt> {
    match op_sub(cp_add(b, b), Some(v)) {
        Some(vp) => cp_cubic_bezier_derivative(t, a, u, vp, b),
        None => None,
    }
}

impl Vector2 {
    /// Derivative of the quadratic Bezier curve through `a`, `u`, `b` at
    /// parameter `t`; `None` only on 128-bit overflow.
    pub fn quadratic_bezier_derivative(t: Rat, a: Vector2, u: Vector2, b: Vector2) -> (r: Option<
        Vector2,
    >)
        requires
            t.wf(),
            a.wf(),
            u.wf(),
            b.wf(),
        ensures
            vec2_opt(r) == cp_quadratic_bezier_derivative(t@, a@, u@, b@),
            vec2_opt_wf(r),
    {
        let one = Rat::from_int(1);
        let two = Rat::from_int(2);
        let one_t = match one.checked_sub(&t) {
            Some(x) => x,
            None => {
                return None;
            },
        };
        let c1 = match two.checked_mul(&one_t) {
            Some(x) => x,
            None => {
                return None;
            },
        };
        let s1 = match u.checked_sub(&a) {
            Some(x) => x,
            None => {
                return None;
            },
        };
        let term1 = match s1.scale(&c1) {
            Some(x) => x,
            None => {
                return None;
            },
        };
        let c2 = match two.checked_mul(&t) {
            Some(x) => x,
            None => {
                return None;
            },
        };
        let s2 = match b.checked_sub(&u) {
            Some(x) => x,
            None => {
                return None;
            },
        };
        let term2 = match s2.scale(&c2) {
            Some(x) => x,
            None => {
                return None;
            },
        };
        term1.checked_add(&term2)
    }

    /// Derivative of the cubic Bezier curve through `a`, `u`, `v`, `b` at
    /// parameter `t`; `None` only on 128-bit overflow.
    pub fn cubic_bezier_derivative(
        t: Rat,
        a: Vector2,
        u: Vector2,
        v: Vector2,
        b: Vector2,
    ) -> (r: Option<Vector2>)
        requires
            t.wf(),
            a.wf(),
            u.wf(),
            v.wf(),
            b.wf(),
        ensures
            vec2_opt(r) == cp_cubic_bezier_derivative(t@, a@, u@, v@, b@),
            vec2_opt_wf(r),
    {
        let one = Rat::from_int(1);
        let three = Rat::from_int(3);
        let six = Rat::from_int(6);
        let one_t = match one.checked_sub(&t) {
            Some(x) => x,
            None => {
                return None;
            },
        };
        let one_t2 = match one_t.checked_mul(&one_t) {
            Some(x) => x,
            None => {
                return None;
            },
        };
        let t2 = match t.checked_mul(&t) {
            Some(x) => x,
            None => {
                return None;
            },
        };
        let c1 = match three.checked_mul(&one_t2) {
            Some(x) => x,
            None => {
                return None;
            },
        };
        let c2a = match six.checked_mul(&one_t) {
            Some(x) => x,
            None => {
                return None;
            },
        };
        let c2 = match c2a.checked_mul(&t) {
            Some(x) => x,
            None => {
                return None;
            },
        };
        let c3 = match three.checked_mul(&t2) {
            Some(x) => x,
            None => {
                return None;
            },
        };
        let s1 = match u.checked_sub(&a) {
            Some(x) => x,
            None => {
                return None;
            },
        };
        let s2 = match v.checked_sub(&u) {
            Some(x) => x,
            None => {
                return None;
            },
        };
        let s3 = match b.checked_sub(&v) {
            Some(x) => x,
            None => {
                return None;
            },
        };
        let term1 = match s1.scale(&c1) {
            Some(x) => x,
            None => {
                return None;
            },
        };
        let term2 = match s2.scale(&c2) {
            Some(x) => x,
            None => {
                return None;
            },
        };
        let term3 = match s3.scale(&c3) {
            Some(x) => x,
            None => {
                return None;
            },
        };
        let sum12 = match term1.checked_add(&term2) {
            Some(x) => x,
            None => {
                return None;
            },
        };
        sum12.checked_add(&term3)
    }

    /// Mirrored cubic Bezier derivative: reflects the second control point to
    /// `2b - v` and takes the plain cubic derivative there.
    pub fn cubic_bezier_mirrored_derivative(
        t: Rat,
        a: Vector2,
        u: Vector2,
        v: Vector2,
        b: Vector2,
    ) -> (r: Option<Vector2>)
        requires
            t.wf(),
            a.wf(),
            u.wf(),
            v.wf(),
            b.wf(),
        ensures
            vec2_opt(r) == cp_cubic_bezier_mirrored_derivative(t@, a@, u@, v@, b@),
            // The mirrored derivative is exactly the plain cubic derivative at
            // the reflected control point.
            op_sub(cp_add(b@, b@), Some(v@)) matches Some(vp) ==> vec2_opt(r)
                == cp_cubic_bezier_derivative(t@, a@, u@, vp, b@),
            vec2_opt_wf(r),
    {
        let bb = match b.checked_add(&b) {
            Some(x) => x,
            None => {
                return None;
            },
        };
        let vp = match bb.checked_sub(&v) {
            Some(x) => x,
            None => {
                return None;
            },
        };
        Vector2::cubic_bezier_derivative(t, a, u, vp, b)
    }
}

/// A checked quadratic derivative that returns a value returns the
/// mathematical one.
pub proof fn lemma_cp_quadratic_sound(t: Q, a: Pt, u: Pt, b: Pt)
    ensures
        cp_quadratic_bezier_derivative(t, a, u, b) matches Some(r) ==> r
            == p_quadratic_bezier_derivative(t, a, u, b),
{
}

/// A checked cubic derivative that returns a value returns the mathematical
/// one.
pub proof fn lemma_cp_cubic_sound(t: Q, a: Pt, u: Pt, v: Pt, b: Pt)
    ensures
        cp_cubic_bezier_derivative(t, a, u, v, b) matches Some(r) ==> r
            == p_cubic_bezier_derivative(t, a, u, v, b),
{
}

/// A checked mirrored derivative that returns a value returns the
/// mathematical one.
pub proof fn lemma_cp_mirrored_sound(t: Q, a: Pt, u: Pt, v: Pt, b: Pt)
    ensures
        cp_cubic_bezier_mirrored_derivative(t, a, u, v, b) matches Some(r) ==> r
            == p_cubic_bezier_mirrored_derivative(t, a, u, v, b),
{
}

/// Adding two fractions with zero numerators to `x`, on the right, changes
/// nothing.
proof fn lemma_q_add_two_zeros_right(x: Q, z2: Q, z3: Q)
    requires
        q_wf(x),
        q_wf(z2),
        q_wf(z3),
        z2.n == 0,
        z3.n == 0,
    ensures
        q_eq(q_add(q_add(x, z2), z3), x),
{
    lemma_q_add_zero_right(x, z2);
    lemma_q_wf_ops(x, z2);
    lemma_q_add_zero_right(q_add(x, z2), z3);
    lemma_q_wf_ops(q_add(x, z2), z3);
    lemma_q_eq_trans(q_add(q_add(x, z2), z3), q_add(x, z2), x);
}

/// At parameter zero the cubic Bezier derivative is three times the first
/// leg, `3 * (u - a)`.
pub proof fn lemma_cubic_derivative_at_zero(a: Pt, u: Pt, v: Pt, b: Pt)
    requires
        pt_wf(a),
        pt_wf(u),
        pt_wf(v),
        pt_wf(b),
    ensures
        pt_eq(
            p_cubic_bezier_derivative(q_int(0), a, u, v, b),
            p_scale(q_int(3), p_sub(u, a)),
        ),
{
    let t = q_int(0);
    let one_t = q_sub(q_int(1), t);
    let c1 = q_mul(q_int(3), q_mul(one_t, one_t));
    let c2 = q_mul(q_mul(q_int(6), one_t), t);
    let c3 = q_mul(q_int(3), q_mul(t, t));
    assert(c1 == q_int(3));
    assert(c2.n == 0);
    assert(c3.n == 0);
    lemma_q_wf_ops(u.x, a.x);
    lemma_q_wf_ops(u.y, a.y);
    lemma_q_wf_ops(v.x, u.x);
    lemma_q_wf_ops(v.y, u.y);
    lemma_q_wf_ops(b.x, v.x);
    lemma_q_wf_ops(b.y, v.y);
    lemma_q_wf_ops(c1, q_sub(u.x, a.x));
    lemma_q_wf_ops(c1, q_sub(u.y, a.y));
    lemma_q_add_two_zeros_right(
        q_mul(c1, q_sub(u.x, a.x)),
        q_mul(c2, q_sub(v.x, u.x)),
        q_mul(c3, q_sub(b.x, v.x)),
    );
    lemma_q_add_two_zeros_right(
        q_mul(c1, q_sub(u.y, a.y)),
        q_mul(c2, q_sub(v.y, u.y)),
        q_mul(c3, q_sub(b.y, v.y)),
    );
}

/// At parameter one the quadratic Bezier derivative is twice the last leg,
/// `2 * (b - u)`.
pub proof fn lemma_quadratic_derivative_at_one(a: Pt, u: Pt, b: Pt)
    requires
        pt_wf(a),
        pt_wf(u),
        pt_wf(b),
    ensures
        pt_eq(
            p_quadratic_bezier_derivative(q_int(1), a, u, b),
            p_scale(q_int(2), p_sub(b, u)),
        ),
{
    let t = q_int(1);
    let c1 = q_mul(q_int(2), q_sub(q_int(1), t));
    let c2 = q_mul(q_int(2), t);
    assert(c1.n == 0);
    assert(c2 == q_int(2));
    lemma_q_wf_ops(u.x, a.x);
    lemma_q_wf_ops(u.y, a.y);
    lemma_q_wf_ops(b.x, u.x);
    lemma_q_wf_ops(b.y, u.y);
    lemma_q_wf_ops(c1, q_sub(u.x, a.x));
    lemma_q_wf_ops(c1, q_sub(u.y, a.y));
    lemma_q_wf_ops(c2, q_sub(b.x, u.x));
    lemma_q_wf_ops(c2, q_sub(b.y, u.y));
    lemma_q_add_zero_left(q_mul(c1, q_sub(u.x, a.x)), q_mul(c2, q_sub(b.x, u.x)));
    lemma_q_add_zero_left(q_mul(c1, q_sub(u.y, a.y)), q_mul(c2, q_sub(b.y, u.y)));
}

} // verus!
