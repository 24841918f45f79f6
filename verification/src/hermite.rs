//! Non-uniform cubic Hermite (Catmull-Rom) interpolation and its derivative.
//!
//! Given four control points `p0..p3` with strictly increasing knot
//! parameters `t0 < t1 < t2 < t3`, the curve through `p1..p2` is built from
//! nested linear blends: three first-level blends `a1, a2, a3`, two
//! second-level blends `b1, b2`, and one final blend. The derivative applies
//! the product rule to the same nested structure. Both operations return
//! `None` when two consecutive knots coincide (the blend would divide by
//! zero) or when a 128-bit intermediate product overflows.

use vstd::prelude::*;

use crate::rational::{
    c_sub, lemma_q_add_congr, lemma_q_add_zero_left, lemma_q_add_zero_right, lemma_q_div_add,
    lemma_q_div_self, lemma_q_eq_trans, lemma_q_lt_ne, lemma_q_lt_trans, lemma_q_mul_congr,
    lemma_q_mul_dist, lemma_q_mul_one_left, lemma_q_sub_add_cancel, lemma_q_sub_congr,
    lemma_q_wf_div, lemma_q_wf_ops, o_div, q_add, q_div, q_eq, q_int, q_lt, q_mul, q_sub, q_wf,
    Q, Rat,
};
use crate::vector::{
    lemma_pt_eq_trans, op_add, op_scale, op_sub, p_scale, p_sub, pt_eq, pt_wf, vec2_opt,
    vec2_opt_wf, Pt, Vector2,
};

verus! {

/// One linear blend level of the non-uniform Catmull-Rom construction, on
/// scalars: `((tj - t)/(tj - ti)) * u + ((t - ti)/(tj - ti)) * v`.
pub open spec fn q_blend(t: Q, ti: Q, tj: Q, u: Q, v: Q) -> Q {
    q_add(
        q_mul(q_div(q_sub(tj, t), q_sub(tj, ti)), u),
        q_mul(q_div(q_sub(t, ti), q_sub(tj, ti)), v),
    )
}

/// One linear blend level on plane vectors, component-wise.
pub open spec fn p_blend(t: Q, ti: Q, tj: Q, u: Pt, v: Pt) -> Pt {
    Pt { x: q_blend(t, ti, tj, u.x, v.x), y: q_blend(t, ti, tj, u.y, v.y) }
}

/// Checked blend level: `None` exactly when a knot difference is zero or a
/// 128-bit intermediate product overflows.
pub open spec fn op_blend(t: Q, ti: Q, tj: Q, u: Option<Pt>, v: Option<Pt>) -> Option<Pt> {
    let den = c_sub(tj, ti);
    op_add(
        op_scale(o_div(c_sub(tj, t), den), u),
        op_scale(o_div(c_sub(t, ti), den), v),
    )
}

/// Difference quotient between two blend levels: `(v - u) / (tj - ti)`.
pub open spec fn p_diff_quot(ti: Q, tj: Q, u: Pt, v: Pt) -> Pt {
    p_scale(q_div(q_int(1), q_sub(tj, ti)), p_sub(v, u))
}

/// Checked difference quotient.
pub open spec fn op_diff_quot(ti: Q, tj: Q, u: Option<Pt>, v: Option<Pt>) -> Option<Pt> {
    op_scale(o_div(Some(q_int(1)), c_sub(tj, ti)), op_sub(v, u))
}

/// Derivative of one blend level by the product rule:
/// `(v - u)/(tj - ti) + ((tj - t)/(tj - ti)) * du + ((t - ti)/(tj - ti)) * dv`
/// where `du`, `dv` are the derivatives of the blended values.
pub open spec fn p_der_blend(t: Q, ti: Q, tj: Q, u: Pt, v: Pt, du: Pt, dv: Pt) -> Pt {
    Pt {
        x: q_add(
            q_add(
                p_diff_quot(ti, tj, u, v).x,
                q_mul(q_div(q_sub(tj, t), q_sub(tj, ti)), du.x),
            ),
            q_mul(q_div(q_sub(t, ti), q_sub(tj, ti)), dv.x),
        ),
        y: q_add(
            q_add(
                p_diff_quot(ti, tj, u, v).y,
                q_mul(q_div(q_sub(tj, t), q_sub(tj, ti)), du.y),
            ),
            q_mul(q_div(q_sub(t, ti), q_sub(tj, ti)), dv.y),
        ),
    }
}

/// Checked derivative of one blend level.
pub open spec fn op_der_blend(
    t: Q,
    ti: Q,
    tj: Q,
    u: Option<Pt>,
    v: Option<Pt>,
    du: Option<Pt>,
    dv: Option<Pt>,
) -> Option<Pt> {
    let den = c_sub(tj, ti);
    op_add(
        op_add(
            op_diff_quot(ti, tj, u, v),
            op_scale(o_div(c_sub(tj, t), den), du),
        ),
        op_scale(o_div(c_sub(t, ti), den), dv),
    )
}

/// Mathematical non-uniform cubic Hermite point at parameter `t`.
pub open spec fn p_cubic_hermite(
    t: Q,
    t0: Q,
    p0: Pt,
    t1: Q,
    p1: Pt,
    t2: Q,
    p2: Pt,
    t3: Q,
    p3: Pt,
) -> Pt {
    let a1 = p_blend(t, t0, t1, p0, p1);
    let a2 = p_blend(t, t1, t2, p1, p2);
    let a3 = p_blend(t, t2, t3, p2, p3);
    let b1 = p_blend(t, t0, t2, a1, a2);
    let b2 = p_blend(t, t1, t3, a2, a3);
    p_blend(t, t1, t2, b1, b2)
}

/// Checked non-uniform cubic Hermite point.
pub open spec fn op_cubic_hermite(
    t: Q,
    t0: Q,
    p0: Pt,
    t1: Q,
    p1: Pt,
    t2: Q,
    p2: Pt,
    t3: Q,
    p3: Pt,
) -> Option<Pt> {
    let a1 = op_blend(t, t0, t1, Some(p0), Some(p1));
    let a2 = op_blend(t, t1, t2, Some(p1), Some(p2));
    let a3 = op_blend(t, t2, t3, Some(p2), Some(p3));
    let b1 = op_blend(t, t0, t2, a1, a2);
    let b2 = op_blend(t, t1, t3, a2, a3);
    op_blend(t, t1, t2, b1, b2)
}

/// Mathematical derivative of the non-uniform cubic Hermite curve.
pub open spec fn p_cubic_hermite_derivative(
    t: Q,
    t0: Q,
    p0: Pt,
    t1: Q,
    p1: Pt,
    t2: Q,
    p2: Pt,
    t3: Q,
    p3: Pt,
) -> Pt {
    let a1 = p_blend(t, t0, t1, p0, p1);
    let a2 = p_blend(t, t1, t2, p1, p2);
    let a3 = p_blend(t, t2, t3, p2, p3);
    let b1 = p_blend(t, t0, t2, a1, a2);
    let b2 = p_blend(t, t1, t3, a2, a3);
    let a1d = p_diff_quot(t0, t1, p0, p1);
    let a2d = p_diff_quot(t1, t2, p1, p2);
    let a3d = p_diff_quot(t2, t3, p2, p3);
    let b1d = p_der_blend(t, t0, t2, a1, a2, a1d, a2d);
    let b2d = p_der_blend(t, t1, t3, a2, a3, a2d, a3d);
    p_der_blend(t, t1, t2, b1, b2, b1d, b2d)
}

/// Checked derivative of the non-uniform cubic Hermite curve.
pub open spec fn op_cubic_hermite_derivative(
    t: Q,
    t0: Q,
    p0: Pt,
    t1: Q,
    p1: Pt,
    t2: Q,
    p2: Pt,
    t3: Q,
    p3: Pt,
) -> Option<Pt> {
    let a1 = op_blend(t, t0, t1, Some(p0), Some(p1));
    let a2 = op_blend(t, t1, t2, Some(p1), Some(p2));
    let a3 = op_blend(t, t2, t3, Some(p2), Some(p3));
    let b1 = op_blend(t, t0, t2, a1, a2);
    let b2 = op_blend(t, t1, t3, a2, a3);
    let a1d = op_diff_quot(t0, t1, Some(p0), Some(p1));
    let a2d = op_diff_quot(t1, t2, Some(p1), Some(p2));
    let a3d = op_diff_quot(t2, t3, Some(p2), Some(p3));
    let b1d = op_der_blend(t, t0, t2, a1, a2, a1d, a2d);
    let b2d = op_der_blend(t, t1, t3, a2, a3, a2d, a3d);
    op_der_blend(t, t1, t2, b1, b2, b1d, b2d)
}

/// One executable blend level.
fn blend(t: &Rat, ti: &Rat, tj: &Rat, u: &Vector2, v: &Vector2) -> (r: Option<Vector2>)
    requires
        t.wf(),
        ti.wf(),
        tj.wf(),
        u.wf(),
        v.wf(),
    ensures
        vec2_opt(r) == op_blend(t@, ti@, tj@, Some(u@), Some(v@)),
        vec2_opt_wf(r),
{
    let den = match tj.checked_sub(ti) {
        Some(x) => x,
        None => {
            return None;
        },
    };
    let n1 = match tj.checked_sub(t) {
        Some(x) => x,
        None => {
            return None;
        },
    };
    let c1 = match n1.checked_div(&den) {
        Some(x) => x,
        None => {
            return None;
        },
    };
    let term1 = match u.scale(&c1) {
        Some(x) => x,
        None => {
            return None;
        },
    };
    let n2 = match t.checked_sub(ti) {
        Some(x) => x,
        None => {
            return None;
        },
    };
    let c2 = match n2.checked_div(&den) {
        Some(x) => x,
        None => {
            return None;
        },
    };
    let term2 = match v.scale(&c2) {
        Some(x) => x,
        None => {
            return None;
        },
    };
    term1.checked_add(&term2)
}

/// One executable difference quotient.
fn diff_quot(ti: &Rat, tj: &Rat, u: &Vector2, v: &Vector2) -> (r: Option<Vector2>)
    requires
        ti.wf(),
        tj.wf(),
        u.wf(),
        v.wf(),
    ensures
        vec2_opt(r) == op_diff_quot(ti@, tj@, Some(u@), Some(v@)),
        vec2_opt_wf(r),
{
    let den = match tj.checked_sub(ti) {
        Some(x) => x,
        None => {
            return None;
        },
    };
    let one = Rat::from_int(1);
    let c = match one.checked_div(&den) {
        Some(x) => x,
        None => {
            return None;
        },
    };
    let s = match v.checked_sub(u) {
        Some(x) => x,
        None => {
            return None;
        },
    };
    s.scale(&c)
}

/// One executable blend-level derivative.
fn der_blend(
    t: &Rat,
    ti: &Rat,
    tj: &Rat,
    u: &Vector2,
    v: &Vector2,
    du: &Vector2,
    dv: &Vector2,
) -> (r: Option<Vector2>)
    requires
        t.wf(),
        ti.wf(),
        tj.wf(),
        u.wf(),
        v.wf(),
        du.wf(),
        dv.wf(),
    ensures
        vec2_opt(r) == op_der_blend(t@, ti@, tj@, Some(u@), Some(v@), Some(du@), Some(dv@)),
        vec2_opt_wf(r),
{
    let dq = match diff_quot(ti, tj, u, v) {
        Some(x) => x,
        None => {
            return None;
        },
    };
    let den = match tj.checked_sub(ti) {
        Some(x) => x,
        None => {
            return None;
        },
    };
    let n1 = match tj.checked_sub(t) {
        Some(x) => x,
        None => {
            return None;
        },
    };
    let c1 = match n1.checked_div(&den) {
        Some(x) => x,
        None => {
            return None;
        },
    };
    let term1 = match du.scale(&c1) {
        Some(x) => x,
        None => {
            return None;
        },
    };
    let n2 = match t.checked_sub(ti) {
        Some(x) => x,
        None => {
            return None;
        },
    };
    let c2 = match n2.checked_div(&den) {
        Some(x) => x,
        None => {
            return None;
        },
    };
    let term2 = match dv.scale(&c2) {
        Some(x) => x,
        None => {
            return None;
        },
    };
    let sum1 = match dq.checked_add(&term1) {
        Some(x) => x,
        None => {
            return None;
        },
    };
    sum1.checked_add(&term2)
}

impl Vector2 {
    /// Point on the non-uniform Catmull-Rom curve through the interior
    /// control points at parameter `t`; the four tuples pair each control
    /// point with its knot parameter. `None` when two consecutive knots
    /// coincide or a 128-bit intermediate product overflows.
    pub fn cubic_hermite(
        x: (Vector2, Rat),
        a: (Vector2, Rat),
        b: (Vector2, Rat),
        y: (Vector2, Rat),
        t: Rat,
    ) -> (r: Option<Vector2>)
        requires
            x.0.wf(),
            x.1.wf(),
            a.0.wf(),
            a.1.wf(),
            b.0.wf(),
            b.1.wf(),
            y.0.wf(),
            y.1.wf(),
            t.wf(),
        ensures
            vec2_opt(r) == op_cubic_hermite(
                t@,
                x.1@,
                x.0@,
                a.1@,
                a.0@,
                b.1@,
                b.0@,
                y.1@,
                y.0@,
            ),
            q_eq(x.1@, a.1@) || q_eq(a.1@, b.1@) || q_eq(b.1@, y.1@) ==> r is None,
            vec2_opt_wf(r),
    {
        let (p0, t0) = x;
        let (p1, t1) = a;
        let (p2, t2) = b;
        let (p3, t3) = y;
        proof {
            lemma_op_hermite_none_on_equal_knots(
                t@,
                t0@,
                p0@,
                t1@,
                p1@,
                t2@,
                p2@,
                t3@,
                p3@,
            );
        }
        let a1 = match blend(&t, &t0, &t1, &p0, &p1) {
            Some(w) => w,
            None => {
                return None;
            },
        };
        let a2 = match blend(&t, &t1, &t2, &p1, &p2) {
            Some(w) => w,
            None => {
                return None;
            },
        };
        let a3 = match blend(&t, &t2, &t3, &p2, &p3) {
            Some(w) => w,
            None => {
                return None;
            },
        };
        let b1 = match blend(&t, &t0, &t2, &a1, &a2) {
            Some(w) => w,
            None => {
                return None;
            },
        };
        let b2 = match blend(&t, &t1, &t3, &a2, &a3) {
            Some(w) => w,
            None => {
                return None;
            },
        };
        blend(&t, &t1, &t2, &b1, &b2)
    }

    /// Derivative of the non-uniform Catmull-Rom curve at parameter `t`, for
    /// explicitly parameterized control points `(knot, point)`. `None` when
    /// two consecutive knots coincide or a 128-bit intermediate product
    /// overflows.
    pub fn cubic_hermite_derivative(
        t: Rat,
        x: (Rat, Vector2),
        a: (Rat, Vector2),
        b: (Rat, Vector2),
        y: (Rat, Vector2),
    ) -> (r: Option<Vector2>)
        requires
            t.wf(),
            x.0.wf(),
            x.1.wf(),
            a.0.wf(),
            a.1.wf(),
            b.0.wf(),
            b.1.wf(),
            y.0.wf(),
            y.1.wf(),
        ensures
            vec2_opt(r) == op_cubic_hermite_derivative(
                t@,
                x.0@,
                x.1@,
                a.0@,
                a.1@,
                b.0@,
                b.1@,
                y.0@,
                y.1@,
            ),
            q_eq(x.0@, a.0@) || q_eq(a.0@, b.0@) || q_eq(b.0@, y.0@) ==> r is None,
            vec2_opt_wf(r),
    {
        let (t0, p0) = x;
        let (t1, p1) = a;
        let (t2, p2) = b;
        let (t3, p3) = y;
        proof {
            lemma_op_hermite_derivative_none_on_equal_knots(
                t@,
                t0@,
                p0@,
                t1@,
                p1@,
                t2@,
                p2@,
                t3@,
                p3@,
            );
        }
        let a1 = match blend(&t, &t0, &t1, &p0, &p1) {
            Some(w) => w,
            None => {
                return None;
            },
        };
        let a2 = match blend(&t, &t1, &t2, &p1, &p2) {
            Some(w) => w,
            None => {
                return None;
            },
        };
        let a3 = match blend(&t, &t2, &t3, &p2, &p3) {
            Some(w) => w,
            None => {
                return None;
            },
        };
        let b1 = match blend(&t, &t0, &t2, &a1, &a2) {
            Some(w) => w,
            None => {
                return None;
            },
        };
        let b2 = match blend(&t, &t1, &t3, &a2, &a3) {
            Some(w) => w,
            None => {
                return None;
            },
        };
        let a1d = match diff_quot(&t0, &t1, &p0, &p1) {
            Some(w) => w,
            None => {
                return None;
            },
        };
        let a2d = match diff_quot(&t1, &t2, &p1, &p2) {
            Some(w) => w,
            None => {
                return None;
            },
        };
        let a3d = match diff_quot(&t2, &t3, &p2, &p3) {
            Some(w) => w,
            None => {
                return None;
            },
        };
        let b1d = match der_blend(&t, &t0, &t2, &a1, &a2, &a1d, &a2d) {
            Some(w) => w,
            None => {
                return None;
            },
        };
        let b2d = match der_blend(&t, &t1, &t3, &a2, &a3, &a2d, &a3d) {
            Some(w) => w,
            None => {
                return None;
            },
        };
        der_blend(&t, &t1, &t2, &b1, &b2, &b1d, &b2d)
    }
}

/// When two consecutive knots denote the same rational, the checked Hermite
/// point is absent: the blend that divides by their difference fails.
pub proof fn lemma_op_hermite_none_on_equal_knots(
    t: Q,
    t0: Q,
    p0: Pt,
    t1: Q,
    p1: Pt,
    t2: Q,
    p2: Pt,
    t3: Q,
    p3: Pt,
)
    ensures
        q_eq(t0, t1) || q_eq(t1, t2) || q_eq(t2, t3) ==> op_cubic_hermite(
            t,
            t0,
            p0,
            t1,
            p1,
            t2,
            p2,
            t3,
            p3,
        ) is None,
{
    if q_eq(t0, t1) {
        assert(op_blend(t, t0, t1, Some(p0), Some(p1)) is None);
    }
    if q_eq(t1, t2) {
        assert(op_blend(t, t1, t2, Some(p1), Some(p2)) is None);
    }
    if q_eq(t2, t3) {
        assert(op_blend(t, t2, t3, Some(p2), Some(p3)) is None);
    }
}

/// When two consecutive knots denote the same rational, the checked Hermite
/// derivative is absent.
pub proof fn lemma_op_hermite_derivative_none_on_equal_knots(
    t: Q,
    t0: Q,
    p0: Pt,
    t1: Q,
    p1: Pt,
    t2: Q,
    p2: Pt,
    t3: Q,
    p3: Pt,
)
    ensures
        q_eq(t0, t1) || q_eq(t1, t2) || q_eq(t2, t3) ==> op_cubic_hermite_derivative(
            t,
            t0,
            p0,
            t1,
            p1,
            t2,
            p2,
            t3,
            p3,
        ) is None,
{
    if q_eq(t0, t1) {
        assert(op_blend(t, t0, t1, Some(p0), Some(p1)) is None);
    }
    if q_eq(t1, t2) {
        assert(op_blend(t, t1, t2, Some(p1), Some(p2)) is None);
    }
    if q_eq(t2, t3) {
        assert(op_blend(t, t2, t3, Some(p2), Some(p3)) is None);
    }
}

/// A checked blend that returns a value returns the mathematical one.
pub proof fn lemma_op_blend_sound(t: Q, ti: Q, tj: Q, u: Pt, v: Pt)
    ensures
        op_blend(t, ti, tj, Some(u), Some(v)) matches Some(w) ==> w == p_blend(t, ti, tj, u, v),
{
}

/// A checked difference quotient that returns a value returns the
/// mathematical one.
pub proof fn lemma_op_diff_quot_sound(ti: Q, tj: Q, u: Pt, v: Pt)
    ensures
        op_diff_quot(ti, tj, Some(u), Some(v)) matches Some(w) ==> w == p_diff_quot(
            ti,
            tj,
            u,
            v,
        ),
{
}

/// A checked blend-level derivative that returns a value returns the
/// mathematical one.
pub proof fn lemma_op_der_blend_sound(t: Q, ti: Q, tj: Q, u: Pt, v: Pt, du: Pt, dv: Pt)
    ensures
        op_der_blend(t, ti, tj, Some(u), Some(v), Some(du), Some(dv)) matches Some(w) ==> w
            == p_der_blend(t, ti, tj, u, v, du, dv),
{
}

/// A checked Hermite point that is present is the mathematical one.
pub proof fn lemma_op_cubic_hermite_sound(
    t: Q,
    t0: Q,
    p0: Pt,
    t1: Q,
    p1: Pt,
    t2: Q,
    p2: Pt,
    t3: Q,
    p3: Pt,
)
    ensures
        op_cubic_hermite(t, t0, p0, t1, p1, t2, p2, t3, p3) matches Some(w) ==> w
            == p_cubic_hermite(t, t0, p0, t1, p1, t2, p2, t3, p3),
{
    let a1o = op_blend(t, t0, t1, Some(p0), Some(p1));
    let a2o = op_blend(t, t1, t2, Some(p1), Some(p2));
    let a3o = op_blend(t, t2, t3, Some(p2), Some(p3));
    if op_cubic_hermite(t, t0, p0, t1, p1, t2, p2, t3, p3) is Some {
        lemma_op_blend_sound(t, t0, t1, p0, p1);
        lemma_op_blend_sound(t, t1, t2, p1, p2);
        lemma_op_blend_sound(t, t2, t3, p2, p3);
        match (a1o, a2o, a3o) {
            (Some(a1), Some(a2), Some(a3)) => {
                lemma_op_blend_sound(t, t0, t2, a1, a2);
                lemma_op_blend_sound(t, t1, t3, a2, a3);
                match (op_blend(t, t0, t2, a1o, a2o), op_blend(t, t1, t3, a2o, a3o)) {
                    (Some(b1), Some(b2)) => {
                        lemma_op_blend_sound(t, t1, t2, b1, b2);
                    },
                    _ => {},
                }
            },
            _ => {},
        }
    }
}

/// A checked Hermite derivative that is present is the mathematical one.
pub proof fn lemma_op_cubic_hermite_derivative_sound(
    t: Q,
    t0: Q,
    p0: Pt,
    t1: Q,
    p1: Pt,
    t2: Q,
    p2: Pt,
    t3: Q,
    p3: Pt,
)
    ensures
        op_cubic_hermite_derivative(t, t0, p0, t1, p1, t2, p2, t3, p3) matches Some(w) ==> w
            == p_cubic_hermite_derivative(t, t0, p0, t1, p1, t2, p2, t3, p3),
{
    let a1o = op_blend(t, t0, t1, Some(p0), Some(p1));
    let a2o = op_blend(t, t1, t2, Some(p1), Some(p2));
    let a3o = op_blend(t, t2, t3, Some(p2), Some(p3));
    let a1do = op_diff_quot(t0, t1, Some(p0), Some(p1));
    let a2do = op_diff_quot(t1, t2, Some(p1), Some(p2));
    let a3do = op_diff_quot(t2, t3, Some(p2), Some(p3));
    if op_cubic_hermite_derivative(t, t0, p0, t1, p1, t2, p2, t3, p3) is Some {
        lemma_op_blend_sound(t, t0, t1, p0, p1);
        lemma_op_blend_sound(t, t1, t2, p1, p2);
        lemma_op_blend_sound(t, t2, t3, p2, p3);
        lemma_op_diff_quot_sound(t0, t1, p0, p1);
        lemma_op_diff_quot_sound(t1, t2, p1, p2);
        lemma_op_diff_quot_sound(t2, t3, p2, p3);
        match (a1o, a2o, a3o, a1do, a2do, a3do) {
            (Some(a1), Some(a2), Some(a3), Some(a1d), Some(a2d), Some(a3d)) => {
                lemma_op_blend_sound(t, t0, t2, a1, a2);
                lemma_op_blend_sound(t, t1, t3, a2, a3);
                lemma_op_der_blend_sound(t, t0, t2, a1, a2, a1d, a2d);
                lemma_op_der_blend_sound(t, t1, t3, a2, a3, a2d, a3d);
                match (
                    op_blend(t, t0, t2, a1o, a2o),
                    op_blend(t, t1, t3, a2o, a3o),
                    op_der_blend(t, t0, t2, a1o, a2o, a1do, a2do),
                    op_der_blend(t, t1, t3, a2o, a3o, a2do, a3do),
                ) {
                    (Some(b1), Some(b2), Some(b1d), Some(b2d)) => {
                        lemma_op_der_blend_sound(t, t1, t2, b1, b2, b1d, b2d);
                    },
                    _ => {},
                }
            },
            _ => {},
        }
    }
}

/// Well-formedness of one scalar blend level.
proof fn lemma_q_blend_wf(t: Q, ti: Q, tj: Q, u: Q, v: Q)
    requires
        q_wf(t),
        q_wf(ti),
        q_wf(tj),
        q_wf(u),
        q_wf(v),
        !q_eq(ti, tj),
    ensures
        q_wf(q_blend(t, ti, tj, u, v)),
{
    let d = q_sub(tj, ti);
    lemma_q_wf_ops(tj, ti);
    lemma_q_wf_ops(tj, t);
    lemma_q_wf_ops(t, ti);
    assert(d.n != 0);
    lemma_q_wf_div(q_sub(tj, t), d);
    lemma_q_wf_div(q_sub(t, ti), d);
    lemma_q_wf_ops(q_div(q_sub(tj, t), d), u);
    lemma_q_wf_ops(q_div(q_sub(t, ti), d), v);
    lemma_q_wf_ops(q_mul(q_div(q_sub(tj, t), d), u), q_mul(q_div(q_sub(t, ti), d), v));
}

/// At `t` equal to the lower knot the blend returns its first operand.
proof fn lemma_q_blend_left(t: Q, ti: Q, tj: Q, u: Q, v: Q)
    requires
        q_wf(t),
        q_wf(ti),
        q_wf(tj),
        q_wf(u),
        q_wf(v),
        q_eq(t, ti),
        !q_eq(ti, tj),
    ensures
        q_eq(q_blend(t, ti, tj, u, v), u),
{
    let d = q_sub(tj, ti);
    let x1 = q_sub(tj, t);
    let x2 = q_sub(t, ti);
    let c1 = q_div(x1, d);
    let c2 = q_div(x2, d);
    let m1 = q_mul(c1, u);
    let m2 = q_mul(c2, v);
    lemma_q_wf_ops(tj, ti);
    lemma_q_wf_ops(tj, t);
    lemma_q_wf_ops(t, ti);
    assert(d.n != 0);
    lemma_q_wf_div(x1, d);
    lemma_q_wf_div(x2, d);
    lemma_q_wf_ops(c1, u);
    lemma_q_wf_ops(c2, v);
    lemma_q_wf_ops(m1, m2);
    assert(x2.n == 0);
    assert(x2.n * d.d == 0) by (nonlinear_arith)
        requires
            x2.n == 0,
    ;
    assert(c2.n == 0);
    assert(m2.n == 0) by (nonlinear_arith)
        requires
            c2.n == 0,
            m2.n == c2.n * v.n,
    ;
    lemma_q_add_zero_right(m1, m2);
    lemma_q_sub_congr(tj, tj, t, ti);
    lemma_q_div_self(x1, d);
    lemma_q_mul_one_left(c1, u);
    lemma_q_eq_trans(q_add(m1, m2), m1, u);
}

/// At `t` equal to the upper knot the blend returns its second operand.
proof fn lemma_q_blend_right(t: Q, ti: Q, tj: Q, u: Q, v: Q)
    requires
        q_wf(t),
        q_wf(ti),
        q_wf(tj),
        q_wf(u),
        q_wf(v),
        q_eq(t, tj),
        !q_eq(ti, tj),
    ensures
        q_eq(q_blend(t, ti, tj, u, v), v),
{
    let d = q_sub(tj, ti);
    let x1 = q_sub(tj, t);
    let x2 = q_sub(t, ti);
    let c1 = q_div(x1, d);
    let c2 = q_div(x2, d);
    let m1 = q_mul(c1, u);
    let m2 = q_mul(c2, v);
    lemma_q_wf_ops(tj, ti);
    lemma_q_wf_ops(tj, t);
    lemma_q_wf_ops(t, ti);
    assert(d.n != 0);
    lemma_q_wf_div(x1, d);
    lemma_q_wf_div(x2, d);
    lemma_q_wf_ops(c1, u);
    lemma_q_wf_ops(c2, v);
    lemma_q_wf_ops(m1, m2);
    assert(x1.n == 0);
    assert(x1.n * d.d == 0) by (nonlinear_arith)
        requires
            x1.n == 0,
    ;
    assert(c1.n == 0);
    assert(m1.n == 0) by (nonlinear_arith)
        requires
            c1.n == 0,
            m1.n == c1.n * u.n,
    ;
    lemma_q_add_zero_left(m1, m2);
    lemma_q_sub_congr(t, tj, ti, ti);
    lemma_q_div_self(x2, d);
    lemma_q_mul_one_left(c2, v);
    lemma_q_eq_trans(q_add(m1, m2), m2, v);
}

/// A blend of two operands that both denote `w` denotes `w`: the two
/// coefficients sum to one.
proof fn lemma_q_blend_same(t: Q, ti: Q, tj: Q, u: Q, v: Q, w: Q)
    requires
        q_wf(t),
        q_wf(ti),
        q_wf(tj),
        q_wf(u),
        q_wf(v),
        q_wf(w),
        q_eq(u, w),
        q_eq(v, w),
        !q_eq(ti, tj),
    ensures
        q_eq(q_blend(t, ti, tj, u, v), w),
{
    let d = q_sub(tj, ti);
    let x1 = q_sub(tj, t);
    let x2 = q_sub(t, ti);
    let c1 = q_div(x1, d);
    let c2 = q_div(x2, d);
    let m1 = q_mul(c1, u);
    let m2 = q_mul(c2, v);
    lemma_q_wf_ops(tj, ti);
    lemma_q_wf_ops(tj, t);
    lemma_q_wf_ops(t, ti);
    assert(d.n != 0);
    lemma_q_wf_div(x1, d);
    lemma_q_wf_div(x2, d);
    lemma_q_wf_ops(c1, u);
    lemma_q_wf_ops(c2, v);
    lemma_q_wf_ops(c1, w);
    lemma_q_wf_ops(c2, w);
    lemma_q_wf_ops(m1, m2);
    lemma_q_wf_ops(q_mul(c1, w), q_mul(c2, w));
    lemma_q_wf_ops(c1, c2);
    lemma_q_wf_ops(x1, x2);
    lemma_q_mul_congr(c1, c1, u, w);
    lemma_q_mul_congr(c2, c2, v, w);
    lemma_q_add_congr(m1, q_mul(c1, w), m2, q_mul(c2, w));
    lemma_q_mul_dist(c1, c2, w);
    lemma_q_sub_add_cancel(tj, t, ti);
    lemma_q_div_add(x1, x2, d);
    lemma_q_div_self(q_add(x1, x2), d);
    lemma_q_wf_div(q_add(x1, x2), d);
    lemma_q_eq_trans(q_add(c1, c2), q_div(q_add(x1, x2), d), q_int(1));
    lemma_q_mul_one_left(q_add(c1, c2), w);
    lemma_q_wf_ops(q_add(c1, c2), w);
    lemma_q_eq_trans(
        q_add(m1, m2),
        q_add(q_mul(c1, w), q_mul(c2, w)),
        q_mul(q_add(c1, c2), w),
    );
    lemma_q_eq_trans(q_add(m1, m2), q_mul(q_add(c1, c2), w), w);
}

/// Well-formedness of one vector blend level.
pub proof fn lemma_p_blend_wf(t: Q, ti: Q, tj: Q, u: Pt, v: Pt)
    requires
        q_wf(t),
        q_wf(ti),
        q_wf(tj),
        pt_wf(u),
        pt_wf(v),
        !q_eq(ti, tj),
    ensures
        pt_wf(p_blend(t, ti, tj, u, v)),
{
    lemma_q_blend_wf(t, ti, tj, u.x, v.x);
    lemma_q_blend_wf(t, ti, tj, u.y, v.y);
}

/// At `t` equal to the lower knot the vector blend returns its first operand.
pub proof fn lemma_p_blend_left(t: Q, ti: Q, tj: Q, u: Pt, v: Pt)
    requires
        q_wf(t),
        q_wf(ti),
        q_wf(tj),
        pt_wf(u),
        pt_wf(v),
        q_eq(t, ti),
        !q_eq(ti, tj),
    ensures
        pt_eq(p_blend(t, ti, tj, u, v), u),
{
    lemma_q_blend_left(t, ti, tj, u.x, v.x);
    lemma_q_blend_left(t, ti, tj, u.y, v.y);
}

/// At `t` equal to the upper knot the vector blend returns its second
/// operand.
pub proof fn lemma_p_blend_right(t: Q, ti: Q, tj: Q, u: Pt, v: Pt)
    requires
        q_wf(t),
        q_wf(ti),
        q_wf(tj),
        pt_wf(u),
        pt_wf(v),
        q_eq(t, tj),
        !q_eq(ti, tj),
    ensures
        pt_eq(p_blend(t, ti, tj, u, v), v),
{
    lemma_q_blend_right(t, ti, tj, u.x, v.x);
    lemma_q_blend_right(t, ti, tj, u.y, v.y);
}

/// A vector blend of two operands that both denote `w` denotes `w`.
pub proof fn lemma_p_blend_same(t: Q, ti: Q, tj: Q, u: Pt, v: Pt, w: Pt)
    requires
        q_wf(t),
        q_wf(ti),
        q_wf(tj),
        pt_wf(u),
        pt_wf(v),
        pt_wf(w),
        pt_eq(u, w),
        pt_eq(v, w),
        !q_eq(ti, tj),
    ensures
        pt_eq(p_blend(t, ti, tj, u, v), w),
{
    lemma_q_blend_same(t, ti, tj, u.x, v.x, w.x);
    lemma_q_blend_same(t, ti, tj, u.y, v.y, w.y);
}

/// At the first interior knot the Hermite curve passes through the first
/// interior control point: `t == t1` gives `p1`.
pub proof fn lemma_hermite_interpolates_first(
    t: Q,
    t0: Q,
    p0: Pt,
    t1: Q,
    p1: Pt,
    t2: Q,
    p2: Pt,
    t3: Q,
    p3: Pt,
)
    requires
        q_wf(t),
        q_wf(t0),
        q_wf(t1),
        q_wf(t2),
        q_wf(t3),
        pt_wf(p0),
        pt_wf(p1),
        pt_wf(p2),
        pt_wf(p3),
        q_lt(t0, t1),
        q_lt(t1, t2),
        q_lt(t2, t3),
        q_eq(t, t1),
    ensures
        pt_eq(p_cubic_hermite(t, t0, p0, t1, p1, t2, p2, t3, p3), p1),
{
    lemma_q_lt_trans(t0, t1, t2);
    lemma_q_lt_trans(t1, t2, t3);
    lemma_q_lt_ne(t0, t1);
    lemma_q_lt_ne(t1, t2);
    lemma_q_lt_ne(t2, t3);
    lemma_q_lt_ne(t0, t2);
    lemma_q_lt_ne(t1, t3);
    let a1 = p_blend(t, t0, t1, p0, p1);
    let a2 = p_blend(t, t1, t2, p1, p2);
    let a3 = p_blend(t, t2, t3, p2, p3);
    let b1 = p_blend(t, t0, t2, a1, a2);
    let b2 = p_blend(t, t1, t3, a2, a3);
    let r = p_blend(t, t1, t2, b1, b2);
    lemma_p_blend_wf(t, t0, t1, p0, p1);
    lemma_p_blend_wf(t, t1, t2, p1, p2);
    lemma_p_blend_wf(t, t2, t3, p2, p3);
    lemma_p_blend_wf(t, t0, t2, a1, a2);
    lemma_p_blend_wf(t, t1, t3, a2, a3);
    lemma_p_blend_right(t, t0, t1, p0, p1);
    lemma_p_blend_left(t, t1, t2, p1, p2);
    lemma_p_blend_same(t, t0, t2, a1, a2, p1);
    lemma_p_blend_left(t, t1, t3, a2, a3);
    lemma_pt_eq_trans(b2, a2, p1);
    lemma_p_blend_wf(t, t1, t2, b1, b2);
    lemma_p_blend_left(t, t1, t2, b1, b2);
    lemma_pt_eq_trans(r, b1, p1);
}

/// At the second interior knot the Hermite curve passes through the second
/// interior control point: `t == t2` gives `p2`.
pub proof fn lemma_hermite_interpolates_second(
    t: Q,
    t0: Q,
    p0: Pt,
    t1: Q,
    p1: Pt,
    t2: Q,
    p2: Pt,
    t3: Q,
    p3: Pt,
)
    requires
        q_wf(t),
        q_wf(t0),
        q_wf(t1),
        q_wf(t2),
        q_wf(t3),
        pt_wf(p0),
        pt_wf(p1),
        pt_wf(p2),
        pt_wf(p3),
        q_lt(t0, t1),
        q_lt(t1, t2),
        q_lt(t2, t3),
        q_eq(t, t2),
    ensures
        pt_eq(p_cubic_hermite(t, t0, p0, t1, p1, t2, p2, t3, p3), p2),
{
    lemma_q_lt_trans(t0, t1, t2);
    lemma_q_lt_trans(t1, t2, t3);
    lemma_q_lt_ne(t0, t1);
    lemma_q_lt_ne(t1, t2);
    lemma_q_lt_ne(t2, t3);
    lemma_q_lt_ne(t0, t2);
    lemma_q_lt_ne(t1, t3);
    let a1 = p_blend(t, t0, t1, p0, p1);
    let a2 = p_blend(t, t1, t2, p1, p2);
    let a3 = p_blend(t, t2, t3, p2, p3);
    let b1 = p_blend(t, t0, t2, a1, a2);
    let b2 = p_blend(t, t1, t3, a2, a3);
    let r = p_blend(t, t1, t2, b1, b2);
    lemma_p_blend_wf(t, t0, t1, p0, p1);
    lemma_p_blend_wf(t, t1, t2, p1, p2);
    lemma_p_blend_wf(t, t2, t3, p2, p3);
    lemma_p_blend_wf(t, t0, t2, a1, a2);
    lemma_p_blend_wf(t, t1, t3, a2, a3);
    lemma_p_blend_right(t, t1, t2, p1, p2);
    lemma_p_blend_left(t, t2, t3, p2, p3);
    lemma_p_blend_right(t, t0, t2, a1, a2);
    lemma_pt_eq_trans(b1, a2, p2);
    lemma_p_blend_same(t, t1, t3, a2, a3, p2);
    lemma_p_blend_wf(t, t1, t2, b1, b2);
    lemma_p_blend_right(t, t1, t2, b1, b2);
    lemma_pt_eq_trans(r, b2, p2);
}

} // verus!
