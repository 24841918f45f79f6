//! Two-dimensional vectors over exact rational scalars.

use vstd::prelude::*;

use crate::rational::{
    c_add, c_div, c_mul, c_sub, lemma_q_eq_trans, q_add, q_div, q_eq, q_mul, q_sub, q_wf,
    rat_opt, rat_opt_wf, Q, Rat,
};

verus! {

/// Mathematical value of a two-dimensional rational vector.
pub ghost struct Pt {
    pub x: Q,
    pub y: Q,
}

/// Both components are well-formed rationals.
pub open spec fn pt_wf(p: Pt) -> bool {
    q_wf(p.x) && q_wf(p.y)
}

/// The two vectors denote the same point, component-wise.
pub open spec fn pt_eq(a: Pt, b: Pt) -> bool {
    q_eq(a.x, b.x) && q_eq(a.y, b.y)
}

/// Component-wise sum.
pub open spec fn p_add(a: Pt, b: Pt) -> Pt {
    Pt { x: q_add(a.x, b.x), y: q_add(a.y, b.y) }
}

/// Component-wise difference.
pub open spec fn p_sub(a: Pt, b: Pt) -> Pt {
    Pt { x: q_sub(a.x, b.x), y: q_sub(a.y, b.y) }
}

/// Scalar times vector.
pub open spec fn p_scale(k: Q, p: Pt) -> Pt {
    Pt { x: q_mul(k, p.x), y: q_mul(k, p.y) }
}

/// Vector times scalar.
pub open spec fn p_outer_mul(p: Pt, t: Q) -> Pt {
    Pt { x: q_mul(p.x, t), y: q_mul(p.y, t) }
}

/// Vector divided by scalar.
pub open spec fn p_outer_div(p: Pt, t: Q) -> Pt {
    Pt { x: q_div(p.x, t), y: q_div(p.y, t) }
}

/// The z-component of the cross product of two plane vectors; zero exactly
/// when the vectors are collinear.
pub open spec fn p_cross(a: Pt, b: Pt) -> Q {
    q_sub(q_mul(a.x, b.y), q_mul(a.y, b.x))
}

/// Checked component-wise sum.
pub open spec fn cp_add(a: Pt, b: Pt) -> Option<Pt> {
    match (c_add(a.x, b.x), c_add(a.y, b.y)) {
        (Some(x), Some(y)) => Some(Pt { x, y }),
        _ => None,
    }
}

/// Checked component-wise difference.
pub open spec fn cp_sub(a: Pt, b: Pt) -> Option<Pt> {
    match (c_sub(a.x, b.x), c_sub(a.y, b.y)) {
        (Some(x), Some(y)) => Some(Pt { x, y }),
        _ => None,
    }
}

/// Checked scalar times vector.
pub open spec fn cp_scale(k: Q, p: Pt) -> Option<Pt> {
    match (c_mul(k, p.x), c_mul(k, p.y)) {
        (Some(x), Some(y)) => Some(Pt { x, y }),
        _ => None,
    }
}

/// Checked vector times scalar.
pub open spec fn cp_outer_mul(p: Pt, t: Q) -> Option<Pt> {
    match (c_mul(p.x, t), c_mul(p.y, t)) {
        (Some(x), Some(y)) => Some(Pt { x, y }),
        _ => None,
    }
}

/// Checked vector divided by scalar.
pub open spec fn cp_outer_div(p: Pt, t: Q) -> Option<Pt> {
    match (c_div(p.x, t), c_div(p.y, t)) {
        (Some(x), Some(y)) => Some(Pt { x, y }),
        _ => None,
    }
}

/// Lifts `cp_add` over absent operands.
pub open spec fn op_add(a: Option<Pt>, b: Option<Pt>) -> Option<Pt> {
    match (a, b) {
        (Some(x), Some(y)) => cp_add(x, y),
        _ => None,
    }
}

/// Lifts `cp_sub` over absent operands.
pub open spec fn op_sub(a: Option<Pt>, b: Option<Pt>) -> Option<Pt> {
    match (a, b) {
        (Some(x), Some(y)) => cp_sub(x, y),
        _ => None,
    }
}

/// Lifts `cp_scale` over absent operands.
pub open spec fn op_scale(k: Option<Q>, p: Option<Pt>) -> Option<Pt> {
    match (k, p) {
        (Some(x), Some(y)) => cp_scale(x, y),
        _ => None,
    }
}

/// `pt_eq` is transitive over well-formed vectors.
pub proof fn lemma_pt_eq_trans(a: Pt, b: Pt, c: Pt)
    requires
        pt_wf(a),
        pt_wf(b),
        pt_wf(c),
        pt_eq(a, b),
        pt_eq(b, c),
    ensures
        pt_eq(a, c),
{
    lemma_q_eq_trans(a.x, b.x, c.x);
    lemma_q_eq_trans(a.y, b.y, c.y);
}

/// Two-dimensional vector with exact rational components.
#[derive(Clone, Copy, Debug)]
pub struct Vector2 {
    pub x: Rat,
    pub y: Rat,
}

impl View for Vector2 {
    type V = Pt;

    open spec fn view(&self) -> Pt {
        Pt { x: self.x@, y: self.y@ }
    }
}

/// The mathematical values of an optional vector result.
pub open spec fn vec2_opt(r: Option<Vector2>) -> Option<Pt> {
    match r {
        Some(v) => Some(v@),
        None => None,
    }
}

/// Every well-formed vector in an optional result stays well-formed.
pub open spec fn vec2_opt_wf(r: Option<Vector2>) -> bool {
    match r {
        Some(v) => v.wf(),
        None => true,
    }
}

impl Vector2 {
    /// Both components are well-formed.
    pub open spec fn wf(self) -> bool {
        self.x.wf() && self.y.wf()
    }

    /// The vector with the given components.
    pub fn new(x: Rat, y: Rat) -> (r: Vector2)
        requires
            x.wf(),
            y.wf(),
        ensures
            r.wf(),
            r@ == (Pt { x: x@, y: y@ }),
    {
        Vector2 { x, y }
    }

    /// The vector with the given integer components.
    pub fn from_ints(x: i64, y: i64) -> (r: Vector2)
        ensures
            r.wf(),
            r@ == (Pt { x: crate::rational::q_int(x as int), y: crate::rational::q_int(y as int) }),
    {
        Vector2 { x: Rat::from_int(x), y: Rat::from_int(y) }
    }

    /// Checked component-wise sum.
    pub fn checked_add(&self, other: &Vector2) -> (r: Option<Vector2>)
        requires
            self.wf(),
            other.wf(),
        ensures
            vec2_opt(r) == cp_add(self@, other@),
            vec2_opt_wf(r),
    {
        match (self.x.checked_add(&other.x), self.y.checked_add(&other.y)) {
            (Some(x), Some(y)) => Some(Vector2 { x, y }),
            _ => None,
        }
    }

    /// Checked component-wise difference.
    pub fn checked_sub(&self, other: &Vector2) -> (r: Option<Vector2>)
        requires
            self.wf(),
            other.wf(),
        ensures
            vec2_opt(r) == cp_sub(self@, other@),
            vec2_opt_wf(r),
    {
        match (self.x.checked_sub(&other.x), self.y.checked_sub(&other.y)) {
            (Some(x), Some(y)) => Some(Vector2 { x, y }),
            _ => None,
        }
    }

    /// Checked scalar times vector.
    pub fn scale(&self, k: &Rat) -> (r: Option<Vector2>)
        requires
            self.wf(),
            k.wf(),
        ensures
            vec2_opt(r) == cp_scale(k@, self@),
            vec2_opt_wf(r),
    {
        match (k.checked_mul(&self.x), k.checked_mul(&self.y)) {
            (Some(x), Some(y)) => Some(Vector2 { x, y }),
            _ => None,
        }
    }

    /// Checked outer multiplication: vector times scalar.
    pub fn outer_mul(&self, t: &Rat) -> (r: Option<Vector2>)
        requires
            self.wf(),
            t.wf(),
        ensures
            vec2_opt(r) == cp_outer_mul(self@, t@),
            vec2_opt_wf(r),
    {
        match (self.x.checked_mul(t), self.y.checked_mul(t)) {
            (Some(x), Some(y)) => Some(Vector2 { x, y }),
            _ => None,
        }
    }

    /// Checked outer division: vector divided by scalar;
    /// `None` when `t` is zero.
    pub fn outer_div(&self, t: &Rat) -> (r: Option<Vector2>)
        requires
            self.wf(),
            t.wf(),
        ensures
            vec2_opt(r) == cp_outer_div(self@, t@),
            vec2_opt_wf(r),
    {
        match (self.x.checked_div(t), self.y.checked_div(t)) {
            (Some(x), Some(y)) => Some(Vector2 { x, y }),
            _ => None,
        }
    }

    /// Checked cross product z-component of two plane vectors.
    pub fn cross_checked(&self, other: &Vector2) -> (r: Option<Rat>)
        requires
            self.wf(),
            other.wf(),
        ensures
            rat_opt(r) == crate::rational::o_sub(
                c_mul(self@.x, other@.y),
                c_mul(self@.y, other@.x),
            ),
            rat_opt_wf(r),
    {
        match (self.x.checked_mul(&other.y), self.y.checked_mul(&other.x)) {
            (Some(a), Some(b)) => a.checked_sub(&b),
            _ => None,
        }
    }
}

} // verus!
