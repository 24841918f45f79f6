//! Quaternions over exact rational scalars, with shortest-arc linear
//! interpolation.
//!
//! A quaternion stands for a rotation; `q` and `-q` are the same rotation.
//! Linear interpolation therefore negates one operand when the dot product of
//! the two is negative, so the blend does not travel the long way around the
//! rotation sphere.

use vstd::prelude::*;

use crate::interpolate::{c_lerp, q_lerp};
use crate::rational::{
    c_mul, c_neg, lemma_q_add_nonneg, lemma_q_wf_ops, o_add, q_add, q_eq, q_int, q_mul, q_neg,
    q_wf, rat_opt, Q, Rat,
};

verus! {

/// Mathematical value of a rational quaternion: scalar part `s`, vector
/// parts `x`, `y`, `z`.
pub ghost struct Qt {
    pub s: Q,
    pub x: Q,
    pub y: Q,
    pub z: Q,
}

/// All four components are well-formed rationals.
pub open spec fn qt_wf(a: Qt) -> bool {
    q_wf(a.s) && q_wf(a.x) && q_wf(a.y) && q_wf(a.z)
}

/// The two quaternions denote the same value, component-wise.
pub open spec fn qt_eq(a: Qt, b: Qt) -> bool {
    q_eq(a.s, b.s) && q_eq(a.x, b.x) && q_eq(a.y, b.y) && q_eq(a.z, b.z)
}

/// Component-wise negation.
pub open spec fn qt_neg(a: Qt) -> Qt {
    Qt { s: q_neg(a.s), x: q_neg(a.x), y: q_neg(a.y), z: q_neg(a.z) }
}

/// Four-dimensional dot product.
pub open spec fn qt_dot(a: Qt, b: Qt) -> Q {
    q_add(q_add(q_add(q_mul(a.s, b.s), q_mul(a.x, b.x)), q_mul(a.y, b.y)), q_mul(a.z, b.z))
}

/// Checked dot product.
pub open spec fn c_qt_dot(a: Qt, b: Qt) -> Option<Q> {
    o_add(
        o_add(o_add(c_mul(a.s, b.s), c_mul(a.x, b.x)), c_mul(a.y, b.y)),
        c_mul(a.z, b.z),
    )
}

/// Checked component-wise negation.
pub open spec fn c_qt_neg(a: Qt) -> Option<Qt> {
    match (c_neg(a.s), c_neg(a.x), c_neg(a.y), c_neg(a.z)) {
        (Some(s), Some(x), Some(y), Some(z)) => Some(Qt { s, x, y, z }),
        _ => None,
    }
}

/// Component-wise mathematical linear interpolation.
pub open spec fn qt_lerp(a: Qt, b: Qt, t: Q) -> Qt {
    Qt {
        s: q_lerp(a.s, b.s, t),
        x: q_lerp(a.x, b.x, t),
        y: q_lerp(a.y, b.y, t),
        z: q_lerp(a.z, b.z, t),
    }
}

/// Checked component-wise linear interpolation.
pub open spec fn c_qt_lerp(a: Qt, b: Qt, t: Q) -> Option<Qt> {
    match (c_lerp(a.s, b.s, t), c_lerp(a.x, b.x, t), c_lerp(a.y, b.y, t), c_lerp(a.z, b.z, t)) {
        (Some(s), Some(x), Some(y), Some(z)) => Some(Qt { s, x, y, z }),
        _ => None,
    }
}

/// Checked shortest-arc interpolation: negate the second operand when the
/// dot product is negative, then interpolate component-wise.
pub open spec fn c_quat_lerp(a: Qt, b: Qt, t: Q) -> Option<Qt> {
    match c_qt_dot(a, b) {
        Some(d) => if d.n < 0 {
            match c_qt_neg(b) {
                Some(nb) => c_qt_lerp(a, nb, t),
                None => None,
            }
        } else {
            c_qt_lerp(a, b, t)
        },
        None => None,
    }
}

/// Quaternion with exact rational components: scalar part `s`, vector parts
/// `x`, `y`, `z`.
#[derive(Clone, Copy, Debug)]
pub struct Quaternion {
    pub s: Rat,
    pub x: Rat,
    pub y: Rat,
    pub z: Rat,
}

impl View for Quaternion {
    type V = Qt;

    open spec fn view(&self) -> Qt {
        Qt { s: self.s@, x: self.x@, y: self.y@, z: self.z@ }
    }
}

/// The mathematical values of an optional quaternion result.
pub open spec fn quat_opt(r: Option<Quaternion>) -> Option<Qt> {
    match r {
        Some(v) => Some(v@),
        None => None,
    }
}

impl Quaternion {
    /// All four components are well-formed.
    pub open spec fn wf(self) -> bool {
        self.s.wf() && self.x.wf() && self.y.wf() && self.z.wf()
    }

    /// The quaternion with the given components.
    pub fn new(s: Rat, x: Rat, y: Rat, z: Rat) -> (r: Quaternion)
        requires
            s.wf(),
            x.wf(),
            y.wf(),
            z.wf(),
        ensures
            r.wf(),
            r@ == (Qt { s: s@, x: x@, y: y@, z: z@ }),
    {
        Quaternion { s, x, y, z }
    }

    /// Checked dot product.
    pub fn dot_checked(&self, other: &Quaternion) -> (r: Option<Rat>)
        requires
            self.wf(),
            other.wf(),
        ensures
            rat_opt(r) == c_qt_dot(self@, other@),
            r matches Some(v) ==> v.wf(),
    {
        let ss = match self.s.checked_mul(&other.s) {
            Some(w) => w,
            None => {
                return None;
            },
        };
        let xx = match self.x.checked_mul(&other.x) {
            Some(w) => w,
            None => {
                return None;
            },
        };
        let yy = match self.y.checked_mul(&other.y) {
            Some(w) => w,
            None => {
                return None;
            },
        };
        let zz = match self.z.checked_mul(&other.z) {
            Some(w) => w,
            None => {
                return None;
            },
        };
        let s1 = match ss.checked_add(&xx) {
            Some(w) => w,
            None => {
                return None;
            },
        };
        let s2 = match s1.checked_add(&yy) {
            Some(w) => w,
            None => {
                return None;
            },
        };
        s2.checked_add(&zz)
    }

    /// Checked component-wise negation.
    pub fn checked_neg(&self) -> (r: Option<Quaternion>)
        requires
            self.wf(),
        ensures
            quat_opt(r) == c_qt_neg(self@),
            r matches Some(v) ==> v.wf(),
    {
        match (
            self.s.checked_neg(),
            self.x.checked_neg(),
            self.y.checked_neg(),
            self.z.checked_neg(),
        ) {
            (Some(s), Some(x), Some(y), Some(z)) => Some(Quaternion { s, x, y, z }),
            _ => None,
        }
    }

    /// Component-wise linear interpolation without the shortest-arc test.
    fn lerp_components(a: &Quaternion, b: &Quaternion, t: &Rat) -> (r: Option<Quaternion>)
        requires
            a.wf(),
            b.wf(),
            t.wf(),
        ensures
            quat_opt(r) == c_qt_lerp(a@, b@, t@),
            r matches Some(v) ==> v.wf(),
    {
        match (
            Rat::lerp(&a.s, &b.s, t),
            Rat::lerp(&a.x, &b.x, t),
            Rat::lerp(&a.y, &b.y, t),
            Rat::lerp(&a.z, &b.z, t),
        ) {
            (Some(s), Some(x), Some(y), Some(z)) => Some(Quaternion { s, x, y, z }),
            _ => None,
        }
    }

    /// Shortest-arc linear interpolation of rotations: when the dot product
    /// of the operands is negative the second is negated before the blend.
    /// `None` only on 128-bit overflow.
    pub fn lerp(a: &Quaternion, b: &Quaternion, t: &Rat) -> (r: Option<Quaternion>)
        requires
            a.wf(),
            b.wf(),
            t.wf(),
        ensures
            quat_opt(r) == c_quat_lerp(a@, b@, t@),
            r matches Some(v) ==> v.wf(),
    {
        let d = match Quaternion::dot_checked(a, b) {
            Some(w) => w,
            None => {
                return None;
            },
        };
        if d.n < 0 {
            let nb = match b.checked_neg() {
                Some(w) => w,
                None => {
                    return None;
                },
            };
            Quaternion::lerp_components(a, &nb, t)
        } else {
            Quaternion::lerp_components(a, b, t)
        }
    }
}

/// The dot product of a quaternion with itself is nonnegative, so the
/// shortest-arc test never negates when both operands are equal.
pub proof fn lemma_qt_dot_self_nonneg(a: Qt)
    requires
        qt_wf(a),
    ensures
        qt_dot(a, a).n >= 0,
{
    let ss = q_mul(a.s, a.s);
    let xx = q_mul(a.x, a.x);
    let yy = q_mul(a.y, a.y);
    let zz = q_mul(a.z, a.z);
    assert(ss.n >= 0) by (nonlinear_arith)
        requires
            ss.n == a.s.n * a.s.n,
    ;
    assert(xx.n >= 0) by (nonlinear_arith)
        requires
            xx.n == a.x.n * a.x.n,
    ;
    assert(yy.n >= 0) by (nonlinear_arith)
        requires
            yy.n == a.y.n * a.y.n,
    ;
    assert(zz.n >= 0) by (nonlinear_arith)
        requires
            zz.n == a.z.n * a.z.n,
    ;
    lemma_q_wf_ops(a.s, a.s);
    lemma_q_wf_ops(a.x, a.x);
    lemma_q_wf_ops(a.y, a.y);
    lemma_q_wf_ops(a.z, a.z);
    lemma_q_add_nonneg(ss, xx);
    lemma_q_wf_ops(ss, xx);
    lemma_q_add_nonneg(q_add(ss, xx), yy);
    lemma_q_wf_ops(q_add(ss, xx), yy);
    lemma_q_add_nonneg(q_add(q_add(ss, xx), yy), zz);
}

/// Interpolating a rotation with itself gives that rotation, for every `t`:
/// the shortest-arc test cannot fire, and each component interpolates to
/// itself.
pub proof fn lemma_quat_lerp_same(a: Qt, t: Q)
    requires
        qt_wf(a),
        q_wf(t),
    ensures
        c_quat_lerp(a, a, t) matches Some(r) ==> qt_eq(r, a),
{
    lemma_qt_dot_self_nonneg(a);
    if c_quat_lerp(a, a, t) is Some {
        crate::interpolate::lemma_q_lerp_same(a.s, t);
        crate::interpolate::lemma_q_lerp_same(a.x, t);
        crate::interpolate::lemma_q_lerp_same(a.y, t);
        crate::interpolate::lemma_q_lerp_same(a.z, t);
    }
}

/// At the parameter endpoints the shortest-arc blend returns the start
/// rotation, and the end rotation up to the sign chosen by the shortest-arc
/// test.
pub proof fn lemma_quat_lerp_endpoints(a: Qt, b: Qt)
    requires
        qt_wf(a),
        qt_wf(b),
    ensures
        c_quat_lerp(a, b, q_int(0)) matches Some(r) ==> qt_eq(r, a),
        qt_dot(a, b).n >= 0 ==> (c_quat_lerp(a, b, q_int(1)) matches Some(r) ==> qt_eq(r, b)),
        qt_dot(a, b).n < 0 ==> (c_quat_lerp(a, b, q_int(1)) matches Some(r) ==> qt_eq(
            r,
            qt_neg(b),
        )),
{
    let nb = qt_neg(b);
    assert(q_wf(q_neg(b.s)) && q_wf(q_neg(b.x)) && q_wf(q_neg(b.y)) && q_wf(q_neg(b.z)));
    crate::interpolate::lemma_q_lerp_zero(a.s, b.s);
    crate::interpolate::lemma_q_lerp_zero(a.x, b.x);
    crate::interpolate::lemma_q_lerp_zero(a.y, b.y);
    crate::interpolate::lemma_q_lerp_zero(a.z, b.z);
    crate::interpolate::lemma_q_lerp_zero(a.s, nb.s);
    crate::interpolate::lemma_q_lerp_zero(a.x, nb.x);
    crate::interpolate::lemma_q_lerp_zero(a.y, nb.y);
    crate::interpolate::lemma_q_lerp_zero(a.z, nb.z);
    crate::interpolate::lemma_q_lerp_one(a.s, b.s);
    crate::interpolate::lemma_q_lerp_one(a.x, b.x);
    crate::interpolate::lemma_q_lerp_one(a.y, b.y);
    crate::interpolate::lemma_q_lerp_one(a.z, b.z);
    crate::interpolate::lemma_q_lerp_one(a.s, nb.s);
    crate::interpolate::lemma_q_lerp_one(a.x, nb.x);
    crate::interpolate::lemma_q_lerp_one(a.y, nb.y);
    crate::interpolate::lemma_q_lerp_one(a.z, nb.z);
}

} // verus!
