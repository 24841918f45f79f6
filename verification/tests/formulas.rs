use interpolation::rational::Rat;
use interpolation::vector::Vector2;

fn rat(n: i64, d: i64) -> Rat {
    Rat::new(n, d).unwrap()
}

fn vi(x: i64, y: i64) -> Vector2 {
    Vector2::from_ints(x, y)
}

fn req(a: Rat, b: Rat) -> bool {
    a.eq_checked(&b).unwrap()
}

fn veq(a: Vector2, b: Vector2) -> bool {
    req(a.x, b.x) && req(a.y, b.y)
}

fn gcd(mut a: i128, mut b: i128) -> i128 {
    if a < 0 {
        a = -a;
    }
    if b < 0 {
        b = -b;
    }
    while b != 0 {
        let r = a % b;
        a = b;
        b = r;
    }
    a
}

fn reduced(r: Rat) -> Rat {
    let g = gcd(r.n, r.d);
    if g == 0 {
        r
    } else {
        Rat { n: r.n / g, d: r.d / g }
    }
}

fn vreduced(v: Vector2) -> Vector2 {
    Vector2 { x: reduced(v.x), y: reduced(v.y) }
}

fn abs_le(a: Rat, tol: Rat) -> bool {
    a.le_checked(&tol).unwrap() && a.checked_neg().unwrap().le_checked(&tol).unwrap()
}

#[test]
fn rat_new_rejects_zero_denominator() {
    assert!(Rat::new(1, 0).is_none());
    assert!(Rat::new(0, 0).is_none());
}

#[test]
fn rat_new_normalizes_negative_denominator() {
    let a = Rat::new(1, -2).unwrap();
    assert!(a.d > 0);
    assert!(req(a, rat(-1, 2)));
}

#[test]
fn rat_arithmetic_is_exact() {
    let half = rat(1, 2);
    let third = rat(1, 3);
    assert!(req(half.checked_add(&third).unwrap(), rat(5, 6)));
    assert!(req(half.checked_sub(&third).unwrap(), rat(1, 6)));
    assert!(req(half.checked_mul(&rat(2, 3)).unwrap(), rat(1, 3)));
    assert!(req(half.checked_div(&rat(1, 4)).unwrap(), rat(2, 1)));
    assert!(req(half.checked_neg().unwrap(), rat(-1, 2)));
    assert!(half.checked_div(&rat(0, 5)).is_none());
}

#[test]
fn rat_overflow_yields_none() {
    let big = Rat::new(i64::MAX, 1).unwrap();
    let sq = big.checked_mul(&big).unwrap();
    assert!(sq.checked_mul(&big).is_none());
}

#[test]
fn outer_mul_and_div() {
    let v = vi(4, 6);
    let two = rat(2, 1);
    assert!(veq(v.outer_mul(&two).unwrap(), vi(8, 12)));
    assert!(veq(v.outer_div(&two).unwrap(), vi(2, 3)));
    assert!(v.outer_div(&rat(0, 3)).is_none());
}

#[test]
fn lerp_midpoint_of_horizontal_segment() {
    let a = vi(0, 0);
    let b = vi(10, 0);
    let r = Vector2::lerp(&a, &b, &rat(1, 2)).unwrap();
    assert!(veq(r, vi(5, 0)));
}

#[test]
fn lerp_scalar_midpoint() {
    let r = Rat::lerp(&rat(0, 1), &rat(10, 1), &rat(1, 2)).unwrap();
    assert!(req(r, rat(5, 1)));
}

#[test]
fn lerp_reaches_endpoints_and_keeps_fixed_point() {
    let a = Vector2::new(rat(3, 2), rat(-2, 1));
    let b = Vector2::new(rat(7, 1), rat(5, 3));
    let t = rat(2, 5);
    assert!(veq(Vector2::lerp(&a, &b, &rat(0, 1)).unwrap(), a));
    assert!(veq(Vector2::lerp(&a, &b, &rat(1, 1)).unwrap(), b));
    assert!(veq(Vector2::lerp(&a, &a, &t).unwrap(), a));
}

#[test]
fn lerp_stays_on_segment() {
    let a = vi(1, 2);
    let b = vi(5, 10);
    let t = rat(3, 7);
    let l = Vector2::lerp(&a, &b, &t).unwrap();
    let u = l.checked_sub(&a).unwrap();
    let s = b.checked_sub(&a).unwrap();
    // Collinear: the cross product of the offset with the direction is zero.
    let cross = u.cross_checked(&s).unwrap();
    assert!(req(cross, rat(0, 1)));
    // Between the endpoints, component-wise.
    assert!(a.x.le_checked(&l.x).unwrap() && l.x.le_checked(&b.x).unwrap());
    assert!(a.y.le_checked(&l.y).unwrap() && l.y.le_checked(&b.y).unwrap());
}

#[test]
fn quadratic_derivative_at_one_is_twice_last_leg() {
    let a = vi(0, 0);
    let u = vi(1, 2);
    let b = vi(3, 1);
    let r = Vector2::quadratic_bezier_derivative(rat(1, 1), a, u, b).unwrap();
    assert!(veq(r, vi(4, -2)));
}

#[test]
fn cubic_derivative_at_zero_is_thrice_first_leg() {
    let a = vi(1, 1);
    let u = vi(2, 3);
    let v = vi(0, 1);
    let b = vi(5, 5);
    let r = Vector2::cubic_bezier_derivative(rat(0, 1), a, u, v, b).unwrap();
    assert!(veq(r, vi(3, 6)));
}

#[test]
fn mirrored_derivative_equals_plain_on_reflected_point() {
    let t = rat(1, 3);
    let a = vi(0, 0);
    let u = vi(1, 2);
    let v = vi(3, 1);
    let b = vi(4, 3);
    let vp = b.checked_add(&b).unwrap().checked_sub(&v).unwrap();
    let mirrored = Vector2::cubic_bezier_mirrored_derivative(t, a, u, v, b).unwrap();
    let plain = Vector2::cubic_bezier_derivative(t, a, u, vp, b).unwrap();
    assert!(veq(mirrored, plain));
}

fn quadratic_bezier_value(t: Rat, a: Vector2, u: Vector2, b: Vector2) -> Vector2 {
    let one = rat(1, 1);
    let two = rat(2, 1);
    let one_t = one.checked_sub(&t).unwrap();
    let c0 = one_t.checked_mul(&one_t).unwrap();
    let c1 = two.checked_mul(&one_t).unwrap().checked_mul(&t).unwrap();
    let c2 = t.checked_mul(&t).unwrap();
    let t0 = a.scale(&c0).unwrap();
    let t1 = u.scale(&c1).unwrap();
    let t2 = b.scale(&c2).unwrap();
    t0.checked_add(&t1).unwrap().checked_add(&t2).unwrap()
}

fn cubic_bezier_value(t: Rat, a: Vector2, u: Vector2, v: Vector2, b: Vector2) -> Vector2 {
    let one = rat(1, 1);
    let three = rat(3, 1);
    let one_t = one.checked_sub(&t).unwrap();
    let one_t2 = one_t.checked_mul(&one_t).unwrap();
    let t2 = t.checked_mul(&t).unwrap();
    let c0 = one_t2.checked_mul(&one_t).unwrap();
    let c1 = three.checked_mul(&one_t2).unwrap().checked_mul(&t).unwrap();
    let c2 = three.checked_mul(&one_t).unwrap().checked_mul(&t2).unwrap();
    let c3 = t2.checked_mul(&t).unwrap();
    let s0 = a.scale(&c0).unwrap();
    let s1 = u.scale(&c1).unwrap();
    let s2 = v.scale(&c2).unwrap();
    let s3 = b.scale(&c3).unwrap();
    s0.checked_add(&s1)
        .unwrap()
        .checked_add(&s2)
        .unwrap()
        .checked_add(&s3)
        .unwrap()
}

#[test]
fn quadratic_derivative_matches_central_difference_exactly() {
    // For a degree-two curve the central difference is the exact derivative.
    let a = vi(0, 0);
    let u = vi(1, 2);
    let b = vi(3, 1);
    let t = rat(1, 4);
    let h = rat(1, 8);
    let hi = quadratic_bezier_value(t.checked_add(&h).unwrap(), a, u, b);
    let lo = quadratic_bezier_value(t.checked_sub(&h).unwrap(), a, u, b);
    let fd = vreduced(hi.checked_sub(&lo).unwrap().outer_mul(&rat(4, 1)).unwrap());
    let der = vreduced(Vector2::quadratic_bezier_derivative(t, a, u, b).unwrap());
    assert!(veq(fd, der));
}

#[test]
fn cubic_derivative_matches_central_difference() {
    let a = vi(0, 0);
    let u = vi(1, 2);
    let v = vi(3, 1);
    let b = vi(4, 3);
    let t = rat(1, 4);
    let h = rat(1, 8);
    let hi = cubic_bezier_value(t.checked_add(&h).unwrap(), a, u, v, b);
    let lo = cubic_bezier_value(t.checked_sub(&h).unwrap(), a, u, v, b);
    let fd = vreduced(hi.checked_sub(&lo).unwrap().outer_mul(&rat(4, 1)).unwrap());
    let der = vreduced(Vector2::cubic_bezier_derivative(t, a, u, v, b).unwrap());
    let err = fd.checked_sub(&der).unwrap();
    let tol = rat(1, 8);
    assert!(abs_le(err.x, tol));
    assert!(abs_le(err.y, tol));
}

#[test]
fn hermite_reproduces_interior_control_points() {
    let p0 = (vi(0, 0), rat(0, 1));
    let p1 = (vi(1, 2), rat(1, 1));
    let p2 = (vi(3, 3), rat(2, 1));
    let p3 = (vi(4, 0), rat(3, 1));
    let at1 = Vector2::cubic_hermite(p0, p1, p2, p3, rat(1, 1)).unwrap();
    assert!(veq(at1, vi(1, 2)));
    let at2 = Vector2::cubic_hermite(p0, p1, p2, p3, rat(2, 1)).unwrap();
    assert!(veq(at2, vi(3, 3)));
}

#[test]
fn hermite_reproduces_straight_line() {
    // Control points on a line, parameterized by arc length: the curve is the
    // line itself and its derivative is the constant direction.
    let p0 = (vi(0, 0), rat(0, 1));
    let p1 = (vi(1, 0), rat(1, 1));
    let p2 = (vi(2, 0), rat(2, 1));
    let p3 = (vi(3, 0), rat(3, 1));
    let t = rat(3, 2);
    let val = Vector2::cubic_hermite(p0, p1, p2, p3, t).unwrap();
    assert!(req(reduced(val.x), rat(3, 2)) && req(val.y, rat(0, 1)));
    let der = Vector2::cubic_hermite_derivative(
        t,
        (rat(0, 1), vi(0, 0)),
        (rat(1, 1), vi(1, 0)),
        (rat(2, 1), vi(2, 0)),
        (rat(3, 1), vi(3, 0)),
    )
    .unwrap();
    assert!(veq(vreduced(der), vi(1, 0)));
}

#[test]
fn hermite_equal_adjacent_knots_is_absent() {
    let p0 = (vi(0, 0), rat(0, 1));
    let p1 = (vi(1, 2), rat(1, 1));
    let p2 = (vi(3, 3), rat(1, 1));
    let p3 = (vi(4, 0), rat(3, 1));
    assert!(Vector2::cubic_hermite(p0, p1, p2, p3, rat(1, 1)).is_none());
    assert!(Vector2::cubic_hermite_derivative(
        rat(1, 1),
        (rat(0, 1), vi(0, 0)),
        (rat(1, 1), vi(1, 2)),
        (rat(1, 1), vi(3, 3)),
        (rat(3, 1), vi(4, 0)),
    )
    .is_none());
    // Equal first pair and equal last pair are guarded too.
    assert!(Vector2::cubic_hermite(
        (vi(0, 0), rat(1, 1)),
        (vi(1, 2), rat(1, 1)),
        (vi(3, 3), rat(2, 1)),
        (vi(4, 0), rat(3, 1)),
        rat(3, 2),
    )
    .is_none());
    assert!(Vector2::cubic_hermite(
        (vi(0, 0), rat(0, 1)),
        (vi(1, 2), rat(1, 1)),
        (vi(3, 3), rat(2, 1)),
        (vi(4, 0), rat(2, 1)),
        rat(3, 2),
    )
    .is_none());
}

#[test]
fn hermite_derivative_matches_central_difference() {
    let x = (vi(0, 0), rat(0, 1));
    let a = (vi(1, 2), rat(1, 1));
    let b = (vi(3, 3), rat(2, 1));
    let y = (vi(4, 0), rat(3, 1));
    let t = rat(3, 2);
    let h = rat(1, 8);
    let hi = vreduced(
        Vector2::cubic_hermite(x, a, b, y, t.checked_add(&h).unwrap()).unwrap(),
    );
    let lo = vreduced(
        Vector2::cubic_hermite(x, a, b, y, t.checked_sub(&h).unwrap()).unwrap(),
    );
    let fd = vreduced(hi.checked_sub(&lo).unwrap().outer_mul(&rat(4, 1)).unwrap());
    let der = vreduced(
        Vector2::cubic_hermite_derivative(
            t,
            (rat(0, 1), vi(0, 0)),
            (rat(1, 1), vi(1, 2)),
            (rat(2, 1), vi(3, 3)),
            (rat(3, 1), vi(4, 0)),
        )
        .unwrap(),
    );
    let err = fd.checked_sub(&der).unwrap();
    let tol = rat(1, 4);
    assert!(abs_le(err.x, tol));
    assert!(abs_le(err.y, tol));
}
