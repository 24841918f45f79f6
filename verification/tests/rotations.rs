use interpolation::quaternion::Quaternion;
use interpolation::rational::Rat;

fn rat(n: i64, d: i64) -> Rat {
    Rat::new(n, d).unwrap()
}

fn quat(s: i64, x: i64, y: i64, z: i64) -> Quaternion {
    Quaternion::new(
        Rat::from_int(s),
        Rat::from_int(x),
        Rat::from_int(y),
        Rat::from_int(z),
    )
}

fn qeq(a: Quaternion, b: Quaternion) -> bool {
    a.s.eq_checked(&b.s).unwrap()
        && a.x.eq_checked(&b.x).unwrap()
        && a.y.eq_checked(&b.y).unwrap()
        && a.z.eq_checked(&b.z).unwrap()
}

#[test]
fn quaternion_lerp_keeps_fixed_rotation() {
    let a = quat(1, 2, -1, 3);
    let r = Quaternion::lerp(&a, &a, &rat(2, 7)).unwrap();
    assert!(qeq(r, a));
}

#[test]
fn quaternion_lerp_reaches_endpoints_on_same_hemisphere() {
    let a = quat(1, 0, 0, 0);
    let b = quat(1, 1, 0, 0);
    assert!(qeq(Quaternion::lerp(&a, &b, &rat(0, 1)).unwrap(), a));
    assert!(qeq(Quaternion::lerp(&a, &b, &rat(1, 1)).unwrap(), b));
}

#[test]
fn quaternion_lerp_takes_shortest_arc() {
    // The operands point into opposite hemispheres (negative dot product), so
    // the second is negated before blending.
    let a = quat(1, 0, 0, 0);
    let b = quat(-1, 0, 0, 1);
    let dot = a.dot_checked(&b).unwrap();
    assert!(dot.n < 0);
    let r = Quaternion::lerp(&a, &b, &rat(1, 2)).unwrap();
    let expected = Quaternion::new(rat(1, 1), rat(0, 1), rat(0, 1), rat(-1, 2));
    assert!(qeq(r, expected));
    // At the far endpoint the blend lands on the negated operand: the same
    // rotation as `b`.
    let at_one = Quaternion::lerp(&a, &b, &rat(1, 1)).unwrap();
    assert!(qeq(at_one, quat(1, 0, 0, -1)));
}
