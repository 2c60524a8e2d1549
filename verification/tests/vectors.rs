use rusty_rays::fixed::FX_ONE;
use rusty_rays::interval::Interval;
use rusty_rays::vec3::{vec3, Vec3};

#[test]
fn componentwise_arithmetic() {
    let a = vec3(FX_ONE, 2 * FX_ONE, 3 * FX_ONE);
    let b = vec3(4 * FX_ONE, 5 * FX_ONE, 6 * FX_ONE);
    assert_eq!(a.add(b), vec3(5 * FX_ONE, 7 * FX_ONE, 9 * FX_ONE));
    assert_eq!(b.sub(a), vec3(3 * FX_ONE, 3 * FX_ONE, 3 * FX_ONE));
    assert_eq!(a.neg(), vec3(-FX_ONE, -2 * FX_ONE, -3 * FX_ONE));
    assert_eq!(a.scale(2 * FX_ONE), vec3(2 * FX_ONE, 4 * FX_ONE, 6 * FX_ONE));
    assert_eq!(a.div_by(2 * FX_ONE), vec3(FX_ONE / 2, FX_ONE, 3 * FX_ONE / 2));
    assert_eq!(
        a.hadamard(b),
        vec3(4 * FX_ONE, 10 * FX_ONE, 18 * FX_ONE)
    );
}

#[test]
fn dot_product_exact() {
    let a = vec3(FX_ONE, 2 * FX_ONE, 3 * FX_ONE);
    let b = vec3(4 * FX_ONE, 5 * FX_ONE, 6 * FX_ONE);
    assert_eq!(a.dot(b), 32 * FX_ONE);
    assert_eq!(a.length_squared(), 14 * FX_ONE);
}

#[test]
fn cross_product_basis() {
    let x = vec3(FX_ONE, 0, 0);
    let y = vec3(0, FX_ONE, 0);
    let z = vec3(0, 0, FX_ONE);
    assert_eq!(x.cross(y), z);
    assert_eq!(y.cross(z), x);
    assert_eq!(y.cross(x), z.neg());
}

#[test]
fn length_of_pythagorean_triple() {
    let v = vec3(3 * FX_ONE, 4 * FX_ONE, 0);
    assert_eq!(v.length(), 5 * FX_ONE);
}

#[test]
fn normalize_pythagorean_triple() {
    let v = vec3(3 * FX_ONE, 4 * FX_ONE, 0);
    let n = v.normalized();
    // 0.6 and 0.8 in fixed point, truncated.
    assert_eq!(n, vec3(39321, 52428, 0));
}

#[test]
fn normalize_axis_is_exact() {
    let v = vec3(0, 0, -7 * FX_ONE);
    assert_eq!(v.normalized(), vec3(0, 0, -FX_ONE));
}

#[test]
fn normalize_zero_is_zero() {
    assert_eq!(Vec3::zero().normalized(), Vec3::zero());
}

#[test]
fn normalized_stays_in_unit_box() {
    let v = vec3(123_456_789, -987_654_321, 555_555);
    let n = v.normalized();
    assert!(n.x.abs() <= FX_ONE);
    assert!(n.y.abs() <= FX_ONE);
    assert!(n.z.abs() <= FX_ONE);
}

#[test]
fn interval_surrounds_is_strict() {
    let itv = Interval::new(0, 10);
    assert!(itv.surrounds(5));
    assert!(!itv.surrounds(0));
    assert!(!itv.surrounds(10));
    assert!(!itv.surrounds(-1));
}
