use raytracing::fixed::Fx;
use raytracing::ray::Ray;
use raytracing::vec3::Vec3;

fn fx(micros: i64) -> Fx {
    Fx::from_micros(micros)
}

#[test]
fn vec3_test_new() {
    let v = Vec3::new();
    assert_eq!(v.x(), fx(0));
    assert_eq!(v.y(), fx(0));
    assert_eq!(v.z(), fx(0));
}

#[test]
fn test_build() {
    let v = Vec3::build(fx(100_000), fx(200_000), fx(300_000));
    assert_eq!(v.x(), fx(100_000));
    assert_eq!(v.y(), fx(200_000));
    assert_eq!(v.z(), fx(300_000));
}

#[test]
fn test_eq() {
    let v = Vec3::build(fx(100_000), fx(200_000), fx(300_000));
    let u = Vec3::build(fx(100_000), fx(200_000), fx(300_000));
    assert_eq!(v, u);
}

#[test]
fn test_add() {
    let v = Vec3::build(fx(100_000), fx(200_000), fx(300_000));
    let u = Vec3::build(fx(100_000), fx(200_000), fx(300_000));
    let result = v.add(u);
    assert_eq!(result.x, fx(200_000));
    assert_eq!(result.y, fx(400_000));
    assert_eq!(result.z, fx(600_000));
}

#[test]
fn test_add_assign() {
    let mut v = Vec3::build(fx(100_000), fx(200_000), fx(300_000));
    let u = Vec3::build(fx(100_000), fx(200_000), fx(300_000));
    v.add_assign(u);
    assert_eq!(v.x, fx(200_000));
    assert_eq!(v.y, fx(400_000));
    assert_eq!(v.z, fx(600_000));
}

#[test]
fn test_sub() {
    let v = Vec3::build(fx(100_000), fx(200_000), fx(300_000));
    let u = Vec3::build(fx(100_000), fx(200_000), fx(300_000));
    let result = v.sub(u);
    assert_eq!(result.x, fx(0));
    assert_eq!(result.y, fx(0));
    assert_eq!(result.z, fx(0));
}

#[test]
fn test_sub_assign() {
    let mut v = Vec3::build(fx(100_000), fx(200_000), fx(300_000));
    let u = Vec3::build(fx(100_000), fx(200_000), fx(300_000));
    v.sub_assign(u);
    assert_eq!(v.x, fx(0));
    assert_eq!(v.y, fx(0));
    assert_eq!(v.z, fx(0));
}

#[test]
fn test_neg() {
    let v = Vec3::build(fx(100_000), fx(200_000), fx(300_000)).neg();
    assert_eq!(v.x, fx(-100_000));
    assert_eq!(v.y, fx(-200_000));
    assert_eq!(v.z, fx(-300_000));
}

#[test]
fn test_mul_constant() {
    let v = Vec3::build(fx(100_000), fx(200_000), fx(300_000));
    let result = v.mul(Fx::from_int(2));
    assert_eq!(result.x, fx(200_000));
    assert_eq!(result.y, fx(400_000));
    assert_eq!(result.z, fx(600_000));
}

#[test]
fn test_mul_vec() {
    let u = Vec3::build(fx(100_000), fx(200_000), fx(300_000));
    let v = Vec3::build(Fx::from_int(2), Fx::from_int(2), Fx::from_int(2));
    let result = u.mul_vec(v);
    assert_eq!(result.x, fx(200_000));
    assert_eq!(result.y, fx(400_000));
    assert_eq!(result.z, fx(600_000));
}

#[test]
fn test_div() {
    let v = Vec3::build(fx(200_000), fx(200_000), fx(200_000));
    let result = v.div(Fx::from_int(2));
    assert_eq!(result.x, fx(100_000));
    assert_eq!(result.y, fx(100_000));
    assert_eq!(result.z, fx(100_000));
}

#[test]
fn test_div_assign() {
    let mut v = Vec3::build(fx(200_000), fx(200_000), fx(200_000));
    v.div_assign(Fx::from_int(2));
    assert_eq!(v.x, fx(100_000));
    assert_eq!(v.y, fx(100_000));
    assert_eq!(v.z, fx(100_000));
}

#[test]
fn test_length() {
    let v = Vec3::build(Fx::from_int(2), fx(0), fx(0));
    assert_eq!(v.length(), Fx::from_int(2));
}

#[test]
fn test_dot_product() {
    let u = Vec3::build(Fx::from_int(1), Fx::from_int(2), Fx::from_int(3));
    let v = Vec3::build(Fx::from_int(4), Fx::from_int(-5), Fx::from_int(6));
    let result = Vec3::dot(&u, &v);
    assert_eq!(result, Fx::from_int(12));
}

#[test]
fn test_cross_product() {
    let u = Vec3::build(Fx::from_int(1), fx(0), fx(0));
    let v = Vec3::build(fx(0), Fx::from_int(1), fx(0));
    let result = Vec3::cross(&u, &v);
    assert_eq!(result, Vec3 { x: fx(0), y: fx(0), z: Fx::from_int(1) });
}

#[test]
fn test_normalize() {
    let v = Vec3::build(Fx::from_int(5), fx(100_000), Fx::from_int(6));
    let normalized = Vec3::normalize(&v);
    let len = normalized.length();
    assert!(len.raw >= 999_990 && len.raw <= 1_000_000);
}

#[test]
fn ray_test_new() {
    let origin = Vec3::new();
    let dir = Vec3::build(Fx::from_int(1), fx(0), fx(0));
    let r = Ray::new(&origin, &dir);
    assert_eq!(r.origin, origin);
    assert_eq!(r.dir, dir);
    assert_eq!(r.origin(), origin);
    assert_eq!(r.direction(), dir);
}

#[test]
fn test_at() {
    let origin = Vec3::new();
    let dir = Vec3::build(Fx::from_int(1), fx(0), fx(0));
    let r = Ray::new(&origin, &dir);
    let at = r.at(Fx::from_int(2));
    assert_eq!(at.x, Fx::from_int(2));
}
