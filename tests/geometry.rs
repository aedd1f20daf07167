use raytracer::axis::Axis;
use raytracer::base::{BasicThreeTuple, BasicTwoTuple};
use raytracer::bounds::AABB;

fn t3(x: i64, y: i64, z: i64) -> BasicThreeTuple<i64> {
    BasicThreeTuple::new(x, y, z)
}

fn same3(a: BasicThreeTuple<i64>, b: BasicThreeTuple<i64>) -> bool {
    a.x == b.x && a.y == b.y && a.z == b.z
}

fn same_box(a: &AABB<i64>, b: &AABB<i64>) -> bool {
    same3(a.min, b.min) && same3(a.max, b.max)
}

#[test]
fn three_tuple_min_max_componentwise() {
    let a = t3(1, 5, -3);
    let b = t3(2, 4, -7);
    assert!(same3(BasicThreeTuple::min(a, b), t3(1, 4, -7)));
    assert!(same3(BasicThreeTuple::max(a, b), t3(2, 5, -3)));
}

#[test]
fn three_tuple_min_max_float() {
    let a = BasicThreeTuple::new(0.5_f32, -1.0, 2.0);
    let b = BasicThreeTuple::new(0.25_f32, 3.0, 2.0);
    let m = BasicThreeTuple::min(a, b);
    let n = BasicThreeTuple::max(a, b);
    assert_eq!((m.x, m.y, m.z), (0.25, -1.0, 2.0));
    assert_eq!((n.x, n.y, n.z), (0.5, 3.0, 2.0));
}

#[test]
fn three_tuple_get_by_axis() {
    let a = t3(7, 8, 9);
    assert_eq!(a.get(Axis::X), 7);
    assert_eq!(a.get(Axis::Y), 8);
    assert_eq!(a.get(Axis::Z), 9);
}

#[test]
fn three_tuple_arithmetic() {
    let a = t3(1, 2, 3);
    let b = t3(4, 5, 6);
    assert!(same3(a + b, t3(5, 7, 9)));
    assert!(same3(b - a, t3(3, 3, 3)));
    assert!(same3(a * b, t3(4, 10, 18)));
    assert!(same3(a * 3, t3(3, 6, 9)));
    assert!(same3(b / 2, t3(2, 2, 3)));
    assert!(same3(-a, t3(-1, -2, -3)));
}

#[test]
fn two_tuple_arithmetic() {
    let a = BasicTwoTuple::new(1.5_f32, -2.0);
    let b = BasicTwoTuple::new(0.5_f32, 4.0);
    let s = a + b;
    let d = a - b;
    let p = a * b;
    let k = a * 2.0;
    let q = b / 2.0;
    let n = -a;
    assert_eq!((s.x, s.y), (2.0, 2.0));
    assert_eq!((d.x, d.y), (1.0, -6.0));
    assert_eq!((p.x, p.y), (0.75, -8.0));
    assert_eq!((k.x, k.y), (3.0, -4.0));
    assert_eq!((q.x, q.y), (0.25, 2.0));
    assert_eq!((n.x, n.y), (-1.5, 2.0));
}

#[test]
fn box_union_covers_both() {
    let a = AABB::new(t3(0, 0, 0), t3(1, 1, 1));
    let b = AABB::new(t3(-2, 3, 0), t3(-1, 4, 5));
    let u = AABB::union(&a, &b);
    assert!(same_box(&u, &AABB::new(t3(-2, 0, 0), t3(1, 4, 5))));
}

#[test]
fn box_union_point() {
    let a = AABB::new(t3(0, 0, 0), t3(1, 1, 1));
    let u = AABB::union_point(&a, &t3(3, -1, 0));
    assert!(same_box(&u, &AABB::new(t3(0, -1, 0), t3(3, 1, 1))));
}

#[test]
fn box_union_idempotent_commutative_associative() {
    let a = AABB::new(t3(0, 2, -1), t3(3, 4, 1));
    let b = AABB::new(t3(-5, 3, 0), t3(1, 9, 2));
    let c = AABB::new(t3(2, -2, -4), t3(6, 0, -3));
    assert!(same_box(&AABB::union(&a, &a), &a));
    assert!(same_box(&AABB::union(&a, &b), &AABB::union(&b, &a)));
    assert!(same_box(
        &AABB::union(&AABB::union(&a, &b), &c),
        &AABB::union(&a, &AABB::union(&b, &c))
    ));
}
