use raytracer::basic::vec3::Point3;
use raytracer::basic::{from_bits, to_bits, Scalar, INFINITY, NEG_INFINITY};
use raytracer::bvh::aabb::{Slab, AABB};

fn ord(x: f64) -> Scalar {
    from_bits(x.to_bits()).unwrap()
}

fn num(k: Scalar) -> f64 {
    f64::from_bits(to_bits(k))
}

fn point(x: f64, y: f64, z: f64) -> Point3 {
    Point3::new(ord(x), ord(y), ord(z))
}

/// The crossings of a ray with the slabs of a box, as the slab test takes them.
fn slabs(b: &AABB, orig: [f64; 3], dir: [f64; 3]) -> [Slab; 3] {
    let mut out = [Slab { t0: None, t1: None, reversed: false }; 3];
    for i in 0..3 {
        let k = 1. / dir[i];
        let t0 = (num(b.min.index(i)) - orig[i]) * k;
        let t1 = (num(b.max.index(i)) - orig[i]) * k;
        out[i] = Slab { t0: from_bits(t0.to_bits()), t1: from_bits(t1.to_bits()), reversed: k < 0. };
    }
    out
}

fn unit_box() -> AABB {
    AABB::new(point(-1., -1., -1.), point(1., 1., 1.))
}

#[test]
fn surrounding_box_takes_max_of_maxes() {
    let a = AABB::new(point(0., 0., 0.), point(1., 1., 1.));
    let b = AABB::new(point(-2., 0.5, 0.25), point(0.5, 3., 0.75));
    let s = AABB::surrounding_box(&a, &b);
    assert_eq!(s.min, point(-2., 0., 0.));
    assert_eq!(s.max, point(1., 3., 1.));
}

#[test]
fn surrounding_box_holds_the_corners_of_both() {
    let a = AABB::new(point(-3., 2., 5.), point(-1., 4., 9.));
    let b = AABB::new(point(0., -7., 6.), point(2., -5., 7.));
    let s = AABB::surrounding_box(&a, &b);
    for p in [a.min, a.max, b.min, b.max] {
        for axis in 0..3 {
            assert!(s.min.index(axis) <= p.index(axis));
            assert!(p.index(axis) <= s.max.index(axis));
        }
    }
    assert_eq!(s, AABB::surrounding_box(&b, &a));
    assert_eq!(AABB::surrounding_box(&a, &a), a);
}

#[test]
fn new_and_default_boxes() {
    let a = AABB::new(point(1., 2., 3.), point(4., 5., 6.));
    assert_eq!(a.min, point(1., 2., 3.));
    assert_eq!(a.max, point(4., 5., 6.));
    let d = AABB::default();
    assert_eq!(d.min, point(0., 0., 0.));
    assert_eq!(d.max, point(0., 0., 0.));
}

#[test]
fn a_ray_through_the_box_hits() {
    let b = unit_box();
    let s = slabs(&b, [0., 0., 5.], [0.1, 0.1, -1.]);
    assert!(AABB::hit(&s, ord(0.), INFINITY));
}

#[test]
fn a_ray_past_the_box_misses() {
    let b = unit_box();
    let s = slabs(&b, [5., 5., 5.], [1., 0.5, -1.]);
    assert!(!AABB::hit(&s, ord(0.), INFINITY));
}

#[test]
fn a_ray_along_an_axis_is_tested_without_a_special_case() {
    let b = unit_box();
    let inside = slabs(&b, [0.5, 0.5, 5.], [0., 0., -1.]);
    assert_eq!(inside[0].t0, Some(NEG_INFINITY));
    assert_eq!(inside[0].t1, Some(INFINITY));
    assert!(AABB::hit(&inside, ord(0.), INFINITY));
    let outside = slabs(&b, [1.5, 0.5, 5.], [0., 0., -1.]);
    assert!(!AABB::hit(&outside, ord(0.), INFINITY));
}

#[test]
fn a_ray_within_a_face_has_an_undefined_crossing_that_narrows_nothing() {
    let b = unit_box();
    let s = slabs(&b, [1., 0., 5.], [0., 0., -1.]);
    assert_eq!(s[0].t1, None);
    assert!(AABB::hit(&s, ord(0.), INFINITY));
}

#[test]
fn the_range_asked_for_cuts_the_hit() {
    let b = unit_box();
    let s = slabs(&b, [0., 0., 5.], [0., 0., -1.]);
    assert!(AABB::hit(&s, ord(0.), ord(4.5)));
    assert!(!AABB::hit(&s, ord(0.), ord(4.0)));
    assert!(!AABB::hit(&s, ord(0.), ord(3.0)));
    assert!(!AABB::hit(&s, ord(6.0), INFINITY));
    assert!(AABB::hit(&s, ord(5.0), INFINITY));
}

#[test]
fn a_ray_heading_down_an_axis_enters_by_the_far_plane() {
    let s = [
        Slab { t0: Some(ord(6.)), t1: Some(ord(4.)), reversed: true },
        Slab { t0: Some(NEG_INFINITY), t1: Some(INFINITY), reversed: false },
        Slab { t0: Some(NEG_INFINITY), t1: Some(INFINITY), reversed: false },
    ];
    assert!(AABB::hit(&s, ord(0.), INFINITY));
    let unswapped = [
        Slab { t0: Some(ord(6.)), t1: Some(ord(4.)), reversed: false },
        Slab { t0: Some(NEG_INFINITY), t1: Some(INFINITY), reversed: false },
        Slab { t0: Some(NEG_INFINITY), t1: Some(INFINITY), reversed: false },
    ];
    assert!(!AABB::hit(&unswapped, ord(0.), INFINITY));
}

#[test]
fn an_empty_range_never_hits() {
    let s = [Slab { t0: Some(NEG_INFINITY), t1: Some(INFINITY), reversed: false }; 3];
    assert!(!AABB::hit(&s, ord(1.), ord(1.)));
    assert!(!AABB::hit(&s, ord(2.), ord(1.)));
    assert!(AABB::hit(&s, ord(1.), ord(2.)));
}

#[test]
fn around_is_the_smallest_box_about_points() {
    let points = vec![point(1., -2., 3.), point(-4., 5., 0.), point(0., 0., 7.)];
    let b = AABB::around(&points);
    assert_eq!(b.min, point(-4., -2., 0.));
    assert_eq!(b.max, point(1., 5., 7.));
}

#[test]
fn around_nothing_is_the_box_that_holds_nothing() {
    let b = AABB::around(&Vec::new());
    assert_eq!(b.min, Point3::new(INFINITY, INFINITY, INFINITY));
    assert_eq!(b.max, Point3::new(NEG_INFINITY, NEG_INFINITY, NEG_INFINITY));
}
