use raytracer::basic::vec3::{Point3, Vec3};
use raytracer::basic::{from_bits, to_bits, Scalar, INFINITY, NEG_INFINITY, ONE};
use raytracer::bvh::aabb::AABB;
use raytracer::hittable::instance::constant_medium::ConstantMedium;
use raytracer::hittable::instance::flip::Flip;
use raytracer::hittable::instance::motion_rotate::{
    MotionRotate, HALF_TURN, QUARTER_TURN, THREE_QUARTER_TURN,
};
use raytracer::hittable::instance::motion_translate::MotionTranslate;
use raytracer::hittable::instance::rotate::{axes_of_turn, Rotate};
use raytracer::hittable::instance::translate::Translate;
use raytracer::hittable::instance::zoom::Zoom;
use raytracer::hittable::object::cube::Cube;
use raytracer::hittable::object::moving_sphere::MovingSphere;
use raytracer::hittable::object::rectangle::{OneWayRectangle, Rectangle};
use raytracer::hittable::object::ring::{BrokenRing, Ring};
use raytracer::hittable::object::sphere::Sphere;
use raytracer::hittable::object::triangle::Triangle;
use raytracer::hittable::{HitRecord, Probe};
use raytracer::texture::solid_color::SolidColor;

fn ord(x: f64) -> Scalar {
    from_bits(x.to_bits()).unwrap()
}

fn num(k: Scalar) -> f64 {
    f64::from_bits(to_bits(k))
}

fn point(x: f64, y: f64, z: f64) -> Point3 {
    Point3::new(ord(x), ord(y), ord(z))
}

fn some(x: f64) -> Option<Scalar> {
    from_bits(x.to_bits())
}

#[test]
fn a_rectangle_lays_its_sides_out_by_its_orientation() {
    let xy = Rectangle::new(0, ord(1.), ord(2.), ord(3.), ord(4.), ord(5.), ());
    assert_eq!(xy.di, [0, 1, 2]);
    assert_eq!(xy.coo, [[ord(1.), ord(2.)], [ord(3.), ord(4.)], [ord(5.), ord(5.)]]);
    let yz = Rectangle::new(1, ord(1.), ord(2.), ord(3.), ord(4.), ord(5.), ());
    assert_eq!(yz.di, [1, 2, 0]);
    assert_eq!(yz.coo, [[ord(5.), ord(5.)], [ord(1.), ord(2.)], [ord(3.), ord(4.)]]);
    let xz = Rectangle::new(2, ord(1.), ord(2.), ord(3.), ord(4.), ord(5.), ());
    assert_eq!(xz.di, [0, 2, 1]);
    assert_eq!(xz.coo, [[ord(1.), ord(2.)], [ord(5.), ord(5.)], [ord(3.), ord(4.)]]);
    assert_eq!(xz.dir, 2);
}

#[test]
fn a_rectangle_is_hit_within_its_sides_and_the_range() {
    let r = Rectangle::new(0, ord(-1.), ord(1.), ord(-2.), ord(2.), ord(-3.), ());
    assert!(r.hit(some(3.), ord(0.), ord(0.), ord(0.001), INFINITY));
    assert!(r.hit(some(3.), ord(-1.), ord(2.), ord(0.001), INFINITY));
    assert!(!r.hit(some(3.), ord(1.01), ord(0.), ord(0.001), INFINITY));
    assert!(!r.hit(some(3.), ord(-1.01), ord(0.), ord(0.001), INFINITY));
    assert!(!r.hit(some(3.), ord(0.), ord(2.01), ord(0.001), INFINITY));
    assert!(!r.hit(some(3.), ord(0.), ord(-2.01), ord(0.001), INFINITY));
    assert!(!r.hit(some(3.), ord(0.), ord(0.), ord(0.001), ord(2.9)));
    assert!(!r.hit(some(-3.), ord(0.), ord(0.), ord(0.001), INFINITY));
}

#[test]
fn a_ray_along_the_plane_of_a_rectangle_misses() {
    let r = Rectangle::new(0, ord(-1.), ord(1.), ord(-2.), ord(2.), ord(-3.), ());
    let t = (-3.0f64 - -3.0) / 0.0;
    assert!(t.is_nan());
    assert!(!r.hit(some(t), ord(0.), ord(0.), NEG_INFINITY, INFINITY));
}

#[test]
fn the_normal_of_a_rectangle_is_the_axis_it_is_constant_in() {
    let n = |dir| Rectangle::new(dir, 0, ONE, 0, ONE, 0, ()).outward_normal();
    assert_eq!(n(0), Vec3::new(0, 0, ONE));
    assert_eq!(n(1), Vec3::new(ONE, 0, 0));
    assert_eq!(n(2), Vec3::new(0, ONE, 0));
}

#[test]
fn the_box_of_a_rectangle_has_depth_along_its_flat_axis_only() {
    let r = Rectangle::new(2, ord(1.), ord(2.), ord(3.), ord(4.), ord(5.), ());
    let b = r.bounding_box(ord(4.9), ord(5.1)).unwrap();
    assert_eq!(b, AABB::new(point(1., 4.9, 3.), point(2., 5.1, 4.)));
    let r = Rectangle::new(1, ord(1.), ord(2.), ord(3.), ord(4.), ord(5.), ());
    let b = r.bounding_box(ord(4.9), ord(5.1)).unwrap();
    assert_eq!(b, AABB::new(point(4.9, 1., 3.), point(5.1, 2., 4.)));
    let r = Rectangle::new(0, ord(1.), ord(2.), ord(3.), ord(4.), ord(5.), ());
    let b = r.bounding_box(ord(4.9), ord(5.1)).unwrap();
    assert_eq!(b, AABB::new(point(1., 3., 4.9), point(2., 4., 5.1)));
}

#[test]
fn a_one_way_rectangle_is_hit_from_its_side_only() {
    let up = OneWayRectangle::new(2, ord(-1.), ord(1.), ord(-1.), ord(1.), ord(0.), (), true);
    let falling = Vec3::new(0, ord(-1.), 0);
    let rising = Vec3::new(0, ord(1.), 0);
    let level = Vec3::new(ord(1.), 0, 0);
    assert!(up.hit(some(1.), 0, 0, ord(0.001), INFINITY, &falling));
    assert!(!up.hit(some(1.), 0, 0, ord(0.001), INFINITY, &rising));
    assert!(up.hit(some(1.), 0, 0, ord(0.001), INFINITY, &level));
    let down = OneWayRectangle::new(2, ord(-1.), ord(1.), ord(-1.), ord(1.), ord(0.), (), false);
    assert!(!down.hit(some(1.), 0, 0, ord(0.001), INFINITY, &falling));
    assert!(down.hit(some(1.), 0, 0, ord(0.001), INFINITY, &rising));
    assert!(!up.hit(some(1.), ord(2.), 0, ord(0.001), INFINITY, &falling));
    assert!(!up.hit(None, 0, 0, ord(0.001), INFINITY, &falling));
}

#[test]
fn a_cube_has_its_six_faces() {
    let c = Cube::new(point(1., 2., 3.), point(4., 5., 6.), 'm');
    assert_eq!(c.sides.len(), 6);
    let expect = [
        (0, [[1., 4.], [2., 5.], [3., 3.]], false),
        (0, [[1., 4.], [2., 5.], [6., 6.]], true),
        (1, [[1., 1.], [2., 5.], [3., 6.]], false),
        (1, [[4., 4.], [2., 5.], [3., 6.]], true),
        (2, [[1., 4.], [2., 2.], [3., 6.]], false),
        (2, [[1., 4.], [5., 5.], [3., 6.]], true),
    ];
    for (side, (dir, coo, upper)) in c.sides.iter().zip(expect) {
        assert_eq!(side.face.dir, dir);
        assert_eq!(side.face_coo_pos, upper);
        assert_eq!(side.face.mat, 'm');
        for axis in 0..3 {
            assert_eq!(num(side.face.coo[axis][0]), coo[axis][0]);
            assert_eq!(num(side.face.coo[axis][1]), coo[axis][1]);
        }
    }
    assert_eq!(c.bounding_box(), Some(AABB::new(point(1., 2., 3.), point(4., 5., 6.))));
}

#[test]
fn a_cube_is_searched_face_by_face() {
    let c = Cube::new(point(0., 0., 0.), point(1., 1., 1.), ());
    let mut scan = c.scan::<u8>(ord(0.001), INFINITY);
    let mut asked = Vec::new();
    loop {
        match scan.probe() {
            Probe::Object { index, .. } => {
                asked.push(index);
                scan.record(None);
            }
            _ => break,
        }
    }
    assert_eq!(asked, vec![0, 1, 2, 3, 4, 5]);
    let n = Vec3::new(0, 0, ONE);
    let rec = c.hit(ord(0.001), INFINITY, |i, lo, hi| {
        let t = [7., 3., 9., 4., 3.5, 8.][i];
        if lo <= ord(t) && ord(t) <= hi {
            Some(HitRecord::new(0, 0, ord(t), point(0., 0., 0.), ord(-1.), &n, i))
        } else {
            None
        }
    });
    assert_eq!(rec.map(|r| (r.mat, r.t)), Some((1, ord(3.))));
}

#[test]
fn rand_side_draws_a_face_of_the_cube() {
    let c = Cube::new(point(0., 0., 0.), point(1., 1., 1.), ());
    let mut seen = [false; 3];
    for _ in 0..300 {
        let side = c.rand_side();
        seen[side.face.dir as usize] = true;
    }
    assert_eq!(seen, [true; 3]);
}

#[test]
fn a_sphere_is_hit_at_its_nearer_root_in_range() {
    let s = Sphere::new(point(0., 0., -1.), ord(0.5), ());
    assert_eq!(s.hit(ord(0.25), some(0.5), some(1.5), ord(0.001), INFINITY), some(0.5));
    assert_eq!(s.hit(ord(0.25), some(-0.5), some(0.5), ord(0.001), INFINITY), some(0.5));
    assert_eq!(s.hit(ord(0.25), some(-1.5), some(-0.5), ord(0.001), INFINITY), None);
    assert_eq!(s.hit(ord(0.25), some(0.5), some(1.5), ord(0.001), ord(0.4)), None);
    assert_eq!(s.hit(ord(0.25), some(0.5), some(1.5), ord(0.6), ord(2.)), some(1.5));
    assert_eq!(s.hit(ord(0.25), some(0.5), some(1.5), ord(0.5), ord(0.5)), some(0.5));
}

#[test]
fn a_sphere_is_missed_without_a_positive_discriminant() {
    let s = Sphere::new(point(0., 0., -1.), ord(0.5), ());
    assert_eq!(s.hit(ord(-0.25), some(0.5), some(1.5), ord(0.001), INFINITY), None);
    assert_eq!(s.hit(ord(0.), some(1.), some(1.), ord(0.001), INFINITY), None);
    assert_eq!(s.hit(ord(1e-12), some(1.), some(1.), ord(0.001), INFINITY), some(1.));
}

#[test]
fn a_root_that_is_not_a_number_is_no_hit() {
    let s = Sphere::new(point(0., 0., -1.), ord(0.5), ());
    assert_eq!(s.hit(ord(0.25), None, None, NEG_INFINITY, INFINITY), None);
    assert_eq!(s.hit(ord(0.25), None, some(2.), NEG_INFINITY, INFINITY), some(2.));
}

#[test]
fn a_hit_on_a_sphere_lies_on_it_and_its_normal_points_out() {
    let cen = [1.0f64, 2.0, -5.0];
    let r = 1.5f64;
    let orig = [0.0f64, 0.0, 0.0];
    for dir in [[1.0f64, 2.0, -5.0], [1.2, 2.1, -5.0], [0.9, 1.7, -5.0], [0.2, 0.5, -1.0]] {
        let oc = [orig[0] - cen[0], orig[1] - cen[1], orig[2] - cen[2]];
        let a: f64 = dir.iter().map(|d| d * d).sum();
        let half_b: f64 = (0..3).map(|i| oc[i] * dir[i]).sum();
        let c: f64 = oc.iter().map(|d| d * d).sum::<f64>() - r * r;
        let discriminant = half_b * half_b - a * c;
        let sqrt_d = discriminant.sqrt();
        let s = Sphere::new(point(cen[0], cen[1], cen[2]), ord(r), ());
        let root = s
            .hit(
                ord(discriminant),
                some((-half_b - sqrt_d) / a),
                some((-half_b + sqrt_d) / a),
                ord(0.001),
                INFINITY,
            )
            .unwrap();
        let t = num(root);
        let p = [orig[0] + t * dir[0], orig[1] + t * dir[1], orig[2] + t * dir[2]];
        let dist = (0..3).map(|i| (p[i] - cen[i]).powi(2)).sum::<f64>().sqrt();
        assert!((dist - r).abs() < 1e-9);
        let n = [(p[0] - cen[0]) / r, (p[1] - cen[1]) / r, (p[2] - cen[2]) / r];
        let facing: f64 = (0..3).map(|i| dir[i] * n[i]).sum();
        let outward = Vec3::new(ord(n[0]), ord(n[1]), ord(n[2]));
        let rec = HitRecord::new(0, 0, root, point(p[0], p[1], p[2]), ord(facing), &outward, ());
        assert!(rec.front_face);
        assert_eq!(rec.normal, outward);
        for i in 0..3 {
            assert!((num(rec.normal.index(i)) - (p[i] - cen[i]) / r).abs() < 1e-12);
        }
    }
}

#[test]
fn a_moving_sphere_is_hit_as_a_sphere_and_boxed_over_its_way() {
    let s = MovingSphere::new(point(0., 0., 0.), Vec3::new(ord(2.), 0, 0), ord(0.), ord(1.), ord(0.5), ());
    assert_eq!(s.mov, Vec3::new(ord(2.), 0, 0));
    assert_eq!((s.tm, s.dur, s.r), (ord(0.), ord(1.), ord(0.5)));
    assert_eq!(s.hit(ord(0.25), some(0.5), some(1.5), ord(0.001), INFINITY), some(0.5));
    assert_eq!(s.hit(ord(0.25), some(-0.5), some(1.5), ord(0.001), INFINITY), some(1.5));
    assert_eq!(s.hit(ord(-1.), some(0.5), some(1.5), ord(0.001), INFINITY), None);
    let begin = AABB::new(point(-0.5, -0.5, -0.5), point(0.5, 0.5, 0.5));
    let end = AABB::new(point(1.5, -0.5, -0.5), point(2.5, 0.5, 0.5));
    assert_eq!(
        s.bounding_box(&begin, &end),
        Some(AABB::new(point(-0.5, -0.5, -0.5), point(2.5, 0.5, 0.5)))
    );
}

fn triangle() -> Triangle<()> {
    let zero = Vec3::new(0, 0, 0);
    Triangle {
        ver: [point(0., 0., 3.), point(2., -1., 0.), point(-1., 4., 1.)],
        normal: zero,
        mat: (),
        cen: zero,
        area: 0,
        v: zero,
        w: zero,
        ab: zero,
        ac: zero,
    }
}

#[test]
fn a_triangle_is_hit_where_all_coordinates_lie_within() {
    let t = triangle();
    assert!(t.hit(some(1.), ord(0.2), ord(0.3), ord(0.5), ord(0.001), INFINITY));
    assert!(t.hit(some(1.), ord(0.), ord(0.5), ord(0.5), ord(0.001), INFINITY));
    assert!(!t.hit(some(1.), ord(-0.1), ord(0.6), ord(0.5), ord(0.001), INFINITY));
    assert!(!t.hit(some(1.), ord(0.6), ord(-0.1), ord(0.5), ord(0.001), INFINITY));
    assert!(!t.hit(some(1.), ord(0.6), ord(0.5), ord(-0.1), ord(0.001), INFINITY));
    assert!(!t.hit(some(1.), ord(1.), ord(0.), ord(0.), ord(0.001), INFINITY));
    assert!(!t.hit(some(1.), ord(0.), ord(1.), ord(0.), ord(0.001), INFINITY));
    assert!(!t.hit(some(1.), ord(0.), ord(0.), ord(1.), ord(0.001), INFINITY));
    assert!(!t.hit(some(1.), ord(0.2), ord(0.3), ord(0.5), ord(1.5), INFINITY));
    assert!(!t.hit(None, ord(0.2), ord(0.3), ord(0.5), NEG_INFINITY, INFINITY));
}

#[test]
fn the_box_of_a_triangle_is_the_box_of_its_corners() {
    assert_eq!(
        triangle().bounding_box(),
        Some(AABB::new(point(-1., -1., 0.), point(2., 4., 3.)))
    );
}

#[test]
fn a_ring_is_hit_on_its_band() {
    let ring = Ring::new(ord(2.), ord(0.5), ord(2.25), ord(6.25), ());
    assert!(ring.hit(some(1.), ord(4.), ord(0.001), INFINITY));
    assert!(ring.hit(some(1.), ord(2.25), ord(0.001), INFINITY));
    assert!(ring.hit(some(1.), ord(6.25), ord(0.001), INFINITY));
    assert!(!ring.hit(some(1.), ord(2.24), ord(0.001), INFINITY));
    assert!(!ring.hit(some(1.), ord(6.26), ord(0.001), INFINITY));
    assert!(!ring.hit(some(0.), ord(4.), ord(0.001), INFINITY));
    assert!(!ring.hit(None, ord(4.), ord(0.001), INFINITY));
    assert_eq!(ring.outward_normal(), Vec3::new(0, ONE, 0));
    assert_eq!(
        ring.bounding_box(ord(2.5), ord(0.001)),
        Some(AABB::new(point(-2.5, -0.001, -2.5), point(2.5, 0.001, 2.5)))
    );
}

fn broken(points: &[f64]) -> BrokenRing<()> {
    BrokenRing::new(
        ord(2.),
        ord(0.5),
        ord(2.25),
        ord(6.25),
        points.iter().map(|p| ord(*p)).collect(),
        (),
    )
}

fn at(ring: &BrokenRing<()>, radian: f64) -> bool {
    ring.hit(
        some(1.),
        ord(4.),
        ord(radian),
        ord(radian + 2. * std::f64::consts::PI),
        ord(0.001),
        INFINITY,
    )
}

#[test]
fn a_broken_ring_is_there_after_an_odd_number_of_angles() {
    let ring = broken(&[1., 2., 3., 4.]);
    assert!(!at(&ring, 0.5));
    assert!(at(&ring, 1.));
    assert!(at(&ring, 1.5));
    assert!(!at(&ring, 2.));
    assert!(!at(&ring, 2.5));
    assert!(at(&ring, 3.5));
    assert!(!at(&ring, 4.));
    assert!(!at(&ring, 6.));
}

#[test]
fn an_arc_of_a_broken_ring_may_reach_over_the_full_turn() {
    let ring = broken(&[1., 2., 5., 7.]);
    assert!(at(&ring, 0.5));
    assert!(!at(&ring, 0.8));
    assert!(at(&ring, 1.5));
    assert!(!at(&ring, 3.));
    assert!(at(&ring, 6.));
}

#[test]
fn a_broken_ring_with_an_odd_number_of_angles_ends_open() {
    let ring = broken(&[1., 2., 5.]);
    assert!(!at(&ring, 0.5));
    assert!(at(&ring, 1.5));
    assert!(!at(&ring, 3.));
    assert!(at(&ring, 6.));
    let one = broken(&[1.]);
    assert!(!at(&one, 0.5));
    assert!(at(&one, 1.5));
}

#[test]
fn a_broken_ring_is_missed_off_its_band_or_out_of_range() {
    let ring = broken(&[1., 2.]);
    let turn = 2. * std::f64::consts::PI;
    assert!(ring.hit(some(1.), ord(4.), ord(1.5), ord(1.5 + turn), ord(0.001), INFINITY));
    assert!(!ring.hit(some(1.), ord(7.), ord(1.5), ord(1.5 + turn), ord(0.001), INFINITY));
    assert!(!ring.hit(some(1.), ord(1.), ord(1.5), ord(1.5 + turn), ord(0.001), INFINITY));
    assert!(!ring.hit(some(1.), ord(4.), ord(1.5), ord(1.5 + turn), ord(2.), INFINITY));
    assert!(!ring.hit(None, ord(4.), ord(1.5), ord(1.5 + turn), ord(0.001), INFINITY));
    assert_eq!(
        ring.bounding_box(ord(2.5), ord(0.001)),
        Some(AABB::new(point(-2.5, -0.001, -2.5), point(2.5, 0.001, 2.5)))
    );
    assert_eq!(ring.outward_normal(), Vec3::new(0, ONE, 0));
}

#[test]
fn a_medium_clips_the_way_of_a_ray_to_the_range() {
    let fog = ConstantMedium::new((), ord(0.5), ord(-2.), SolidColor::new(Vec3::new(ONE, ONE, ONE)));
    assert_eq!(fog.neg_inv_density, ord(-2.));
    assert_eq!(fog.clip(ord(1.), ord(3.), ord(0.001), INFINITY), (ord(1.), ord(3.)));
    assert_eq!(fog.clip(ord(-1.), ord(3.), ord(0.001), INFINITY), (ord(0.001), ord(3.)));
    assert_eq!(fog.clip(ord(1.), ord(3.), ord(0.001), ord(2.)), (ord(1.), ord(2.)));
    assert_eq!(fog.clip(ord(-5.), ord(3.), ord(-2.), ord(2.)), (ord(0.), ord(2.)));
    assert_eq!(fog.clip(ord(4.), ord(6.), ord(0.001), ord(2.)), (ord(4.), ord(2.)));
}

#[test]
fn a_medium_gives_up_a_way_that_has_collapsed() {
    let fog = ConstantMedium::new_from_color((), ord(0.5), ord(-2.), Vec3::new(ONE, ONE, ONE));
    assert!(fog.collapsed(ord(4.), ord(2.), ord(-2.)));
    assert!(fog.collapsed(ord(2.), ord(2.), ord(0.)));
    assert!(fog.collapsed(ord(2.), ord(2.00000001), ord(0.00000001)));
    assert!(!fog.collapsed(ord(2.), ord(2.000001), ord(0.000001)));
    assert!(!fog.collapsed(ord(1.), ord(3.), ord(2.)));
}

#[test]
fn a_medium_scatters_a_ray_that_does_not_fly_through() {
    let fog = ConstantMedium::new_from_color((), ord(0.5), ord(-2.), Vec3::new(ONE, ONE, ONE));
    assert!(fog.hit(ord(1.), ord(2.)));
    assert!(fog.hit(ord(2.), ord(2.)));
    assert!(!fog.hit(ord(2.1), ord(2.)));
    assert_eq!(fog.outward_normal(), Vec3::new(ONE, 0, 0));
    let b = Some(AABB::new(point(0., 0., 0.), point(1., 1., 1.)));
    assert_eq!(fog.bounding_box(b), b);
    assert_eq!(fog.bounding_box(None), None);
    assert_eq!(fog.phase_function.albedo.color_value, Vec3::new(ONE, ONE, ONE));
}

#[test]
fn flip_turns_the_face_of_a_hit_and_nothing_else() {
    let flip = Flip::new(());
    let n = Vec3::new(0, 0, ONE);
    let rec = HitRecord::new(ord(0.1), ord(0.2), ord(2.), point(1., 2., 3.), ord(-1.), &n, 'm');
    assert!(rec.front_face);
    let out = flip.hit(Some(rec)).unwrap();
    assert!(!out.front_face);
    assert_eq!(
        (out.p, out.normal, out.mat, out.t, out.u, out.v),
        (point(1., 2., 3.), n, 'm', ord(2.), ord(0.1), ord(0.2))
    );
    let back = flip.hit(Some(out)).unwrap();
    assert!(back.front_face);
    assert!(flip.hit::<u8>(None).is_none());
    let b = Some(AABB::new(point(0., 0., 0.), point(1., 1., 1.)));
    assert_eq!(flip.bounding_box(b), b);
}

#[test]
fn translate_and_zoom_keep_what_they_are_given() {
    let t = Translate::new('o', Vec3::new(ord(1.), ord(2.), ord(3.)));
    assert_eq!((t.obj, t.offset), ('o', Vec3::new(ord(1.), ord(2.), ord(3.))));
    let z = Zoom::new('o', Vec3::new(ord(2.), ord(2.), ord(0.5)));
    assert_eq!((z.obj, z.scale), ('o', Vec3::new(ord(2.), ord(2.), ord(0.5))));
}

#[test]
fn a_turn_mixes_the_two_axes_beside_its_own() {
    assert_eq!(axes_of_turn(0), [2, 1, 0]);
    assert_eq!(axes_of_turn(1), [0, 2, 1]);
    assert_eq!(axes_of_turn(2), [1, 0, 2]);
}

#[test]
fn the_box_of_a_turned_object_is_the_box_of_its_turned_corners() {
    let h = 0.5f64.sqrt();
    let mut corners = Vec::new();
    for x in [0.0f64, 1.0] {
        for y in [0.0f64, 1.0] {
            for z in [0.0f64, 1.0] {
                corners.push(point(h * x + h * z, y, -h * x + h * z));
            }
        }
    }
    let r = Rotate::new('o', 1, ord(h), ord(h), &corners);
    assert_eq!(r.dio, [0, 2, 1]);
    assert_eq!((r.dir, r.obj, r.sin_theta, r.cos_theta), (1, 'o', ord(h), ord(h)));
    let b = r.bounding_box().unwrap();
    assert_eq!(b, r.aabb_box);
    assert_eq!(b.min, point(0., 0., -h));
    assert_eq!(b.max, point(h + h, 1., h));
}

#[test]
fn a_moving_object_is_there_during_its_motion_only() {
    let m = MotionTranslate::new('o', Vec3::new(ord(1.), 0, 0), ord(0.), ord(1.));
    assert_eq!((m.obj, m.mov, m.tm, m.dur), ('o', Vec3::new(ord(1.), 0, 0), ord(0.), ord(1.)));
    assert!(m.appears(ord(0.)));
    assert!(m.appears(ord(0.5)));
    assert!(m.appears(ord(1.)));
    assert!(!m.appears(ord(-0.1)));
    assert!(!m.appears(ord(1.1)));
    let here = AABB::new(point(0., 0., 0.), point(1., 1., 1.));
    let there = AABB::new(point(1., 0., 0.), point(2., 1., 1.));
    assert_eq!(
        m.bounding_box(&here, &there),
        Some(AABB::new(point(0., 0., 0.), point(2., 1., 1.)))
    );
}

#[test]
fn a_turning_object_is_boxed_at_every_quarter_passed() {
    let m = MotionRotate::new('o', 2, ord(90.), ord(0.), ord(1.));
    assert_eq!(m.dio, [1, 0, 2]);
    assert_eq!((m.obj, m.dir, m.angle, m.tm, m.dur), ('o', 2, ord(90.), ord(0.), ord(1.)));
    let pi = std::f64::consts::PI;
    assert_eq!(QUARTER_TURN, ord(pi / 2.));
    assert_eq!(HALF_TURN, ord(pi));
    assert_eq!(THREE_QUARTER_TURN, ord(pi * 1.5));
    assert!(m.appears(ord(0.)) && m.appears(ord(0.5)) && m.appears(ord(1.)));
    assert!(!m.appears(ord(-0.1)) && !m.appears(ord(1.1)));
    assert_eq!(m.quarters_passed(ord(0.3)), 0);
    assert_eq!(m.quarters_passed(ord(pi / 2.)), 0);
    assert_eq!(m.quarters_passed(ord(2.)), 1);
    assert_eq!(m.quarters_passed(ord(pi)), 1);
    assert_eq!(m.quarters_passed(ord(4.)), 2);
    assert_eq!(m.quarters_passed(ord(pi * 1.5)), 2);
    assert_eq!(m.quarters_passed(ord(5.)), 3);
    assert_eq!(m.quarters_passed(ord(-1.)), 0);
    let boxes = vec![
        AABB::new(point(0., 0., 0.), point(1., 1., 1.)),
        AABB::new(point(-1., 0., 0.), point(0., 1., 1.)),
        AABB::new(point(-0.5, -2., 0.), point(0.5, 0., 1.)),
    ];
    assert_eq!(
        m.bounding_box(&boxes),
        Some(AABB::new(point(-1., -2., 0.), point(1., 1., 1.)))
    );
    assert_eq!(m.bounding_box(&boxes[..1].to_vec()), Some(boxes[0]));
}

fn dot(a: [f64; 3], b: [f64; 3]) -> f64 {
    a[0] * b[0] + a[1] * b[1] + a[2] * b[2]
}

/// The hit of a ray on a sphere, with the root that the library picks.
fn ball_hit(cen: [f64; 3], r: f64, orig: [f64; 3], dir: [f64; 3]) -> Option<HitRecord<()>> {
    let oc = [orig[0] - cen[0], orig[1] - cen[1], orig[2] - cen[2]];
    let a = dot(dir, dir);
    let half_b = dot(oc, dir);
    let discriminant = half_b * half_b - a * (dot(oc, oc) - r * r);
    let sqrt_d = discriminant.max(0.).sqrt();
    let root = Sphere::new(point(cen[0], cen[1], cen[2]), ord(r), ()).hit(
        some(discriminant)?,
        some((-half_b - sqrt_d) / a),
        some((-half_b + sqrt_d) / a),
        ord(0.001),
        INFINITY,
    )?;
    let t = num(root);
    let p = [orig[0] + t * dir[0], orig[1] + t * dir[1], orig[2] + t * dir[2]];
    let n = [(p[0] - cen[0]) / r, (p[1] - cen[1]) / r, (p[2] - cen[2]) / r];
    Some(HitRecord::new(
        0,
        0,
        root,
        point(p[0], p[1], p[2]),
        ord(dot(dir, n)),
        &point(n[0], n[1], n[2]),
        (),
    ))
}

/// The hit on a moved object: the ray is moved back, the hit moved forth.
fn moved_hit<T>(
    moved: &Translate<T>,
    orig: [f64; 3],
    dir: [f64; 3],
    inner: &dyn Fn(&T, [f64; 3], [f64; 3]) -> Option<HitRecord<()>>,
) -> Option<HitRecord<()>> {
    let offset = [num(moved.offset.x), num(moved.offset.y), num(moved.offset.z)];
    let back = [orig[0] - offset[0], orig[1] - offset[1], orig[2] - offset[2]];
    let mut rec = inner(&moved.obj, back, dir)?;
    rec.p = point(num(rec.p.x) + offset[0], num(rec.p.y) + offset[1], num(rec.p.z) + offset[2]);
    let n = rec.normal;
    let facing = dot(dir, [num(n.x), num(n.y), num(n.z)]);
    rec.set_face_normal(ord(facing), &n);
    Some(rec)
}

#[test]
fn moved_there_and_back_an_object_is_hit_as_it_is_itself() {
    let ball = ([1.0f64, 2.0, -8.0], 1.5f64);
    let v = [2.0f64, -4.0, 8.0];
    let there = Translate::new(ball, point(v[0], v[1], v[2]));
    let back = Translate::new(there, point(-v[0], -v[1], -v[2]));
    let plain = |b: &([f64; 3], f64), o: [f64; 3], d: [f64; 3]| ball_hit(b.0, b.1, o, d);
    let once = |t: &Translate<([f64; 3], f64)>, o: [f64; 3], d: [f64; 3]| moved_hit(t, o, d, &plain);
    let mut hits = 0;
    for dir in [[1.0f64, 2.0, -8.0], [1.5, 2.5, -8.0], [0.5, 1.0, -8.0], [0.0, 0.0, -1.0], [3.0, 2.0, -8.0]] {
        let orig = [0.0f64, 0.0, 0.0];
        let direct = plain(&ball, orig, dir);
        let round = moved_hit(&back, orig, dir, &once);
        match (direct, round) {
            (None, None) => {}
            (Some(a), Some(b)) => {
                hits += 1;
                assert!((num(a.t) - num(b.t)).abs() < 1e-12);
                for i in 0..3 {
                    assert!((num(a.p.index(i)) - num(b.p.index(i))).abs() < 1e-12);
                    assert!((num(a.normal.index(i)) - num(b.normal.index(i))).abs() < 1e-12);
                }
                assert_eq!(a.front_face, b.front_face);
            }
            _ => panic!("moved there and back, the object is hit otherwise"),
        }
    }
    assert!(hits >= 3);
}

#[test]
fn turned_there_and_back_an_object_is_hit_as_it_is_itself() {
    let ball = ([1.0f64, 2.0, -8.0], 1.5f64);
    let angle = 0.6f64;
    let dio = axes_of_turn(1);
    let turn = |v: [f64; 3], sin: f64, cos: f64| {
        let mut r = v;
        r[dio[0]] = cos * v[dio[0]] - sin * v[dio[1]];
        r[dio[1]] = sin * v[dio[0]] + cos * v[dio[1]];
        r
    };
    let (sin, cos) = (angle.sin(), angle.cos());
    for dir in [[1.0f64, 2.0, -8.0], [1.5, 2.5, -8.0], [0.5, 1.0, -8.0]] {
        let orig = [0.1f64, 0.05, 0.2];
        let direct = ball_hit(ball.0, ball.1, orig, dir).unwrap();
        let o = turn(turn(orig, sin, cos), -sin, cos);
        let d = turn(turn(dir, sin, cos), -sin, cos);
        let inner = ball_hit(ball.0, ball.1, o, d).unwrap();
        let p_in = [num(inner.p.x), num(inner.p.y), num(inner.p.z)];
        let p = turn(turn(p_in, -sin, cos), sin, cos);
        assert!((num(inner.t) - num(direct.t)).abs() < 1e-9);
        for i in 0..3 {
            assert!((p[i] - num(direct.p.index(i))).abs() < 1e-9);
            assert!((num(inner.normal.index(i)) - num(direct.normal.index(i))).abs() < 1e-9);
        }
        assert_eq!(inner.front_face, direct.front_face);
    }
}
