use raytracer::basic::onb::ONB;
use raytracer::basic::ray::Ray;
use raytracer::basic::vec3::{Point3, RGBColor, Vec3};
use raytracer::basic::{from_bits, to_bits, Scalar, ONE};
use raytracer::material::dielectric::Dielectric;
use raytracer::material::diffuse_light::DiffuseLight;
use raytracer::material::isotropic::Isotropic;
use raytracer::material::lambertian::Lambertian;
use raytracer::material::metal::{ColoredMetal, Metal, MIRRORED};
use raytracer::material::{ScaRecData, ScatterRecord};
use raytracer::pdf::cos_pdf::CosinePDF;
use raytracer::pdf::hittable_pdf::HittablePDF;
use raytracer::pdf::{MixedPDF, Pick, MIXING};
use raytracer::texture::solid_color::SolidColor;

fn ord(x: f64) -> Scalar {
    from_bits(x.to_bits()).unwrap()
}

fn num(k: Scalar) -> f64 {
    f64::from_bits(to_bits(k))
}

fn vec(x: f64, y: f64, z: f64) -> Vec3 {
    Vec3::new(ord(x), ord(y), ord(z))
}

fn basis() -> ONB {
    ONB::new(vec(1., 0., 0.), vec(0., 1., 0.), vec(0., 0., 1.))
}

#[test]
fn scatter_records_keep_what_they_are_made_of() {
    let ray = Ray::new(vec(1., 2., 3.), vec(0., 0., -1.), ord(0.5));
    let s = ScatterRecord::new_specular(ray, vec(0.8, 0.6, 0.2));
    assert_eq!(s.dat, ScaRecData::Specular(ray));
    assert_eq!(s.attenuation, vec(0.8, 0.6, 0.2));
    let pdf = CosinePDF::new(basis());
    let d = ScatterRecord::new_not_specular(pdf, vec(0.1, 0.2, 0.3));
    assert_eq!(d.dat, ScaRecData::Pdf(pdf));
    assert_eq!(d.attenuation, vec(0.1, 0.2, 0.3));
}

#[test]
fn a_dielectric_takes_nothing_from_the_light() {
    let glass = Dielectric::new(ord(1.5));
    let reflected = vec(0., 1., 0.);
    let refracted = vec(0., -1., 0.);
    for bend in [0.1, 0.99, 1.0, 1.01, 3.] {
        for reflectance in [0.0, 0.04, 0.5, 1.0] {
            for draw in [0.0, 0.03, 0.5, 0.999] {
                let rec = glass
                    .scatter(
                        vec(1., 2., 3.),
                        ord(0.25),
                        ord(bend),
                        ord(reflectance),
                        ord(draw),
                        reflected,
                        refracted,
                    )
                    .unwrap();
                assert_eq!(rec.attenuation, RGBColor::new(ONE, ONE, ONE));
                assert_eq!(
                    (num(rec.attenuation.x), num(rec.attenuation.y), num(rec.attenuation.z)),
                    (1., 1., 1.)
                );
            }
        }
    }
}

#[test]
fn a_dielectric_mirrors_where_it_cannot_bend_or_the_draw_falls_below_its_reflectance() {
    let glass = Dielectric::new(ord(1.5));
    let p = vec(1., 2., 3.);
    let reflected = vec(0., 1., 0.);
    let refracted = vec(0., -1., 0.);
    let dir = |bend: f64, reflectance: f64, draw: f64| {
        let rec = glass
            .scatter(p, ord(0.25), ord(bend), ord(reflectance), ord(draw), reflected, refracted)
            .unwrap();
        match rec.dat {
            ScaRecData::Specular(ray) => {
                assert_eq!(ray.orig, p);
                assert_eq!(ray.tm, ord(0.25));
                ray.dir
            }
            ScaRecData::Pdf(_) => panic!("a dielectric scatters along one ray"),
        }
    };
    assert_eq!(dir(1.2, 0., 0.9), reflected);
    assert_eq!(dir(0.5, 0.8, 0.3), reflected);
    assert_eq!(dir(0.5, 0.2, 0.3), refracted);
    assert_eq!(dir(1.0, 0.2, 0.3), refracted);
    assert_eq!(dir(0.5, 0.3, 0.3), refracted);
}

#[test]
fn the_ratio_of_refraction_depends_on_the_face() {
    let glass = Dielectric::new(ord(1.5));
    assert_eq!(glass.ir, ord(1.5));
    assert_eq!(glass.refraction_ratio(true, ord(1. / 1.5)), ord(1. / 1.5));
    assert_eq!(glass.refraction_ratio(false, ord(1. / 1.5)), ord(1.5));
}

#[test]
fn the_fuzz_of_a_metal_lies_between_zero_and_one() {
    assert_eq!(Metal::new(vec(1., 1., 1.), ord(0.3)).fuzz, ord(0.3));
    assert_eq!(Metal::new(vec(1., 1., 1.), ord(-0.3)).fuzz, ord(0.));
    assert_eq!(Metal::new(vec(1., 1., 1.), ord(1.3)).fuzz, ord(1.));
    assert_eq!(Metal::new(vec(1., 1., 1.), ord(1.)).fuzz, ord(1.));
    assert_eq!(Metal::new(vec(0.8, 0.6, 0.2), ord(0.)).albedo, vec(0.8, 0.6, 0.2));
}

#[test]
fn a_metal_swallows_a_ray_that_would_go_on_below_the_surface() {
    let m = Metal::new(vec(0.8, 0.6, 0.2), ord(0.3));
    let p = vec(1., 2., 3.);
    let out = vec(0.5, 0.5, 0.);
    let rec = m.scatter(p, ord(0.25), out, ord(0.5)).unwrap();
    assert_eq!(rec.dat, ScaRecData::Specular(Ray::new(p, out, ord(0.25))));
    assert_eq!(rec.attenuation, vec(0.8, 0.6, 0.2));
    assert_eq!(m.scatter(p, ord(0.25), out, ord(0.)), None);
    assert_eq!(m.scatter(p, ord(0.25), out, ord(-0.5)), None);
}

#[test]
fn a_coloured_metal_mirrors_one_ray_in_four() {
    let m = ColoredMetal::new(vec(0.8, 0.6, 0.2), ord(1.7), 't');
    assert_eq!(m.fuzz, ord(1.));
    assert_eq!(m.tex, 't');
    assert_eq!(MIRRORED, ord(0.25));
    let p = vec(1., 2., 3.);
    let out = vec(0.5, 0.5, 0.);
    let pdf = CosinePDF::new(basis());
    let paint = vec(0.1, 0.2, 0.3);
    assert_eq!(
        m.scatter(p, ord(0.5), ord(0.2), out, pdf, paint),
        Some(ScatterRecord::new_specular(Ray::new(p, out, ord(0.5)), vec(0.8, 0.6, 0.2)))
    );
    assert_eq!(
        m.scatter(p, ord(0.5), ord(0.25), out, pdf, paint),
        Some(ScatterRecord::new_not_specular(pdf, paint))
    );
    assert_eq!(m.scattering_pdf(ord(0.2)), ord(0.2));
    assert_eq!(m.scattering_pdf(ord(-0.2)), 0);
}

#[test]
fn a_matt_surface_always_scatters_by_its_density() {
    let l = Lambertian::new_from_color(vec(0.5, 0.5, 0.5));
    assert_eq!(l.albedo.color_value, vec(0.5, 0.5, 0.5));
    let pdf = CosinePDF::new(basis());
    assert_eq!(
        l.scatter(pdf, vec(0.5, 0.5, 0.5)),
        Some(ScatterRecord::new_not_specular(pdf, vec(0.5, 0.5, 0.5)))
    );
    assert_eq!(Lambertian::new('t').albedo, 't');
}

#[test]
fn the_density_of_a_matt_surface_is_floored_at_zero() {
    let l = Lambertian::new(());
    let pi = std::f64::consts::PI;
    assert_eq!(l.scattering_pdf(ord(1. / pi)), ord(1. / pi));
    assert_eq!(num(l.scattering_pdf(ord(0.5 / pi))), 0.5 / pi);
    assert_eq!(l.scattering_pdf(ord(0.)), 0);
    assert_eq!(l.scattering_pdf(ord(-0.5 / pi)), 0);
    assert_eq!(l.scattering_pdf(ord(-1. / pi)), 0);
}

#[test]
fn the_weight_of_a_direction_drawn_for_a_matt_surface_averages_to_one() {
    let l = Lambertian::new(());
    let pdf = CosinePDF::new(basis());
    let pi = std::f64::consts::PI;
    let n = 2000;
    let mut sum = 0.;
    for i in 0..n {
        let r2 = (i as f64 + 0.5) / n as f64;
        let cosine = (1. - r2).sqrt();
        let own = num(l.scattering_pdf(ord(cosine / pi)));
        let drawn = num(pdf.value(ord(cosine / pi)));
        assert!(drawn > 0.);
        sum += own / drawn;
    }
    assert!((sum / n as f64 - 1.).abs() < 1e-12);
}

#[test]
fn the_cosine_density_is_floored_at_zero() {
    let pdf = CosinePDF::new(basis());
    assert_eq!(pdf.uvw, basis());
    assert_eq!(pdf.uvw.w(), vec(0., 0., 1.));
    assert_eq!(pdf.value(ord(0.25)), ord(0.25));
    assert_eq!(pdf.value(ord(0.)), 0);
    assert_eq!(pdf.value(ord(-0.25)), 0);
}

#[test]
fn a_light_shines_from_its_front_face_only() {
    let light = DiffuseLight::new_from_color(vec(15., 15., 15.));
    assert_eq!(light.emit.color_value, vec(15., 15., 15.));
    assert_eq!(light.emitted(true, vec(15., 15., 15.)), vec(15., 15., 15.));
    assert_eq!(light.emitted(false, vec(15., 15., 15.)), vec(0., 0., 0.));
    assert_eq!(DiffuseLight::new(SolidColor::new(vec(1., 2., 3.))).emit.color_value, vec(1., 2., 3.));
}

#[test]
fn fog_scatters_alike_in_all_directions() {
    let fog = Isotropic::new_from_color(vec(0.9, 0.9, 0.9));
    assert_eq!(fog.albedo.color_value, vec(0.9, 0.9, 0.9));
    assert_eq!(fog.scattering_pdf(), ONE);
    assert_eq!(num(fog.scattering_pdf()), 1.);
    let pdf = CosinePDF::new(basis());
    assert_eq!(
        fog.scatter(pdf, vec(0.9, 0.9, 0.9)),
        Some(ScatterRecord::new_not_specular(pdf, vec(0.9, 0.9, 0.9)))
    );
    assert_eq!(Isotropic::new(7u8).albedo, 7);
}

#[test]
fn a_mixture_draws_from_either_part_in_equal_shares() {
    let lights = vec![1u8, 2, 3];
    let light_pdf = HittablePDF::new(Point3::new(0, 0, 0), &lights);
    assert_eq!(light_pdf.orig, Point3::new(0, 0, 0));
    assert_eq!(light_pdf.obj, &lights);
    let mixed = MixedPDF::new(CosinePDF::new(basis()), light_pdf);
    assert_eq!(mixed.scatter_pdf.uvw, basis());
    assert_eq!(MIXING, ord(0.5));
    assert_eq!(mixed.generate(ord(0.)), Pick::Scatter);
    assert_eq!(mixed.generate(ord(0.499)), Pick::Scatter);
    assert_eq!(mixed.generate(ord(0.5)), Pick::Light);
    assert_eq!(mixed.generate(ord(0.999)), Pick::Light);
}
