//! The estimate of the light along a ray, and how an image is shared out
//! among workers.
//!
//! The estimate follows a ray from bounce to bounce. What the ray meets, in
//! which direction it goes on, and the arithmetic on colours are the
//! caller's, handed in as functions; which way the estimate takes at each
//! step, and when it ends, is decided here.

use vstd::prelude::*;
use crate::basic::ray::Ray;
use crate::basic::vec3::RGBColor;
use crate::basic::{Scalar, INFINITESIMAL};
use crate::material::{ScaRecData, ScatterRecord};
use crate::pdf::cos_pdf::CosinePDF;

verus! {

/// Black: no light.
pub open spec fn black() -> RGBColor {
    RGBColor { x: 0, y: 0, z: 0 }
}

/// Whether a drawn direction counts: its density in the mixture is a number
/// and not below [`INFINITESIMAL`], and its weight is a colour and not zero.
pub open spec fn counts(density: Option<Scalar>, weight: Option<RGBColor>) -> bool {
    &&& density matches Some(d) && d >= INFINITESIMAL
    &&& weight matches Some(k) && !(-INFINITESIMAL < k.x < INFINITESIMAL && -INFINITESIMAL < k.y
        < INFINITESIMAL && -INFINITESIMAL < k.z < INFINITESIMAL)
}

/// Whether a drawn direction counts. `density` is its density in the
/// mixture that it was drawn from, and `weight` the attenuation times the
/// surface's own density of it, divided by `density`; either is `None` where
/// it is not a number. A direction of next to no density would weigh beyond
/// all measure, and one of no weight adds nothing: neither counts.
pub fn weigh(density: Option<Scalar>, weight: Option<RGBColor>) -> (r: bool)
    ensures
        r == counts(density, weight),
{
    match density {
        None => {
            return false;
        },
        Some(d) => {
            if d < INFINITESIMAL {
                return false;
            }
        },
    }
    match weight {
        None => false,
        Some(k) => !k.is_zero(),
    }
}

/// What a ray met in the scene, with the hit itself, held as the caller
/// holds it.
pub struct Seen<H> {
    pub hit: H,
    /// What the surface gives off towards the ray.
    pub emitted: RGBColor,
    /// How the surface scattered the ray; `None` where it swallowed it.
    pub scattered: Option<ScatterRecord>,
}

/// A direction drawn for a scattered ray.
#[derive(Copy, Clone, Debug, PartialEq, Eq, Structural)]
pub struct Drawn {
    /// The ray that goes on in the drawn direction.
    pub scattered: Ray,
    /// The density of the direction in the mixture that it was drawn from;
    /// `None` where that is not a number.
    pub density: Option<Scalar>,
    /// The attenuation times the surface's own density of the direction,
    /// divided by `density`; `None` where that is not a number.
    pub weight: Option<RGBColor>,
}

/// Whether `c` is an estimate of the light along `ray` with `depth` bounces
/// left, as `look`, `draw`, `times` and `plus` can give it.
///
/// With no bounce left it is black. Else `look` sends the ray into the scene.
/// A ray that meets nothing brings the background, one that is swallowed what
/// the surface gives off. Of a ray that is mirrored the estimate is the
/// attenuation times an estimate along the mirrored ray. Of one that is
/// scattered by a density `draw` draws the next direction: where that counts,
/// the estimate is what the surface gives off plus the weight times an
/// estimate along the drawn ray, else what the surface gives off alone.
pub open spec fn is_estimate<H, L, D, T, P>(
    look: L,
    draw: D,
    times: T,
    plus: P,
    ray: Ray,
    background: RGBColor,
    depth: int,
    c: RGBColor,
) -> bool where
    L: Fn(Ray) -> Option<Seen<H>>,
    D: Fn(Ray, H, CosinePDF, RGBColor) -> Drawn,
    T: Fn(RGBColor, RGBColor) -> RGBColor,
    P: Fn(RGBColor, RGBColor) -> RGBColor,

    decreases depth,
{
    if depth <= 0 {
        c == black()
    } else {
        exists|seen: Option<Seen<H>>| #[trigger]
            call_ensures(look, (ray,), seen) && match seen {
                None => c == background,
                Some(s) => match s.scattered {
                    None => c == s.emitted,
                    Some(sca_rec) => match sca_rec.dat {
                        ScaRecData::Specular(next) => exists|inner: RGBColor|
                            is_estimate(look, draw, times, plus, next, background, depth - 1, inner)
                                && #[trigger] call_ensures(times, (sca_rec.attenuation, inner), c),
                        ScaRecData::Pdf(pdf) => exists|d: Drawn| #[trigger]
                            call_ensures(draw, (ray, s.hit, pdf, sca_rec.attenuation), d) && if counts(
                                d.density,
                                d.weight,
                            ) {
                                exists|inner: RGBColor, scaled: RGBColor|
                                    is_estimate(
                                        look,
                                        draw,
                                        times,
                                        plus,
                                        d.scattered,
                                        background,
                                        depth - 1,
                                        inner,
                                    ) && #[trigger] call_ensures(times, (d.weight->0, inner), scaled)
                                        && #[trigger] call_ensures(plus, (s.emitted, scaled), c)
                            } else {
                                c == s.emitted
                            },
                    },
                },
            }
    }
}

/// Estimates the light that comes along `ray`, which may still bounce
/// `depth` times.
///
/// With no bounce left the estimate is black, whatever the ray and whatever
/// the scene holds, and nothing is asked of the scene. Every ray that is
/// followed has one bounce less left, so that a path ends after `depth`
/// bounces at the latest.
///
/// `look` sends a ray into the scene and says what it met. `draw` draws the
/// direction in which a ray goes on that a surface scattered by a density,
/// from the mixture of that density with the density towards the lights.
/// `times` multiplies two colours part by part, `plus` adds them.
pub fn ray_color<H, L, D, T, P>(
    ray: Ray,
    background: &RGBColor,
    depth: i32,
    look: &L,
    draw: &D,
    times: &T,
    plus: &P,
) -> (c: RGBColor) where
    L: Fn(Ray) -> Option<Seen<H>>,
    D: Fn(Ray, H, CosinePDF, RGBColor) -> Drawn,
    T: Fn(RGBColor, RGBColor) -> RGBColor,
    P: Fn(RGBColor, RGBColor) -> RGBColor,

    requires
        forall|r: Ray| call_requires(*look, (r,)),
        forall|r: Ray, h: H, pdf: CosinePDF, a: RGBColor| call_requires(*draw, (r, h, pdf, a)),
        forall|a: RGBColor, b: RGBColor| call_requires(*times, (a, b)),
        forall|a: RGBColor, b: RGBColor| call_requires(*plus, (a, b)),
    ensures
        depth <= 0 ==> c == black(),
        is_estimate(*look, *draw, *times, *plus, ray, *background, depth as int, c),
    decreases depth,
{
    if depth <= 0 {
        return RGBColor::default();
    }
    let seen = look(ray);
    match seen {
        None => *background,
        Some(s) => {
            let emitted = s.emitted;
            match s.scattered {
                None => emitted,
                Some(sca_rec) => match sca_rec.dat {
                    ScaRecData::Specular(next) => {
                        let inner = ray_color(next, background, depth - 1, look, draw, times, plus);
                        let c = times(sca_rec.attenuation, inner);
                        assert(call_ensures(*times, (sca_rec.attenuation, inner), c));
                        c
                    },
                    ScaRecData::Pdf(pdf) => {
                        let d = draw(ray, s.hit, pdf, sca_rec.attenuation);
                        if !weigh(d.density, d.weight) {
                            return emitted;
                        }
                        let weight = d.weight.unwrap();
                        let inner = ray_color(
                            d.scattered,
                            background,
                            depth - 1,
                            look,
                            draw,
                            times,
                            plus,
                        );
                        let scaled = times(weight, inner);
                        let c = plus(emitted, scaled);
                        assert(call_ensures(*times, (d.weight->0, inner), scaled) && call_ensures(
                            *plus,
                            (s.emitted, scaled),
                            c,
                        ));
                        c
                    },
                },
            }
        },
    }
}

/// The rows of worker `thread_id`, where `thread_number` workers share an
/// image of `image_height` rows: from the first of the pair up to, not
/// including, the second.
///
/// Every worker takes as many rows as go into the height evenly; the last
/// takes the remainder too.
pub open spec fn section_of(thread_id: int, thread_number: int, image_height: int) -> (int, int) {
    let rows = image_height / thread_number;
    (
        rows * thread_id,
        if thread_id == thread_number - 1 {
            image_height
        } else {
            rows * thread_id + rows
        },
    )
}

/// The rows that worker `thread_id` of `thread_number` renders.
pub fn section(thread_id: usize, thread_number: usize, image_height: usize) -> (r: (usize, usize))
    requires
        thread_id < thread_number,
    ensures
        r.0 == section_of(thread_id as int, thread_number as int, image_height as int).0,
        r.1 == section_of(thread_id as int, thread_number as int, image_height as int).1,
        r.0 <= r.1 <= image_height,
{
    let section_line_num = image_height / thread_number;
    proof {
        lemma_rows_fit(thread_id as int, thread_number as int, image_height as int);
    }
    let line_beg = section_line_num * thread_id;
    let mut line_end = line_beg + section_line_num;
    if line_end > image_height || (thread_id == thread_number - 1 && line_end < image_height) {
        line_end = image_height;
    }
    (line_beg, line_end)
}

/// The rows of the workers up to and with `thread_id` do not reach beyond the image.
proof fn lemma_rows_fit(thread_id: int, thread_number: int, image_height: int)
    requires
        0 <= thread_id < thread_number,
        0 <= image_height,
    ensures
        0 <= (image_height / thread_number) * thread_id,
        (image_height / thread_number) * thread_id + image_height / thread_number <= image_height,
{
    let rows = image_height / thread_number;
    assert(rows * thread_number <= image_height) by (nonlinear_arith)
        requires
            rows == image_height / thread_number,
            thread_number > 0,
            image_height >= 0,
    ;
    assert(rows * (thread_id + 1) <= rows * thread_number) by (nonlinear_arith)
        requires
            rows >= 0,
            thread_id + 1 <= thread_number,
    ;
    assert(rows * (thread_id + 1) == rows * thread_id + rows) by (nonlinear_arith);
    assert(0 <= rows * thread_id) by (nonlinear_arith)
        requires
            rows >= 0,
            thread_id >= 0,
    ;
    assert(rows >= 0) by (nonlinear_arith)
        requires
            rows == image_height / thread_number,
            thread_number > 0,
            image_height >= 0,
    ;
}

/// The sections of the workers share the image out: the first begins with
/// row 0, each begins where the one before ends, and the last ends with the
/// image.
pub proof fn lemma_sections_partition(thread_id: int, thread_number: int, image_height: int)
    requires
        0 <= thread_id < thread_number,
        0 <= image_height,
    ensures
        section_of(0, thread_number, image_height).0 == 0,
        section_of(thread_number - 1, thread_number, image_height).1 == image_height,
        thread_id + 1 < thread_number ==> section_of(thread_id, thread_number, image_height).1
            == section_of(thread_id + 1, thread_number, image_height).0,
        section_of(thread_id, thread_number, image_height).0 <= section_of(
            thread_id,
            thread_number,
            image_height,
        ).1,
{
    let rows = image_height / thread_number;
    lemma_rows_fit(thread_id, thread_number, image_height);
    assert(rows * 0 == 0);
    assert(rows * (thread_id + 1) == rows * thread_id + rows) by (nonlinear_arith);
}

/// Where the colour with number `pixel_id` goes in an image of
/// `image_width` by `image_height` pixels: its column and its row. Colours
/// are numbered row by row from the bottom of the picture; the rows of an
/// image count from the top.
pub fn pixel_place(pixel_id: usize, image_width: usize, image_height: usize) -> (r: (usize, usize))
    requires
        image_width > 0,
        pixel_id < image_width * image_height,
    ensures
        r.0 == pixel_id % image_width,
        r.1 == image_height - pixel_id / image_width - 1,
        r.0 < image_width,
        r.1 < image_height,
{
    let x = pixel_id % image_width;
    let y = pixel_id / image_width;
    assert(y < image_height) by (nonlinear_arith)
        requires
            y == pixel_id / image_width,
            image_width > 0,
            pixel_id < image_width * image_height,
    ;
    (x, image_height - y - 1)
}

} // verus!
