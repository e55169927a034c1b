//! Pixels: many rays through one place of the image, added up and written
//! out as text.
use crate::camera::{get_ray_spec, Camera, CameraModel};
use crate::color::{
    append_decimal, decimal, get_pixel, pixel_channel, pixel_text, rgb_add, rgb_black, Color, Rgb,
};
use crate::diffusion::{in_unit_disk, random_fraction};
use crate::fixed::{fx_add, fx_div, fx_sub, sat, Fixed, ONE_RAW};
use crate::hittable::Hittable;
use crate::integrator::{ray_color, samples_valid, trace_spec};
use crate::material::SampleModel;
use crate::vec3::V3;
use rand::rngs::StdRng;
use vstd::prelude::*;

verus! {

/// The mathematical model of the random values of one ray through a pixel.
pub struct PixelSampleModel {
    /// Where in the pixel the ray passes, from its lower left corner.
    pub di: int,
    pub dj: int,
    /// Where on the lens the ray starts.
    pub lens: V3,
    /// The random values of its scatterings.
    pub bounces: Seq<SampleModel>,
}

/// Whether `s` can have been drawn for a ray of at most `depth` scatterings.
pub open spec fn pixel_sample_valid(s: PixelSampleModel, depth: nat) -> bool {
    &&& 0 <= s.di < ONE_RAW
    &&& 0 <= s.dj < ONE_RAW
    &&& in_unit_disk(s.lens)
    &&& samples_valid(s.bounces, depth)
}

/// The place `(index + jitter) / (extent - 1)` of the image, along one axis,
/// of a ray through pixel `index` of `extent`.
pub open spec fn image_coordinate(index: int, jitter: int, extent: int) -> int {
    fx_div(fx_add(sat(index * ONE_RAW), jitter), fx_sub(sat(extent * ONE_RAW), ONE_RAW as int))
}

/// The colour that one ray through pixel `(i, j)` brings back.
pub open spec fn sample_color<H: Hittable>(
    cam: CameraModel,
    world: &H,
    i: int,
    j: int,
    width: int,
    height: int,
    depth: nat,
    s: PixelSampleModel,
) -> Rgb {
    let u = image_coordinate(i, s.di, width);
    let v = image_coordinate(j, s.dj, height);
    trace_spec(world, get_ray_spec(cam, u, v, s.lens), depth, s.bounces)
}

/// The colours of the rays of `samples` through pixel `(i, j)`, added up
/// in order.
pub open spec fn pixel_sum<H: Hittable>(
    cam: CameraModel,
    world: &H,
    i: int,
    j: int,
    width: int,
    height: int,
    depth: nat,
    samples: Seq<PixelSampleModel>,
) -> Rgb
    decreases samples.len(),
{
    if samples.len() == 0 {
        rgb_black()
    } else {
        rgb_add(
            pixel_sum(cam, world, i, j, width, height, depth, samples.drop_last()),
            sample_color(cam, world, i, j, width, height, depth, samples.last()),
        )
    }
}

/// Whether `samples` holds the random values of `n` rays.
pub open spec fn pixel_samples_valid(samples: Seq<PixelSampleModel>, n: nat, depth: nat) -> bool {
    samples.len() == n && forall|k: int|
        0 <= k < n ==> pixel_sample_valid(#[trigger] samples[k], depth)
}

/// Whether `sum` is what `samples_per_pixel` rays through pixel `(i, j)`
/// can add up to.
pub open spec fn is_pixel_sum<H: Hittable>(
    cam: CameraModel,
    world: &H,
    i: int,
    j: int,
    width: int,
    height: int,
    depth: nat,
    samples_per_pixel: nat,
    sum: Rgb,
) -> bool {
    exists|samples: Seq<PixelSampleModel>|
        pixel_samples_valid(samples, samples_per_pixel, depth) && sum == #[trigger] pixel_sum(
            cam,
            world,
            i,
            j,
            width,
            height,
            depth,
            samples,
        )
}

/// The text of a pixel whose rays add up to `sum`.
pub open spec fn pixel_line(sum: Rgb, samples_per_pixel: int) -> Seq<char> {
    pixel_text(
        pixel_channel(sum.r, samples_per_pixel),
        pixel_channel(sum.g, samples_per_pixel),
        pixel_channel(sum.b, samples_per_pixel),
    )
}

/// The text of the pixels whose rays add up to `sums`, one line each, in order.
pub open spec fn lines_text(sums: Seq<Rgb>, samples_per_pixel: int) -> Seq<char>
    decreases sums.len(),
{
    if sums.len() == 0 {
        Seq::empty()
    } else {
        lines_text(sums.drop_last(), samples_per_pixel) + pixel_line(
            sums.last(),
            samples_per_pixel,
        )
    }
}

/// Whether `sums` holds, from left to right, what the rays through the
/// pixels of row `j` can add up to.
pub open spec fn is_scanline<H: Hittable>(
    cam: CameraModel,
    world: &H,
    j: int,
    width: int,
    height: int,
    depth: nat,
    samples_per_pixel: nat,
    sums: Seq<Rgb>,
) -> bool {
    sums.len() == width && forall|i: int|
        0 <= i < width ==> is_pixel_sum(
            cam,
            world,
            i,
            j,
            width,
            height,
            depth,
            samples_per_pixel,
            #[trigger] sums[i],
        )
}

/// The text of the rows `rows` of pixels, in order.
pub open spec fn image_text(rows: Seq<Seq<Rgb>>, samples_per_pixel: int) -> Seq<char>
    decreases rows.len(),
{
    if rows.len() == 0 {
        Seq::empty()
    } else {
        image_text(rows.drop_last(), samples_per_pixel) + lines_text(
            rows.last(),
            samples_per_pixel,
        )
    }
}

/// The head of the image text: the format, the size and the largest
/// channel value.
pub open spec fn header_text(width: nat, height: nat) -> Seq<char> {
    seq!['P', '3', '\n'] + decimal(width) + seq![' '] + decimal(height) + seq![
        '\n',
        '2',
        '5',
        '5',
        '\n',
    ]
}

/// The place along one axis of a ray through pixel `index` of `extent`
/// that passes the pixel at `jitter`.
fn coordinate(index: u32, jitter: Fixed, extent: u32) -> (c: Fixed)
    ensures
        c@ == image_coordinate(index as int, jitter@, extent as int),
{
    (Fixed::from_usize(index as usize) + jitter) / (Fixed::from_usize(extent as usize)
        - Fixed::one())
}

/// The sum of the colours that `samples_per_pixel` rays bring back, each
/// through a random place of pixel `(i, j)` of an image of `image_width` by
/// `image_height` pixels, with at most `max_depth` scatterings.
pub fn sample_pixel<H: Hittable>(
    cam: &Camera,
    world: &H,
    i: u32,
    j: u32,
    image_width: u32,
    image_height: u32,
    samples_per_pixel: usize,
    max_depth: usize,
    rng: &mut StdRng,
) -> (sum: Color)
    ensures
        samples_per_pixel == 0 ==> sum@ == rgb_black(),
        is_pixel_sum(
            cam@,
            world,
            i as int,
            j as int,
            image_width as int,
            image_height as int,
            max_depth as nat,
            samples_per_pixel as nat,
            sum@,
        ),
{
    let mut sum = Color::black();
    let ghost mut samples: Seq<PixelSampleModel> = Seq::empty();
    let mut k: usize = 0;
    while k < samples_per_pixel
        invariant
            k <= samples_per_pixel,
            pixel_samples_valid(samples, k as nat, max_depth as nat),
            sum@ == pixel_sum(
                cam@,
                world,
                i as int,
                j as int,
                image_width as int,
                image_height as int,
                max_depth as nat,
                samples,
            ),
        decreases samples_per_pixel - k,
    {
        let di = random_fraction(rng);
        let dj = random_fraction(rng);
        let u = coordinate(i, di, image_width);
        let v = coordinate(j, dj, image_height);
        let r = cam.get_ray(u, v, rng);
        let c = ray_color(&r, world, max_depth, rng);
        proof {
            let lens = choose|lens: V3|
                in_unit_disk(lens) && r@ == get_ray_spec(cam@, u@, v@, lens);
            let bounces = choose|bounces: Seq<SampleModel>|
                samples_valid(bounces, max_depth as nat) && c@ == #[trigger] trace_spec(
                    world,
                    r@,
                    max_depth as nat,
                    bounces,
                );
            let s = PixelSampleModel { di: di@, dj: dj@, lens, bounces };
            let longer = samples.push(s);
            assert(longer.drop_last() =~= samples);
            assert(longer.last() == s);
            assert forall|n: int| 0 <= n < k + 1 implies pixel_sample_valid(
                #[trigger] longer[n],
                max_depth as nat,
            ) by {
                if n < k {
                    assert(longer[n] == samples[n]);
                }
            }
            samples = longer;
        }
        sum = sum + c;
        k += 1;
    }
    sum
}

/// The text of row `j` of the image, counted from the bottom: the lines of
/// its pixels from left to right.
pub fn render_scanline<H: Hittable>(
    cam: &Camera,
    world: &H,
    j: u32,
    image_width: u32,
    image_height: u32,
    samples_per_pixel: usize,
    max_depth: usize,
    rng: &mut StdRng,
) -> (text: String)
    ensures
        exists|sums: Seq<Rgb>|
            is_scanline(
                cam@,
                world,
                j as int,
                image_width as int,
                image_height as int,
                max_depth as nat,
                samples_per_pixel as nat,
                sums,
            ) && text@ == #[trigger] lines_text(sums, samples_per_pixel as int),
{
    let mut text = String::new();
    let ghost mut sums: Seq<Rgb> = Seq::empty();
    let mut i: u32 = 0;
    while i < image_width
        invariant
            i <= image_width,
            sums.len() == i,
            forall|n: int|
                0 <= n < i ==> is_pixel_sum(
                    cam@,
                    world,
                    n,
                    j as int,
                    image_width as int,
                    image_height as int,
                    max_depth as nat,
                    samples_per_pixel as nat,
                    #[trigger] sums[n],
                ),
            text@ == lines_text(sums, samples_per_pixel as int),
        decreases image_width - i,
    {
        let sum = sample_pixel(
            cam,
            world,
            i,
            j,
            image_width,
            image_height,
            samples_per_pixel,
            max_depth,
            rng,
        );
        let line = get_pixel(sum, samples_per_pixel);
        text.append(line.as_str());
        proof {
            let longer = sums.push(sum@);
            assert(longer.drop_last() =~= sums);
            assert(longer.last() == sum@);
            assert forall|n: int| 0 <= n < i + 1 implies is_pixel_sum(
                cam@,
                world,
                n,
                j as int,
                image_width as int,
                image_height as int,
                max_depth as nat,
                samples_per_pixel as nat,
                #[trigger] longer[n],
            ) by {
                if n < i {
                    assert(longer[n] == sums[n]);
                }
            }
            sums = longer;
        }
        i += 1;
    }
    text
}

/// The text of the image below its head: the rows from the top one down,
/// each from left to right. Row `j` counts from the bottom, so the `k`-th
/// row of the text is row `image_height - 1 - k`.
pub fn render<H: Hittable>(
    cam: &Camera,
    world: &H,
    image_width: u32,
    image_height: u32,
    samples_per_pixel: usize,
    max_depth: usize,
    rng: &mut StdRng,
) -> (text: String)
    ensures
        exists|rows: Seq<Seq<Rgb>>|
            {
                &&& rows.len() == image_height
                &&& forall|k: int|
                    0 <= k < image_height ==> is_scanline(
                        cam@,
                        world,
                        image_height - 1 - k,
                        image_width as int,
                        image_height as int,
                        max_depth as nat,
                        samples_per_pixel as nat,
                        #[trigger] rows[k],
                    )
                &&& text@ == image_text(rows, samples_per_pixel as int)
            },
{
    let mut text = String::new();
    let ghost mut rows: Seq<Seq<Rgb>> = Seq::empty();
    let mut j: u32 = image_height;
    while j > 0
        invariant
            j <= image_height,
            rows.len() == image_height - j,
            forall|k: int|
                0 <= k < rows.len() ==> is_scanline(
                    cam@,
                    world,
                    image_height - 1 - k,
                    image_width as int,
                    image_height as int,
                    max_depth as nat,
                    samples_per_pixel as nat,
                    #[trigger] rows[k],
                ),
            text@ == image_text(rows, samples_per_pixel as int),
        decreases j,
    {
        j -= 1;
        let line = render_scanline(
            cam,
            world,
            j,
            image_width,
            image_height,
            samples_per_pixel,
            max_depth,
            rng,
        );
        text.append(line.as_str());
        proof {
            let sums = choose|sums: Seq<Rgb>|
                is_scanline(
                    cam@,
                    world,
                    j as int,
                    image_width as int,
                    image_height as int,
                    max_depth as nat,
                    samples_per_pixel as nat,
                    sums,
                ) && line@ == #[trigger] lines_text(sums, samples_per_pixel as int);
            let longer = rows.push(sums);
            assert(longer.drop_last() =~= rows);
            assert(longer.last() == sums);
            assert forall|k: int| 0 <= k < longer.len() implies is_scanline(
                cam@,
                world,
                image_height - 1 - k,
                image_width as int,
                image_height as int,
                max_depth as nat,
                samples_per_pixel as nat,
                #[trigger] longer[k],
            ) by {
                if k < rows.len() {
                    assert(longer[k] == rows[k]);
                }
            }
            rows = longer;
        }
    }
    text
}

/// The head of the text of an image of `image_width` by `image_height`
/// pixels.
pub fn image_header(image_width: u32, image_height: u32) -> (text: String)
    ensures
        text@ == header_text(image_width as nat, image_height as nat),
{
    proof {
        reveal_strlit("P3\n");
        reveal_strlit(" ");
        reveal_strlit("\n255\n");
    }
    let mut text = String::from_str("P3\n");
    append_decimal(&mut text, image_width);
    text.append(" ");
    append_decimal(&mut text, image_height);
    text.append("\n255\n");
    assert(text@ =~= header_text(image_width as nat, image_height as nat));
    text
}

} // verus!
