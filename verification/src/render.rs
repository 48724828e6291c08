use vstd::arithmetic::div_mod::{
    lemma_div_is_ordered, lemma_fundamental_div_mod,
};
use vstd::arithmetic::mul::lemma_mul_inequality;
use vstd::math::abs;
use vstd::prelude::*;

verus! {

/// A contiguous range of image rows assigned to one worker.
#[derive(Clone, Copy, Debug, PartialEq, Eq, Structural)]
pub struct Band {
    pub start: usize,
    pub end: usize,
}

/// Partition the image rows into equal contiguous bands. The row count
/// must be evenly divisible by the band size: that is the renderer's
/// configuration precondition.
pub fn make_bands(height: usize, band_size: usize) -> (bands: Vec<Band>)
    requires
        band_size > 0,
        height % band_size == 0,
    ensures
        bands@.len() == height as int / band_size as int,
        forall|i: int|
            0 <= i < bands@.len() ==> (#[trigger] bands@[i]).start == i * band_size
                && bands@[i].end == (i + 1) * band_size,
{
    let n: usize = height / band_size;
    proof {
        lemma_fundamental_div_mod(height as int, band_size as int);
    }
    let mut bands: Vec<Band> = Vec::new();
    let mut k: usize = 0;
    while k < n
        invariant
            band_size > 0,
            n == height as int / band_size as int,
            (n as int) * (band_size as int) == height as int,
            0 <= k <= n,
            bands@.len() == k,
            forall|i: int|
                0 <= i < k ==> (#[trigger] bands@[i]).start == i * band_size && bands@[i].end == (i
                    + 1) * band_size,
        decreases n - k,
    {
        proof {
            lemma_mul_inequality(k as int + 1, n as int, band_size as int);
            lemma_mul_inequality(k as int, n as int, band_size as int);
            assert((k as int) * (band_size as int) + band_size == (k as int + 1) * (
            band_size as int)) by (nonlinear_arith);
        }
        let start: usize = k * band_size;
        let end: usize = start + band_size;
        bands.push(Band { start, end });
        k = k + 1;
    }
    bands
}

/// Equal contiguous bands partition the rows: every row below the total
/// height lies in exactly one band, with no gaps and no overlaps.
pub proof fn lemma_bands_partition(bands: Seq<Band>, height: int, band_size: int)
    requires
        band_size > 0,
        height == bands.len() * band_size,
        forall|i: int|
            0 <= i < bands.len() ==> (#[trigger] bands[i]).start == i * band_size && bands[i].end
                == (i + 1) * band_size,
    ensures
        forall|row: int|
            0 <= row < height ==> {
                let i = row / band_size;
                0 <= i < bands.len() && (#[trigger] (row / band_size)) == i && bands[i].start
                    <= row < bands[i].end
            },
        forall|i: int, j: int|
            0 <= i < j < bands.len() ==> (#[trigger] bands[i]).end <= (#[trigger] bands[j]).start,
{
    assert forall|row: int| 0 <= row < height implies {
        let i = row / band_size;
        0 <= i < bands.len() && (#[trigger] (row / band_size)) == i && bands[i].start <= row
            < bands[i].end
    } by {
        let i = row / band_size;
        lemma_fundamental_div_mod(row, band_size);
        lemma_div_is_ordered(0, row, band_size);
        if i >= bands.len() {
            lemma_mul_inequality(bands.len() as int, i, band_size);
            assert((bands.len() as int) * band_size <= i * band_size);
            assert(i * band_size <= row) by (nonlinear_arith)
                requires
                    row == band_size * i + row % band_size,
                    row % band_size >= 0,
            ;
        }
        assert(i * band_size <= row < (i + 1) * band_size) by (nonlinear_arith)
            requires
                row == band_size * i + row % band_size,
                0 <= row % band_size < band_size,
        ;
    }
    assert forall|i: int, j: int| 0 <= i < j < bands.len() implies (#[trigger] bands[i]).end <= (
    #[trigger] bands[j]).start by {
        lemma_mul_inequality(i + 1, j, band_size);
    }
}

/// The grouped state after one result arrives: the bytes are appended to
/// the emitting band's sequence, in arrival order.
pub open spec fn record_spec(state: Seq<Seq<Seq<u8>>>, band: int, bytes: Seq<u8>) -> Seq<
    Seq<Seq<u8>>,
> {
    state.update(band, state[band].push(bytes))
}

/// The bytes one band contributes, reading its pixel results from the
/// last received back to the first.
pub open spec fn assembled_pixels(pixels: Seq<Seq<u8>>, j: int) -> Seq<u8>
    decreases pixels.len() - j,
{
    if j < 0 || j >= pixels.len() {
        Seq::empty()
    } else {
        assembled_pixels(pixels, j + 1) + pixels[j]
    }
}

/// The full output, reading the bands from the last back to the first.
pub open spec fn assembled_bands(state: Seq<Seq<Seq<u8>>>, i: int) -> Seq<u8>
    decreases state.len() - i,
{
    if i < 0 || i >= state.len() {
        Seq::empty()
    } else {
        assembled_bands(state, i + 1) + assembled_pixels(state[i], 0)
    }
}

/// The complete image buffer the collector hands to the output writer.
pub open spec fn assembled(state: Seq<Seq<Seq<u8>>>) -> Seq<u8> {
    assembled_bands(state, 0)
}

/// The pixel sequences one band has received, as mathematical sequences.
pub open spec fn pixels_view(band: Vec<Vec<u8>>) -> Seq<Seq<u8>> {
    Seq::new(band@.len(), |j: int| band@[j]@)
}

/// The collector's grouped state: per band, the received pixel byte
/// sequences in arrival order.
pub open spec fn grouped(bands: Seq<Vec<Vec<u8>>>) -> Seq<Seq<Seq<u8>>> {
    Seq::new(bands.len(), |i: int| pixels_view(bands[i]))
}

/// Collects the per-pixel byte results of all workers, grouped by band,
/// and reassembles them into one buffer in emission order.
pub struct Collector {
    pub bands: Vec<Vec<Vec<u8>>>,
}

impl Collector {
    /// A collector expecting results from the given number of bands.
    pub fn new(num_bands: usize) -> (c: Self)
        ensures
            grouped(c.bands@) == Seq::<Seq<Seq<u8>>>::new(num_bands as nat, |i: int| Seq::empty()),
    {
        let mut bands: Vec<Vec<Vec<u8>>> = Vec::new();
        let mut k: usize = 0;
        while k < num_bands
            invariant
                0 <= k <= num_bands,
                bands@.len() == k,
                forall|i: int| 0 <= i < k ==> (#[trigger] bands@[i])@.len() == 0,
            decreases num_bands - k,
        {
            bands.push(Vec::new());
            k = k + 1;
        }
        proof {
            assert(grouped(bands@) =~~= Seq::<Seq<Seq<u8>>>::new(
                num_bands as nat,
                |i: int| Seq::empty(),
            ));
        }
        Collector { bands }
    }

    /// Record one finished pixel's bytes under the band that emitted it.
    pub fn record(&mut self, band: usize, bytes: Vec<u8>) -> (nothing: ())
        requires
            band < old(self).bands@.len(),
        ensures
            grouped(final(self).bands@) == record_spec(
                grouped(old(self).bands@),
                band as int,
                bytes@,
            ),
    {
        let mut inner: Vec<Vec<u8>> = self.bands.remove(band);
        inner.push(bytes);
        self.bands.insert(band, inner);
        proof {
            assert(self.bands@ =~= old(self).bands@.update(band as int, inner));
            assert(pixels_view(inner) =~= pixels_view(old(self).bands@[band as int]).push(bytes@));
            assert(grouped(self.bands@) =~~= record_spec(
                grouped(old(self).bands@),
                band as int,
                bytes@,
            ));
        }
    }

    /// Concatenate all bands' results, bands in reverse order and each
    /// band's pixels in reverse order, into the final image buffer.
    pub fn assemble(&self) -> (out: Vec<u8>)
        ensures
            out@ == assembled(grouped(self.bands@)),
    {
        let ghost state = grouped(self.bands@);
        let mut out: Vec<u8> = Vec::new();
        let mut bi: usize = self.bands.len();
        proof {
            assert(out@ =~= assembled_bands(state, bi as int));
        }
        while bi > 0
            invariant
                state == grouped(self.bands@),
                0 <= bi <= self.bands@.len(),
                state.len() == self.bands@.len(),
                out@ == assembled_bands(state, bi as int),
            decreases bi,
        {
            bi = bi - 1;
            let band: &Vec<Vec<u8>> = &self.bands[bi];
            let ghost pixels = state[bi as int];
            proof {
                assert(pixels =~= pixels_view(*band));
            }
            let mut pi: usize = band.len();
            proof {
                assert(assembled_pixels(pixels, pi as int) =~= Seq::<u8>::empty());
            }
            while pi > 0
                invariant
                    pixels == pixels_view(*band),
                    0 <= pi <= band@.len(),
                    pixels.len() == band@.len(),
                    out@ == assembled_bands(state, bi as int + 1) + assembled_pixels(
                        pixels,
                        pi as int,
                    ),
                decreases pi,
            {
                pi = pi - 1;
                let bytes: &Vec<u8> = &band[pi];
                proof {
                    assert(bytes@ == pixels[pi as int]);
                }
                let mut k: usize = 0;
                while k < bytes.len()
                    invariant
                        0 <= k <= bytes@.len(),
                        out@ == assembled_bands(state, bi as int + 1) + assembled_pixels(
                            pixels,
                            pi as int + 1,
                        ) + bytes@.subrange(0, k as int),
                    decreases bytes@.len() - k,
                {
                    out.push(bytes[k]);
                    k = k + 1;
                }
                proof {
                    assert(bytes@.subrange(0, bytes@.len() as int) =~= bytes@);
                    assert(out@ =~= assembled_bands(state, bi as int + 1) + assembled_pixels(
                        pixels,
                        pi as int,
                    ));
                }
            }
            proof {
                assert(out@ =~= assembled_bands(state, bi as int));
            }
        }
        out
    }
}

/// One jittered sample coordinate: the pixel index plus a uniform draw in
/// `[0, 1)`, divided by the extent less one, as a fixed-point fraction.
pub fn sample_coord(index: usize, extent: usize) -> (r: i64)
    requires
        2 <= extent <= 16384,
        index < extent,
    ensures
        0 <= r <= 2 * crate::utility::SCALE as int,
        exists|d: int|
            0 <= d < crate::utility::SCALE && r as int == #[trigger] crate::utility::fx_div_spec(
                index as int * crate::utility::SCALE + d,
                (extent - 1) as int * crate::utility::SCALE,
            ),
{
    let jitter: i64 = crate::utility::rand();
    let num: i64 = (index as i64) * crate::utility::SCALE + jitter;
    let den: i64 = ((extent - 1) as i64) * crate::utility::SCALE;
    proof {
        let n = num as int;
        let d = den as int;
        assert(n < 2 * d && abs(n * 65536) <= d * 131072) by (nonlinear_arith)
            requires
                0 <= n,
                d == (extent - 1) * 65536,
                n < (extent as int) * 65536,
                2 <= extent <= 16384,
        ;
        crate::utility::lemma_tdiv_bound(n * 65536, d, d * 131072);
        vstd::arithmetic::div_mod::lemma_div_multiples_vanish(131072, d);
    }
    let r: i64 = crate::utility::fx_div(num, den);
    proof {
        assert(0 <= jitter as int && (jitter as int) < crate::utility::SCALE && r as int
            == crate::utility::fx_div_spec(
            index as int * crate::utility::SCALE + jitter as int,
            (extent - 1) as int * crate::utility::SCALE,
        ));
    }
    r
}

/// What a rendered pixel promises of every outcome: the bytes encode some
/// accumulated colour with nonnegative channels no larger than the sample
/// count; with a zero bounce budget that colour is black; and over an
/// empty scene, through a zero-lens camera all of whose center rays are
/// traceable, its blue channel is exactly the sample count, since every
/// sample keeps the background's full blue.
pub open spec fn pixel_output_ok(
    out: Seq<u8>,
    world: crate::collidable::CollidableVec,
    camera: crate::camera::Camera,
    samples: u32,
    depth: u32,
) -> bool {
    exists|acc: crate::color::Color|
        {
            &&& crate::color::color_within(acc, samples as int * crate::utility::SCALE as int)
            &&& acc.r >= 0 && acc.g >= 0 && acc.b >= 0
            &&& out == #[trigger] crate::color::output_bytes(acc, samples as int)
            &&& (depth == 0 ==> acc == (crate::color::Color { r: 0i64, g: 0i64, b: 0i64 }))
            &&& (world.items@.len() == 0 && camera.lens_radius == 0
                && crate::camera::center_rays_ok(camera) && depth > 0 ==> acc.b == samples as int
                * crate::utility::SCALE as int)
        }
}

/// Render one pixel: average the traced colour of jittered camera rays
/// over the sample count and encode the result.
pub fn render_pixel(
    world: &crate::collidable::CollidableVec,
    camera: &crate::camera::Camera,
    row: usize,
    col: usize,
    width: usize,
    height: usize,
    samples: u32,
    depth: u32,
) -> (out: Vec<u8>)
    requires
        crate::collidable::world_wf(*world),
        crate::camera::camera_wf(*camera),
        2 <= width <= 16384,
        2 <= height <= 16384,
        col < width,
        row < height,
        0 < samples <= 0x100_0000,
    ensures
        pixel_output_ok(out@, *world, *camera, samples, depth),
{
    let ghost clear_sky = world.items@.len() == 0 && camera.lens_radius == 0
        && crate::camera::center_rays_ok(*camera) && depth > 0;
    let mut color = crate::color::Color::black();
    let mut s: u32 = 0;
    while s < samples
        invariant
            crate::collidable::world_wf(*world),
            crate::camera::camera_wf(*camera),
            2 <= width <= 16384,
            2 <= height <= 16384,
            col < width,
            row < height,
            0 < samples <= 0x100_0000,
            0 <= s <= samples,
            clear_sky == (world.items@.len() == 0 && camera.lens_radius == 0
                && crate::camera::center_rays_ok(*camera) && depth > 0),
            crate::color::color_within(color, s as int * crate::utility::SCALE as int),
            color.r >= 0 && color.g >= 0 && color.b >= 0,
            depth == 0 ==> color == (crate::color::Color { r: 0i64, g: 0i64, b: 0i64 }),
            clear_sky ==> color.b == s as int * crate::utility::SCALE as int,
        decreases samples - s,
    {
        let x = sample_coord(col, width);
        let y = sample_coord(row, height);
        let ray = camera.get_ray(x, y);
        proof {
            if clear_sky {
                assert(ray == (crate::ray::Ray {
                    origin: camera.origin,
                    direction: crate::camera::center_direction_spec(*camera, x as int, y as int),
                }));
                assert(crate::ray::ray_wf(ray));
            }
        }
        let c = ray.do_color(world, depth);
        proof {
            assert((s as int) * 65536 + 65536 == (s as int + 1) * 65536) by (nonlinear_arith);
            assert((s as int + 1) * 65536 <= (samples as int) * 65536) by (nonlinear_arith)
                requires
                    s as int + 1 <= samples as int,
            ;
        }
        color = color.add(c);
        s = s + 1;
    }
    let out = color.as_output(samples);
    proof {
        assert(crate::color::color_within(color, samples as int * crate::utility::SCALE as int)
            && color.r >= 0 && color.g >= 0 && color.b >= 0 && out@
            == crate::color::output_bytes(color, samples as int) && (depth == 0 ==> color
            == (crate::color::Color { r: 0i64, g: 0i64, b: 0i64 })) && (clear_sky ==> color.b
            == samples as int * crate::utility::SCALE as int));
    }
    out
}

/// Results from different bands may arrive in any interleaving: recording
/// two results for distinct bands in either order leaves the collector in
/// the same grouped state, so the assembled output is byte-identical.
pub proof fn lemma_record_commutes(
    state: Seq<Seq<Seq<u8>>>,
    band1: int,
    bytes1: Seq<u8>,
    band2: int,
    bytes2: Seq<u8>,
)
    requires
        0 <= band1 < state.len(),
        0 <= band2 < state.len(),
        band1 != band2,
    ensures
        record_spec(record_spec(state, band1, bytes1), band2, bytes2) == record_spec(
            record_spec(state, band2, bytes2),
            band1,
            bytes1,
        ),
{
    assert(record_spec(record_spec(state, band1, bytes1), band2, bytes2) =~~= record_spec(
        record_spec(state, band2, bytes2),
        band1,
        bytes1,
    ));
}

} // verus!
