//! Pixel-level image comparison.
//!
//! Thresholds are kept in millionths, so that the per-pixel test and the
//! shot-level test are exact integer comparisons.

use vstd::prelude::*;

verus! {

/// One RGBA pixel.
#[derive(Debug, Clone, Copy, PartialEq, Eq, Structural)]
pub struct Pixel {
    /// Red.
    pub r: u8,
    /// Green.
    pub g: u8,
    /// Blue.
    pub b: u8,
    /// Alpha.
    pub a: u8,
}

/// A shot-level threshold, in millionths (`0.01` is `10_000`).
#[derive(Debug, Clone, Copy, PartialEq, Eq, Structural)]
pub struct Threshold {
    /// The threshold times one million.
    pub millionths: u32,
}

/// The highlight color of a differing pixel, and of a size-mismatch placeholder.
pub open spec fn red() -> Pixel {
    Pixel { r: 255, g: 0, b: 0, a: 255 }
}

/// The squared 4-channel Euclidean distance between two pixels.
pub open spec fn dist2(p: Pixel, q: Pixel) -> int {
    (p.r - q.r) * (p.r - q.r) + (p.g - q.g) * (p.g - q.g) + (p.b - q.b) * (p.b - q.b) + (p.a
        - q.a) * (p.a - q.a)
}

/// Two pixels differ when their distance, normalised by the largest possible
/// distance (510), exceeds a tenth of the threshold:
/// `sqrt(d2) / 510 > t / 10`, that is `d2 * 10^14 > (510 * millionths)^2`.
pub open spec fn differs(p: Pixel, q: Pixel, t: Threshold) -> bool {
    p != q && dist2(p, q) * 100_000_000_000_000 > (510 * t.millionths) * (510 * t.millionths)
}

/// The pixel the diff image shows: differing pixels in strong red over a
/// dimmed green and blue; the others dimmed to half for context.
pub open spec fn diff_pixel(base: Pixel, cur: Pixel, t: Threshold) -> Pixel {
    if differs(base, cur, t) {
        Pixel { r: 255, g: (cur.g * 3 / 10) as u8, b: (cur.b * 3 / 10) as u8, a: 255 }
    } else {
        Pixel { r: (cur.r / 2) as u8, g: (cur.g / 2) as u8, b: (cur.b / 2) as u8, a: cur.a }
    }
}

fn square_diff(x: u8, y: u8) -> (r: u32)
    ensures
        r == (x - y) * (x - y),
        r <= 65025,
{
    let d: u32 = if x >= y {
        (x - y) as u32
    } else {
        (y - x) as u32
    };
    assert(d * d <= 255 * 255) by (nonlinear_arith)
        requires
            d <= 255,
    ;
    assert(d * d == (x - y) * (x - y)) by (nonlinear_arith)
        requires
            d == x - y || d == y - x,
    ;
    d * d
}

/// Whether two pixels differ beyond the per-pixel tolerance of `t`.
pub fn pixels_differ(p: &Pixel, q: &Pixel, t: Threshold) -> (r: bool)
    ensures
        r == differs(*p, *q, t),
{
    if *p == *q {
        return false;
    }
    let d2: u32 = square_diff(p.r, q.r) + square_diff(p.g, q.g) + square_diff(p.b, q.b)
        + square_diff(p.a, q.a);
    let lhs: u128 = (d2 as u128) * 100_000_000_000_000u128;
    let s: u128 = 510u128 * (t.millionths as u128);
    assert(s * s <= 510 * 4294967295 * (510 * 4294967295)) by (nonlinear_arith)
        requires
            s <= 510 * 4294967295,
    ;
    assert(510 * 4294967295 * (510 * 4294967295) <= 340282366920938463463374607431768211455int)
        by (nonlinear_arith);
    let bound: u128 = s * s;
    lhs > bound
}

/// A raster image: `width * height` pixels, row by row.
#[derive(Debug, Clone)]
pub struct Raster {
    /// Width in pixels.
    pub width: u32,
    /// Height in pixels.
    pub height: u32,
    /// The pixels, row-major.
    pub pixels: Vec<Pixel>,
}

impl Raster {
    /// The pixel count matches the dimensions.
    pub open spec fn wf(&self) -> bool {
        self.pixels@.len() == self.width * self.height
    }

    /// A raster of the given size in one color.
    pub fn solid(width: u32, height: u32, color: Pixel) -> (r: Raster)
        requires
            width * height <= usize::MAX,
        ensures
            r.wf(),
            r.width == width,
            r.height == height,
            forall|i: int| 0 <= i < r.pixels@.len() ==> r.pixels@[i] == color,
    {
        let n: usize = (width as usize) * (height as usize);
        let mut pixels: Vec<Pixel> = Vec::new();
        let mut i: usize = 0;
        while i < n
            invariant
                i <= n,
                pixels@.len() == i,
                forall|j: int| 0 <= j < i ==> pixels@[j] == color,
            decreases n - i,
        {
            pixels.push(color);
            i = i + 1;
        }
        Raster { width, height, pixels }
    }
}

/// A share of differing pixels: `differing` out of `total`.
#[derive(Debug, Clone, Copy, PartialEq, Eq, Structural)]
pub struct DiffRatio {
    /// Pixels that differ.
    pub differing: u64,
    /// Pixels compared.
    pub total: u64,
}

/// `p` is the percentage of differing pixels, `differing / total * 100`
/// (any value fits when nothing was compared).
pub open spec fn is_percentage(r: DiffRatio, p: int) -> bool {
    r.total > 0 ==> p * r.total == r.differing * 100
}

/// Whether the percentage of differing pixels is above the threshold value
/// itself: `differing / total * 100 > millionths / 10^6`.
pub open spec fn exceeds(r: DiffRatio, t: Threshold) -> bool {
    r.total > 0 && r.differing * 100_000_000 > t.millionths * r.total
}

/// Whether a shot with this share of differing pixels counts as changed.
pub fn is_changed(r: DiffRatio, t: Threshold) -> (c: bool)
    ensures
        c == exceeds(r, t),
{
    if r.total == 0 {
        return false;
    }
    let lhs: u128 = (r.differing as u128) * 100_000_000u128;
    assert((t.millionths as u128) * (r.total as u128) <= 4294967295 * 18446744073709551615)
        by (nonlinear_arith)
        requires
            t.millionths <= 4294967295,
            r.total <= 18446744073709551615,
    ;
    assert(4294967295 * 18446744073709551615 <= 340282366920938463463374607431768211455int)
        by (nonlinear_arith);
    let rhs: u128 = (t.millionths as u128) * (r.total as u128);
    lhs > rhs
}

/// The number of differing pixels among the first `n`.
pub open spec fn count_differing(b: Seq<Pixel>, c: Seq<Pixel>, t: Threshold, n: nat) -> nat
    decreases n,
{
    if n == 0 {
        0
    } else {
        count_differing(b, c, t, (n - 1) as nat) + if differs(b[n - 1], c[n - 1], t) {
            1nat
        } else {
            0nat
        }
    }
}

/// The outcome of comparing two rasters.
#[derive(Debug, Clone)]
pub struct Comparison {
    /// The share of differing pixels.
    pub ratio: DiffRatio,
    /// The diff image, when there is one to write.
    pub diff_image: Option<Raster>,
}

/// What comparing `b` with `c` at threshold `t` gives. Rasters of different
/// sizes differ fully (1 of 1) and get a red placeholder covering both; rasters
/// of one size are compared pixel by pixel, and a diff image is given only
/// when some pixel differs.
pub open spec fn compares_as(b: Raster, c: Raster, t: Threshold, r: Comparison) -> bool {
    if b.width != c.width || b.height != c.height {
        &&& r.ratio == DiffRatio { differing: 1, total: 1 }
        &&& r.diff_image matches Some(img) && img.wf() && img.width == (if b.width >= c.width {
            b.width
        } else {
            c.width
        }) && img.height == (if b.height >= c.height {
            b.height
        } else {
            c.height
        }) && forall|i: int| 0 <= i < img.pixels@.len() ==> img.pixels@[i] == red()
    } else {
        &&& r.ratio.total == b.width * b.height
        &&& r.ratio.differing == count_differing(
            b.pixels@,
            c.pixels@,
            t,
            (b.width * b.height) as nat,
        )
        &&& (r.diff_image is Some) == (r.ratio.differing > 0)
        &&& r.diff_image matches Some(img) ==> img.wf() && img.width == b.width && img.height
            == b.height && forall|i: int|
            0 <= i < img.pixels@.len() ==> img.pixels@[i] == diff_pixel(
                b.pixels@[i],
                c.pixels@[i],
                t,
            )
    }
}

fn dim_pixel(base: &Pixel, cur: &Pixel, t: Threshold) -> (r: (Pixel, bool))
    ensures
        r.0 == diff_pixel(*base, *cur, t),
        r.1 == differs(*base, *cur, t),
{
    if pixels_differ(base, cur, t) {
        let g = ((cur.g as u16) * 3 / 10) as u8;
        let b = ((cur.b as u16) * 3 / 10) as u8;
        (Pixel { r: 255, g, b, a: 255 }, true)
    } else {
        (Pixel { r: cur.r / 2, g: cur.g / 2, b: cur.b / 2, a: cur.a }, false)
    }
}

/// Compares two rasters at threshold `t`.
pub fn compare_rasters(baseline: &Raster, current: &Raster, t: Threshold) -> (r: Comparison)
    requires
        baseline.wf(),
        current.wf(),
        (if baseline.width >= current.width {
            baseline.width
        } else {
            current.width
        }) * (if baseline.height >= current.height {
            baseline.height
        } else {
            current.height
        }) <= usize::MAX,
    ensures
        compares_as(*baseline, *current, t, r),
{
    if baseline.width != current.width || baseline.height != current.height {
        let w = if baseline.width >= current.width {
            baseline.width
        } else {
            current.width
        };
        let h = if baseline.height >= current.height {
            baseline.height
        } else {
            current.height
        };
        let img = Raster::solid(w, h, Pixel { r: 255, g: 0, b: 0, a: 255 });
        return Comparison { ratio: DiffRatio { differing: 1, total: 1 }, diff_image: Some(img) };
    }
    let n = baseline.pixels.len();
    let mut count: u64 = 0;
    let mut out: Vec<Pixel> = Vec::new();
    let mut i: usize = 0;
    while i < n
        invariant
            n == baseline.pixels@.len(),
            n == current.pixels@.len(),
            i <= n,
            count == count_differing(baseline.pixels@, current.pixels@, t, i as nat),
            count <= i,
            out@.len() == i,
            forall|j: int|
                0 <= j < i ==> out@[j] == diff_pixel(baseline.pixels@[j], current.pixels@[j], t),
        decreases n - i,
    {
        let (p, d) = dim_pixel(&baseline.pixels[i], &current.pixels[i], t);
        out.push(p);
        if d {
            count = count + 1;
        }
        i = i + 1;
    }
    let ratio = DiffRatio { differing: count, total: n as u64 };
    if count > 0 {
        Comparison {
            ratio,
            diff_image: Some(Raster { width: baseline.width, height: baseline.height, pixels: out }),
        }
    } else {
        Comparison { ratio, diff_image: None }
    }
}

/// Two identical images differ nowhere, so their comparison reports zero
/// differing pixels and no diff image.
pub proof fn lemma_identical_images_do_not_differ(b: Raster, c: Raster, t: Threshold, r: Comparison)
    requires
        b.wf(),
        b.width == c.width,
        b.height == c.height,
        b.pixels@ == c.pixels@,
        compares_as(b, c, t, r),
    ensures
        r.ratio.differing == 0,
        is_percentage(r.ratio, 0),
        r.diff_image is None,
{
    lemma_count_identical(b.pixels@, t, (b.width * b.height) as nat);
}

proof fn lemma_count_identical(s: Seq<Pixel>, t: Threshold, n: nat)
    ensures
        count_differing(s, s, t, n) == 0,
    decreases n,
{
    if n > 0 {
        lemma_count_identical(s, t, (n - 1) as nat);
    }
}

/// Images of different sizes are reported as differing in full (100%), with
/// a solid red placeholder diff image covering both.
pub proof fn lemma_size_mismatch_is_full_difference(b: Raster, c: Raster, t: Threshold, r: Comparison)
    requires
        b.width != c.width || b.height != c.height,
        compares_as(b, c, t, r),
    ensures
        is_percentage(r.ratio, 100),
        exceeds(r.ratio, t) <== t.millionths < 100_000_000,
        r.diff_image matches Some(img) && forall|i: int|
            0 <= i < img.pixels@.len() ==> img.pixels@[i] == red(),
{
}

/// A pixel never differs from itself, whatever the threshold.
pub proof fn lemma_pixel_never_differs_from_itself(p: Pixel, t: Threshold)
    ensures
        !differs(p, p, t),
{
}

} // verus!
