//! Diff engine: pixel-by-pixel comparison of a reference bitmap against a
//! captured bitmap, with a per-channel tolerance, over a canvas sized to the
//! bounding box of the two images. A cell present in only one image always
//! counts as changed, so a dimension mismatch is never silently ignored.

use vstd::arithmetic::div_mod::lemma_fundamental_div_mod_converse;
use vstd::arithmetic::div_mod::lemma_mod_bound;
use vstd::arithmetic::div_mod::lemma_multiply_divide_lt;
use vstd::prelude::*;

use crate::bitmap::lemma_row_major_index_in_range;
use crate::bitmap::Bitmap;
use crate::bitmap::Pixel;

verus! {

/// The diff artifact for one setting: the comparison image and its
/// changed/total pixel counts.
#[derive(Debug)]
pub struct DiffResult {
    pub setting_name: String,
    pub diff_image: Bitmap,
    pub changed_pixel_count: u64,
    pub total_pixel_count: u64,
}

impl DiffResult {
    pub open spec fn wf(self) -> bool {
        &&& self.diff_image.wf()
        &&& self.changed_pixel_count <= self.total_pixel_count
        &&& self.total_pixel_count as int == self.diff_image.spec_width()
            * self.diff_image.spec_height()
    }
}

/// Width of the bounding box covering both images.
pub open spec fn bb_width(r: Bitmap, c: Bitmap) -> int {
    if r.spec_width() >= c.spec_width() {
        r.spec_width()
    } else {
        c.spec_width()
    }
}

/// Height of the bounding box covering both images.
pub open spec fn bb_height(r: Bitmap, c: Bitmap) -> int {
    if r.spec_height() >= c.spec_height() {
        r.spec_height()
    } else {
        c.spec_height()
    }
}

/// Area of the bounding box: the total pixel count of a diff.
pub open spec fn bb_area(r: Bitmap, c: Bitmap) -> int {
    bb_width(r, c) * bb_height(r, c)
}

/// Two channel values are close when they differ by at most the tolerance.
pub open spec fn channel_close(a: u8, b: u8, tol: u8) -> bool {
    -(tol as int) <= a as int - b as int <= tol as int
}

/// Two pixels match when every channel pair is within the tolerance.
pub open spec fn pixels_match(p: Pixel, q: Pixel, tol: u8) -> bool {
    &&& channel_close(p.r, q.r, tol)
    &&& channel_close(p.g, q.g, tol)
    &&& channel_close(p.b, q.b, tol)
    &&& channel_close(p.a, q.a, tol)
}

/// The cell `(x, y)` lies inside both images.
pub open spec fn in_both(r: Bitmap, c: Bitmap, x: int, y: int) -> bool {
    x < r.spec_width() && y < r.spec_height() && x < c.spec_width() && y < c.spec_height()
}

/// A cell of the bounding box is changed when the two pixels there differ
/// beyond the tolerance, or when it lies outside either image.
pub open spec fn changed_at(r: Bitmap, c: Bitmap, tol: u8, x: int, y: int) -> bool {
    if in_both(r, c, x, y) {
        !pixels_match(r.pixel_at(x, y), c.pixel_at(x, y), tol)
    } else {
        true
    }
}

/// An unchanged pixel is rendered dimmed: the grayscale of the reference.
pub open spec fn gray_of(p: Pixel) -> Pixel {
    let l = ((p.r as int + p.g as int + p.b as int) / 3) as u8;
    Pixel { r: l, g: l, b: l, a: 255 }
}

/// The color marking a cell that only one of the two images covers.
pub open spec fn out_of_bounds_color() -> Pixel {
    Pixel { r: 255, g: 0, b: 255, a: 255 }
}

/// The pixel the diff image shows at `(x, y)`: changed pixels keep the
/// captured color (or the out-of-bounds marker), unchanged ones are dimmed.
pub open spec fn diff_pixel_at(r: Bitmap, c: Bitmap, tol: u8, x: int, y: int) -> Pixel {
    if in_both(r, c, x, y) {
        if pixels_match(r.pixel_at(x, y), c.pixel_at(x, y), tol) {
            gray_of(r.pixel_at(x, y))
        } else {
            c.pixel_at(x, y)
        }
    } else {
        out_of_bounds_color()
    }
}

/// How many of the first `n` cells of the bounding box, in row-major order,
/// are changed.
pub open spec fn changed_before(r: Bitmap, c: Bitmap, tol: u8, n: int) -> int
    decreases n,
{
    if n <= 0 {
        0
    } else {
        let w = bb_width(r, c);
        changed_before(r, c, tol, n - 1) + if changed_at(r, c, tol, (n - 1) % w, (n - 1) / w) {
            1int
        } else {
            0int
        }
    }
}

/// The changed-pixel count of a diff of the two images.
pub open spec fn changed_count(r: Bitmap, c: Bitmap, tol: u8) -> int {
    changed_before(r, c, tol, bb_area(r, c))
}

/// A prefix of `n` cells holds at most `n` changed ones.
pub proof fn lemma_changed_before_bounds(r: Bitmap, c: Bitmap, tol: u8, n: int)
    requires
        0 <= n,
    ensures
        0 <= changed_before(r, c, tol, n) <= n,
    decreases n,
{
    if n > 0 {
        lemma_changed_before_bounds(r, c, tol, n - 1);
    }
}

proof fn lemma_unchanged_prefix(r: Bitmap, c: Bitmap, tol: u8, n: int)
    requires
        r.spec_width() == c.spec_width(),
        r.spec_height() == c.spec_height(),
        0 <= n <= bb_area(r, c),
        forall|x: int, y: int|
            0 <= x < r.spec_width() && 0 <= y < r.spec_height() ==> pixels_match(
                r.pixel_at(x, y),
                c.pixel_at(x, y),
                tol,
            ),
    ensures
        changed_before(r, c, tol, n) == 0,
    decreases n,
{
    if n > 0 {
        lemma_unchanged_prefix(r, c, tol, n - 1);
        let w = bb_width(r, c);
        let h = bb_height(r, c);
        assert(w > 0 && h > 0) by (nonlinear_arith)
            requires
                0 < n <= w * h,
                0 <= w,
                0 <= h,
        ;
        lemma_mod_bound(n - 1, w);
        assert(w * h == h * w) by (nonlinear_arith);
        lemma_multiply_divide_lt(n - 1, w, h);
        let x = (n - 1) % w;
        let y = (n - 1) / w;
        assert(pixels_match(r.pixel_at(x, y), c.pixel_at(x, y), tol));
    }
}

/// When the two images have equal dimensions and every pixel pair is within
/// the tolerance, the diff counts no changed pixel.
pub proof fn lemma_equal_images_zero_changed(r: Bitmap, c: Bitmap, tol: u8)
    requires
        r.spec_width() == c.spec_width(),
        r.spec_height() == c.spec_height(),
        forall|x: int, y: int|
            0 <= x < r.spec_width() && 0 <= y < r.spec_height() ==> pixels_match(
                r.pixel_at(x, y),
                c.pixel_at(x, y),
                tol,
            ),
    ensures
        changed_count(r, c, tol) == 0,
{
    assert(0 <= bb_area(r, c)) by (nonlinear_arith)
        requires
            0 <= bb_width(r, c),
            0 <= bb_height(r, c),
    ;
    lemma_unchanged_prefix(r, c, tol, bb_area(r, c));
}

proof fn lemma_all_changed_prefix(r: Bitmap, c: Bitmap, tol: u8, n: int)
    requires
        r.spec_width() == c.spec_width(),
        r.spec_height() == c.spec_height(),
        0 <= n <= bb_area(r, c),
        forall|x: int, y: int|
            0 <= x < r.spec_width() && 0 <= y < r.spec_height() ==> !pixels_match(
                r.pixel_at(x, y),
                c.pixel_at(x, y),
                tol,
            ),
    ensures
        changed_before(r, c, tol, n) == n,
    decreases n,
{
    if n > 0 {
        lemma_all_changed_prefix(r, c, tol, n - 1);
        let w = bb_width(r, c);
        let h = bb_height(r, c);
        assert(w > 0 && h > 0) by (nonlinear_arith)
            requires
                0 < n <= w * h,
                0 <= w,
                0 <= h,
        ;
        lemma_mod_bound(n - 1, w);
        assert(w * h == h * w) by (nonlinear_arith);
        lemma_multiply_divide_lt(n - 1, w, h);
        let x = (n - 1) % w;
        let y = (n - 1) / w;
        assert(!pixels_match(r.pixel_at(x, y), c.pixel_at(x, y), tol));
    }
}

/// When the two images have equal dimensions and every pixel pair differs
/// beyond the tolerance, the diff counts every pixel as changed.
pub proof fn lemma_disjoint_images_all_changed(r: Bitmap, c: Bitmap, tol: u8)
    requires
        r.spec_width() == c.spec_width(),
        r.spec_height() == c.spec_height(),
        forall|x: int, y: int|
            0 <= x < r.spec_width() && 0 <= y < r.spec_height() ==> !pixels_match(
                r.pixel_at(x, y),
                c.pixel_at(x, y),
                tol,
            ),
    ensures
        changed_count(r, c, tol) == bb_area(r, c),
{
    assert(0 <= bb_area(r, c)) by (nonlinear_arith)
        requires
            0 <= bb_width(r, c),
            0 <= bb_height(r, c),
    ;
    lemma_all_changed_prefix(r, c, tol, bb_area(r, c));
}

/// A cell of the bounding box that lies outside either image always counts as
/// changed, whatever the tolerance: a dimension mismatch is itself a change.
pub proof fn lemma_out_of_bounds_changed(r: Bitmap, c: Bitmap, tol: u8, x: int, y: int)
    requires
        0 <= x < bb_width(r, c),
        0 <= y < bb_height(r, c),
        !in_both(r, c, x, y),
    ensures
        changed_at(r, c, tol, x, y),
        diff_pixel_at(r, c, tol, x, y) == out_of_bounds_color(),
{
}

fn max_u32(a: u32, b: u32) -> (r: u32)
    ensures
        r as int == if a >= b { a as int } else { b as int },
{
    if a >= b { a } else { b }
}

fn channel_close_exec(a: u8, b: u8, tol: u8) -> (r: bool)
    ensures
        r == channel_close(a, b, tol),
{
    let d: u8 = if a >= b { a - b } else { b - a };
    d <= tol
}

fn pixels_match_exec(p: Pixel, q: Pixel, tol: u8) -> (r: bool)
    ensures
        r == pixels_match(p, q, tol),
{
    channel_close_exec(p.r, q.r, tol) && channel_close_exec(p.g, q.g, tol) && channel_close_exec(
        p.b,
        q.b,
        tol,
    ) && channel_close_exec(p.a, q.a, tol)
}

fn gray_exec(p: Pixel) -> (r: Pixel)
    ensures
        r == gray_of(p),
{
    let sum: u16 = p.r as u16 + p.g as u16 + p.b as u16;
    let l: u8 = (sum / 3) as u8;
    Pixel { r: l, g: l, b: l, a: 255 }
}

/// Compares a reference bitmap against a captured one: the result's canvas is
/// the bounding box of the two, each cell is rendered and counted by
/// `diff_pixel_at` and `changed_at`, and out-of-bounds cells always count as
/// changed. A pure function of its inputs.
pub fn diff(setting_name: String, reference: &Bitmap, captured: &Bitmap, tolerance: u8) -> (r:
    DiffResult)
    requires
        reference.wf(),
        captured.wf(),
        bb_area(*reference, *captured) <= usize::MAX as int,
    ensures
        r.wf(),
        r.setting_name == setting_name,
        r.total_pixel_count as int == bb_area(*reference, *captured),
        r.changed_pixel_count as int == changed_count(*reference, *captured, tolerance),
        r.diff_image.spec_width() == bb_width(*reference, *captured),
        r.diff_image.spec_height() == bb_height(*reference, *captured),
        forall|x: int, y: int|
            0 <= x < bb_width(*reference, *captured) && 0 <= y < bb_height(*reference, *captured)
                ==> r.diff_image.pixel_at(x, y) == diff_pixel_at(
                *reference,
                *captured,
                tolerance,
                x,
                y,
            ),
{
    let bbw: u32 = max_u32(reference.width(), captured.width());
    let bbh: u32 = max_u32(reference.height(), captured.height());
    let area: usize = ((bbw as u64) * (bbh as u64)) as usize;
    let mut pixels: Vec<Pixel> = Vec::new();
    let mut changed: u64 = 0;
    let mut i: usize = 0;
    while i < area
        invariant
            reference.wf(),
            captured.wf(),
            bbw as int == bb_width(*reference, *captured),
            bbh as int == bb_height(*reference, *captured),
            area as int == bb_area(*reference, *captured),
            i <= area,
            pixels@.len() == i as int,
            changed as int == changed_before(*reference, *captured, tolerance, i as int),
            forall|k: int|
                0 <= k < i as int ==> pixels@[k] == diff_pixel_at(
                    *reference,
                    *captured,
                    tolerance,
                    k % bbw as int,
                    k / bbw as int,
                ),
        decreases area - i,
    {
        proof {
            assert(bbw > 0) by (nonlinear_arith)
                requires
                    (i as int) < (bbw as int) * (bbh as int),
                    0 <= i as int,
                    0 <= bbw as int,
            ;
            lemma_mod_bound(i as int, bbw as int);
            assert((bbw as int) * (bbh as int) == (bbh as int) * (bbw as int))
                by (nonlinear_arith);
            lemma_multiply_divide_lt(i as int, bbw as int, bbh as int);
            lemma_changed_before_bounds(*reference, *captured, tolerance, i as int);
        }
        let x: usize = i % (bbw as usize);
        let y: usize = i / (bbw as usize);
        let p: Pixel = if x < reference.width() as usize && y < reference.height() as usize && x
            < captured.width() as usize && y < captured.height() as usize {
            let rp = reference.pixel(x, y);
            let cp = captured.pixel(x, y);
            if pixels_match_exec(rp, cp, tolerance) {
                gray_exec(rp)
            } else {
                changed = changed + 1;
                cp
            }
        } else {
            changed = changed + 1;
            Pixel { r: 255, g: 0, b: 255, a: 255 }
        };
        pixels.push(p);
        i = i + 1;
    }
    proof {
        lemma_changed_before_bounds(*reference, *captured, tolerance, area as int);
    }
    let diff_image = Bitmap { width: bbw, height: bbh, pixels };
    let r = DiffResult {
        setting_name,
        diff_image,
        changed_pixel_count: changed,
        total_pixel_count: area as u64,
    };
    proof {
        assert forall|x: int, y: int|
            0 <= x < bb_width(*reference, *captured) && 0 <= y < bb_height(
                *reference,
                *captured,
            ) implies r.diff_image.pixel_at(x, y) == diff_pixel_at(
            *reference,
            *captured,
            tolerance,
            x,
            y,
        ) by {
            let k = y * (bbw as int) + x;
            lemma_row_major_index_in_range(bbw as int, bbh as int, x, y);
            lemma_fundamental_div_mod_converse(k, bbw as int, y, x);
        }
    }
    r
}

} // verus!
