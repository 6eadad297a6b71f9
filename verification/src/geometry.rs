//! Integer geometry of the "any resolution" tiling policy: choosing the
//! supported resolution that best covers an image, deriving the tile grid,
//! and computing how much letterbox padding a merged patch grid carries.
//!
//! All scaling is floor-based proportional scaling in exact integer
//! arithmetic; every formula is stated as a spec function so that callers
//! can reason about the exact pixel and patch counts.
use vstd::prelude::*;
use vstd::arithmetic::div_mod::lemma_div_is_ordered;
use vstd::arithmetic::div_mod::lemma_div_multiples_vanish;
use vstd::arithmetic::div_mod::lemma_fundamental_div_mod;
use vstd::arithmetic::div_mod::lemma_mod_division_less_than_divisor;
use vstd::arithmetic::mul::lemma_mul_upper_bound;
use vstd::arithmetic::mul::lemma_mul_inequality;

verus! {

/// True when, scaling the original `ow x oh` image to fit inside the
/// pinpoint `pw x ph`, the width is the binding side (`pw/ow <= ph/oh`).
pub open spec fn width_binding(ow: int, oh: int, pw: int, ph: int) -> bool {
    pw * oh <= ph * ow
}

/// Width of the original image after floor-scaling it to fit inside the
/// pinpoint while keeping its aspect ratio.
pub open spec fn down_w(ow: int, oh: int, pw: int, ph: int) -> int {
    if width_binding(ow, oh, pw, ph) {
        pw
    } else {
        ow * ph / oh
    }
}

/// Height of the original image after floor-scaling it to fit inside the
/// pinpoint while keeping its aspect ratio.
pub open spec fn down_h(ow: int, oh: int, pw: int, ph: int) -> int {
    if width_binding(ow, oh, pw, ph) {
        oh * pw / ow
    } else {
        ph
    }
}

pub open spec fn min_int(a: int, b: int) -> int {
    if a <= b {
        a
    } else {
        b
    }
}

/// Pixels of the original image that remain visible when it is scaled into
/// the pinpoint: the scaled area, capped by the original area.
pub open spec fn effective_resolution(ow: int, oh: int, pw: int, ph: int) -> int {
    min_int(down_w(ow, oh, pw, ph) * down_h(ow, oh, pw, ph), ow * oh)
}

/// Pinpoint pixels that only hold letterbox padding.
pub open spec fn wasted_resolution(ow: int, oh: int, pw: int, ph: int) -> int {
    pw * ph - effective_resolution(ow, oh, pw, ph)
}

/// Candidate `a` beats candidate `b`: more effective pixels, or as many
/// effective pixels with less padding.
pub open spec fn strictly_better(ow: int, oh: int, a: (u32, u32), b: (u32, u32)) -> bool {
    ||| effective_resolution(ow, oh, a.0 as int, a.1 as int) > effective_resolution(
        ow,
        oh,
        b.0 as int,
        b.1 as int,
    )
    ||| (effective_resolution(ow, oh, a.0 as int, a.1 as int) == effective_resolution(
        ow,
        oh,
        b.0 as int,
        b.1 as int,
    ) && wasted_resolution(ow, oh, a.0 as int, a.1 as int) < wasted_resolution(
        ow,
        oh,
        b.0 as int,
        b.1 as int,
    ))
}

/// Index `i` is the pinpoint a first-best-wins scan settles on: nothing
/// beats it, and it beats everything before it.
pub open spec fn is_first_best(ow: int, oh: int, pts: Seq<(u32, u32)>, i: int) -> bool {
    &&& 0 <= i < pts.len()
    &&& forall|j: int| 0 <= j < pts.len() ==> !strictly_better(ow, oh, pts[j], pts[i])
    &&& forall|j: int| 0 <= j < i ==> strictly_better(ow, oh, pts[i], pts[j])
}

/// At most one index can win a first-best-wins scan: the winner beats
/// every earlier candidate and is beaten by nothing.
pub proof fn lemma_first_best_unique(ow: int, oh: int, pts: Seq<(u32, u32)>, i: int, j: int)
    requires
        is_first_best(ow, oh, pts, i),
        is_first_best(ow, oh, pts, j),
    ensures
        i == j,
{
    if i < j {
        assert(strictly_better(ow, oh, pts[j], pts[i]));
        assert(!strictly_better(ow, oh, pts[j], pts[i]));
    } else if j < i {
        assert(strictly_better(ow, oh, pts[i], pts[j]));
        assert(!strictly_better(ow, oh, pts[i], pts[j]));
    }
}

/// The index a first-best-wins scan settles on; meaningful whenever some
/// index satisfies `is_first_best`, and then unique.
pub open spec fn first_best_index(ow: int, oh: int, pts: Seq<(u32, u32)>) -> int {
    choose|i: int| is_first_best(ow, oh, pts, i)
}

/// The tile grid (tiles across, tiles down) of the chosen pinpoint: its
/// extents divided by the tile side length in pixels.
pub open spec fn chosen_grid(ow: int, oh: int, pts: Seq<(u32, u32)>, tile: int) -> (int, int) {
    let i: int = first_best_index(ow, oh, pts);
    (pts[i].0 as int / tile, pts[i].1 as int / tile)
}

/// Bounds the floor-scaled extents by the pinpoint extents.
proof fn lemma_downscale_bounds(ow: int, oh: int, pw: int, ph: int)
    requires
        ow >= 1,
        oh >= 1,
        pw >= 0,
        ph >= 0,
    ensures
        0 <= down_w(ow, oh, pw, ph) <= pw,
        0 <= down_h(ow, oh, pw, ph) <= ph,
{
    if width_binding(ow, oh, pw, ph) {
        lemma_div_is_ordered(0, oh * pw, ow);
        assert(oh * pw <= ph * ow) by (nonlinear_arith)
            requires
                pw * oh <= ph * ow,
        ;
        lemma_div_is_ordered(oh * pw, ph * ow, ow);
        lemma_div_multiples_vanish(ph, ow);
        assert(ph * ow == ow * ph) by (nonlinear_arith);
    } else {
        lemma_div_is_ordered(0, ow * ph, oh);
        assert(ow * ph <= pw * oh) by (nonlinear_arith)
            requires
                !(pw * oh <= ph * ow),
        ;
        lemma_div_is_ordered(ow * ph, pw * oh, oh);
        lemma_div_multiples_vanish(pw, oh);
        assert(pw * oh == oh * pw) by (nonlinear_arith);
    }
}

/// The effective resolution never exceeds the pinpoint area, so the wasted
/// resolution is never negative.
proof fn lemma_wasted_nonneg(ow: int, oh: int, pw: int, ph: int)
    requires
        ow >= 1,
        oh >= 1,
        pw >= 0,
        ph >= 0,
    ensures
        0 <= effective_resolution(ow, oh, pw, ph) <= pw * ph,
        0 <= wasted_resolution(ow, oh, pw, ph),
{
    lemma_downscale_bounds(ow, oh, pw, ph);
    lemma_mul_inequality(down_w(ow, oh, pw, ph), pw, down_h(ow, oh, pw, ph));
    lemma_mul_inequality(down_h(ow, oh, pw, ph), ph, pw);
    assert(down_w(ow, oh, pw, ph) * down_h(ow, oh, pw, ph) <= pw * ph) by (nonlinear_arith)
        requires
            0 <= down_w(ow, oh, pw, ph) <= pw,
            0 <= down_h(ow, oh, pw, ph) <= ph,
    ;
    assert(0 <= down_w(ow, oh, pw, ph) * down_h(ow, oh, pw, ph)) by (nonlinear_arith)
        requires
            0 <= down_w(ow, oh, pw, ph),
            0 <= down_h(ow, oh, pw, ph),
    ;
    assert(0 <= ow * oh) by (nonlinear_arith)
        requires
            ow >= 1,
            oh >= 1,
    ;
}

/// Effective and wasted resolution of one pinpoint, computed exactly.
fn score_pinpoint(ow: u32, oh: u32, pw: u32, ph: u32) -> (r: (u64, u64))
    requires
        ow >= 1,
        oh >= 1,
    ensures
        r.0 == effective_resolution(ow as int, oh as int, pw as int, ph as int),
        r.1 == wasted_resolution(ow as int, oh as int, pw as int, ph as int),
{
    let ow64 = ow as u64;
    let oh64 = oh as u64;
    let pw64 = pw as u64;
    let ph64 = ph as u64;
    proof {
        lemma_mul_upper_bound(pw64 as int, u32::MAX as int, oh64 as int, u32::MAX as int);
        lemma_mul_upper_bound(ph64 as int, u32::MAX as int, ow64 as int, u32::MAX as int);
        lemma_mul_upper_bound(ow64 as int, u32::MAX as int, ph64 as int, u32::MAX as int);
        lemma_mul_upper_bound(oh64 as int, u32::MAX as int, pw64 as int, u32::MAX as int);
        lemma_mul_upper_bound(ow64 as int, u32::MAX as int, oh64 as int, u32::MAX as int);
        lemma_mul_upper_bound(pw64 as int, u32::MAX as int, ph64 as int, u32::MAX as int);
    }
    let (dw, dh): (u64, u64) = if pw64 * oh64 <= ph64 * ow64 {
        (pw64, oh64 * pw64 / ow64)
    } else {
        (ow64 * ph64 / oh64, ph64)
    };
    proof {
        lemma_downscale_bounds(ow as int, oh as int, pw as int, ph as int);
        lemma_mul_upper_bound(dw as int, u32::MAX as int, dh as int, u32::MAX as int);
    }
    let scaled = dw * dh;
    let area = ow64 * oh64;
    let eff = if scaled <= area {
        scaled
    } else {
        area
    };
    proof {
        lemma_wasted_nonneg(ow as int, oh as int, pw as int, ph as int);
    }
    (eff, pw64 * ph64 - eff)
}

/// Chooses, first-best-wins, the supported resolution with the largest
/// effective resolution for the image, breaking ties by least padding.
/// Returns `None` exactly when the pinpoint list is empty.
pub fn best_resolution(original_size: (u32, u32), pinpoints: &Vec<(u32, u32)>) -> (r: Option<
    (u32, u32),
>)
    requires
        original_size.0 >= 1,
        original_size.1 >= 1,
    ensures
        (r is None) <==> pinpoints@.len() == 0,
        r matches Some(p) ==> exists|i: int|
            is_first_best(original_size.0 as int, original_size.1 as int, pinpoints@, i)
                && pinpoints@[i] == p,
{
    let ow = original_size.0;
    let oh = original_size.1;
    if pinpoints.len() == 0 {
        return None;
    }
    let first = pinpoints[0];
    let (mut best_eff, mut best_waste) = score_pinpoint(ow, oh, first.0, first.1);
    let mut best_idx: usize = 0;
    let mut i: usize = 1;
    while i < pinpoints.len()
        invariant
            ow == original_size.0,
            oh == original_size.1,
            ow >= 1,
            oh >= 1,
            1 <= i <= pinpoints@.len(),
            best_idx < i,
            best_eff == effective_resolution(
                ow as int,
                oh as int,
                pinpoints@[best_idx as int].0 as int,
                pinpoints@[best_idx as int].1 as int,
            ),
            best_waste == wasted_resolution(
                ow as int,
                oh as int,
                pinpoints@[best_idx as int].0 as int,
                pinpoints@[best_idx as int].1 as int,
            ),
            forall|j: int|
                0 <= j < i ==> !strictly_better(
                    ow as int,
                    oh as int,
                    pinpoints@[j],
                    pinpoints@[best_idx as int],
                ),
            forall|j: int|
                0 <= j < best_idx ==> strictly_better(
                    ow as int,
                    oh as int,
                    pinpoints@[best_idx as int],
                    pinpoints@[j],
                ),
        decreases pinpoints@.len() - i,
    {
        let cand = pinpoints[i];
        let (eff, waste) = score_pinpoint(ow, oh, cand.0, cand.1);
        if eff > best_eff || (eff == best_eff && waste < best_waste) {
            best_eff = eff;
            best_waste = waste;
            best_idx = i;
        }
        i = i + 1;
    }
    proof {
        assert(is_first_best(ow as int, oh as int, pinpoints@, best_idx as int));
    }
    Some(pinpoints[best_idx])
}

/// Tile grid (tiles across, tiles down) for an image under the "any
/// resolution" policy: the best pinpoint's extents divided by the tile side
/// length in pixels. `None` exactly when the pinpoint list is empty.
pub fn anyres_grid_shape(
    image_size: (u32, u32),
    pinpoints: &Vec<(u32, u32)>,
    tile_px: u32,
) -> (r: Option<(u32, u32)>)
    requires
        image_size.0 >= 1,
        image_size.1 >= 1,
        tile_px >= 1,
    ensures
        (r is None) <==> pinpoints@.len() == 0,
        r matches Some(g) ==> (g.0 as int, g.1 as int) == chosen_grid(
            image_size.0 as int,
            image_size.1 as int,
            pinpoints@,
            tile_px as int,
        ) && is_first_best(
            image_size.0 as int,
            image_size.1 as int,
            pinpoints@,
            first_best_index(image_size.0 as int, image_size.1 as int, pinpoints@),
        ),
{
    let ow = image_size.0;
    let oh = image_size.1;
    match best_resolution(image_size, pinpoints) {
        None => None,
        Some(best) => {
            proof {
                let i = choose|i: int|
                    is_first_best(ow as int, oh as int, pinpoints@, i) && pinpoints@[i] == best;
                assert(is_first_best(ow as int, oh as int, pinpoints@, i));
                let i0 = first_best_index(ow as int, oh as int, pinpoints@);
                assert(is_first_best(ow as int, oh as int, pinpoints@, i0));
                lemma_first_best_unique(ow as int, oh as int, pinpoints@, i, i0);
            }
            Some((best.0 / tile_px, best.1 / tile_px))
        },
    }
}

/// True when the original image's aspect ratio is wider than the merged
/// grid's, so letterboxing padded the height (rows) of the grid.
pub open spec fn height_was_padded(cur_h: int, cur_w: int, ow: int, oh: int) -> bool {
    ow * cur_h > oh * cur_w
}

/// Grid rows that hold image content (not padding), by floor-based
/// proportional scaling of the original height.
pub open spec fn scaled_rows(cur_w: int, ow: int, oh: int) -> int {
    oh * cur_w / ow
}

/// Grid columns that hold image content, by floor-based proportional
/// scaling of the original width.
pub open spec fn scaled_cols(cur_h: int, ow: int, oh: int) -> int {
    ow * cur_h / oh
}

/// Rows of padding cropped from each end of the grid.
pub open spec fn row_pad(cur_h: int, cur_w: int, ow: int, oh: int) -> int {
    if height_was_padded(cur_h, cur_w, ow, oh) {
        (cur_h - scaled_rows(cur_w, ow, oh)) / 2
    } else {
        0
    }
}

/// Columns of padding cropped from each end of the grid.
pub open spec fn col_pad(cur_h: int, cur_w: int, ow: int, oh: int) -> int {
    if height_was_padded(cur_h, cur_w, ow, oh) {
        0
    } else {
        (cur_w - scaled_cols(cur_h, ow, oh)) / 2
    }
}

/// The padding cropped from an axis never exceeds that axis: both crop
/// ranges of `unpad_crop` are well formed, whatever the aspect ratios.
pub proof fn lemma_crop_bounds(cur_h: int, cur_w: int, ow: int, oh: int)
    requires
        cur_h >= 1,
        cur_w >= 1,
        ow >= 1,
        oh >= 1,
    ensures
        0 <= row_pad(cur_h, cur_w, ow, oh),
        2 * row_pad(cur_h, cur_w, ow, oh) <= cur_h,
        0 <= col_pad(cur_h, cur_w, ow, oh),
        2 * col_pad(cur_h, cur_w, ow, oh) <= cur_w,
{
    if height_was_padded(cur_h, cur_w, ow, oh) {
        lemma_div_is_ordered(0, oh * cur_w, ow);
        lemma_div_is_ordered(oh * cur_w, ow * cur_h, ow);
        lemma_div_multiples_vanish(cur_h, ow);
        assert(ow * cur_h == ow * cur_h);
        let scaled: int = scaled_rows(cur_w, ow, oh);
        assert(0 <= scaled <= cur_h);
        lemma_fundamental_div_mod(cur_h - scaled, 2);
        lemma_mod_division_less_than_divisor(cur_h - scaled, 2);
    } else {
        lemma_div_is_ordered(0, ow * cur_h, oh);
        lemma_div_is_ordered(ow * cur_h, oh * cur_w, oh);
        lemma_div_multiples_vanish(cur_w, oh);
        let scaled: int = scaled_cols(cur_h, ow, oh);
        assert(0 <= scaled <= cur_w);
        lemma_fundamental_div_mod(cur_w - scaled, 2);
        lemma_mod_division_less_than_divisor(cur_w - scaled, 2);
    }
}

/// The half-open row and column ranges of a merged patch grid that survive
/// padding removal.
#[derive(Clone, Copy, Debug, PartialEq, Eq, Structural)]
pub struct CropWindow {
    pub row_start: usize,
    pub row_end: usize,
    pub col_start: usize,
    pub col_end: usize,
}

/// Computes which rows and columns of a `cur_h x cur_w` patch grid remain
/// after removing the symmetric letterbox padding introduced when the
/// original `ow x oh` image was fitted to the grid's aspect ratio. Exactly
/// one axis is cropped; the axis whose aspect ratio was preserved keeps its
/// full extent.
pub fn unpad_crop(cur_h: usize, cur_w: usize, original_size: (u32, u32)) -> (r: CropWindow)
    requires
        cur_h >= 1,
        cur_w >= 1,
        original_size.0 >= 1,
        original_size.1 >= 1,
    ensures
        r.row_start == row_pad(cur_h as int, cur_w as int, original_size.0 as int, original_size.1 as int),
        r.col_start == col_pad(cur_h as int, cur_w as int, original_size.0 as int, original_size.1 as int),
        r.row_end == cur_h - r.row_start,
        r.col_end == cur_w - r.col_start,
        r.row_start <= r.row_end <= cur_h,
        r.col_start <= r.col_end <= cur_w,
{
    let ow = original_size.0 as u128;
    let oh = original_size.1 as u128;
    let ch = cur_h as u128;
    let cw = cur_w as u128;
    proof {
        lemma_mul_upper_bound(ow as int, u32::MAX as int, ch as int, u64::MAX as int);
        lemma_mul_upper_bound(oh as int, u32::MAX as int, cw as int, u64::MAX as int);
        lemma_mul_upper_bound(ow as int, u32::MAX as int, cw as int, u64::MAX as int);
        lemma_mul_upper_bound(oh as int, u32::MAX as int, ch as int, u64::MAX as int);
    }
    if ow * ch > oh * cw {
        // The image is wider than the grid: rows were padded.
        let kept = oh * cw / ow;
        proof {
            lemma_div_is_ordered(oh as int * cw as int, ow as int * ch as int, ow as int);
            lemma_div_multiples_vanish(ch as int, ow as int);
            assert(ow as int * ch as int == ch as int * ow as int) by (nonlinear_arith);
            lemma_div_is_ordered(0, oh as int * cw as int, ow as int);
        }
        let pad = ((ch - kept) / 2) as usize;
        CropWindow { row_start: pad, row_end: cur_h - pad, col_start: 0, col_end: cur_w }
    } else {
        // The image is as tall as or taller than the grid: columns were padded.
        let kept = ow * ch / oh;
        proof {
            lemma_div_is_ordered(ow as int * ch as int, oh as int * cw as int, oh as int);
            lemma_div_multiples_vanish(cw as int, oh as int);
            assert(oh as int * cw as int == cw as int * oh as int) by (nonlinear_arith);
            lemma_div_is_ordered(0, ow as int * ch as int, oh as int);
        }
        let pad = ((cw - kept) / 2) as usize;
        CropWindow { row_start: 0, row_end: cur_h, col_start: pad, col_end: cur_w - pad }
    }
}

} // verus!
