//! The patch-grid merger, as an exact index plan: which source row of the
//! per-image feature tensor (or the learned row-separator embedding) lands
//! at each position of the merged token sequence.
//!
//! A per-image feature tensor holds `num_entries` blocks of
//! `rows_per_entry` patch embeddings: entry 0 is the whole-image ("base")
//! feature, entries `1..` are the tiles of the "any resolution" grid. The
//! plan is pure index arithmetic; gathering tensor rows along it is done by
//! `features::merge_image_feature`.
use vstd::prelude::*;
use vstd::arithmetic::div_mod::lemma_fundamental_div_mod;
use vstd::arithmetic::div_mod::lemma_div_multiples_vanish;
use vstd::arithmetic::div_mod::lemma_mod_multiples_basic;
use vstd::arithmetic::div_mod::lemma_fundamental_div_mod_converse;
use vstd::arithmetic::div_mod::lemma_multiply_divide_lt;
use vstd::arithmetic::div_mod::lemma_mod_division_less_than_divisor;
use vstd::arithmetic::mul::lemma_mul_inequality;
use vstd::arithmetic::mul::lemma_mul_upper_bound;
use crate::errors::MergeError;
use crate::geometry::row_pad;
use crate::geometry::col_pad;
use crate::geometry::unpad_crop;

verus! {

/// How per-tile patch features are merged into one token sequence.
#[derive(Clone, Copy, Debug, PartialEq, Eq, Structural)]
pub enum MergePolicy {
    /// Ignore spatial structure: flatten every entry's rows in order.
    Flat,
    /// Base feature first, then the tile grid flattened row-major.
    Spatial,
    /// Like `Spatial`, but with letterbox padding cropped from the grid and
    /// a separator token appended after each remaining grid row.
    SpatialUnpad,
}

/// One position of the merged sequence: either row `cell` of feature block
/// `entry` (entry 0 is the base feature, entry `1 + t` is tile `t`), or the
/// learned row-separator embedding.
#[derive(Clone, Copy, Debug, PartialEq, Eq, Structural)]
pub enum PlanSlot {
    Cell { entry: usize, cell: usize },
    Separator,
}

/// Every `Cell` slot of a plan points inside an `n x p` feature tensor.
pub open spec fn slot_in_bounds(s: PlanSlot, n: int, p: int) -> bool {
    s matches PlanSlot::Cell { entry, cell } ==> entry < n && cell < p
}

/// Feature block that holds grid position (`r`, `c`): tiles are laid out
/// row-major, `side` patches to a tile side.
pub open spec fn grid_entry(npw: int, side: int, r: int, c: int) -> int {
    1 + (r / side) * npw + c / side
}

/// Row within its feature block of grid position (`r`, `c`).
pub open spec fn grid_cell(side: int, r: int, c: int) -> int {
    (r % side) * side + c % side
}

/// Total grid rows: tiles down times patches per tile side.
pub open spec fn grid_h(nph: int, side: int) -> int {
    nph * side
}

/// Total grid columns: tiles across times patches per tile side.
pub open spec fn grid_w(npw: int, side: int) -> int {
    npw * side
}

pub open spec fn flat_slot(p: int, i: int) -> PlanSlot {
    PlanSlot::Cell { entry: (i / p) as usize, cell: (i % p) as usize }
}

/// `Flat` merge: every entry's rows in order, spatial structure ignored.
pub open spec fn flat_plan(n: int, p: int) -> Seq<PlanSlot> {
    Seq::new((n * p) as nat, |i: int| flat_slot(p, i))
}

/// Merge of a single-entry feature (no sub-tiling): the lone entry's rows,
/// with one separator appended under the unpad policy.
pub open spec fn single_plan(p: int, with_separator: bool) -> Seq<PlanSlot> {
    let cells = Seq::new(p as nat, |i: int| PlanSlot::Cell { entry: 0, cell: i as usize });
    if with_separator {
        cells.push(PlanSlot::Separator)
    } else {
        cells
    }
}

pub open spec fn spatial_slot(base: int, npw: int, side: int, w_total: int, i: int) -> PlanSlot {
    if i < base {
        PlanSlot::Cell { entry: 0, cell: i as usize }
    } else {
        let j: int = i - base;
        let rr: int = j / w_total;
        let cc: int = j % w_total;
        PlanSlot::Cell {
            entry: grid_entry(npw, side, rr, cc) as usize,
            cell: grid_cell(side, rr, cc) as usize,
        }
    }
}

/// `Spatial` merge: the base feature's rows, then the full tile grid
/// flattened row-major.
pub open spec fn spatial_plan(base: int, npw: int, nph: int, side: int) -> Seq<PlanSlot> {
    Seq::new(
        (base + grid_h(nph, side) * grid_w(npw, side)) as nat,
        |i: int| spatial_slot(base, npw, side, grid_w(npw, side), i),
    )
}

pub open spec fn unpad_slot(
    base: int,
    npw: int,
    side: int,
    r0: int,
    c0: int,
    c1: int,
    i: int,
) -> PlanSlot {
    if i < base {
        PlanSlot::Cell { entry: 0, cell: i as usize }
    } else {
        let w: int = (c1 - c0) + 1;
        let j: int = i - base;
        let rr: int = r0 + j / w;
        let cc: int = c0 + j % w;
        if j % w == c1 - c0 {
            PlanSlot::Separator
        } else {
            PlanSlot::Cell {
                entry: grid_entry(npw, side, rr, cc) as usize,
                cell: grid_cell(side, rr, cc) as usize,
            }
        }
    }
}

/// `SpatialUnpad` merge: the base feature's rows, then the grid cropped to
/// the rows and columns that survive padding removal for an `ow x oh`
/// original image, flattened row-major with a separator closing each row.
pub open spec fn unpad_plan(base: int, npw: int, nph: int, side: int, ow: int, oh: int) -> Seq<
    PlanSlot,
> {
    let h_total: int = grid_h(nph, side);
    let w_total: int = grid_w(npw, side);
    let r0: int = row_pad(h_total, w_total, ow, oh);
    let r1: int = h_total - r0;
    let c0: int = col_pad(h_total, w_total, ow, oh);
    let c1: int = w_total - c0;
    Seq::new(
        (base + (r1 - r0) * ((c1 - c0) + 1)) as nat,
        |i: int| unpad_slot(base, npw, side, r0, c0, c1, i),
    )
}

/// The merged sequence for a feature tensor of `n` entries of `p` rows
/// each, under the given policy, tile grid (`npw` across, `nph` down) and
/// original image size. With a single entry the grid is not consulted.
pub open spec fn merge_plan_spec(
    policy: MergePolicy,
    n: int,
    p: int,
    side: int,
    npw: int,
    nph: int,
    ow: int,
    oh: int,
) -> Seq<PlanSlot> {
    match policy {
        MergePolicy::Flat => flat_plan(n, p),
        MergePolicy::Spatial => if n == 1 {
            single_plan(p, false)
        } else {
            spatial_plan(p, npw, nph, side)
        },
        MergePolicy::SpatialUnpad => if n == 1 {
            single_plan(p, true)
        } else {
            unpad_plan(p, npw, nph, side, ow, oh)
        },
    }
}

/// The spatial branches require one row of patches per grid cell side:
/// `rows_per_entry == side * side`.
pub open spec fn tile_shape_ok(p: int, side: int) -> bool {
    p == side * side
}

/// The grid derived from the pinpoints must account for every non-base
/// entry of the feature tensor.
pub open spec fn grid_matches(npw: int, nph: int, n: int) -> bool {
    npw * nph == n - 1
}

/// Shape law of the plain spatial merge: the merged sequence holds one
/// token per patch of every tile (`nph * npw` tiles of `side * side`
/// patches), preceded by the base feature's own rows.
pub proof fn lemma_spatial_plan_token_count(base: int, npw: int, nph: int, side: int)
    requires
        base >= 0,
        npw >= 0,
        nph >= 0,
        side >= 0,
    ensures
        spatial_plan(base, npw, nph, side).len() == nph * npw * (side * side) + base,
        spatial_plan(base, npw, nph, side).len() >= base,
{
    assert(grid_h(nph, side) * grid_w(npw, side) == nph * npw * (side * side) && nph * npw * (side
        * side) >= 0) by (nonlinear_arith)
        requires
            nph >= 0,
            npw >= 0,
            side >= 0,
    ;
}

/// Shape law of the unpad merge: its token count is the spatial count,
/// minus the grid cells that were letterbox padding, plus one separator
/// token per kept grid row.
pub proof fn lemma_unpad_plan_token_count(
    base: int,
    npw: int,
    nph: int,
    side: int,
    ow: int,
    oh: int,
)
    requires
        base >= 0,
        npw >= 1,
        nph >= 1,
        side >= 1,
        ow >= 1,
        oh >= 1,
    ensures
        ({
            let h: int = grid_h(nph, side);
            let w: int = grid_w(npw, side);
            let kept_rows: int = h - 2 * row_pad(h, w, ow, oh);
            let kept_cols: int = w - 2 * col_pad(h, w, ow, oh);
            let removed: int = h * w - kept_rows * kept_cols;
            unpad_plan(base, npw, nph, side, ow, oh).len() == spatial_plan(
                base,
                npw,
                nph,
                side,
            ).len() - removed + kept_rows
        }),
        unpad_plan(base, npw, nph, side, ow, oh).len() >= base,
{
    let h: int = grid_h(nph, side);
    let w: int = grid_w(npw, side);
    assert(nph * side >= 1 && npw * side >= 1) by (nonlinear_arith)
        requires
            nph >= 1,
            npw >= 1,
            side >= 1,
    ;
    crate::geometry::lemma_crop_bounds(h, w, ow, oh);
    let r0: int = row_pad(h, w, ow, oh);
    let c0: int = col_pad(h, w, ow, oh);
    let kept_rows: int = h - 2 * r0;
    let kept_cols: int = w - 2 * c0;
    assert(kept_rows * (kept_cols + 1) == kept_rows * kept_cols + kept_rows) by (nonlinear_arith);
    assert(kept_rows * kept_cols >= 0 && kept_rows * (kept_cols + 1) >= 0) by (nonlinear_arith)
        requires
            kept_rows >= 0,
            kept_cols >= 0,
    ;
    assert((h - r0) - r0 == kept_rows && (w - c0) - c0 == kept_cols);
    lemma_spatial_plan_token_count(base, npw, nph, side);
}

/// Builds the slot for grid position (`rr`, `cc`), proving the bounds on
/// the computed entry and cell indices.
fn grid_cell_slot(npw: usize, nph: usize, side: usize, rr: usize, cc: usize) -> (s: PlanSlot)
    requires
        side >= 1,
        npw >= 1,
        nph >= 1,
        rr < nph * side,
        cc < npw * side,
        nph * npw < usize::MAX,
        side * side <= usize::MAX,
    ensures
        s == (PlanSlot::Cell {
            entry: grid_entry(npw as int, side as int, rr as int, cc as int) as usize,
            cell: grid_cell(side as int, rr as int, cc as int) as usize,
        }),
        0 < grid_entry(npw as int, side as int, rr as int, cc as int) <= nph * npw,
        0 <= grid_cell(side as int, rr as int, cc as int) < side * side,
{
    proof {
        assert(nph as int * side as int == side as int * nph as int) by (nonlinear_arith);
        assert(npw as int * side as int == side as int * npw as int) by (nonlinear_arith);
        lemma_multiply_divide_lt(rr as int, side as int, nph as int);
        lemma_multiply_divide_lt(cc as int, side as int, npw as int);
        lemma_mul_inequality(rr as int / side as int, nph as int - 1, npw as int);
        assert((nph as int - 1) * npw as int == nph as int * npw as int - npw as int)
            by (nonlinear_arith);
        lemma_mod_division_less_than_divisor(rr as int, side as int);
        lemma_mod_division_less_than_divisor(cc as int, side as int);
        lemma_mul_inequality(rr as int % side as int, side as int - 1, side as int);
        assert((side as int - 1) * side as int == side as int * side as int - side as int)
            by (nonlinear_arith);
    }
    let tile_row: usize = rr / side;
    let tile_col: usize = cc / side;
    let entry: usize = 1 + tile_row * npw + tile_col;
    let cell: usize = (rr % side) * side + (cc % side);
    PlanSlot::Cell { entry, cell }
}

/// Computes the merged-sequence plan for one image feature tensor.
///
/// `num_entries` and `rows_per_entry` are the first two extents of the
/// feature tensor, `side` the patches per tile side, `grid` the tile grid
/// (across, down) chosen for the image. Errors exactly when, with more than
/// one entry under a spatial policy, the rows do not form a `side x side`
/// tile (`BadFeatureShape`) or the grid does not account for every tile
/// (`GridTileMismatch`).
pub fn merge_plan(
    policy: MergePolicy,
    num_entries: usize,
    rows_per_entry: usize,
    side: usize,
    grid: (u32, u32),
    original_size: (u32, u32),
) -> (r: Result<Vec<PlanSlot>, MergeError>)
    requires
        num_entries >= 1,
        rows_per_entry >= 1,
        side >= 1,
        original_size.0 >= 1,
        original_size.1 >= 1,
        num_entries * rows_per_entry * 2 <= usize::MAX,
    ensures
        r matches Ok(plan) ==> plan@ == merge_plan_spec(
            policy,
            num_entries as int,
            rows_per_entry as int,
            side as int,
            grid.0 as int,
            grid.1 as int,
            original_size.0 as int,
            original_size.1 as int,
        ),
        r matches Ok(plan) ==> forall|k: int|
            0 <= k < plan@.len() ==> slot_in_bounds(
                plan@[k],
                num_entries as int,
                rows_per_entry as int,
            ),
        r is Err ==> !(policy is Flat) && num_entries > 1,
        !(policy is Flat) && num_entries > 1 && !tile_shape_ok(rows_per_entry as int, side as int)
            ==> r == Err::<Vec<PlanSlot>, MergeError>(MergeError::BadFeatureShape),
        !(policy is Flat) && num_entries > 1 && tile_shape_ok(rows_per_entry as int, side as int)
            && !grid_matches(grid.0 as int, grid.1 as int, num_entries as int) ==> (r matches Err(e)
            && e matches MergeError::GridTileMismatch { expected, found } && expected == grid.0 as int
            * grid.1 as int && found == num_entries - 1),
        !(policy is Flat) && num_entries > 1 && tile_shape_ok(rows_per_entry as int, side as int)
            && grid_matches(grid.0 as int, grid.1 as int, num_entries as int) ==> r is Ok,
{
    let n: usize = num_entries;
    let p: usize = rows_per_entry;
    if matches!(policy, MergePolicy::Flat) {
        let mut plan: Vec<PlanSlot> = Vec::new();
        let mut e: usize = 0;
        while e < n
            invariant
                e <= n,
                n * p * 2 <= usize::MAX,
                plan@.len() == e * p,
                forall|k: int| 0 <= k < plan@.len() ==> plan@[k] == flat_slot(p as int, k),
                forall|k: int| 0 <= k < plan@.len() ==> slot_in_bounds(plan@[k], n as int, p as int),
            decreases n - e,
        {
            let mut cidx: usize = 0;
            proof {
                lemma_mul_inequality(e as int + 1, n as int, p as int);
            }
            while cidx < p
                invariant
                    cidx <= p,
                    e < n,
                    (e + 1) * p <= n * p,
                    n * p * 2 <= usize::MAX,
                    plan@.len() == e * p + cidx,
                    forall|k: int| 0 <= k < plan@.len() ==> plan@[k] == flat_slot(p as int, k),
                    forall|k: int| 0 <= k < plan@.len() ==> slot_in_bounds(plan@[k], n as int, p as int),
                decreases p - cidx,
            {
                proof {
                    assert(e * p + cidx < (e + 1) * p) by (nonlinear_arith)
                        requires
                            cidx < p,
                    ;
                    lemma_fundamental_div_mod_converse(
                        e as int * p as int + cidx as int,
                        p as int,
                        e as int,
                        cidx as int,
                    );
                }
                plan.push(PlanSlot::Cell { entry: e, cell: cidx });
                cidx = cidx + 1;
            }
            proof {
                assert((e + 1) * p == e * p + p) by (nonlinear_arith);
            }
            e = e + 1;
        }
        proof {
            assert(n * p >= 0) by (nonlinear_arith)
                requires
                    n >= 0,
                    p >= 0,
            ;
            assert(plan@ =~= flat_plan(n as int, p as int));
        }
        return Ok(plan);
    }
    let with_separator = matches!(policy, MergePolicy::SpatialUnpad);
    if n == 1 {
        let mut plan: Vec<PlanSlot> = Vec::new();
        let mut cidx: usize = 0;
        while cidx < p
            invariant
                cidx <= p,
                n == 1,
                plan@.len() == cidx,
                forall|k: int|
                    0 <= k < plan@.len() ==> plan@[k] == (PlanSlot::Cell {
                        entry: 0usize,
                        cell: k as usize,
                    }),
                forall|k: int| 0 <= k < plan@.len() ==> slot_in_bounds(plan@[k], n as int, p as int),
            decreases p - cidx,
        {
            plan.push(PlanSlot::Cell { entry: 0, cell: cidx });
            cidx = cidx + 1;
        }
        if with_separator {
            plan.push(PlanSlot::Separator);
        }
        proof {
            assert(plan@ =~= single_plan(p as int, with_separator));
        }
        return Ok(plan);
    }
    // Multi-tile spatial merge: validate the tile shape and the grid.
    if !(p / side == side && p % side == 0) {
        proof {
            lemma_div_multiples_vanish(side as int, side as int);
            lemma_mod_multiples_basic(side as int, side as int);
            assert(!tile_shape_ok(p as int, side as int));
        }
        return Err(MergeError::BadFeatureShape);
    }
    proof {
        lemma_fundamental_div_mod(p as int, side as int);
        assert(tile_shape_ok(p as int, side as int));
    }
    let npw64: u64 = grid.0 as u64;
    let nph64: u64 = grid.1 as u64;
    proof {
        lemma_mul_upper_bound(npw64 as int, u32::MAX as int, nph64 as int, u32::MAX as int);
    }
    if npw64 * nph64 != (n - 1) as u64 {
        return Err(
            MergeError::GridTileMismatch { expected: npw64 * nph64, found: (n - 1) as u64 },
        );
    }
    let npw: usize = grid.0 as usize;
    let nph: usize = grid.1 as usize;
    proof {
        assert(npw as int * nph as int == n - 1);
        assert(npw >= 1 && nph >= 1) by (nonlinear_arith)
            requires
                npw as int * nph as int == n as int - 1,
                n >= 2,
                npw >= 0,
                nph >= 0,
        ;
        assert(nph <= n - 1 && npw <= n - 1) by (nonlinear_arith)
            requires
                npw as int * nph as int == n as int - 1,
                npw >= 1,
                nph >= 1,
        ;
        assert(side <= p) by (nonlinear_arith)
            requires
                p as int == side as int * side as int,
                side >= 1,
        ;
        assert((n - 1) * p <= n * p * 2) by (nonlinear_arith)
            requires
                n >= 2,
                p >= 1,
        ;
        lemma_mul_inequality(nph as int, n as int - 1, side as int);
        lemma_mul_inequality(npw as int, n as int - 1, side as int);
        lemma_mul_inequality(side as int, p as int, n as int - 1);
        assert((n - 1) as int * side as int == side as int * (n - 1) as int) by (nonlinear_arith);
        assert(nph as int * npw as int == npw as int * nph as int) by (nonlinear_arith);
    }
    let h_total: usize = nph * side;
    let w_total: usize = npw * side;
    let mut plan: Vec<PlanSlot> = Vec::new();
    let mut cidx: usize = 0;
    while cidx < p
        invariant
            cidx <= p,
            n >= 2,
            plan@.len() == cidx,
            forall|k: int|
                0 <= k < plan@.len() ==> plan@[k] == (PlanSlot::Cell {
                    entry: 0usize,
                    cell: k as usize,
                }),
            forall|k: int| 0 <= k < plan@.len() ==> slot_in_bounds(plan@[k], n as int, p as int),
        decreases p - cidx,
    {
        plan.push(PlanSlot::Cell { entry: 0, cell: cidx });
        cidx = cidx + 1;
    }
    if !with_separator {
        // Plain spatial: the full grid, row-major.
        let mut rr: usize = 0;
        while rr < h_total
            invariant
                rr <= h_total,
                side >= 1,
                npw >= 1,
                nph >= 1,
                h_total == nph * side,
                w_total == npw * side,
                nph * npw < usize::MAX,
                nph * npw == n - 1,
                n >= 2,
                p == side * side,
                plan@.len() == p + rr * w_total,
                forall|k: int|
                    0 <= k < plan@.len() ==> plan@[k] == spatial_slot(
                        p as int,
                        npw as int,
                        side as int,
                        w_total as int,
                        k,
                    ),
                forall|k: int| 0 <= k < plan@.len() ==> slot_in_bounds(plan@[k], n as int, p as int),
            decreases h_total - rr,
        {
            let mut cc: usize = 0;
            proof {
                lemma_mul_inequality(rr as int + 1, h_total as int, w_total as int);
            }
            while cc < w_total
                invariant
                    cc <= w_total,
                    rr < h_total,
                    side >= 1,
                    npw >= 1,
                    nph >= 1,
                    h_total == nph * side,
                    w_total == npw * side,
                    nph * npw < usize::MAX,
                    nph * npw == n - 1,
                    n >= 2,
                    p == side * side,
                    (rr + 1) * w_total <= h_total * w_total,
                    plan@.len() == p + rr * w_total + cc,
                    forall|k: int|
                        0 <= k < plan@.len() ==> plan@[k] == spatial_slot(
                            p as int,
                            npw as int,
                            side as int,
                            w_total as int,
                            k,
                        ),
                    forall|k: int| 0 <= k < plan@.len() ==> slot_in_bounds(plan@[k], n as int, p as int),
                decreases w_total - cc,
            {
                let slot = grid_cell_slot(npw, nph, side, rr, cc);
                proof {
                    lemma_fundamental_div_mod_converse(
                        rr as int * w_total as int + cc as int,
                        w_total as int,
                        rr as int,
                        cc as int,
                    );
                }
                plan.push(slot);
                cc = cc + 1;
            }
            proof {
                assert((rr + 1) * w_total == rr * w_total + w_total) by (nonlinear_arith);
            }
            rr = rr + 1;
        }
        proof {
            assert(plan@ =~= spatial_plan(p as int, npw as int, nph as int, side as int));
        }
        return Ok(plan);
    }
    // Spatial merge with padding removal and row separators.
    proof {
        assert(nph as int * side as int >= 1 && npw as int * side as int >= 1)
            by (nonlinear_arith)
            requires
                nph >= 1,
                side >= 1,
                npw >= 1,
        ;
    }
    let crop = unpad_crop(h_total, w_total, original_size);
    let r0: usize = crop.row_start;
    let r1: usize = crop.row_end;
    let c0: usize = crop.col_start;
    let c1: usize = crop.col_end;
    let w: usize = (c1 - c0) + 1;
    let mut rr: usize = r0;
    while rr < r1
        invariant
            r0 <= rr <= r1,
            r1 <= h_total,
            c0 <= c1,
            c1 <= w_total,
            w == (c1 - c0) + 1,
            side >= 1,
            npw >= 1,
            nph >= 1,
            h_total == nph * side,
            w_total == npw * side,
            nph * npw < usize::MAX,
            nph * npw == n - 1,
            n >= 2,
            p == side * side,
            plan@.len() == p + (rr - r0) * w,
            forall|k: int|
                0 <= k < plan@.len() ==> plan@[k] == unpad_slot(
                    p as int,
                    npw as int,
                    side as int,
                    r0 as int,
                    c0 as int,
                    c1 as int,
                    k,
                ),
            forall|k: int| 0 <= k < plan@.len() ==> slot_in_bounds(plan@[k], n as int, p as int),
        decreases r1 - rr,
    {
        let mut cc: usize = c0;
        proof {
            lemma_mul_inequality(rr as int - r0 as int + 1, r1 as int - r0 as int, w as int);
        }
        while cc < c1
            invariant
                c0 <= cc <= c1,
                r0 <= rr < r1,
                r1 <= h_total,
                c1 <= w_total,
                w == (c1 - c0) + 1,
                side >= 1,
                npw >= 1,
                nph >= 1,
                h_total == nph * side,
                w_total == npw * side,
                nph * npw < usize::MAX,
                nph * npw == n - 1,
                n >= 2,
                p == side * side,
                (rr - r0 + 1) * w <= (r1 - r0) * w,
                plan@.len() == p + (rr - r0) * w + (cc - c0),
                forall|k: int|
                    0 <= k < plan@.len() ==> plan@[k] == unpad_slot(
                        p as int,
                        npw as int,
                        side as int,
                        r0 as int,
                        c0 as int,
                        c1 as int,
                        k,
                    ),
                forall|k: int| 0 <= k < plan@.len() ==> slot_in_bounds(plan@[k], n as int, p as int),
            decreases c1 - cc,
        {
            let slot = grid_cell_slot(npw, nph, side, rr, cc);
            proof {
                lemma_fundamental_div_mod_converse(
                    (rr - r0) as int * w as int + (cc - c0) as int,
                    w as int,
                    (rr - r0) as int,
                    (cc - c0) as int,
                );
            }
            plan.push(slot);
            cc = cc + 1;
        }
        proof {
            lemma_fundamental_div_mod_converse(
                (rr - r0) as int * w as int + (c1 - c0) as int,
                w as int,
                (rr - r0) as int,
                (c1 - c0) as int,
            );
        }
        plan.push(PlanSlot::Separator);
        proof {
            assert(((rr - r0) + 1) * w == (rr - r0) * w + w) by (nonlinear_arith);
        }
        rr = rr + 1;
    }
    proof {
        assert(plan@ =~= unpad_plan(
            p as int,
            npw as int,
            nph as int,
            side as int,
            original_size.0 as int,
            original_size.1 as int,
        ));
    }
    Ok(plan)
}

} // verus!
