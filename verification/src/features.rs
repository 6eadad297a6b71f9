//! Tensor-level feature pipeline: selecting one vision-encoder layer,
//! gathering the merged patch-grid sequence out of a per-image feature
//! tensor, and splicing image rows into the embedded prompt.
//!
//! Shapes are verified throughout; the arithmetic that decides which row
//! goes where lives in `merge` and `fusion` and is verified exactly.
use vstd::prelude::*;
use crate::errors::ConfigError;
use crate::errors::FusionError;
use crate::errors::MergeError;
use crate::fusion::find_unique_placeholder;
use crate::fusion::fused_spec;
use crate::fusion::is_unique_placeholder;
use crate::fusion::placeholder_count;
use crate::geometry::anyres_grid_shape;
use crate::geometry::chosen_grid;
use crate::merge::merge_plan;
use crate::merge::merge_plan_spec;
use crate::merge::slot_in_bounds;
use crate::merge::tile_shape_ok;
use crate::merge::grid_matches;
use crate::merge::MergePolicy;
use crate::merge::PlanSlot;
use crate::tensor_ops::dims_of;
use crate::tensor_ops::device_of;
use crate::tensor_ops::dtype_of;
use crate::tensor_ops::tensor_cat2;
use crate::tensor_ops::tensor_clone;
use crate::tensor_ops::tensor_dims;
use crate::tensor_ops::tensor_get;
use crate::tensor_ops::tensor_narrow;
use crate::tensor_ops::tensor_unsqueeze;

verus! {

/// Resolves a negative layer offset against the number of hidden-state
/// layers.
///
/// Only the offsets -1 (last layer) and -2 (second-to-last) are supported;
/// any other offset is a configuration error reported before any tensor
/// work.
pub fn select_layer_index(num_layers: usize, select_layer: i64) -> (r: Option<usize>)
    ensures
        select_layer == -1 && num_layers >= 1 ==> r == Some((num_layers - 1) as usize),
        select_layer == -2 && num_layers >= 2 ==> r == Some((num_layers - 2) as usize),
        !(select_layer == -1 && num_layers >= 1) && !(select_layer == -2 && num_layers >= 2)
            ==> r is None,
{
    if select_layer == -1 && num_layers >= 1 {
        Some(num_layers - 1)
    } else if select_layer == -2 && num_layers >= 2 {
        Some(num_layers - 2)
    } else {
        None
    }
}

/// The vision feature selector: picks one layer of the encoder's hidden
/// states by a negative offset from the end (only -1 and -2 are supported;
/// anything else is a configuration error raised before any tensor work),
/// and drops the leading class token unless it is asked to keep it.
pub fn select_features(
    hidden_states: &Vec<candle_core::Tensor>,
    select_layer: i64,
    include_class_token: bool,
) -> (r: Result<candle_core::Tensor, ConfigError>)
    requires
        hidden_states@.len() >= 2,
        forall|i: int|
            0 <= i < hidden_states@.len() ==> dims_of(#[trigger] hidden_states@[i]).len() == 3
                && dims_of(hidden_states@[i])[1] >= 1,
    ensures
        (r is Err) <==> !(select_layer == -1 || select_layer == -2),
        r matches Err(e) ==> e == (ConfigError::UnsupportedSelectLayer { offset: select_layer }),
        r matches Ok(t) ==> ({
            let src = hidden_states@[hidden_states@.len() + select_layer];
            &&& include_class_token ==> t == src
            &&& !include_class_token ==> dims_of(t) == dims_of(src).update(
                1,
                (dims_of(src)[1] - 1) as usize,
            ) && dtype_of(t) == dtype_of(src) && device_of(t) == device_of(src)
        }),
{
    let idx: usize = match select_layer_index(hidden_states.len(), select_layer) {
        Some(idx) => idx,
        None => {
            return Err(ConfigError::UnsupportedSelectLayer { offset: select_layer });
        },
    };
    let chosen = &hidden_states[idx];
    if include_class_token {
        Ok(tensor_clone(chosen))
    } else {
        let dims = tensor_dims(chosen);
        let seq_extent: usize = dims[1];
        Ok(tensor_narrow(chosen, 1, 1, seq_extent - 1))
    }
}

/// Row `cell` of feature block `entry`, or the separator embedding, as a
/// single-row tensor ready for concatenation.
fn gather_slot(
    image_feature: &candle_core::Tensor,
    separator: &candle_core::Tensor,
    slot: PlanSlot,
) -> (r: candle_core::Tensor)
    requires
        dims_of(*image_feature).len() == 3,
        dims_of(*separator) == seq![dims_of(*image_feature)[2]],
        dtype_of(*separator) == dtype_of(*image_feature),
        device_of(*separator) == device_of(*image_feature),
        slot_in_bounds(slot, dims_of(*image_feature)[0] as int, dims_of(*image_feature)[1] as int),
    ensures
        dims_of(r) =~= seq![1usize, dims_of(*image_feature)[2]],
        dtype_of(r) == dtype_of(*image_feature),
        device_of(r) == device_of(*image_feature),
{
    match slot {
        PlanSlot::Cell { entry, cell } => {
            let block = tensor_get(image_feature, entry);
            proof {
                assert(dims_of(block) =~= dims_of(*image_feature).skip(1));
            }
            let row = tensor_narrow(&block, 0, cell, 1);
            proof {
                assert(dims_of(row) =~= seq![1usize, dims_of(*image_feature)[2]]);
            }
            row
        },
        PlanSlot::Separator => {
            let row = tensor_unsqueeze(separator, 0);
            proof {
                assert(dims_of(row) =~= seq![1usize, dims_of(*image_feature)[2]]);
            }
            row
        },
    }
}

/// The patch grid merger: turns one per-image feature tensor of
/// `num_entries x rows_per_entry x hidden` (entry 0 the whole-image
/// feature, the rest the grid tiles) into the merged `tokens x hidden`
/// sequence, by gathering rows along the verified merge plan. The tile
/// grid is derived from the original image size and the supported
/// resolution pinpoints; `side` is the patches per tile side and `tile_px`
/// the tile's pixel extent.
pub fn merge_image_feature(
    image_feature: &candle_core::Tensor,
    separator: &candle_core::Tensor,
    policy: MergePolicy,
    original_size: (u32, u32),
    pinpoints: &Vec<(u32, u32)>,
    tile_px: u32,
    side: usize,
) -> (r: Result<candle_core::Tensor, MergeError>)
    requires
        dims_of(*image_feature).len() == 3,
        dims_of(*image_feature)[0] >= 1,
        dims_of(*image_feature)[1] >= 1,
        dims_of(*image_feature)[0] * dims_of(*image_feature)[1] * 2 <= usize::MAX,
        dims_of(*separator) == seq![dims_of(*image_feature)[2]],
        dtype_of(*separator) == dtype_of(*image_feature),
        device_of(*separator) == device_of(*image_feature),
        side >= 1,
        original_size.0 >= 1,
        original_size.1 >= 1,
        tile_px >= 1,
    ensures
        ({
            let n: int = dims_of(*image_feature)[0] as int;
            let p: int = dims_of(*image_feature)[1] as int;
            let h: usize = dims_of(*image_feature)[2];
            let ow: int = original_size.0 as int;
            let oh: int = original_size.1 as int;
            &&& (policy is Flat || n == 1) ==> (r matches Ok(t) && dims_of(t) =~= seq![
                merge_plan_spec(policy, n, p, side as int, 0, 0, ow, oh).len() as usize,
                h,
            ])
            &&& (!(policy is Flat) && n > 1 && pinpoints@.len() == 0) ==> r == Err::<
                candle_core::Tensor,
                MergeError,
            >(MergeError::NoResolutionMatch)
            &&& (!(policy is Flat) && n > 1 && pinpoints@.len() > 0) ==> ({
                let g = chosen_grid(ow, oh, pinpoints@, tile_px as int);
                let npw: int = g.0;
                let nph: int = g.1;
                &&& !tile_shape_ok(p, side as int) ==> r == Err::<
                    candle_core::Tensor,
                    MergeError,
                >(MergeError::BadFeatureShape)
                &&& (tile_shape_ok(p, side as int) && !grid_matches(npw, nph, n)) ==> (
                r matches Err(e) && e matches MergeError::GridTileMismatch {
                    expected,
                    found,
                } && expected == npw * nph && found == n - 1)
                &&& (tile_shape_ok(p, side as int) && grid_matches(npw, nph, n)) ==> (
                r matches Ok(t) && dims_of(t) =~= seq![
                    merge_plan_spec(policy, n, p, side as int, npw, nph, ow, oh).len() as usize,
                    h,
                ])
            })
        }),
{
    let dims = tensor_dims(image_feature);
    let n: usize = dims[0];
    let p: usize = dims[1];
    let flat = matches!(policy, MergePolicy::Flat);
    let grid: (u32, u32) = if !flat && n > 1 {
        match anyres_grid_shape(original_size, pinpoints, tile_px) {
            Some(g) => g,
            None => {
                return Err(MergeError::NoResolutionMatch);
            },
        }
    } else {
        (0, 0)
    };
    let plan: Vec<PlanSlot> = match merge_plan(policy, n, p, side, grid, original_size) {
        Ok(plan) => plan,
        Err(e) => {
            return Err(e);
        },
    };
    proof {
        // Every case of the plan starts with at least one slot.
        assert(n as int * p as int >= 1 && n as int * p as int >= p as int) by (nonlinear_arith)
            requires
                n >= 1,
                p >= 1,
        ;
        if !(policy is Flat) && n > 1 {
            crate::merge::lemma_spatial_plan_token_count(
                p as int,
                grid.0 as int,
                grid.1 as int,
                side as int,
            );
            crate::merge::lemma_unpad_plan_token_count(
                p as int,
                grid.0 as int,
                grid.1 as int,
                side as int,
                original_size.0 as int,
                original_size.1 as int,
            );
        }
    }
    let mut acc = gather_slot(image_feature, separator, plan[0]);
    let mut idx: usize = 1;
    while idx < plan.len()
        invariant
            1 <= idx <= plan@.len(),
            dims_of(*image_feature).len() == 3,
            dims_of(*separator) == seq![dims_of(*image_feature)[2]],
            dtype_of(*separator) == dtype_of(*image_feature),
            device_of(*separator) == device_of(*image_feature),
            forall|k: int|
                0 <= k < plan@.len() ==> slot_in_bounds(
                    #[trigger] plan@[k],
                    dims_of(*image_feature)[0] as int,
                    dims_of(*image_feature)[1] as int,
                ),
            dims_of(acc) =~= seq![idx, dims_of(*image_feature)[2]],
            dtype_of(acc) == dtype_of(*image_feature),
            device_of(acc) == device_of(*image_feature),
        decreases plan@.len() - idx,
    {
        let piece = gather_slot(image_feature, separator, plan[idx]);
        let joined = tensor_cat2(&acc, &piece);
        proof {
            assert(dims_of(joined) =~= seq![(idx + 1) as usize, dims_of(*image_feature)[2]]);
        }
        acc = joined;
        idx = idx + 1;
    }
    Ok(acc)
}

/// Embedding fusion at the tensor level: splices the merged image feature
/// block into the embedded prompt in place of the placeholder, truncates
/// to `max_length` if configured, and adds the leading batch axis of one.
/// `text_embeds` holds the embeddings of the prompt with its placeholder
/// removed; `placeholder_pos` is the placeholder's position in the
/// original prompt, so it may equal the text row count (placeholder last).
pub fn splice_image_embeddings(
    text_embeds: &candle_core::Tensor,
    image_block: &candle_core::Tensor,
    placeholder_pos: usize,
    max_length: Option<usize>,
) -> (r: Result<candle_core::Tensor, FusionError>)
    requires
        dims_of(*text_embeds).len() == 2,
        dims_of(*image_block).len() == 2,
        dims_of(*image_block)[1] == dims_of(*text_embeds)[1],
        dims_of(*text_embeds)[0] + dims_of(*image_block)[0] <= usize::MAX,
        dtype_of(*image_block) == dtype_of(*text_embeds),
        device_of(*image_block) == device_of(*text_embeds),
    ensures
        ({
            let m: int = dims_of(*text_embeds)[0] as int;
            let k: int = dims_of(*image_block)[0] as int;
            let h: usize = dims_of(*text_embeds)[1];
            &&& (r is Err) <==> placeholder_pos > m
            &&& placeholder_pos > m ==> r == Err::<candle_core::Tensor, FusionError>(
                FusionError::PlaceholderOutOfRange {
                    position: placeholder_pos,
                    text_len: dims_of(*text_embeds)[0],
                },
            )
            &&& r matches Ok(t) ==> dims_of(t) =~= seq![
                1usize,
                spliced_len(m, k, max_length) as usize,
                h,
            ]
        }),
{
    let dims = tensor_dims(text_embeds);
    let m: usize = dims[0];
    if placeholder_pos > m {
        return Err(
            FusionError::PlaceholderOutOfRange { position: placeholder_pos, text_len: m },
        );
    }
    let pre = tensor_narrow(text_embeds, 0, 0, placeholder_pos);
    let post = tensor_narrow(text_embeds, 0, placeholder_pos, m - placeholder_pos);
    let with_image = tensor_cat2(&pre, image_block);
    let full = tensor_cat2(&with_image, &post);
    let idims = tensor_dims(image_block);
    let k: usize = idims[0];
    let total: usize = m + k;
    let kept = match max_length {
        Option::None => full,
        Option::Some(limit) => {
            if limit < total {
                tensor_narrow(&full, 0, 0, limit)
            } else {
                full
            }
        },
    };
    let out = tensor_unsqueeze(&kept, 0);
    proof {
        assert(dims_of(out) =~= seq![
            1usize,
            spliced_len(
                dims_of(*text_embeds)[0] as int,
                dims_of(*image_block)[0] as int,
                max_length,
            ) as usize,
            dims_of(*text_embeds)[1],
        ]);
    }
    Ok(out)
}

/// Length of the spliced sequence: text rows plus image rows, cut to the
/// configured maximum.
pub open spec fn spliced_len(m: int, k: int, max_length: Option<usize>) -> int {
    let full: int = m + k;
    match max_length {
        Option::None => full,
        Option::Some(limit) => if full > limit {
            limit as int
        } else {
            full
        },
    }
}

/// The fused multimodal input, from the tokenized prompt: finds the single
/// placeholder, checks that `text_embeds` embeds exactly the prompt with
/// the placeholder removed, and splices the image block in its place. The
/// resulting sequence length is exactly that of the verified fusion plan
/// for the same inputs.
pub fn prepare_fused_embeddings(
    tokens: &Vec<i64>,
    image_placeholder_id: i64,
    text_embeds: &candle_core::Tensor,
    image_block: &candle_core::Tensor,
    max_length: Option<usize>,
) -> (r: Result<candle_core::Tensor, FusionError>)
    requires
        tokens@.len() >= 1,
        dims_of(*text_embeds).len() == 2,
        dims_of(*image_block).len() == 2,
        dims_of(*image_block)[1] == dims_of(*text_embeds)[1],
        dims_of(*text_embeds)[0] + dims_of(*image_block)[0] <= usize::MAX,
        dtype_of(*image_block) == dtype_of(*text_embeds),
        device_of(*image_block) == device_of(*text_embeds),
    ensures
        placeholder_count(tokens@, image_placeholder_id) != 1 ==> r == Err::<
            candle_core::Tensor,
            FusionError,
        >(
            FusionError::PlaceholderCountMismatch {
                found: placeholder_count(tokens@, image_placeholder_id) as usize,
            },
        ),
        r matches Ok(t) ==> exists|pos: int|
            is_unique_placeholder(tokens@, image_placeholder_id, pos) && dims_of(t) =~= seq![
                1usize,
                fused_spec(
                    tokens@,
                    pos,
                    dims_of(*image_block)[0] as int,
                    max_length,
                ).len() as usize,
                dims_of(*text_embeds)[1],
            ],
        r matches Ok(t) ==> dims_of(*text_embeds)[0] == tokens@.len() - 1,
        placeholder_count(tokens@, image_placeholder_id) == 1 && dims_of(*text_embeds)[0]
            != tokens@.len() - 1 ==> r == Err::<candle_core::Tensor, FusionError>(
            FusionError::TextSpanMismatch {
                expected: (tokens@.len() - 1) as usize,
                found: dims_of(*text_embeds)[0],
            },
        ),
        placeholder_count(tokens@, image_placeholder_id) == 1 && dims_of(*text_embeds)[0]
            == tokens@.len() - 1 ==> r is Ok,
{
    let pos: usize = match find_unique_placeholder(tokens, image_placeholder_id) {
        Ok(pos) => pos,
        Err(e) => {
            return Err(e);
        },
    };
    let dims = tensor_dims(text_embeds);
    let m: usize = dims[0];
    if m != tokens.len() - 1 {
        return Err(FusionError::TextSpanMismatch { expected: tokens.len() - 1, found: m });
    }
    let r = splice_image_embeddings(text_embeds, image_block, pos, max_length);
    proof {
        if r is Ok {
            let k: int = dims_of(*image_block)[0] as int;
            assert(fused_spec(tokens@, pos as int, k, max_length).len() == spliced_len(
                m as int,
                k,
                max_length,
            ));
        }
    }
    r
}

/// The identity multimodal projector: hands its input through unchanged.
pub struct IdentityMap {}

impl IdentityMap {
    /// A tensor is an immutable shared value: forwarding clones it.
    pub fn forward(&self, x: &candle_core::Tensor) -> (r: candle_core::Tensor)
        ensures
            r == *x,
    {
        tensor_clone(x)
    }
}

} // verus!
