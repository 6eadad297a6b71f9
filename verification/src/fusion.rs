//! Embedding fusion: locating the image placeholder inside a tokenized
//! prompt and planning the fused sequence in which the placeholder token is
//! replaced by the rows of the merged image feature block, truncated to an
//! optional maximum length.
//!
//! Exactly one placeholder and one image feature block are supported; any
//! other placeholder count is a data-consistency error.
use vstd::prelude::*;
use crate::errors::FusionError;

verus! {

/// One position of the fused embedding sequence: the embedding of a prompt
/// token, or row `row` of the merged image feature block.
#[derive(Clone, Copy, Debug, PartialEq, Eq, Structural)]
pub enum FusedSlot {
    Text { token: i64 },
    Image { row: usize },
}

/// Occurrences of `ph` among the first `i` tokens.
pub open spec fn placeholder_count_prefix(tokens: Seq<i64>, ph: i64, i: int) -> int
    decreases i,
{
    if i <= 0 {
        0
    } else {
        placeholder_count_prefix(tokens, ph, i - 1) + if tokens[i - 1] == ph {
            1int
        } else {
            0int
        }
    }
}

/// Occurrences of `ph` in `tokens`.
pub open spec fn placeholder_count(tokens: Seq<i64>, ph: i64) -> int {
    placeholder_count_prefix(tokens, ph, tokens.len() as int)
}

/// `p` is the position of the one and only occurrence of `ph`.
pub open spec fn is_unique_placeholder(tokens: Seq<i64>, ph: i64, p: int) -> bool {
    &&& 0 <= p < tokens.len()
    &&& tokens[p] == ph
    &&& forall|j: int| 0 <= j < tokens.len() && j != p ==> tokens[j] != ph
}

/// Finds the position of the single occurrence of `ph` in `tokens`.
/// Returns `PlaceholderCountMismatch` exactly when the occurrence count is
/// not one, reporting that count.
pub fn find_unique_placeholder(tokens: &Vec<i64>, ph: i64) -> (r: Result<usize, FusionError>)
    ensures
        r matches Ok(p) ==> is_unique_placeholder(tokens@, ph, p as int),
        r matches Ok(p) ==> placeholder_count(tokens@, ph) == 1,
        r is Err ==> placeholder_count(tokens@, ph) != 1,
        r matches Err(e) ==> e == (FusionError::PlaceholderCountMismatch {
            found: placeholder_count(tokens@, ph) as usize,
        }),
{
    let n: usize = tokens.len();
    let mut i: usize = 0;
    let mut count: usize = 0;
    let mut first: usize = 0;
    let mut seen = false;
    while i < n
        invariant
            i <= n,
            n == tokens@.len(),
            count == placeholder_count_prefix(tokens@, ph, i as int),
            count <= i,
            !seen ==> count == 0 && (forall|j: int| 0 <= j < i ==> tokens@[j] != ph),
            seen ==> count >= 1 && first < i && tokens@[first as int] == ph && (forall|j: int|
                0 <= j < first ==> tokens@[j] != ph),
            seen && count == 1 ==> forall|j: int| first < j < i ==> tokens@[j] != ph,
        decreases n - i,
    {
        if tokens[i] == ph {
            count = count + 1;
            if !seen {
                first = i;
                seen = true;
            }
        }
        i = i + 1;
    }
    if count == 1 {
        Ok(first)
    } else {
        Err(FusionError::PlaceholderCountMismatch { found: count })
    }
}

/// The fused sequence before truncation, for a prompt whose placeholder
/// stands at position `p` and an image feature block of `k` rows: the text
/// tokens before the placeholder, then the `k` image rows, then the text
/// tokens after it.
pub open spec fn fused_untruncated(tokens: Seq<i64>, p: int, k: int) -> Seq<FusedSlot> {
    Seq::new(
        (tokens.len() - 1 + k) as nat,
        |i: int|
            if i < p {
                FusedSlot::Text { token: tokens[i] }
            } else if i < p + k {
                FusedSlot::Image { row: (i - p) as usize }
            } else {
                FusedSlot::Text { token: tokens[i - k + 1] }
            },
    )
}

/// The fused sequence, cut to its first `max_length` positions when that
/// bound is set and exceeded.
pub open spec fn fused_spec(tokens: Seq<i64>, p: int, k: int, max_length: Option<usize>) -> Seq<
    FusedSlot,
> {
    let full = fused_untruncated(tokens, p, k);
    match max_length {
        Option::None => full,
        Option::Some(m) => if full.len() > m {
            full.take(m as int)
        } else {
            full
        },
    }
}

/// Fusion placeholder law: with one placeholder among `n` tokens and an
/// image block of `k` rows, the untruncated fused sequence has exactly
/// `(n - 1) + k` positions.
pub proof fn lemma_fusion_placeholder_law(tokens: Seq<i64>, p: int, k: int)
    requires
        tokens.len() >= 1,
        k >= 0,
    ensures
        fused_untruncated(tokens, p, k).len() == (tokens.len() - 1) + k,
{
}

/// Truncation law: a configured `max_length` below the fused length keeps
/// exactly the first `max_length` positions of the untruncated fusion,
/// unchanged.
pub proof fn lemma_truncation_law(tokens: Seq<i64>, p: int, k: int, m: usize)
    requires
        tokens.len() >= 1,
        k >= 0,
        m < (tokens.len() - 1) + k,
    ensures
        fused_spec(tokens, p, k, Some(m)).len() == m,
        forall|i: int|
            0 <= i < m ==> fused_spec(tokens, p, k, Some(m))[i] == fused_untruncated(tokens, p, k)[i],
{
}

/// The fused sequence embeds exactly the prompt with its placeholder
/// removed: every text position carries the corresponding token of the
/// stripped prompt, in order, around the image rows.
pub proof fn lemma_fused_uses_stripped_tokens(tokens: Seq<i64>, p: int, k: int)
    requires
        0 <= p < tokens.len(),
        k >= 0,
    ensures
        ({
            let stripped = tokens.take(p) + tokens.skip(p + 1);
            let fused = fused_untruncated(tokens, p, k);
            &&& forall|i: int|
                0 <= i < p ==> fused[i] == (FusedSlot::Text { token: stripped[i] })
            &&& forall|i: int|
                p <= i < p + k ==> fused[i] == (FusedSlot::Image { row: (i - p) as usize })
            &&& forall|i: int|
                p + k <= i < fused.len() ==> fused[i] == (FusedSlot::Text {
                    token: stripped[i - k],
                })
        }),
{
}

/// Plans the fused embedding sequence for a tokenized prompt: every
/// position is either a prompt token to embed or a row of the image
/// feature block, in prompt order, with the placeholder replaced by the
/// block's `image_len` rows and the result truncated to `max_length`.
/// Errors exactly when the placeholder occurs zero or several times.
pub fn fuse_plan(
    tokens: &Vec<i64>,
    placeholder: i64,
    image_len: usize,
    max_length: Option<usize>,
) -> (r: Result<Vec<FusedSlot>, FusionError>)
    requires
        tokens@.len() >= 1,
        tokens@.len() - 1 + image_len <= usize::MAX,
    ensures
        r matches Ok(plan) ==> exists|p: int|
            is_unique_placeholder(tokens@, placeholder, p) && plan@ == fused_spec(
                tokens@,
                p,
                image_len as int,
                max_length,
            ),
        r is Ok <==> placeholder_count(tokens@, placeholder) == 1,
        r matches Err(e) ==> e == (FusionError::PlaceholderCountMismatch {
            found: placeholder_count(tokens@, placeholder) as usize,
        }),
{
    let p: usize = match find_unique_placeholder(tokens, placeholder) {
        Ok(p) => p,
        Err(e) => {
            return Err(e);
        },
    };
    let n: usize = tokens.len();
    let k: usize = image_len;
    let ghost full = fused_untruncated(tokens@, p as int, k as int);
    let mut plan: Vec<FusedSlot> = Vec::new();
    let mut i: usize = 0;
    while i < p
        invariant
            i <= p,
            p < n,
            n == tokens@.len(),
            full == fused_untruncated(tokens@, p as int, k as int),
            n - 1 + k <= usize::MAX,
            plan@.len() == i,
            forall|j: int| 0 <= j < plan@.len() ==> plan@[j] == full[j],
        decreases p - i,
    {
        plan.push(FusedSlot::Text { token: tokens[i] });
        i = i + 1;
    }
    let mut row: usize = 0;
    while row < k
        invariant
            row <= k,
            p < n,
            n == tokens@.len(),
            full == fused_untruncated(tokens@, p as int, k as int),
            n - 1 + k <= usize::MAX,
            plan@.len() == p + row,
            forall|j: int| 0 <= j < plan@.len() ==> plan@[j] == full[j],
        decreases k - row,
    {
        plan.push(FusedSlot::Image { row });
        row = row + 1;
    }
    let mut i: usize = p + 1;
    while i < n
        invariant
            p + 1 <= i <= n,
            p < n,
            n == tokens@.len(),
            full == fused_untruncated(tokens@, p as int, k as int),
            n - 1 + k <= usize::MAX,
            plan@.len() == k + i - 1,
            forall|j: int| 0 <= j < plan@.len() ==> plan@[j] == full[j],
        decreases n - i,
    {
        plan.push(FusedSlot::Text { token: tokens[i] });
        i = i + 1;
    }
    proof {
        assert(plan@ =~= full);
    }
    match max_length {
        Option::None => Ok(plan),
        Option::Some(m) => {
            plan.truncate(m);
            proof {
                if full.len() > m {
                    assert(plan@ =~= full.take(m as int));
                } else {
                    assert(plan@ =~= full);
                }
            }
            Ok(plan)
        },
    }
}

/// The prompt with its placeholder removed: what the language model's
/// embedding table is applied to before the image rows are spliced in.
pub fn strip_placeholder(tokens: &Vec<i64>, placeholder_pos: usize) -> (r: Vec<i64>)
    requires
        placeholder_pos < tokens@.len(),
    ensures
        r@ == tokens@.take(placeholder_pos as int) + tokens@.skip(placeholder_pos as int + 1),
{
    let n: usize = tokens.len();
    let mut out: Vec<i64> = Vec::new();
    let mut i: usize = 0;
    while i < n
        invariant
            i <= n,
            n == tokens@.len(),
            placeholder_pos < n,
            i <= placeholder_pos ==> out@ == tokens@.take(i as int),
            i > placeholder_pos ==> out@ == tokens@.take(placeholder_pos as int) + tokens@.subrange(
                placeholder_pos as int + 1,
                i as int,
            ),
        decreases n - i,
    {
        if i != placeholder_pos {
            out.push(tokens[i]);
        }
        proof {
            if i + 1 <= placeholder_pos {
                assert(out@ =~= tokens@.take(i as int + 1));
            } else if i >= placeholder_pos {
                assert(out@ =~= tokens@.take(placeholder_pos as int) + tokens@.subrange(
                    placeholder_pos as int + 1,
                    i as int + 1,
                ));
            }
        }
        i = i + 1;
    }
    proof {
        assert(out@ =~= tokens@.take(placeholder_pos as int) + tokens@.skip(
            placeholder_pos as int + 1,
        ));
    }
    out
}

} // verus!
