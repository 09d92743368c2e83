use super::ranking::{descending_value_keys, is_stable_top, top_by_descending_value};
use vstd::arithmetic::div_mod::lemma_fundamental_div_mod_converse;
use vstd::prelude::*;

verus! {

broadcast use vstd::seq_lib::group_seq_properties;

/// Whether `indices` holds, for each of `batch` rows of `tokens` scores, the
/// positions of the `topk` highest scores of that row, highest first, ties by
/// position.
pub open spec fn is_row_topk(scores: Seq<u32>, batch: int, tokens: int, topk: int, indices: Seq<usize>) -> bool {
    &&& indices.len() == batch * topk
    &&& forall|row: int|
        #![trigger scores.subrange(row * tokens, (row + 1) * tokens)]
        0 <= row < batch ==> is_stable_top(
            descending_value_keys(scores.subrange(row * tokens, (row + 1) * tokens)),
            topk,
            indices.subrange(row * topk, (row + 1) * topk),
        )
}

proof fn lemma_row_bounds(row: int, batch: int, width: int)
    requires
        0 <= row < batch,
        width >= 0,
    ensures
        0 <= row * width,
        row * width + width == (row + 1) * width,
        (row + 1) * width <= batch * width,
{
    assert(0 <= row * width) by (nonlinear_arith)
        requires
            0 <= row,
            width >= 0,
    ;
    assert(row * width + width == (row + 1) * width) by (nonlinear_arith);
    assert((row + 1) * width <= batch * width) by (nonlinear_arith)
        requires
            row + 1 <= batch,
            width >= 0,
    ;
}

/// Host-side top-k over proposal scores of shape `[batch, tokens, 1]`, given as
/// `f32` bit patterns: for each batch row, the positions of its `topk` highest
/// scores, highest first, rows one after the other.
pub fn host_topk_indices(score_bits: &[u32], dims: [usize; 3], topk: usize) -> (indices: Vec<usize>)
    requires
        dims[2] == 1,
        score_bits@.len() == dims[0] * dims[1],
        topk <= dims[1],
    ensures
        is_row_topk(score_bits@, dims[0] as int, dims[1] as int, topk as int, indices@),
{
    let batch_size = dims[0];
    let token_count = dims[1];
    let ghost scores = score_bits@;
    let mut indices: Vec<usize> = Vec::new();
    let mut row: usize = 0;
    let total = score_bits.len();
    assert(total == batch_size * token_count);
    while row < batch_size
        invariant
            row <= batch_size,
            batch_size == dims[0],
            token_count == dims[1],
            topk <= token_count,
            scores == score_bits@,
            scores.len() == batch_size * token_count,
            batch_size * token_count <= usize::MAX,
            indices@.len() == row * topk,
            forall|r: int|
                #![trigger scores.subrange(r * token_count, (r + 1) * token_count)]
                0 <= r < row ==> is_stable_top(
                    descending_value_keys(scores.subrange(r * token_count, (r + 1) * token_count)),
                    topk as int,
                    indices@.subrange(r * topk, (r + 1) * topk),
                ),
        decreases batch_size - row,
    {
        proof {
            lemma_row_bounds(row as int, batch_size as int, token_count as int);
            lemma_row_bounds(row as int, batch_size as int, topk as int);
        }
        let offset = row * token_count;
        let top = top_by_descending_value(&score_bits[offset..offset + token_count], topk);
        let ghost before = indices@;
        let mut k: usize = 0;
        while k < top.len()
            invariant
                k <= top@.len(),
                top@.len() == topk,
                indices@ == before + top@.take(k as int),
            decreases top@.len() - k,
        {
            indices.push(top[k]);
            assert(top@.take(k + 1) == top@.take(k as int).push(top@[k as int]));
            k = k + 1;
        }
        proof {
            assert(top@.take(k as int) == top@);
            assert forall|r: int|
                #![trigger scores.subrange(r * token_count, (r + 1) * token_count)]
                0 <= r < row + 1 implies is_stable_top(
                descending_value_keys(scores.subrange(r * token_count, (r + 1) * token_count)),
                topk as int,
                indices@.subrange(r * topk, (r + 1) * topk),
            ) by {
                lemma_row_bounds(r, row + 1, topk as int);
                if r < row {
                    lemma_row_bounds(r, row as int, topk as int);
                    assert(indices@.subrange(r * topk, (r + 1) * topk) == before.subrange(
                        r * topk,
                        (r + 1) * topk,
                    ));
                } else {
                    assert(indices@.subrange(r * topk, (r + 1) * topk) == top@);
                }
            }
        }
        row = row + 1;
    }
    indices
}

/// The causal mask for order logits of `seq_len` queries, row-major: entry
/// `(row, col)` is set on and below the diagonal (`row >= col`).
pub fn order_logits_mask(seq_len: usize) -> (mask: Vec<bool>)
    requires
        seq_len * seq_len <= usize::MAX,
    ensures
        mask@.len() == seq_len * seq_len,
        forall|row: int, col: int|
            0 <= row < seq_len && 0 <= col < seq_len ==> #[trigger] mask@[row * seq_len + col] == (row
                >= col),
{
    let n = seq_len;
    let mut mask: Vec<bool> = Vec::new();
    let mut row: usize = 0;
    while row < n
        invariant
            row <= n,
            n * n <= usize::MAX,
            mask@.len() == row * n,
            forall|i: int| 0 <= i < mask@.len() ==> #[trigger] mask@[i] == (i / n as int >= i % n as int),
        decreases n - row,
    {
        let mut col: usize = 0;
        while col < n
            invariant
                row < n,
                col <= n,
                n * n <= usize::MAX,
                mask@.len() == row * n + col,
                forall|i: int| 0 <= i < mask@.len() ==> #[trigger] mask@[i] == (i / n as int >= i % n as int),
            decreases n - col,
        {
            proof {
                lemma_fundamental_div_mod_converse(row * n + col, n as int, row as int, col as int);
            }
            mask.push(row >= col);
            col = col + 1;
        }
        assert(row * n + n == (row + 1) * n) by (nonlinear_arith);
        row = row + 1;
    }
    proof {
        assert forall|r: int, c: int| 0 <= r < seq_len && 0 <= c < seq_len implies #[trigger] mask@[r
            * seq_len + c] == (r >= c) by {
            lemma_fundamental_div_mod_converse(r * n + c, n as int, r, c);
            assert(r * n + c < n * n) by (nonlinear_arith)
                requires
                    0 <= r < n,
                    0 <= c < n,
            ;
        }
    }
    mask
}

} // verus!
