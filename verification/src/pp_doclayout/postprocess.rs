use super::labels::{label_for_class_id, PPDocLayoutV3Label, PP_DOCLAYOUT_V3_CLASS_COUNT};
use super::ranking::{descending_value_keys, is_stable_top, top_by_descending_value};
use super::types::{dims_are, holds_page, PPDocLayoutV3RawOutputs};
use crate::error::LayoutError;
use crate::text::{
    decimal_digits, decimal_string, list_text, optional_shape_string, optional_shape_text,
    shape_string,
};
use vstd::prelude::*;
use vstd::string::StringExecFns;

verus! {

/// Number of object queries (candidate boxes) per page of the checkpoint.
pub const NUM_QUERIES: usize = 300;

/// Whether output tensors have the checkpoint's fixed per-page shapes, with a
/// non-empty batch and buffers of exactly the advertised lengths.
pub open spec fn has_checkpoint_shapes<'a, T>(outputs: PPDocLayoutV3RawOutputs<'a, T>) -> bool {
    let batch = outputs.logits_shape[0] as int;
    &&& batch > 0
    &&& dims_are(outputs.logits_shape, batch, NUM_QUERIES as int, PP_DOCLAYOUT_V3_CLASS_COUNT as int)
    &&& outputs.logits@.len() == batch * (NUM_QUERIES * PP_DOCLAYOUT_V3_CLASS_COUNT)
    &&& dims_are(outputs.pred_boxes_shape, batch, NUM_QUERIES as int, 4)
    &&& outputs.pred_boxes@.len() == batch * (NUM_QUERIES * 4)
    &&& match (outputs.order_logits_shape, outputs.order_logits) {
        (Some(shape), Some(values)) => {
            &&& dims_are(shape, batch, NUM_QUERIES as int, NUM_QUERIES as int)
            &&& values@.len() == batch * (NUM_QUERIES * NUM_QUERIES)
        },
        (None, None) => true,
        _ => false,
    }
}

/// Number of order-logit values present: zero when there are none.
pub open spec fn order_value_count<'a, T>(outputs: PPDocLayoutV3RawOutputs<'a, T>) -> nat {
    match outputs.order_logits {
        Some(values) => values@.len(),
        None => 0,
    }
}

/// `expected <shape>, got <shape>` for a tensor called `what`.
pub open spec fn shape_mismatch_text(what: Seq<char>, expected: Seq<usize>, actual: [usize; 3]) -> Seq<char> {
    "expected "@ + what + " "@ + list_text(expected) + ", got "@ + list_text(actual@)
}

/// `expected <count><what>, got <len>`.
pub open spec fn count_mismatch_text(expected: nat, what: Seq<char>, actual: nat) -> Seq<char> {
    "expected "@ + decimal_digits(expected) + what + ", got "@ + decimal_digits(actual)
}

/// The message with which outputs without the checkpoint's shapes are refused:
/// that of the first check that fails.
pub open spec fn shape_error_message<'a, T>(outputs: PPDocLayoutV3RawOutputs<'a, T>) -> Seq<char> {
    let batch = outputs.logits_shape[0];
    if batch == 0 {
        "output batch size must be greater than zero"@
    } else if !dims_are(outputs.logits_shape, batch as int, NUM_QUERIES as int, PP_DOCLAYOUT_V3_CLASS_COUNT as int) {
        shape_mismatch_text(
            "logits"@,
            seq![batch, NUM_QUERIES, PP_DOCLAYOUT_V3_CLASS_COUNT],
            outputs.logits_shape,
        )
    } else if outputs.logits@.len() != batch * (NUM_QUERIES * PP_DOCLAYOUT_V3_CLASS_COUNT) {
        count_mismatch_text(
            (batch * (NUM_QUERIES * PP_DOCLAYOUT_V3_CLASS_COUNT)) as nat,
            " logits"@,
            outputs.logits@.len(),
        )
    } else if !dims_are(outputs.pred_boxes_shape, batch as int, NUM_QUERIES as int, 4) {
        shape_mismatch_text("pred_boxes"@, seq![batch, NUM_QUERIES, 4usize], outputs.pred_boxes_shape)
    } else if outputs.pred_boxes@.len() != batch * (NUM_QUERIES * 4) {
        count_mismatch_text(
            (batch * (NUM_QUERIES * 4)) as nat,
            " pred box values"@,
            outputs.pred_boxes@.len(),
        )
    } else {
        "expected order_logits "@ + list_text(seq![batch, NUM_QUERIES, NUM_QUERIES]) + ", got shape "@
            + optional_shape_text(outputs.order_logits_shape) + " and "@ + decimal_digits(
            order_value_count(outputs),
        ) + " values"@
    }
}

/// Writes `expected <shape>, got <shape>` for a tensor called `what`.
fn shape_mismatch(what: &str, expected: [usize; 3], actual: [usize; 3]) -> (message: String)
    ensures
        message@ == shape_mismatch_text(what@, expected@, actual),
{
    let mut message = String::from_str("expected ");
    message.append(what);
    message.append(" ");
    let expected_text = shape_string(expected);
    message.append(expected_text.as_str());
    message.append(", got ");
    let actual_text = shape_string(actual);
    message.append(actual_text.as_str());
    message
}

/// Writes `expected <count><what>, got <len>`.
fn count_mismatch(expected: u128, what: &str, actual: usize) -> (message: String)
    ensures
        message@ == count_mismatch_text(expected as nat, what@, actual as nat),
{
    let mut message = String::from_str("expected ");
    let expected_text = decimal_string(expected);
    message.append(expected_text.as_str());
    message.append(what);
    message.append(", got ");
    let actual_text = decimal_string(actual as u128);
    message.append(actual_text.as_str());
    message
}

/// Verifies that batched model output tensors match the checkpoint's fixed per-page shape.
pub fn validate_shapes<T>(outputs: &PPDocLayoutV3RawOutputs<'_, T>) -> (result: Result<(), LayoutError>)
    ensures
        result is Ok <==> has_checkpoint_shapes(*outputs),
        result is Ok <==> ({
            let b = outputs.logits_shape[0] as int;
            &&& b >= 1
            &&& outputs.logits_shape[1] == 300 && outputs.logits_shape[2] == 25
            &&& outputs.logits@.len() == b * 7500
            &&& outputs.pred_boxes_shape[0] == b && outputs.pred_boxes_shape[1] == 300
                && outputs.pred_boxes_shape[2] == 4
            &&& outputs.pred_boxes@.len() == b * 1200
            &&& match (outputs.order_logits_shape, outputs.order_logits) {
                (Some(shape), Some(values)) => shape[0] == b && shape[1] == 300 && shape[2] == 300
                    && values@.len() == b * 90000,
                (None, None) => true,
                _ => false,
            }
        }),
        result matches Err(error) ==> error.is_model_output_error(shape_error_message(*outputs)),
{
    proof {
        lemma_checkpoint_shapes_are_per_page_shapes(*outputs);
    }
    let class_count = PP_DOCLAYOUT_V3_CLASS_COUNT;
    let batch_size = outputs.batch_size();
    if batch_size == 0 {
        return Err(
            LayoutError::InvalidModelOutput(
                "output batch size must be greater than zero".to_string(),
            ),
        );
    }
    if outputs.logits_shape[0] != batch_size || outputs.logits_shape[1] != NUM_QUERIES
        || outputs.logits_shape[2] != class_count {
        let message = shape_mismatch(
            "logits",
            [batch_size, NUM_QUERIES, class_count],
            outputs.logits_shape,
        );
        proof {
            assert([batch_size, NUM_QUERIES, class_count]@ =~= seq![batch_size, NUM_QUERIES, PP_DOCLAYOUT_V3_CLASS_COUNT]);
        }
        return Err(LayoutError::InvalidModelOutput(message));
    }
    let expected_logits = (batch_size as u128) * ((NUM_QUERIES * class_count) as u128);
    if outputs.logits.len() as u128 != expected_logits {
        return Err(
            LayoutError::InvalidModelOutput(
                count_mismatch(expected_logits, " logits", outputs.logits.len()),
            ),
        );
    }
    if outputs.pred_boxes_shape[0] != batch_size || outputs.pred_boxes_shape[1] != NUM_QUERIES
        || outputs.pred_boxes_shape[2] != 4 {
        let message = shape_mismatch("pred_boxes", [batch_size, NUM_QUERIES, 4], outputs.pred_boxes_shape);
        proof {
            assert([batch_size, NUM_QUERIES, 4usize]@ =~= seq![batch_size, NUM_QUERIES, 4usize]);
        }
        return Err(LayoutError::InvalidModelOutput(message));
    }
    let expected_boxes = (batch_size as u128) * ((NUM_QUERIES * 4) as u128);
    if outputs.pred_boxes.len() as u128 != expected_boxes {
        return Err(
            LayoutError::InvalidModelOutput(
                count_mismatch(expected_boxes, " pred box values", outputs.pred_boxes.len()),
            ),
        );
    }
    assert(batch_size * 90000 <= 0xffff_ffff_ffff_ffff * 90000) by (nonlinear_arith)
        requires
            batch_size <= 0xffff_ffff_ffff_ffff,
    ;
    let expected_order = (batch_size as u128) * ((NUM_QUERIES * NUM_QUERIES) as u128);
    let value_count = match outputs.order_logits {
        Some(values) => {
            if let Some(shape) = outputs.order_logits_shape {
                if shape[0] == batch_size && shape[1] == NUM_QUERIES && shape[2] == NUM_QUERIES
                    && values.len() as u128 == expected_order {
                    return Ok(());
                }
            }
            values.len()
        },
        None => {
            if outputs.order_logits_shape.is_none() {
                return Ok(());
            }
            0
        },
    };
    let mut message = String::from_str("expected order_logits ");
    let expected_text = shape_string([batch_size, NUM_QUERIES, NUM_QUERIES]);
    message.append(expected_text.as_str());
    message.append(", got shape ");
    let shape_text = optional_shape_string(outputs.order_logits_shape);
    message.append(shape_text.as_str());
    message.append(" and ");
    let count_text = decimal_string(value_count as u128);
    message.append(count_text.as_str());
    message.append(" values");
    proof {
        assert([batch_size, NUM_QUERIES, NUM_QUERIES]@ =~= seq![batch_size, NUM_QUERIES, NUM_QUERIES]);
    }
    Err(LayoutError::InvalidModelOutput(message))
}

/// Outputs have the checkpoint's shapes exactly when, for a batch of `b >= 1`
/// pages, the logits are `[b, 300, 25]`, the boxes `[b, 300, 4]` and the order
/// logits, if there are any, `[b, 300, 300]`, each buffer holding `b` times
/// its per-page element count.
pub proof fn lemma_checkpoint_shapes_are_per_page_shapes<'a, T>(outputs: PPDocLayoutV3RawOutputs<'a, T>)
    ensures
        has_checkpoint_shapes(outputs) <==> ({
        let b = outputs.logits_shape[0] as int;
        &&& b >= 1
        &&& outputs.logits_shape[1] == 300 && outputs.logits_shape[2] == 25
        &&& outputs.logits@.len() == b * 7500
        &&& outputs.pred_boxes_shape[0] == b && outputs.pred_boxes_shape[1] == 300
            && outputs.pred_boxes_shape[2] == 4
        &&& outputs.pred_boxes@.len() == b * 1200
        &&& match (outputs.order_logits_shape, outputs.order_logits) {
            (Some(shape), Some(values)) => shape[0] == b && shape[1] == 300 && shape[2] == 300
                && values@.len() == b * 90000,
            (None, None) => true,
            _ => false,
        }
    }),
{
}

/// Outputs with the checkpoint's shapes hold every page of their batch.
pub proof fn lemma_checkpoint_shapes_hold_every_page<'a, T>(
    outputs: PPDocLayoutV3RawOutputs<'a, T>,
    index: int,
)
    requires
        has_checkpoint_shapes(outputs),
        0 <= index < outputs.logits_shape[0],
    ensures
        outputs.can_slice_page(index),
{
    let batch = outputs.logits_shape[0] as int;
    lemma_page_fits(index, batch, NUM_QUERIES as int, PP_DOCLAYOUT_V3_CLASS_COUNT as int);
    lemma_page_fits(index, batch, NUM_QUERIES as int, 4);
    lemma_page_fits(index, batch, NUM_QUERIES as int, NUM_QUERIES as int);
}

proof fn lemma_page_fits(index: int, batch: int, d1: int, d2: int)
    requires
        0 <= index < batch,
        d1 >= 0,
        d2 >= 0,
    ensures
        holds_page(batch * (d1 * d2), index, d1, d2),
{
    assert((index + 1) * (d1 * d2) <= batch * (d1 * d2)) by (nonlinear_arith)
        requires
            index + 1 <= batch,
            d1 * d2 >= 0,
    ;
    assert(d1 * d2 >= 0) by (nonlinear_arith)
        requires
            d1 >= 0,
            d2 >= 0,
    ;
}

/// Validates batched outputs against a page count and slices them into one
/// single-page view per page, in batch order.
///
/// Returns [`LayoutError::InvalidModelOutput`] when the outputs do not have the
/// checkpoint's shapes or when their batch size differs from `page_count`.
pub fn batch_pages<'a, T>(outputs: &PPDocLayoutV3RawOutputs<'a, T>, page_count: usize) -> (result:
    Result<Vec<PPDocLayoutV3RawOutputs<'a, T>>, LayoutError>)
    ensures
        result is Ok <==> has_checkpoint_shapes(*outputs) && outputs.logits_shape[0] == page_count,
        result is Ok <==> ({
            let b = outputs.logits_shape[0] as int;
            &&& b >= 1
            &&& outputs.logits_shape[1] == 300 && outputs.logits_shape[2] == 25
            &&& outputs.logits@.len() == b * 7500
            &&& outputs.pred_boxes_shape[0] == b && outputs.pred_boxes_shape[1] == 300
                && outputs.pred_boxes_shape[2] == 4
            &&& outputs.pred_boxes@.len() == b * 1200
            &&& match (outputs.order_logits_shape, outputs.order_logits) {
                (Some(shape), Some(values)) => shape[0] == b && shape[1] == 300 && shape[2] == 300
                    && values@.len() == b * 90000,
                (None, None) => true,
                _ => false,
            }
        }) && outputs.logits_shape[0] == page_count,
        result matches Ok(pages) ==> pages@.len() == page_count && forall|i: int|
            0 <= i < page_count ==> outputs.is_page_view(i, #[trigger] pages@[i]),
        result matches Err(error) ==> error.is_model_output_error(
            if has_checkpoint_shapes(*outputs) {
                "expected "@ + decimal_digits(outputs.logits_shape[0] as nat) + " page images for output batch "@
                    + decimal_digits(outputs.logits_shape[0] as nat) + ", got "@ + decimal_digits(
                    page_count as nat,
                )
            } else {
                shape_error_message(*outputs)
            },
        ),
{
    proof {
        lemma_checkpoint_shapes_are_per_page_shapes(*outputs);
    }
    validate_shapes(outputs)?;
    let batch_size = outputs.batch_size();
    if batch_size != page_count {
        let mut message = String::from_str("expected ");
        let batch_text = decimal_string(batch_size as u128);
        message.append(batch_text.as_str());
        message.append(" page images for output batch ");
        message.append(batch_text.as_str());
        message.append(", got ");
        let count_text = decimal_string(page_count as u128);
        message.append(count_text.as_str());
        return Err(LayoutError::InvalidModelOutput(message));
    }
    let mut pages: Vec<PPDocLayoutV3RawOutputs<'a, T>> = Vec::new();
    let mut index: usize = 0;
    while index < page_count
        invariant
            index <= page_count,
            has_checkpoint_shapes(*outputs),
            outputs.logits_shape[0] == page_count,
            pages@.len() == index,
            forall|i: int| 0 <= i < index ==> outputs.is_page_view(i, #[trigger] pages@[i]),
        decreases page_count - index,
    {
        proof {
            lemma_checkpoint_shapes_hold_every_page(*outputs, index as int);
        }
        let page = match outputs.page(index) {
            Ok(page) => page,
            Err(error) => return Err(error),
        };
        pages.push(page);
        index = index + 1;
    }
    Ok(pages)
}


/// A candidate detection picked by class score.
#[derive(Debug, Clone, Copy, PartialEq, Eq)]
pub struct Candidate {
    /// Position of the score in the page's `[queries, classes]` logits.
    pub index: usize,
    /// Query (candidate box) that the score belongs to.
    pub query: usize,
    /// Class that the score belongs to.
    pub label: PPDocLayoutV3Label,
}

/// Score positions of a list of candidates.
pub open spec fn candidate_indices(candidates: Seq<Candidate>) -> Seq<usize> {
    candidates.map_values(|c: Candidate| c.index)
}

/// Picks the `NUM_QUERIES` highest class scores of one page, given as `f32`
/// bit patterns in `[queries, classes]` order: highest first, equal scores in
/// logits order (a stable descending sort by `f32::total_cmp`, then `take`),
/// each with its query and label.
pub fn rank_candidates(score_bits: &[u32]) -> (candidates: Vec<Candidate>)
    requires
        score_bits@.len() == NUM_QUERIES * PP_DOCLAYOUT_V3_CLASS_COUNT,
    ensures
        is_stable_top(
            descending_value_keys(score_bits@),
            NUM_QUERIES as int,
            candidate_indices(candidates@),
        ),
        forall|j: int|
            0 <= j < candidates@.len() ==> {
                let c = #[trigger] candidates@[j];
                &&& c.query == c.index / PP_DOCLAYOUT_V3_CLASS_COUNT
                &&& label_for_class_id((c.index % PP_DOCLAYOUT_V3_CLASS_COUNT) as int) == Some(c.label)
            },
{
    let top = top_by_descending_value(score_bits, NUM_QUERIES);
    let mut candidates: Vec<Candidate> = Vec::new();
    let mut j: usize = 0;
    while j < top.len()
        invariant
            j <= top@.len(),
            top@.len() <= score_bits@.len(),
            forall|k: int| 0 <= k < top@.len() ==> #[trigger] top@[k] < score_bits@.len(),
            candidate_indices(candidates@) == top@.take(j as int),
            forall|k: int|
                0 <= k < candidates@.len() ==> {
                    let c = #[trigger] candidates@[k];
                    &&& c.query == c.index / PP_DOCLAYOUT_V3_CLASS_COUNT
                    &&& label_for_class_id((c.index % PP_DOCLAYOUT_V3_CLASS_COUNT) as int) == Some(
                        c.label,
                    )
                },
        decreases top@.len() - j,
    {
        let index = top[j];
        let candidate = Candidate {
            index,
            query: index / PP_DOCLAYOUT_V3_CLASS_COUNT,
            label: PPDocLayoutV3Label::from_known_class_id(index % PP_DOCLAYOUT_V3_CLASS_COUNT),
        };
        let ghost before = candidates@;
        candidates.push(candidate);
        assert(candidates@ == before.push(candidate));
        assert(candidate_indices(candidates@) =~= candidate_indices(before).push(index));
        assert(top@.take(j + 1) =~= top@.take(j as int).push(index));
        j = j + 1;
    }
    assert(top@.take(j as int) == top@);
    candidates
}

} // verus!
