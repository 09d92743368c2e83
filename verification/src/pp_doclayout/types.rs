use crate::error::LayoutError;
use crate::text::{decimal_digits, decimal_string, optional_shape_string, optional_shape_text};
use vstd::prelude::*;
use vstd::string::StringExecFns;

verus! {

broadcast use vstd::seq_lib::group_seq_properties;

/// Borrowed PP-DocLayoutV3 output tensors, each a row-major buffer with its shape.
///
/// `logits` is `[batch, queries, classes]`, `pred_boxes` is `[batch, queries, 4]`
/// and the optional `order_logits` is `[batch, queries, queries]`. The element
/// type is the tensor's scalar type.
#[derive(Debug, Clone, Copy)]
pub struct PPDocLayoutV3RawOutputs<'a, T> {
    pub logits_shape: [usize; 3],
    pub logits: &'a [T],
    pub pred_boxes_shape: [usize; 3],
    pub pred_boxes: &'a [T],
    pub order_logits_shape: Option<[usize; 3]>,
    pub order_logits: Option<&'a [T]>,
}

/// Owned PP-DocLayoutV3 output tensors; see [`PPDocLayoutV3RawOutputs`].
#[derive(Debug, Clone, PartialEq)]
pub struct PPDocLayoutV3OwnedOutputs<T> {
    pub logits_shape: [usize; 3],
    pub logits: Vec<T>,
    pub pred_boxes_shape: [usize; 3],
    pub pred_boxes: Vec<T>,
    pub order_logits_shape: Option<[usize; 3]>,
    pub order_logits: Option<Vec<T>>,
}

/// Two shapes with the same three dimensions.
pub open spec fn same_dims(a: [usize; 3], b: [usize; 3]) -> bool {
    a[0] == b[0] && a[1] == b[1] && a[2] == b[2]
}

/// Two optional shapes that are both absent or both present with the same dimensions.
pub open spec fn same_optional_dims(a: Option<[usize; 3]>, b: Option<[usize; 3]>) -> bool {
    match (a, b) {
        (Some(x), Some(y)) => same_dims(x, y),
        (None, None) => true,
        _ => false,
    }
}

/// The shape `[d0, d1, d2]`.
pub open spec fn dims_are(a: [usize; 3], d0: int, d1: int, d2: int) -> bool {
    a[0] == d0 && a[1] == d1 && a[2] == d2
}

/// Whether a buffer of `len` elements holds page `index` of pages of `d1 * d2` elements.
pub open spec fn holds_page(len: int, index: int, d1: int, d2: int) -> bool {
    (index + 1) * (d1 * d2) <= len
}

/// Elements of page `index` in a buffer of pages of `d1 * d2` elements.
pub open spec fn page_of<T>(values: Seq<T>, index: int, d1: int, d2: int) -> Seq<T> {
    values.subrange(index * (d1 * d2), (index + 1) * (d1 * d2))
}

/// Half-open element range of page `index`, or `None` when `len` elements cannot hold it.
fn page_range(index: usize, d1: usize, d2: usize, len: usize) -> (range: Option<(usize, usize)>)
    ensures
        range is Some <==> holds_page(len as int, index as int, d1 as int, d2 as int),
        range matches Some((start, end)) ==> start == index * (d1 * d2) && end == (index + 1) * (
        d1 * d2) && start <= end <= len,
{
    proof {
        lemma_page_bounds(index as int, d1 as int, d2 as int);
    }
    let page_len = match d1.checked_mul(d2) {
        Some(value) => value,
        None => return None,
    };
    let start = match index.checked_mul(page_len) {
        Some(value) => value,
        None => return None,
    };
    let end = match start.checked_add(page_len) {
        Some(value) => value,
        None => return None,
    };
    proof {
        assert((index + 1) * (d1 * d2) == index * (d1 * d2) + d1 * d2) by (nonlinear_arith);
    }
    if end <= len {
        Some((start, end))
    } else {
        None
    }
}

proof fn lemma_page_bounds(index: int, d1: int, d2: int)
    requires
        index >= 0,
        d1 >= 0,
        d2 >= 0,
    ensures
        d1 * d2 >= 0,
        index * (d1 * d2) >= 0,
        (index + 1) * (d1 * d2) == index * (d1 * d2) + d1 * d2,
        (index + 1) * (d1 * d2) >= d1 * d2,
        (index + 1) * (d1 * d2) >= index * (d1 * d2),
{
    assert(d1 * d2 >= 0) by (nonlinear_arith)
        requires
            d1 >= 0,
            d2 >= 0,
    ;
    assert(index * (d1 * d2) >= 0) by (nonlinear_arith)
        requires
            index >= 0,
            d1 * d2 >= 0,
    ;
    assert((index + 1) * (d1 * d2) == index * (d1 * d2) + d1 * d2) by (nonlinear_arith);
}

impl<'a, T> PPDocLayoutV3RawOutputs<'a, T> {
    /// Whether page `index` can be sliced out of these outputs.
    pub open spec fn can_slice_page(self, index: int) -> bool {
        &&& 0 <= index < self.logits_shape[0]
        &&& holds_page(
            self.logits@.len() as int,
            index,
            self.logits_shape[1] as int,
            self.logits_shape[2] as int,
        )
        &&& holds_page(
            self.pred_boxes@.len() as int,
            index,
            self.pred_boxes_shape[1] as int,
            self.pred_boxes_shape[2] as int,
        )
        &&& match (self.order_logits_shape, self.order_logits) {
            (Some(shape), Some(values)) => holds_page(
                values@.len() as int,
                index,
                shape[1] as int,
                shape[2] as int,
            ),
            (None, None) => true,
            _ => false,
        }
    }

    /// The message with which page `index` is refused when it cannot be sliced.
    pub open spec fn page_error_message(self, index: int) -> Seq<char> {
        if !(0 <= index < self.logits_shape[0]) {
            "batch index "@ + decimal_digits(index as nat) + " is outside output batch "@
                + decimal_digits(self.logits_shape[0] as nat)
        } else if !holds_page(
            self.logits@.len() as int,
            index,
            self.logits_shape[1] as int,
            self.logits_shape[2] as int,
        ) {
            "logits buffer cannot provide batch index "@ + decimal_digits(index as nat)
        } else if !holds_page(
            self.pred_boxes@.len() as int,
            index,
            self.pred_boxes_shape[1] as int,
            self.pred_boxes_shape[2] as int,
        ) {
            "pred box buffer cannot provide batch index "@ + decimal_digits(index as nat)
        } else if self.order_logits_shape is Some && self.order_logits is Some {
            "order logits buffer cannot provide batch index "@ + decimal_digits(index as nat)
        } else {
            "expected matching order logits shape and values, got shape "@ + optional_shape_text(
                self.order_logits_shape,
            ) + " and "@ + decimal_digits(
                match self.order_logits {
                    Some(values) => values@.len(),
                    None => 0,
                },
            ) + " values"@
        }
    }

    /// Whether `page` is the single-page view of page `index` of these outputs.
    pub open spec fn is_page_view(self, index: int, page: Self) -> bool {
        &&& dims_are(
            page.logits_shape,
            1,
            self.logits_shape[1] as int,
            self.logits_shape[2] as int,
        )
        &&& page.logits@ == page_of(
            self.logits@,
            index,
            self.logits_shape[1] as int,
            self.logits_shape[2] as int,
        )
        &&& dims_are(
            page.pred_boxes_shape,
            1,
            self.pred_boxes_shape[1] as int,
            self.pred_boxes_shape[2] as int,
        )
        &&& page.pred_boxes@ == page_of(
            self.pred_boxes@,
            index,
            self.pred_boxes_shape[1] as int,
            self.pred_boxes_shape[2] as int,
        )
        &&& match (self.order_logits_shape, self.order_logits) {
            (Some(shape), Some(values)) => {
                &&& page.order_logits_shape matches Some(page_shape)
                &&& dims_are(page_shape, 1, shape[1] as int, shape[2] as int)
                &&& page.order_logits matches Some(page_values)
                &&& page_values@ == page_of(values@, index, shape[1] as int, shape[2] as int)
            },
            _ => page.order_logits_shape is None && page.order_logits is None,
        }
    }

    /// Returns the batch dimension shared by all output tensors.
    pub fn batch_size(&self) -> (size: usize)
        ensures
            size == self.logits_shape[0],
    {
        self.logits_shape[0]
    }

    /// Returns a borrowed single-page view for one batch index.
    ///
    /// Returns [`LayoutError::InvalidModelOutput`] when the requested page is
    /// outside the output batch, when a tensor buffer cannot contain the
    /// advertised batch shape, or when order logits come without their shape
    /// or the other way round.
    pub fn page(&self, batch_index: usize) -> (result: Result<Self, LayoutError>)
        ensures
            result is Ok <==> self.can_slice_page(batch_index as int),
            result matches Ok(page) ==> self.is_page_view(batch_index as int, page),
            result matches Err(error) ==> error.is_model_output_error(
                self.page_error_message(batch_index as int),
            ),
    {
        if batch_index >= self.batch_size() {
            let mut message = String::from_str("batch index ");
            let index_text = decimal_string(batch_index as u128);
            message.append(index_text.as_str());
            message.append(" is outside output batch ");
            let batch_text = decimal_string(self.batch_size() as u128);
            message.append(batch_text.as_str());
            return Err(LayoutError::InvalidModelOutput(message));
        }
        let class_count = self.logits_shape[2];
        let logits = match page_range(batch_index, self.logits_shape[1], class_count, self.logits.len()) {
            Some((start, end)) => &self.logits[start..end],
            None => {
                return Err(
                    LayoutError::InvalidModelOutput(
                        index_message("logits buffer cannot provide batch index ", batch_index),
                    ),
                );
            },
        };
        let pred_boxes = match page_range(
            batch_index,
            self.pred_boxes_shape[1],
            self.pred_boxes_shape[2],
            self.pred_boxes.len(),
        ) {
            Some((start, end)) => &self.pred_boxes[start..end],
            None => {
                return Err(
                    LayoutError::InvalidModelOutput(
                        index_message("pred box buffer cannot provide batch index ", batch_index),
                    ),
                );
            },
        };
        let (order_logits_shape, order_logits) = match (self.order_logits_shape, self.order_logits) {
            (Some(shape), Some(values)) => {
                match page_range(batch_index, shape[1], shape[2], values.len()) {
                    Some((start, end)) => (Some([1, shape[1], shape[2]]), Some(&values[start..end])),
                    None => {
                        return Err(
                            LayoutError::InvalidModelOutput(
                                index_message(
                                    "order logits buffer cannot provide batch index ",
                                    batch_index,
                                ),
                            ),
                        );
                    },
                }
            },
            (None, None) => (None, None),
            _ => {
                let count: usize = match self.order_logits {
                    Some(values) => values.len(),
                    None => 0,
                };
                let mut message = String::from_str(
                    "expected matching order logits shape and values, got shape ",
                );
                let shape_text = optional_shape_string(self.order_logits_shape);
                message.append(shape_text.as_str());
                message.append(" and ");
                let count_text = decimal_string(count as u128);
                message.append(count_text.as_str());
                message.append(" values");
                return Err(LayoutError::InvalidModelOutput(message));
            },
        };
        Ok(Self {
            logits_shape: [1, self.logits_shape[1], class_count],
            logits,
            pred_boxes_shape: [1, self.pred_boxes_shape[1], self.pred_boxes_shape[2]],
            pred_boxes,
            order_logits_shape,
            order_logits,
        })
    }
}


/// Logits buffers of a list of page outputs, in list order.
pub open spec fn logits_of<T>(pages: Seq<PPDocLayoutV3OwnedOutputs<T>>) -> Seq<Seq<T>> {
    pages.map_values(|page: PPDocLayoutV3OwnedOutputs<T>| page.logits@)
}

/// Box buffers of a list of page outputs, in list order.
pub open spec fn pred_boxes_of<T>(pages: Seq<PPDocLayoutV3OwnedOutputs<T>>) -> Seq<Seq<T>> {
    pages.map_values(|page: PPDocLayoutV3OwnedOutputs<T>| page.pred_boxes@)
}

/// Order-logit buffers of a list of page outputs, in list order (empty where absent).
pub open spec fn order_logits_of<T>(pages: Seq<PPDocLayoutV3OwnedOutputs<T>>) -> Seq<Seq<T>> {
    pages.map_values(
        |page: PPDocLayoutV3OwnedOutputs<T>|
            match page.order_logits {
                Some(values) => values@,
                None => Seq::empty(),
            },
    )
}

impl<T> PPDocLayoutV3OwnedOutputs<T> {
    /// Whether `page` has a single-page shape that matches the shapes of `first`.
    pub open spec fn shapes_batch_with(first: Self, page: Self) -> bool {
        &&& page.logits_shape[0] == 1
        &&& page.pred_boxes_shape[0] == 1
        &&& page.logits_shape[1] == first.logits_shape[1]
        &&& page.logits_shape[2] == first.logits_shape[2]
        &&& page.pred_boxes_shape[1] == first.pred_boxes_shape[1]
        &&& page.pred_boxes_shape[2] == first.pred_boxes_shape[2]
        &&& same_optional_dims(page.order_logits_shape, first.order_logits_shape)
    }

    /// Whether `page` is a single-page output that can be batched after `first`.
    pub open spec fn batches_with(first: Self, page: Self) -> bool {
        &&& Self::shapes_batch_with(first, page)
        &&& first.order_logits_shape is Some ==> page.order_logits is Some
    }

    /// Index of the first page that cannot be batched after the first page.
    pub open spec fn first_unbatchable(pages: Seq<Self>) -> int {
        choose|i: int|
            0 <= i < pages.len() && !Self::batches_with(pages[0], pages[i]) && forall|j: int|
                0 <= j < i ==> Self::batches_with(pages[0], #[trigger] pages[j])
    }

    /// The message with which pages that cannot be batched are refused.
    pub open spec fn batch_error_message(pages: Seq<Self>) -> Seq<char> {
        if pages.len() == 0 {
            "cannot build batched outputs from zero pages"@
        } else if !Self::shapes_batch_with(pages[0], pages[Self::first_unbatchable(pages)]) {
            "single-page outputs have incompatible shapes"@
        } else {
            "missing order logits for one batched page"@
        }
    }

    /// A page that is the first one that cannot be batched is the page that
    /// [`Self::first_unbatchable`] names, and the pages cannot be batched.
    proof fn lemma_first_unbatchable(pages: Seq<Self>, i: int)
        requires
            0 <= i < pages.len(),
            !Self::batches_with(pages[0], pages[i]),
            forall|j: int| 0 <= j < i ==> Self::batches_with(pages[0], #[trigger] pages[j]),
        ensures
            Self::first_unbatchable(pages) == i,
            !Self::can_batch(pages),
    {
        let first = Self::first_unbatchable(pages);
        if first < i {
            assert(Self::batches_with(pages[0], pages[first]));
        } else if first > i {
            assert(!Self::batches_with(pages[0], pages[i]));
        }
    }

    /// Whether a non-empty list of single-page outputs can be concatenated into one batch.
    pub open spec fn can_batch(pages: Seq<Self>) -> bool {
        &&& pages.len() > 0
        &&& forall|i: int| 0 <= i < pages.len() ==> Self::batches_with(pages[0], #[trigger] pages[i])
    }

    /// Whether `batched` is the concatenation of `pages` along the batch dimension.
    pub open spec fn is_batch_of(batched: Self, pages: Seq<Self>) -> bool {
        let first = pages[0];
        &&& dims_are(
            batched.logits_shape,
            pages.len() as int,
            first.logits_shape[1] as int,
            first.logits_shape[2] as int,
        )
        &&& batched.logits@ == logits_of(pages).flatten()
        &&& dims_are(
            batched.pred_boxes_shape,
            pages.len() as int,
            first.pred_boxes_shape[1] as int,
            first.pred_boxes_shape[2] as int,
        )
        &&& batched.pred_boxes@ == pred_boxes_of(pages).flatten()
        &&& match first.order_logits_shape {
            Some(shape) => {
                &&& batched.order_logits_shape matches Some(batched_shape)
                &&& dims_are(batched_shape, pages.len() as int, shape[1] as int, shape[2] as int)
                &&& batched.order_logits matches Some(values)
                &&& values@ == order_logits_of(pages).flatten()
            },
            None => batched.order_logits_shape is None && batched.order_logits is None,
        }
    }

    /// Borrows owned model outputs as raw slices for postprocessing.
    pub fn as_raw_outputs(&self) -> (raw: PPDocLayoutV3RawOutputs<'_, T>)
        ensures
            raw.logits_shape == self.logits_shape,
            raw.logits@ == self.logits@,
            raw.pred_boxes_shape == self.pred_boxes_shape,
            raw.pred_boxes@ == self.pred_boxes@,
            raw.order_logits_shape == self.order_logits_shape,
            raw.order_logits is Some <==> self.order_logits is Some,
            raw.order_logits matches Some(values) ==> values@ == self.order_logits->0@,
    {
        let order_logits = match &self.order_logits {
            Some(values) => Some(values.as_slice()),
            None => None,
        };
        PPDocLayoutV3RawOutputs {
            logits_shape: self.logits_shape,
            logits: self.logits.as_slice(),
            pred_boxes_shape: self.pred_boxes_shape,
            pred_boxes: self.pred_boxes.as_slice(),
            order_logits_shape: self.order_logits_shape,
            order_logits,
        }
    }

    /// Concatenates single-page outputs into one batched output object.
    ///
    /// Returns [`LayoutError::InvalidModelOutput`] when no pages are provided
    /// or when any page output does not use the expected single-page shape.
    pub fn from_single_page_outputs(pages: Vec<Self>) -> (result: Result<Self, LayoutError>)
        ensures
            result is Ok <==> Self::can_batch(pages@),
            result matches Ok(batched) ==> Self::is_batch_of(batched, pages@),
            result matches Err(error) ==> error.is_model_output_error(Self::batch_error_message(pages@)),
    {
        let batch_size = pages.len();
        if batch_size == 0 {
            return Err(
                LayoutError::InvalidModelOutput(
                    "cannot build batched outputs from zero pages".to_string(),
                ),
            );
        }
        let ghost all = pages@;
        let ghost first = pages@[0];
        let logits_shape = pages[0].logits_shape;
        let pred_boxes_shape = pages[0].pred_boxes_shape;
        let order_logits_shape = pages[0].order_logits_shape;
        let has_order = order_logits_shape.is_some();
        let mut logits: Vec<T> = Vec::new();
        let mut pred_boxes: Vec<T> = Vec::new();
        let mut order_values: Vec<T> = Vec::new();
        let mut rest = pages;
        let mut done: usize = 0;
        #[verifier::loop_isolation(false)]
        while rest.len() > 0
            invariant
                all.len() == batch_size,
                batch_size > 0,
                first == all[0],
                logits_shape == first.logits_shape,
                pred_boxes_shape == first.pred_boxes_shape,
                order_logits_shape == first.order_logits_shape,
                has_order == first.order_logits_shape is Some,
                done <= batch_size,
                rest@ == all.subrange(done as int, batch_size as int),
                forall|i: int| 0 <= i < done ==> Self::batches_with(first, #[trigger] all[i]),
                logits@ == logits_of(all.subrange(0, done as int)).flatten(),
                pred_boxes@ == pred_boxes_of(all.subrange(0, done as int)).flatten(),
                has_order ==> order_values@ == order_logits_of(all.subrange(0, done as int)).flatten(),
            decreases rest.len(),
        {
            let page = rest.remove(0);
            assert(page == all[done as int]);
            if page.logits_shape[0] != 1 || page.pred_boxes_shape[0] != 1
                || page.logits_shape[1] != logits_shape[1] || page.logits_shape[2] != logits_shape[2]
                || page.pred_boxes_shape[1] != pred_boxes_shape[1]
                || page.pred_boxes_shape[2] != pred_boxes_shape[2] || !same_optional_shape(
                page.order_logits_shape,
                order_logits_shape,
            ) {
                proof {
                    Self::lemma_first_unbatchable(all, done as int);
                }
                return Err(
                    LayoutError::InvalidModelOutput(
                        "single-page outputs have incompatible shapes".to_string(),
                    ),
                );
            }
            let PPDocLayoutV3OwnedOutputs {
                logits: mut page_logits,
                pred_boxes: mut page_boxes,
                order_logits: page_order,
                ..
            } = page;
            if has_order {
                match page_order {
                    Some(mut values) => {
                        order_values.append(&mut values);
                    },
                    None => {
                        proof {
                            Self::lemma_first_unbatchable(all, done as int);
                        }
                        return Err(
                            LayoutError::InvalidModelOutput(
                                "missing order logits for one batched page".to_string(),
                            ),
                        );
                    },
                }
            }
            logits.append(&mut page_logits);
            pred_boxes.append(&mut page_boxes);
            proof {
                let prefix = all.subrange(0, done as int);
                let next = all.subrange(0, done + 1);
                assert(next == prefix.push(all[done as int]));
                assert(order_logits_of(next).len() == done + 1);
                assert(logits_of(next) == logits_of(prefix).push(all[done as int].logits@));
                assert(pred_boxes_of(next) == pred_boxes_of(prefix).push(all[done as int].pred_boxes@));
                assert(order_logits_of(next) == order_logits_of(prefix).push(
                    order_logits_of(next)[done as int],
                ));
                logits_of(prefix).lemma_flatten_push(all[done as int].logits@);
                pred_boxes_of(prefix).lemma_flatten_push(all[done as int].pred_boxes@);
                order_logits_of(prefix).lemma_flatten_push(order_logits_of(next)[done as int]);
            }
            done = done + 1;
        }
        assert(all.subrange(0, batch_size as int) == all);
        let order_logits = if has_order {
            Some(order_values)
        } else {
            None
        };
        let batched_order_shape = match order_logits_shape {
            Some(shape) => Some([batch_size, shape[1], shape[2]]),
            None => None,
        };
        Ok(Self {
            logits_shape: [batch_size, logits_shape[1], logits_shape[2]],
            logits,
            pred_boxes_shape: [batch_size, pred_boxes_shape[1], pred_boxes_shape[2]],
            pred_boxes,
            order_logits_shape: batched_order_shape,
            order_logits,
        })
    }
}

/// Concatenating sequences that all have length `k` puts sequence `i` at
/// elements `i * k .. (i + 1) * k` of the result.
pub proof fn lemma_flatten_uniform<A>(parts: Seq<Seq<A>>, k: int, i: int)
    requires
        k >= 0,
        0 <= i < parts.len(),
        forall|j: int| 0 <= j < parts.len() ==> (#[trigger] parts[j]).len() == k,
    ensures
        parts.flatten().len() == parts.len() * k,
        (i + 1) * k <= parts.flatten().len(),
        parts.flatten().subrange(i * k, (i + 1) * k) == parts[i],
    decreases parts.len(),
{
    let rest = parts.drop_first();
    assert(parts.flatten() == parts[0] + rest.flatten());
    if rest.len() == 0 {
        assert(rest.flatten() == Seq::<A>::empty());
        assert(i == 0);
        assert(parts.flatten() == parts[0]);
        assert(parts.flatten().subrange(0, k) == parts[0]);
    } else {
        if i == 0 {
            lemma_flatten_uniform(rest, k, 0);
            assert(parts.flatten().subrange(0, k) == parts[0]);
        } else {
            lemma_flatten_uniform(rest, k, i - 1);
            assert(rest[i - 1] == parts[i]);
            assert(i * k == k + (i - 1) * k) by (nonlinear_arith);
            assert((i + 1) * k == k + i * k) by (nonlinear_arith);
            assert(parts.flatten().subrange(i * k, (i + 1) * k) == rest.flatten().subrange(
                (i - 1) * k,
                i * k,
            ));
        }
        assert(parts.len() * k == k + rest.len() * k) by (nonlinear_arith)
            requires
                rest.len() == parts.len() - 1,
        ;
        assert((i + 1) * k <= parts.len() * k) by (nonlinear_arith)
            requires
                i + 1 <= parts.len(),
                k >= 0,
        ;
    }
}

impl<T> PPDocLayoutV3OwnedOutputs<T> {
    /// Whether each buffer of a single-page output holds exactly what its shape advertises.
    pub open spec fn buffers_match_shapes(self) -> bool {
        &&& self.logits@.len() == self.logits_shape[1] * self.logits_shape[2]
        &&& self.pred_boxes@.len() == self.pred_boxes_shape[1] * self.pred_boxes_shape[2]
        &&& match (self.order_logits_shape, self.order_logits) {
            (Some(shape), Some(values)) => values@.len() == shape[1] * shape[2],
            _ => true,
        }
    }
}

/// Slicing page `i` out of a batch concatenated from single-page outputs gives
/// back the buffers of page `i`, whenever every page's buffers hold exactly
/// what their shapes advertise.
pub proof fn lemma_page_of_batch_is_source_page<'a, T>(
    pages: Seq<PPDocLayoutV3OwnedOutputs<T>>,
    batched: PPDocLayoutV3OwnedOutputs<T>,
    raw: PPDocLayoutV3RawOutputs<'a, T>,
    i: int,
)
    requires
        PPDocLayoutV3OwnedOutputs::can_batch(pages),
        PPDocLayoutV3OwnedOutputs::is_batch_of(batched, pages),
        forall|j: int| 0 <= j < pages.len() ==> (#[trigger] pages[j]).buffers_match_shapes(),
        raw.logits_shape == batched.logits_shape,
        raw.logits@ == batched.logits@,
        raw.pred_boxes_shape == batched.pred_boxes_shape,
        raw.pred_boxes@ == batched.pred_boxes@,
        raw.order_logits_shape == batched.order_logits_shape,
        raw.order_logits is Some <==> batched.order_logits is Some,
        raw.order_logits matches Some(values) ==> values@ == batched.order_logits->0@,
        0 <= i < pages.len(),
    ensures
        raw.can_slice_page(i),
        forall|view: PPDocLayoutV3RawOutputs<'a, T>| #[trigger]
            raw.is_page_view(i, view) ==> {
                &&& view.logits@ == pages[i].logits@
                &&& view.pred_boxes@ == pages[i].pred_boxes@
                &&& view.order_logits matches Some(values) ==> values@ == pages[i].order_logits->0@
            },
{
    let first = pages[0];
    let l = first.logits_shape[1] * first.logits_shape[2];
    let p = first.pred_boxes_shape[1] * first.pred_boxes_shape[2];
    lemma_product_nonnegative(first.logits_shape[1] as int, first.logits_shape[2] as int);
    lemma_product_nonnegative(first.pred_boxes_shape[1] as int, first.pred_boxes_shape[2] as int);
    assert forall|j: int| 0 <= j < pages.len() implies (#[trigger] logits_of(pages)[j]).len() == l by {
        assert(PPDocLayoutV3OwnedOutputs::batches_with(first, pages[j]));
        assert(pages[j].buffers_match_shapes());
    }
    assert forall|j: int| 0 <= j < pages.len() implies (#[trigger] pred_boxes_of(pages)[j]).len()
        == p by {
        assert(PPDocLayoutV3OwnedOutputs::batches_with(first, pages[j]));
        assert(pages[j].buffers_match_shapes());
    }
    lemma_flatten_uniform(logits_of(pages), l, i);
    lemma_flatten_uniform(pred_boxes_of(pages), p, i);
    match first.order_logits_shape {
        Some(shape) => {
            let o = shape[1] * shape[2];
            lemma_product_nonnegative(shape[1] as int, shape[2] as int);
            assert forall|j: int| 0 <= j < pages.len() implies (
            #[trigger] order_logits_of(pages)[j]).len() == o by {
                assert(PPDocLayoutV3OwnedOutputs::batches_with(first, pages[j]));
                assert(pages[j].buffers_match_shapes());
            }
            lemma_flatten_uniform(order_logits_of(pages), o, i);
            assert(PPDocLayoutV3OwnedOutputs::batches_with(first, pages[i]));
        },
        None => {},
    }
}

proof fn lemma_product_nonnegative(a: int, b: int)
    requires
        a >= 0,
        b >= 0,
    ensures
        a * b >= 0,
{
    assert(a * b >= 0) by (nonlinear_arith)
        requires
            a >= 0,
            b >= 0,
    ;
}

/// `prefix` followed by `index` in decimal.
fn index_message(prefix: &str, index: usize) -> (message: String)
    ensures
        message@ == prefix@ + decimal_digits(index as nat),
{
    let mut message = String::from_str(prefix);
    let index_text = decimal_string(index as u128);
    message.append(index_text.as_str());
    message
}

/// Whether two optional shapes are equal.
fn same_optional_shape(a: Option<[usize; 3]>, b: Option<[usize; 3]>) -> (same: bool)
    ensures
        same == same_optional_dims(a, b),
{
    match (a, b) {
        (Some(x), Some(y)) => x[0] == y[0] && x[1] == y[1] && x[2] == y[2],
        (None, None) => true,
        _ => false,
    }
}

} // verus!
