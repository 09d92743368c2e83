use doclayout_detector::pp_doclayout::detector::{
    check_batch_input, check_detector_inputs, check_page_input,
};
use doclayout_detector::pp_doclayout::labels::PP_DOCLAYOUT_V3_CLASS_COUNT;
use doclayout_detector::pp_doclayout::model::{host_topk_indices, order_logits_mask};
use doclayout_detector::pp_doclayout::postprocess::{
    batch_pages, rank_candidates, validate_shapes, NUM_QUERIES,
};
use doclayout_detector::pp_doclayout::types::{PPDocLayoutV3OwnedOutputs, PPDocLayoutV3RawOutputs};
use doclayout_detector::pp_doclayout::{
    PPDocLayoutV3Config, PPDocLayoutV3Label, PPDocLayoutV3LabelError, PP_DOCLAYOUT_V3_IMAGE_SIZE,
    PP_DOCLAYOUT_V3_LABELS,
};
use doclayout_detector::{LayoutError, PageImage};

#[test]
fn pp_doclayout_label_converts_from_class_id() {
    assert_eq!(
        PPDocLayoutV3Label::try_from(0),
        Ok(PPDocLayoutV3Label::Abstract)
    );
    assert_eq!(
        PPDocLayoutV3Label::try_from(21),
        Ok(PPDocLayoutV3Label::Table)
    );
    assert_eq!(
        PPDocLayoutV3Label::try_from(24),
        Ok(PPDocLayoutV3Label::VisionFootnote)
    );
    assert!(PPDocLayoutV3Label::try_from(25).is_err());
}

#[test]
fn pp_doclayout_label_serializes_to_official_snake_case() {
    // Labels serialize as their names.
    assert_eq!(
        serde_json::to_string(PPDocLayoutV3Label::DocTitle.as_str()).unwrap(),
        "\"doc_title\""
    );
    assert_eq!(
        serde_json::to_string(PPDocLayoutV3Label::AsideText.as_str()).unwrap(),
        "\"aside_text\""
    );
    assert_eq!(
        serde_json::to_string(PPDocLayoutV3Label::VisionFootnote.as_str()).unwrap(),
        "\"vision_footnote\""
    );
}

#[test]
fn pp_doclayout_uses_official_input_size() {
    assert_eq!(PP_DOCLAYOUT_V3_IMAGE_SIZE, 800);
}

#[test]
fn pp_doclayout_config_matches_huggingface_model_card_contract() {
    let config = PPDocLayoutV3Config::default();

    assert_eq!(config.image_size, 800);
    assert_eq!(config.num_queries, 300);
    assert_eq!(config.num_classes, 25);
    assert_eq!(config.d_model, 256);
    assert_eq!(config.decoder_layers, 6);
    assert_eq!(config.decoder_attention_heads, 8);
    assert_eq!(config.encoder_in_channels, [512, 1024, 2048]);
    assert_eq!(config.feature_strides, [8, 16, 32]);
}

#[test]
fn label_class_ids_round_trip_through_names() {
    assert_eq!(PPDocLayoutV3Label::class_count(), 25);
    for id in 0..PPDocLayoutV3Label::class_count() {
        let label = PPDocLayoutV3Label::from_class_id(id).unwrap();
        assert_eq!(label.class_id(), id);
        assert_eq!(label.as_str(), PP_DOCLAYOUT_V3_LABELS[id]);
        assert_eq!(PPDocLayoutV3Label::from_known_class_id(id), label);
    }
    assert_eq!(
        PPDocLayoutV3Label::from_class_id(99),
        Err(PPDocLayoutV3LabelError { class_id: 99 })
    );
    assert_eq!(PPDocLayoutV3Label::Text.class_id(), 22);
    assert_eq!(PPDocLayoutV3Label::Table.debug_color_rgba(), [0x00, 0x96, 0x88, 255]);
}

fn bits(values: &[f32]) -> Vec<u32> {
    values.iter().map(|value| value.to_bits()).collect()
}

#[test]
fn host_topk_indices_selects_highest_proposal_scores() {
    let scores = bits(&[0.1, 0.7, -2.0, 1.3, 0.5]);

    let values = host_topk_indices(&scores, [1, 5, 1], 3);

    assert_eq!(values, vec![3, 1, 4]);
}

#[test]
fn host_topk_indices_ranks_each_row_and_keeps_ties_in_order() {
    let scores = bits(&[0.5, 0.5, 0.1, -0.0, 0.0, 0.2]);

    let values = host_topk_indices(&scores, [2, 3, 1], 2);

    assert_eq!(values, vec![0, 1, 2, 1]);
}

#[test]
fn order_logits_mask_sets_lower_triangle_and_diagonal_to_negative_sentinel() {
    let logits = vec![1.0f32; 9];
    let mask = order_logits_mask(3);
    let values = logits
        .iter()
        .zip(&mask)
        .map(|(value, masked)| if *masked { -1.0e4 } else { *value })
        .collect::<Vec<_>>();

    assert_eq!(values[0], -1.0e4);
    assert_eq!(values[1], 1.0);
    assert_eq!(values[2], 1.0);
    assert_eq!(values[3], -1.0e4);
    assert_eq!(values[4], -1.0e4);
    assert_eq!(values[5], 1.0);
    assert_eq!(values[6], -1.0e4);
    assert_eq!(values[7], -1.0e4);
    assert_eq!(values[8], -1.0e4);
}

fn small_page(base: u8, with_order: bool) -> PPDocLayoutV3OwnedOutputs<u8> {
    PPDocLayoutV3OwnedOutputs {
        logits_shape: [1, 2, 3],
        logits: (0..6).map(|i| base + i).collect(),
        pred_boxes_shape: [1, 2, 4],
        pred_boxes: (0..8).map(|i| base + 10 + i).collect(),
        order_logits_shape: if with_order { Some([1, 2, 2]) } else { None },
        order_logits: if with_order { Some((0..4).map(|i| base + 30 + i).collect()) } else { None },
    }
}

#[test]
fn batched_outputs_give_back_each_single_page() {
    let pages = vec![small_page(0, true), small_page(100, true)];
    let batched = PPDocLayoutV3OwnedOutputs::from_single_page_outputs(pages.clone()).unwrap();

    assert_eq!(batched.logits_shape, [2, 2, 3]);
    assert_eq!(batched.pred_boxes_shape, [2, 2, 4]);
    assert_eq!(batched.order_logits_shape, Some([2, 2, 2]));
    let raw = batched.as_raw_outputs();
    assert_eq!(raw.batch_size(), 2);
    for (index, page) in pages.iter().enumerate() {
        let view = raw.page(index).unwrap();
        assert_eq!(view.logits_shape, page.logits_shape);
        assert_eq!(view.logits, page.logits.as_slice());
        assert_eq!(view.pred_boxes_shape, page.pred_boxes_shape);
        assert_eq!(view.pred_boxes, page.pred_boxes.as_slice());
        assert_eq!(view.order_logits_shape, page.order_logits_shape);
        assert_eq!(view.order_logits, page.order_logits.as_deref());
    }
    assert!(matches!(raw.page(2), Err(LayoutError::InvalidModelOutput(_))));
}

#[test]
fn batching_refuses_empty_or_mismatched_pages() {
    assert!(matches!(
        PPDocLayoutV3OwnedOutputs::<u8>::from_single_page_outputs(vec![]),
        Err(LayoutError::InvalidModelOutput(_))
    ));
    assert!(matches!(
        PPDocLayoutV3OwnedOutputs::from_single_page_outputs(vec![small_page(0, true), small_page(1, false)]),
        Err(LayoutError::InvalidModelOutput(_))
    ));
    let mut wide = small_page(0, false);
    wide.logits_shape = [1, 3, 2];
    assert!(matches!(
        PPDocLayoutV3OwnedOutputs::from_single_page_outputs(vec![small_page(0, false), wide]),
        Err(LayoutError::InvalidModelOutput(_))
    ));
    let batched =
        PPDocLayoutV3OwnedOutputs::from_single_page_outputs(vec![small_page(0, false)]).unwrap();
    assert_eq!(batched.order_logits, None);
}

#[test]
fn page_view_refuses_short_buffers_and_unpaired_order_logits() {
    let logits = [0u8; 5];
    let boxes = [0u8; 8];
    let short = PPDocLayoutV3RawOutputs {
        logits_shape: [1, 2, 3],
        logits: &logits,
        pred_boxes_shape: [1, 2, 4],
        pred_boxes: &boxes,
        order_logits_shape: None,
        order_logits: None,
    };
    assert_eq!(
        short.page(0).map(|page| page.logits_shape),
        Err(LayoutError::InvalidModelOutput(
            "logits buffer cannot provide batch index 0".to_string()
        ))
    );

    let logits = [0u8; 6];
    let unpaired = PPDocLayoutV3RawOutputs {
        logits_shape: [1, 2, 3],
        logits: &logits,
        pred_boxes_shape: [1, 2, 4],
        pred_boxes: &boxes,
        order_logits_shape: Some([1, 2, 2]),
        order_logits: None,
    };
    assert_eq!(
        unpaired.page(0).map(|page| page.logits_shape),
        Err(LayoutError::InvalidModelOutput(
            "expected matching order logits shape and values, got shape Some([1, 2, 2]) and 0 values"
                .to_string()
        ))
    );
}

fn checkpoint_outputs(batch: usize, with_order: bool) -> PPDocLayoutV3OwnedOutputs<u32> {
    PPDocLayoutV3OwnedOutputs {
        logits_shape: [batch, NUM_QUERIES, PP_DOCLAYOUT_V3_CLASS_COUNT],
        logits: vec![0; batch * NUM_QUERIES * PP_DOCLAYOUT_V3_CLASS_COUNT],
        pred_boxes_shape: [batch, NUM_QUERIES, 4],
        pred_boxes: vec![0; batch * NUM_QUERIES * 4],
        order_logits_shape: if with_order { Some([batch, NUM_QUERIES, NUM_QUERIES]) } else { None },
        order_logits: if with_order { Some(vec![0; batch * NUM_QUERIES * NUM_QUERIES]) } else { None },
    }
}

#[test]
fn shape_validation_follows_the_checkpoint() {
    assert_eq!(validate_shapes(&checkpoint_outputs(2, true).as_raw_outputs()), Ok(()));
    assert_eq!(validate_shapes(&checkpoint_outputs(1, false).as_raw_outputs()), Ok(()));
    assert!(validate_shapes(&checkpoint_outputs(0, false).as_raw_outputs()).is_err());

    let mut wrong_classes = checkpoint_outputs(1, false);
    wrong_classes.logits_shape = [1, NUM_QUERIES, 24];
    assert!(validate_shapes(&wrong_classes.as_raw_outputs()).is_err());

    let mut short_boxes = checkpoint_outputs(1, false);
    short_boxes.pred_boxes.pop();
    assert!(validate_shapes(&short_boxes.as_raw_outputs()).is_err());

    let mut order_without_shape = checkpoint_outputs(1, true);
    order_without_shape.order_logits_shape = None;
    assert!(validate_shapes(&order_without_shape.as_raw_outputs()).is_err());
}

#[test]
fn batch_pages_slices_every_page_and_checks_the_page_count() {
    let mut outputs = checkpoint_outputs(2, true);
    outputs.logits[NUM_QUERIES * PP_DOCLAYOUT_V3_CLASS_COUNT] = 9;
    let raw = outputs.as_raw_outputs();
    let pages = batch_pages(&raw, 2).unwrap();
    assert_eq!(pages.len(), 2);
    assert_eq!(pages[0].logits[0], 0);
    assert_eq!(pages[1].logits[0], 9);
    assert_eq!(pages[1].logits_shape, [1, NUM_QUERIES, PP_DOCLAYOUT_V3_CLASS_COUNT]);
    assert!(matches!(batch_pages(&raw, 3), Err(LayoutError::InvalidModelOutput(_))));
}

#[test]
fn rank_candidates_keeps_highest_scores_with_query_and_label() {
    let mut scores = vec![0.25f32; NUM_QUERIES * PP_DOCLAYOUT_V3_CLASS_COUNT];
    scores[11 * PP_DOCLAYOUT_V3_CLASS_COUNT + 22] = 0.99;
    scores[20 * PP_DOCLAYOUT_V3_CLASS_COUNT + 21] = 0.95;
    scores[3] = 0.1;

    let candidates = rank_candidates(&bits(&scores));

    assert_eq!(candidates.len(), NUM_QUERIES);
    assert_eq!(candidates[0].query, 11);
    assert_eq!(candidates[0].label, PPDocLayoutV3Label::Text);
    assert_eq!(candidates[1].query, 20);
    assert_eq!(candidates[1].label, PPDocLayoutV3Label::Table);
    // Equal scores keep logits order: query 0, classes 0, 1, 2, then 4.
    assert_eq!(candidates[2].index, 0);
    assert_eq!(candidates[3].index, 1);
    assert_eq!(candidates[4].index, 2);
    assert_eq!(candidates[5].index, 4);
    assert!(candidates.iter().all(|candidate| candidate.index != 3));
}

#[test]
fn detector_inputs_report_first_bad_page_then_size() {
    let good = [0u8; 12];
    let bad = [0u8; 5];
    let pages = [
        PageImage { rgb: &good, width: 2, height: 2 },
        PageImage { rgb: &bad, width: 1, height: 2 },
        PageImage { rgb: &bad, width: 3, height: 3 },
    ];
    assert_eq!(
        check_detector_inputs(&pages, 800),
        Err(LayoutError::InvalidImageBuffer { expected: 6, actual: 5 })
    );
    assert_eq!(
        check_detector_inputs(&pages[..1], 640),
        Err(LayoutError::UnsupportedImageSize { expected: 800, actual: 640 })
    );
    assert_eq!(check_detector_inputs(&pages[..1], 800), Ok(()));
    assert_eq!(check_detector_inputs(&[], 800), Ok(()));
}

#[test]
fn model_input_must_hold_whole_pages() {
    let page = 3 * 800 * 800;
    assert_eq!(check_page_input(page), Ok(()));
    assert_eq!(check_batch_input(page, 1), Ok(()));
    assert_eq!(check_batch_input(3 * page, 3), Ok(()));
    assert_eq!(
        check_batch_input(page, 0),
        Err(LayoutError::InvalidModelOutput("batch size must be greater than zero".to_string()))
    );
    assert_eq!(
        check_batch_input(page - 1, 1),
        Err(LayoutError::InvalidModelOutput(
            "expected batched CHW input length 1920000, got 1919999".to_string()
        ))
    );
    assert_eq!(
        check_batch_input(7, 2),
        Err(LayoutError::InvalidModelOutput(
            "expected batched CHW input length 3840000, got 7".to_string()
        ))
    );
    assert_eq!(
        check_page_input(0),
        Err(LayoutError::InvalidModelOutput(
            "expected CHW input length 1920000, got 0".to_string()
        ))
    );
}

fn model_output_error(message: &str) -> LayoutError {
    LayoutError::InvalidModelOutput(message.to_string())
}

#[test]
fn refusals_name_the_first_failed_check() {
    assert_eq!(
        validate_shapes(&checkpoint_outputs(0, false).as_raw_outputs()),
        Err(model_output_error("output batch size must be greater than zero"))
    );
    let mut order_without_values = checkpoint_outputs(1, true);
    order_without_values.order_logits = None;
    assert_eq!(
        validate_shapes(&order_without_values.as_raw_outputs()),
        Err(model_output_error(
            "expected order_logits [1, 300, 300], got shape Some([1, 300, 300]) and 0 values"
        ))
    );
    let mut values_without_shape = checkpoint_outputs(2, true);
    values_without_shape.order_logits_shape = None;
    assert_eq!(
        validate_shapes(&values_without_shape.as_raw_outputs()),
        Err(model_output_error(&format!(
            "expected order_logits [2, 300, 300], got shape None and {} values",
            2 * 300 * 300
        )))
    );
    let mut wrong_classes = checkpoint_outputs(1, false);
    wrong_classes.logits_shape = [1, 300, 24];
    assert_eq!(
        validate_shapes(&wrong_classes.as_raw_outputs()),
        Err(model_output_error("expected logits [1, 300, 25], got [1, 300, 24]"))
    );
    let mut short_logits = checkpoint_outputs(1, false);
    short_logits.logits.pop();
    assert_eq!(
        validate_shapes(&short_logits.as_raw_outputs()),
        Err(model_output_error("expected 7500 logits, got 7499"))
    );
    let mut wide_boxes = checkpoint_outputs(1, false);
    wide_boxes.pred_boxes_shape = [1, 300, 5];
    assert_eq!(
        validate_shapes(&wide_boxes.as_raw_outputs()),
        Err(model_output_error("expected pred_boxes [1, 300, 4], got [1, 300, 5]"))
    );
    let mut short_boxes = checkpoint_outputs(1, false);
    short_boxes.pred_boxes.pop();
    assert_eq!(
        validate_shapes(&short_boxes.as_raw_outputs()),
        Err(model_output_error("expected 1200 pred box values, got 1199"))
    );
    assert_eq!(
        batch_pages(&checkpoint_outputs(2, false).as_raw_outputs(), 1).map(|pages| pages.len()),
        Err(model_output_error("expected 2 page images for output batch 2, got 1"))
    );
    assert_eq!(
        PPDocLayoutV3OwnedOutputs::<u8>::from_single_page_outputs(vec![]),
        Err(model_output_error("cannot build batched outputs from zero pages"))
    );
    assert_eq!(
        PPDocLayoutV3OwnedOutputs::from_single_page_outputs(vec![small_page(0, true), small_page(1, false)]),
        Err(model_output_error("single-page outputs have incompatible shapes"))
    );
    let mut no_values = small_page(1, true);
    no_values.order_logits = None;
    assert_eq!(
        PPDocLayoutV3OwnedOutputs::from_single_page_outputs(vec![small_page(0, true), no_values]),
        Err(model_output_error("missing order logits for one batched page"))
    );
    let batched = small_page(0, false);
    assert_eq!(
        batched.as_raw_outputs().page(1).map(|page| page.logits_shape),
        Err(model_output_error("batch index 1 is outside output batch 1"))
    );
    assert_eq!(
        check_page_input(5),
        Err(model_output_error("expected CHW input length 1920000, got 5"))
    );
}
