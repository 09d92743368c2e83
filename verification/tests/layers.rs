use doclayout_detector::pp_doclayout::layers::{batch_norm_fold_layout, ensure_conv_out_channels, Activation};
use doclayout_detector::LayoutError;

#[test]
fn conv_out_channels_must_match() {
    assert_eq!(ensure_conv_out_channels("stem1", 32, 32), Ok(()));
    assert_eq!(
        ensure_conv_out_channels("stem1", 16, 32),
        Err(LayoutError::InvalidModelOutput(
            "expected convolution stem1 to have 32 output channels, got 16".to_string()
        ))
    );
}

#[test]
fn batch_norm_folding_needs_one_parameter_per_channel() {
    assert_eq!(batch_norm_fold_layout(2 * 3 * 3 * 3, 2, 2, 2, 2, 2), Ok(27));
    assert!(batch_norm_fold_layout(10, 0, 0, 0, 0, 0).is_err());
    assert!(batch_norm_fold_layout(10, 3, 3, 3, 3, 3).is_err());
    assert_eq!(
        batch_norm_fold_layout(12, 3, 3, 2, 3, 3),
        Err(LayoutError::InvalidModelOutput(
            "batch norm parameter length mismatch for 3 output channels".to_string()
        ))
    );
    assert_eq!(
        batch_norm_fold_layout(10, 3, 3, 3, 3, 3),
        Err(LayoutError::InvalidModelOutput(
            "convolution weight shape is incompatible with batch norm".to_string()
        ))
    );
    assert_ne!(Activation::Relu, Activation::Silu);
}
