use crate::error::LayoutError;
use crate::text::{decimal_digits, decimal_string};
use vstd::prelude::*;
use vstd::string::StringExecFns;

verus! {

/// Activation applied after a convolution block.
#[derive(Debug, Clone, Copy, PartialEq, Eq, Structural)]
pub enum Activation {
    Identity,
    Relu,
    Silu,
}

/// Checks that a convolution weight has the expected number of output channels.
pub fn ensure_conv_out_channels(prefix: &str, actual: usize, expected: usize) -> (result: Result<
    (),
    LayoutError,
>)
    ensures
        result is Ok <==> actual == expected,
        result matches Err(error) ==> error.is_model_output_error(
            "expected convolution "@ + prefix@ + " to have "@ + decimal_digits(expected as nat)
                + " output channels, got "@ + decimal_digits(actual as nat),
        ),
{
    if actual != expected {
        let mut message = String::from_str("expected convolution ");
        message.append(prefix);
        message.append(" to have ");
        let expected_text = decimal_string(expected as u128);
        message.append(expected_text.as_str());
        message.append(" output channels, got ");
        let actual_text = decimal_string(actual as u128);
        message.append(actual_text.as_str());
        return Err(LayoutError::InvalidModelOutput(message));
    }
    Ok(())
}

/// Checks the tensor lengths for folding inference batch normalisation into a
/// convolution and returns the number of weight values per output channel.
///
/// The weight buffer must split evenly into `out_channels > 0` channels and
/// each batch-norm parameter must hold one value per channel.
pub fn batch_norm_fold_layout(
    weight_len: usize,
    out_channels: usize,
    gamma_len: usize,
    beta_len: usize,
    mean_len: usize,
    var_len: usize,
) -> (result: Result<usize, LayoutError>)
    ensures
        result is Ok <==> out_channels > 0 && weight_len % out_channels == 0 && gamma_len
            == out_channels && beta_len == out_channels && mean_len == out_channels && var_len
            == out_channels,
        result matches Ok(per_channel) ==> per_channel * out_channels == weight_len,
        result matches Err(error) ==> error.is_model_output_error(
            if out_channels == 0 || weight_len % out_channels != 0 {
                "convolution weight shape is incompatible with batch norm"@
            } else {
                "batch norm parameter length mismatch for "@ + decimal_digits(out_channels as nat)
                    + " output channels"@
            },
        ),
{
    if out_channels == 0 || weight_len % out_channels != 0 {
        return Err(
            LayoutError::InvalidModelOutput(
                "convolution weight shape is incompatible with batch norm".to_string(),
            ),
        );
    }
    if gamma_len != out_channels || beta_len != out_channels || mean_len != out_channels || var_len
        != out_channels {
        let mut message = String::from_str("batch norm parameter length mismatch for ");
        let channels_text = decimal_string(out_channels as u128);
        message.append(channels_text.as_str());
        message.append(" output channels");
        return Err(LayoutError::InvalidModelOutput(message));
    }
    let per_channel = weight_len / out_channels;
    proof {
        vstd::arithmetic::div_mod::lemma_fundamental_div_mod(weight_len as int, out_channels as int);
        assert(per_channel * out_channels == out_channels * per_channel) by (nonlinear_arith);
    }
    Ok(per_channel)
}

} // verus!
