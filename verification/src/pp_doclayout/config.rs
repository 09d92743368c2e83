use super::labels::{PPDocLayoutV3Label, PP_DOCLAYOUT_V3_CLASS_COUNT};
use super::preprocess::PP_DOCLAYOUT_V3_IMAGE_SIZE;
use vstd::prelude::*;

verus! {

/// Architecture constants of a PP-DocLayoutV3 checkpoint.
#[derive(Debug, Clone, PartialEq, Eq)]
pub struct PPDocLayoutV3Config {
    pub image_size: u32,
    pub num_queries: usize,
    pub num_classes: usize,
    pub d_model: usize,
    pub decoder_layers: usize,
    pub decoder_attention_heads: usize,
    pub decoder_ffn_dim: usize,
    pub decoder_n_points: usize,
    pub encoder_in_channels: [usize; 3],
    pub decoder_in_channels: [usize; 3],
    pub feature_strides: [usize; 3],
    pub num_feature_levels: usize,
    pub global_pointer_head_size: usize,
    pub mask_feature_channels: [usize; 2],
    pub x4_feat_dim: usize,
}

impl PPDocLayoutV3Config {
    /// The constants of the published PP-DocLayoutV3 checkpoint.
    pub open spec fn is_published_checkpoint(self) -> bool {
        &&& self.image_size == PP_DOCLAYOUT_V3_IMAGE_SIZE
        &&& self.num_queries == 300
        &&& self.num_classes == PP_DOCLAYOUT_V3_CLASS_COUNT
        &&& self.d_model == 256
        &&& self.decoder_layers == 6
        &&& self.decoder_attention_heads == 8
        &&& self.decoder_ffn_dim == 1024
        &&& self.decoder_n_points == 4
        &&& self.encoder_in_channels@ == seq![512usize, 1024, 2048]
        &&& self.decoder_in_channels@ == seq![256usize, 256, 256]
        &&& self.feature_strides@ == seq![8usize, 16, 32]
        &&& self.num_feature_levels == 3
        &&& self.global_pointer_head_size == 64
        &&& self.mask_feature_channels@ == seq![64usize, 64]
        &&& self.x4_feat_dim == 128
    }
}

impl Default for PPDocLayoutV3Config {
    /// Returns the PP-DocLayoutV3 architecture constants used by the loaded checkpoint.
    fn default() -> (config: Self)
        ensures
            config.is_published_checkpoint(),
    {
        let config = Self {
            image_size: PP_DOCLAYOUT_V3_IMAGE_SIZE,
            num_queries: 300,
            num_classes: PPDocLayoutV3Label::class_count(),
            d_model: 256,
            decoder_layers: 6,
            decoder_attention_heads: 8,
            decoder_ffn_dim: 1024,
            decoder_n_points: 4,
            encoder_in_channels: [512, 1024, 2048],
            decoder_in_channels: [256, 256, 256],
            feature_strides: [8, 16, 32],
            num_feature_levels: 3,
            global_pointer_head_size: 64,
            mask_feature_channels: [64, 64],
            x4_feat_dim: 128,
        };
        assert(config.encoder_in_channels@ == seq![512usize, 1024, 2048]);
        assert(config.decoder_in_channels@ == seq![256usize, 256, 256]);
        assert(config.feature_strides@ == seq![8usize, 16, 32]);
        assert(config.mask_feature_channels@ == seq![64usize, 64]);
        config
    }
}

} // verus!
