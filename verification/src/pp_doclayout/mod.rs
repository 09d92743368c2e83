pub mod config;
pub mod types;
pub mod weights;
pub mod detector;
pub mod labels;
pub mod layers;
pub mod model;
pub mod postprocess;
pub mod preprocess;
pub mod ranking;

pub use config::PPDocLayoutV3Config;
pub use labels::{
    PPDocLayoutV3Label, PPDocLayoutV3LabelError, PP_DOCLAYOUT_V3_CLASS_COUNT, PP_DOCLAYOUT_V3_LABELS,
};
pub use preprocess::PP_DOCLAYOUT_V3_IMAGE_SIZE;
