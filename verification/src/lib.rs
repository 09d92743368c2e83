//! Document layout detection for rendered PDF pages with the PP-DocLayoutV3 model.
//!
//! This crate holds the parts of the detector that decide something without
//! floating-point arithmetic: validation of page buffers and model outputs,
//! batching and slicing of output tensors, ranking of candidates by score
//! bit patterns, reading-order ranks, label tables, checkpoint access, box
//! outlines on RGBA canvases and command-line value parsing.
pub mod annotate;
pub mod cli;
pub mod error;
pub mod model;
pub mod pp_doclayout;
pub mod preprocess;
pub mod raster;
pub mod text;
pub mod types;

pub use error::LayoutError;
pub use types::PageImage;
