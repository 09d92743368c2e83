use vstd::prelude::*;

verus! {

/// Side length, in pixels, of the square RGB input that PP-DocLayoutV3 takes.
pub const PP_DOCLAYOUT_V3_IMAGE_SIZE: u32 = 800;

} // verus!
