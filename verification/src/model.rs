use vstd::prelude::*;

verus! {

/// Name of the tensor backend that the embedded model runs on.
pub const BACKEND_NAME: &'static str = "ndarray";

} // verus!
