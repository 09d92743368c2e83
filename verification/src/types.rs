use vstd::prelude::*;

verus! {

/// A rendered page as tightly packed RGB bytes, row by row.
///
/// Page geometry in PDF points and the render resolution travel beside the
/// pixels in the caller; the checks of this crate read the pixels alone.
#[derive(Debug, Clone, Copy)]
pub struct PageImage<'a> {
    pub rgb: &'a [u8],
    pub width: u32,
    pub height: u32,
}

impl<'a> PageImage<'a> {
    /// Number of RGB bytes a page of this size holds.
    pub open spec fn expected_rgb_len(self) -> int {
        self.width * self.height * 3
    }
}

} // verus!
