//! Camera viewport rectangles and the clamped crop extent they produce
//! against a capture buffer of a given size.

use vstd::prelude::*;

verus! {

/// A camera's rectangular sub-region of the rendered frame: physical pixel
/// position `(x, y)` and physical pixel size `(width, height)`.
#[derive(Clone, Copy, PartialEq, Eq, Structural, Debug)]
pub struct Viewport {
    pub x: u32,
    pub y: u32,
    pub width: u32,
    pub height: u32,
}

/// Width of the intersection of `[vp.x, vp.x + vp.width)` with
/// `[0, capture_width)`: the number of columns a crop of `vp` may read.
pub open spec fn spec_crop_width(vp: Viewport, capture_width: u32) -> int {
    if vp.x >= capture_width {
        0
    } else if vp.width <= capture_width - vp.x {
        vp.width as int
    } else {
        capture_width - vp.x
    }
}

/// Height of the intersection of `[vp.y, vp.y + vp.height)` with
/// `[0, capture_height)`: the number of rows a crop of `vp` may read.
pub open spec fn spec_crop_height(vp: Viewport, capture_height: u32) -> int {
    if vp.y >= capture_height {
        0
    } else if vp.height <= capture_height - vp.y {
        vp.height as int
    } else {
        capture_height - vp.y
    }
}

impl Viewport {
    /// Clamped crop width against a capture buffer `capture_width` pixels wide.
    pub fn crop_width(&self, capture_width: u32) -> (r: u32)
        ensures
            r == spec_crop_width(*self, capture_width),
    {
        if self.x >= capture_width {
            0
        } else if self.width <= capture_width - self.x {
            self.width
        } else {
            capture_width - self.x
        }
    }

    /// Clamped crop height against a capture buffer `capture_height` pixels tall.
    pub fn crop_height(&self, capture_height: u32) -> (r: u32)
        ensures
            r == spec_crop_height(*self, capture_height),
    {
        if self.y >= capture_height {
            0
        } else if self.height <= capture_height - self.y {
            self.height
        } else {
            capture_height - self.y
        }
    }
}

/// The crop extent never reaches past the capture buffer: the clamped width
/// stays within what remains to the right of the position, and likewise for
/// the height below it, so every cropped column lies in `[0, capture_width)`
/// and every cropped row in `[0, capture_height)`.
pub proof fn lemma_crop_within_capture(vp: Viewport, capture_width: u32, capture_height: u32)
    ensures
        spec_crop_width(vp, capture_width) <= vp.width,
        spec_crop_height(vp, capture_height) <= vp.height,
        vp.x <= capture_width ==> spec_crop_width(vp, capture_width) <= capture_width - vp.x,
        vp.y <= capture_height ==> spec_crop_height(vp, capture_height) <= capture_height - vp.y,
        spec_crop_width(vp, capture_width) > 0 ==> vp.x + spec_crop_width(vp, capture_width)
            <= capture_width,
        spec_crop_height(vp, capture_height) > 0 ==> vp.y + spec_crop_height(vp, capture_height)
            <= capture_height,
{
}

} // verus!
