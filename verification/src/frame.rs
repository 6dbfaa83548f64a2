//! Raw colour frames as captured from a device.
//!
//! A [`RawFrame`] is an immutable two-dimensional grid of colour samples,
//! three bytes per pixel in blue, green, red order, stored row by row.
//! Ownership of a frame moves through the pipeline as a whole; nothing
//! mutates a frame after it has been handed off.

use vstd::prelude::*;

verus! {

/// Largest width or height a source frame may have.
///
/// Capture devices deliver frames far below this; the bound keeps every
/// pixel-index computation inside the machine's integer range.
pub const MAX_SOURCE_DIM: usize = 65535;

/// One captured colour image, before any transformation.
///
/// `data` holds `3 * width * height` bytes: for the pixel at column `x` of
/// row `y`, the blue, green and red samples sit at offsets
/// `3 * (y * width + x)`, `+ 1` and `+ 2`.
pub struct RawFrame {
    /// Number of pixel columns.
    pub width: usize,
    /// Number of pixel rows.
    pub height: usize,
    /// The samples, three bytes per pixel, rows concatenated.
    pub data: Vec<u8>,
}

impl RawFrame {
    /// A frame is well formed when its sample buffer matches its dimensions
    /// and both dimensions are within the machine bound.
    pub open spec fn wf(self) -> bool {
        &&& self.width <= MAX_SOURCE_DIM
        &&& self.height <= MAX_SOURCE_DIM
        &&& self.data@.len() == 3 * self.width * self.height
    }

    /// A frame with no pixels at all. Such a frame cannot be transformed.
    pub open spec fn is_empty_spec(self) -> bool {
        self.width == 0 || self.height == 0
    }

    /// The blue sample of the pixel at column `x`, row `y`.
    pub open spec fn blue_at(self, x: int, y: int) -> u8 {
        self.data@[3 * (y * self.width + x)]
    }

    /// The green sample of the pixel at column `x`, row `y`.
    pub open spec fn green_at(self, x: int, y: int) -> u8 {
        self.data@[3 * (y * self.width + x) + 1]
    }

    /// The red sample of the pixel at column `x`, row `y`.
    pub open spec fn red_at(self, x: int, y: int) -> u8 {
        self.data@[3 * (y * self.width + x) + 2]
    }

    /// Builds a frame from raw interleaved samples.
    ///
    /// Returns `None` when the buffer does not hold exactly three bytes per
    /// pixel or a dimension exceeds [`MAX_SOURCE_DIM`]; a malformed buffer
    /// cannot be given a pixel reading.
    pub fn new(width: usize, height: usize, data: Vec<u8>) -> (r: Option<RawFrame>)
        ensures
            match r {
                Some(f) => {
                    &&& f.wf()
                    &&& f.width == width
                    &&& f.height == height
                    &&& f.data@ == data@
                },
                None => width > MAX_SOURCE_DIM || height > MAX_SOURCE_DIM || data@.len() != 3
                    * width * height,
            },
    {
        if width > MAX_SOURCE_DIM || height > MAX_SOURCE_DIM {
            return None;
        }
        proof {
            assert(3 * (width as int) * (height as int) <= 3 * 65535 * 65535)
                by (nonlinear_arith)
                requires
                    width <= 65535,
                    height <= 65535,
            ;
        }
        if (data.len() as u64) != 3 * (width as u64) * (height as u64) {
            return None;
        }
        Some(RawFrame { width, height, data })
    }

    /// Whether the frame has zero area.
    pub fn is_empty(&self) -> (r: bool)
        ensures
            r == self.is_empty_spec(),
    {
        self.width == 0 || self.height == 0
    }
}

} // verus!
