//! Screen metrics: computed once at startup from the realized window size and
//! read-only thereafter (live resize is not supported).

use vstd::prelude::*;
use crate::geometry::{Vec2i, MAX_COORD};

verus! {

/// Ratio between sprite pixels and screen pixels.
pub const PIXEL_RATIO: i64 = 2;

/// Immutable screen facts shared by all spatial logic.
#[derive(Clone, Copy, PartialEq, Eq, Structural, Debug)]
pub struct Resolution {
    /// Width and height of the visible screen, in milliunits.
    pub screen_dimensions: Vec2i,
    /// Ratio between sprite pixels and screen pixels.
    pub pixel_ratio: i64,
}

impl Resolution {
    /// The dimensions are even, non-negative milliunit counts within the
    /// machine limit, and the pixel ratio is the fixed startup value.
    pub open spec fn wf(self) -> bool {
        &&& 0 <= self.screen_dimensions.x <= MAX_COORD
        &&& 0 <= self.screen_dimensions.y <= MAX_COORD
        &&& self.screen_dimensions.x % 2 == 0
        &&& self.screen_dimensions.y % 2 == 0
        &&& self.pixel_ratio == PIXEL_RATIO
    }

    /// Half the screen width: the screen spans `[-half_width, half_width]`.
    pub open spec fn half_width(self) -> int {
        self.screen_dimensions.x as int / 2
    }

    /// Half the screen height: the screen spans `[-half_height, half_height]`.
    pub open spec fn half_height(self) -> int {
        self.screen_dimensions.y as int / 2
    }

    /// Publishes the screen metrics from the realized window size, given in
    /// whole pixels. One world unit is one pixel, so a pixel becomes a
    /// thousand milliunits; the product is always even and exact.
    pub fn new(width_pixels: u32, height_pixels: u32) -> (r: Resolution)
        requires
            width_pixels <= 1_000_000,
            height_pixels <= 1_000_000,
        ensures
            r.wf(),
            r.screen_dimensions.x == width_pixels * 1000,
            r.screen_dimensions.y == height_pixels * 1000,
            r.pixel_ratio == PIXEL_RATIO,
    {
        let w: i64 = (width_pixels as i64) * 1000;
        let h: i64 = (height_pixels as i64) * 1000;
        Resolution { screen_dimensions: Vec2i { x: w, y: h }, pixel_ratio: PIXEL_RATIO }
    }

    /// Half the screen width as a machine integer.
    pub fn half_width_exec(&self) -> (r: i64)
        requires
            self.wf(),
        ensures
            r == self.half_width(),
    {
        self.screen_dimensions.x / 2
    }

    /// Half the screen height as a machine integer.
    pub fn half_height_exec(&self) -> (r: i64)
        requires
            self.wf(),
        ensures
            r == self.half_height(),
    {
        self.screen_dimensions.y / 2
    }
}

} // verus!
