//! Fixed measures of a frame, in tenths of a scene unit.
//!
//! The annotations sit at fixed offsets from the lower left corner of the box
//! that bounds the scene, so that they stay put from frame to frame.

use vstd::prelude::*;

verus! {

/// The margin around the bounding box that the camera shows.
pub const VIEW_PADDING: u32 = 2;

/// The radius of the circle that marks where an object is.
pub const MARKER_RADIUS: u32 = 1;

/// The radius of the drift dial, which is also the length of its arrow.
pub const DIAL_RADIUS: u32 = 6;

/// The margin between what a plate holds and its edge.
pub const PLATE_PADDING: u32 = 1;

/// The width of a plate.
pub const PLATE_WIDTH: u32 = 40;

/// From the corner of the box to the anchor of the time plate, to the right.
pub const TIME_OFFSET_X: u32 = 162;

/// From the corner of the box to the anchor of the time plate, upwards.
pub const TIME_OFFSET_Y: u32 = 0;

/// The height of the time plate, without its padding.
pub const TIME_HEIGHT: u32 = 10;

/// From the anchor of the time plate to the start of the text.
pub const TIME_TEXT_OFFSET: u32 = 2;

/// From the corner of the box to the centre of the drift dial, to the right.
pub const DRIFT_OFFSET_X: u32 = 10;

/// From the corner of the box to the centre of the drift dial, upwards.
pub const DRIFT_OFFSET_Y: u32 = 10;

/// From the right edge of the drift dial to the start of the text.
pub const DRIFT_TEXT_OFFSET: u32 = 3;

} // verus!
