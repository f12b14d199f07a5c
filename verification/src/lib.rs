//! Plans the frames of a trajectory animation.
//!
//! A scene holds timestamped poses of moving objects, static obstacles and an
//! optional drift indicator. The library decodes scenes, bounds them, and lays
//! out, frame by frame, what a drawing backend has to put on the canvas.
//!
//! Coordinates never appear as floating-point values here: a decoded scene
//! carries its numerals as written, and a scene that is bounded carries IEEE-754
//! bit patterns. The caller converts between the two.

pub mod bounds;
pub mod delimited;
pub mod document;
pub mod error;
pub mod layout;
pub mod palette;
pub mod render;
pub mod scalar;
pub mod scene;
pub mod schedule;
pub mod structured;
pub mod usage;
