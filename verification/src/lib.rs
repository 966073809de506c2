//! Verified core of a gamepad-to-keyboard remapper: a canonical controller
//! model, vendor-event normalization, a typed value store for cross-thread
//! publication, radial zone selection for the right stick, and edge-triggered
//! key emission toward a virtual keyboard device.

pub mod emitter;
pub mod model;
pub mod normalize;
pub mod poll;
pub mod radial;
pub mod store;

use vstd::prelude::*;

verus! {

/// Fixed-point scale: one analog unit (1.0) is represented as 1000.
pub const AXIS_UNIT: i32 = 1000;

/// An analog or button magnitude is valid when it lies in [-1.0, 1.0],
/// that is, within one unit on either side in fixed-point thousandths.
pub open spec fn valid_axis_value(v: i32) -> bool {
    -AXIS_UNIT <= v <= AXIS_UNIT
}

} // verus!
