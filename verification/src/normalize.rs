//! Event normalizer: total, pure mappings from vendor button and axis
//! identifiers to the canonical controller vocabulary.
//!
//! `VendorButton` and `VendorAxis` hold, as plain values, what the input
//! layer reports for a physical gamepad; the application layer converts the
//! input crate's identifiers one-for-one into these. Any identifier without
//! a specific canonical mapping goes to the `Unknown` sentinel and is never
//! rejected.

use vstd::prelude::*;
use crate::model::{CommonAnalog, CommonButton};

verus! {

/// Vendor-level button identifiers as the input layer reports them.
#[derive(Copy, Clone, PartialEq, Eq, Structural, Debug)]
pub enum VendorButton {
    South,
    East,
    North,
    West,
    C,
    Z,
    LeftTrigger,
    LeftTrigger2,
    RightTrigger,
    RightTrigger2,
    Select,
    Start,
    Mode,
    LeftThumb,
    RightThumb,
    DPadUp,
    DPadDown,
    DPadLeft,
    DPadRight,
    Unknown,
}

/// Vendor-level axis identifiers as the input layer reports them.
#[derive(Copy, Clone, PartialEq, Eq, Structural, Debug)]
pub enum VendorAxis {
    LeftStickX,
    LeftStickY,
    LeftZ,
    RightStickX,
    RightStickY,
    RightZ,
    DPadX,
    DPadY,
    Unknown,
}

/// The canonical button for each vendor button: a total function.
pub open spec fn spec_button_to_bcs(button: VendorButton) -> CommonButton {
    match button {
        VendorButton::South => CommonButton::FaceSouth,
        VendorButton::East => CommonButton::FaceEast,
        VendorButton::North => CommonButton::FaceNorth,
        VendorButton::West => CommonButton::FaceWest,
        VendorButton::Select => CommonButton::Select,
        VendorButton::Start => CommonButton::Start,
        VendorButton::Mode => CommonButton::Guide,
        VendorButton::LeftThumb => CommonButton::LeftStickPress,
        VendorButton::RightThumb => CommonButton::RightStickPress,
        VendorButton::DPadUp => CommonButton::DPadNorth,
        VendorButton::DPadDown => CommonButton::DPadSouth,
        VendorButton::DPadLeft => CommonButton::DPadWest,
        VendorButton::DPadRight => CommonButton::DPadEast,
        VendorButton::C => CommonButton::LegacyC,
        VendorButton::Z => CommonButton::LegacyZ,
        VendorButton::LeftTrigger => CommonButton::LegacyLT,
        VendorButton::LeftTrigger2 => CommonButton::LegacyLT2,
        VendorButton::RightTrigger => CommonButton::LegacyRT,
        VendorButton::RightTrigger2 => CommonButton::LegacyRT2,
        VendorButton::Unknown => CommonButton::Unknown,
    }
}

/// The canonical axis for each vendor axis: a total function.
pub open spec fn spec_axis_to_bcs(axis: VendorAxis) -> CommonAnalog {
    match axis {
        VendorAxis::LeftStickX => CommonAnalog::LeftStickX,
        VendorAxis::LeftStickY => CommonAnalog::LeftStickY,
        VendorAxis::LeftZ => CommonAnalog::LeftLever,
        VendorAxis::RightStickX => CommonAnalog::RightStickX,
        VendorAxis::RightStickY => CommonAnalog::RightStickY,
        VendorAxis::RightZ => CommonAnalog::RightLever,
        VendorAxis::DPadX => CommonAnalog::DPadX,
        VendorAxis::DPadY => CommonAnalog::DPadY,
        VendorAxis::Unknown => CommonAnalog::Unknown,
    }
}

/// Map a vendor button to its canonical identifier. Total and deterministic:
/// the result equals `spec_button_to_bcs(button)` for every input, and an
/// unmapped identifier yields `CommonButton::Unknown` rather than an error.
pub fn button_to_bcs(button: VendorButton) -> (r: CommonButton)
    ensures
        r == spec_button_to_bcs(button),
{
    match button {
        VendorButton::South => CommonButton::FaceSouth,
        VendorButton::East => CommonButton::FaceEast,
        VendorButton::North => CommonButton::FaceNorth,
        VendorButton::West => CommonButton::FaceWest,
        VendorButton::Select => CommonButton::Select,
        VendorButton::Start => CommonButton::Start,
        VendorButton::Mode => CommonButton::Guide,
        VendorButton::LeftThumb => CommonButton::LeftStickPress,
        VendorButton::RightThumb => CommonButton::RightStickPress,
        VendorButton::DPadUp => CommonButton::DPadNorth,
        VendorButton::DPadDown => CommonButton::DPadSouth,
        VendorButton::DPadLeft => CommonButton::DPadWest,
        VendorButton::DPadRight => CommonButton::DPadEast,
        VendorButton::C => CommonButton::LegacyC,
        VendorButton::Z => CommonButton::LegacyZ,
        VendorButton::LeftTrigger => CommonButton::LegacyLT,
        VendorButton::LeftTrigger2 => CommonButton::LegacyLT2,
        VendorButton::RightTrigger => CommonButton::LegacyRT,
        VendorButton::RightTrigger2 => CommonButton::LegacyRT2,
        VendorButton::Unknown => CommonButton::Unknown,
    }
}

/// Map a vendor axis to its canonical identifier. Total and deterministic:
/// the result equals `spec_axis_to_bcs(axis)` for every input.
pub fn axis_to_bcs(axis: VendorAxis) -> (r: CommonAnalog)
    ensures
        r == spec_axis_to_bcs(axis),
{
    match axis {
        VendorAxis::LeftStickX => CommonAnalog::LeftStickX,
        VendorAxis::LeftStickY => CommonAnalog::LeftStickY,
        VendorAxis::LeftZ => CommonAnalog::LeftLever,
        VendorAxis::RightStickX => CommonAnalog::RightStickX,
        VendorAxis::RightStickY => CommonAnalog::RightStickY,
        VendorAxis::RightZ => CommonAnalog::RightLever,
        VendorAxis::DPadX => CommonAnalog::DPadX,
        VendorAxis::DPadY => CommonAnalog::DPadY,
        VendorAxis::Unknown => CommonAnalog::Unknown,
    }
}

} // verus!
