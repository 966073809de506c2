use padmixer::model::{CommonAnalog, CommonButton};
use padmixer::normalize::{VendorAxis, VendorButton, axis_to_bcs, button_to_bcs};

#[test]
fn button_mapping_is_total() {
    let cases = [
        (VendorButton::South, CommonButton::FaceSouth),
        (VendorButton::East, CommonButton::FaceEast),
        (VendorButton::North, CommonButton::FaceNorth),
        (VendorButton::West, CommonButton::FaceWest),
        (VendorButton::Select, CommonButton::Select),
        (VendorButton::Start, CommonButton::Start),
        (VendorButton::Mode, CommonButton::Guide),
        (VendorButton::LeftThumb, CommonButton::LeftStickPress),
        (VendorButton::RightThumb, CommonButton::RightStickPress),
        (VendorButton::DPadUp, CommonButton::DPadNorth),
        (VendorButton::DPadDown, CommonButton::DPadSouth),
        (VendorButton::DPadLeft, CommonButton::DPadWest),
        (VendorButton::DPadRight, CommonButton::DPadEast),
        (VendorButton::C, CommonButton::LegacyC),
        (VendorButton::Z, CommonButton::LegacyZ),
        (VendorButton::LeftTrigger, CommonButton::LegacyLT),
        (VendorButton::LeftTrigger2, CommonButton::LegacyLT2),
        (VendorButton::RightTrigger, CommonButton::LegacyRT),
        (VendorButton::RightTrigger2, CommonButton::LegacyRT2),
        (VendorButton::Unknown, CommonButton::Unknown),
    ];
    for (vendor, canonical) in cases {
        assert!(button_to_bcs(vendor) == canonical);
    }
}

#[test]
fn axis_mapping_is_total() {
    let cases = [
        (VendorAxis::LeftStickX, CommonAnalog::LeftStickX),
        (VendorAxis::LeftStickY, CommonAnalog::LeftStickY),
        (VendorAxis::LeftZ, CommonAnalog::LeftLever),
        (VendorAxis::RightStickX, CommonAnalog::RightStickX),
        (VendorAxis::RightStickY, CommonAnalog::RightStickY),
        (VendorAxis::RightZ, CommonAnalog::RightLever),
        (VendorAxis::DPadX, CommonAnalog::DPadX),
        (VendorAxis::DPadY, CommonAnalog::DPadY),
        (VendorAxis::Unknown, CommonAnalog::Unknown),
    ];
    for (vendor, canonical) in cases {
        assert!(axis_to_bcs(vendor) == canonical);
    }
}

#[test]
fn mapping_is_deterministic() {
    assert!(button_to_bcs(VendorButton::West) == button_to_bcs(VendorButton::West));
    assert!(axis_to_bcs(VendorAxis::RightStickX) == axis_to_bcs(VendorAxis::RightStickX));
}

#[test]
fn unmapped_identifiers_fall_back_to_unknown() {
    assert!(button_to_bcs(VendorButton::Unknown) == CommonButton::Unknown);
    assert!(axis_to_bcs(VendorAxis::Unknown) == CommonAnalog::Unknown);
}
