use padmixer::model::{BasicControllerState, CommonAnalog, CommonButton};

#[test]
fn default_state_is_fully_populated_and_zeroed() {
    let bcs = BasicControllerState::default();
    assert_eq!(bcs.analogs.len(), 9);
    assert_eq!(bcs.buttons.len(), 22);
    for slot in &bcs.analogs {
        assert_eq!(slot.value, 0);
    }
    for slot in &bcs.buttons {
        assert_eq!(slot.value, 0);
    }
    assert!(bcs.analog_state_by_type(CommonAnalog::RightStickX).ty == CommonAnalog::RightStickX);
    assert!(bcs.button_state_by_type(CommonButton::FaceWest).ty == CommonButton::FaceWest);
}

#[test]
fn update_button_then_read_returns_value_and_leaves_others() {
    let mut bcs = BasicControllerState::default();
    bcs.try_update_button(CommonButton::FaceSouth, 1000);
    assert_eq!(bcs.button_state_by_type(CommonButton::FaceSouth).value, 1000);
    assert_eq!(bcs.button_state_by_type(CommonButton::FaceEast).value, 0);
    assert_eq!(bcs.button_state_by_type(CommonButton::FaceWest).value, 0);
    assert_eq!(bcs.button_state_by_type(CommonButton::Unknown).value, 0);
    assert_eq!(bcs.analog_state_by_type(CommonAnalog::LeftStickX).value, 0);
}

#[test]
fn update_analog_then_read_returns_value_and_leaves_others() {
    let mut bcs = BasicControllerState::default();
    bcs.try_update_analog(CommonAnalog::RightStickX, -250);
    bcs.try_update_analog(CommonAnalog::RightStickY, 1000);
    assert_eq!(bcs.analog_state_by_type(CommonAnalog::RightStickX).value, -250);
    assert_eq!(bcs.analog_state_by_type(CommonAnalog::RightStickY).value, 1000);
    assert_eq!(bcs.analog_state_by_type(CommonAnalog::LeftStickX).value, 0);
    assert_eq!(bcs.analog_state_by_type(CommonAnalog::Unknown).value, 0);
    assert_eq!(bcs.button_state_by_type(CommonButton::FaceSouth).value, 0);
}

#[test]
fn update_overwrites_previous_value() {
    let mut bcs = BasicControllerState::default();
    bcs.try_update_button(CommonButton::Start, 1000);
    bcs.try_update_button(CommonButton::Start, 0);
    assert_eq!(bcs.button_state_by_type(CommonButton::Start).value, 0);
}

#[test]
fn update_unknown_kind_touches_only_unknown_slot() {
    let mut bcs = BasicControllerState::default();
    bcs.try_update_button(CommonButton::Unknown, 700);
    assert_eq!(bcs.button_state_by_type(CommonButton::Unknown).value, 700);
    for slot in &bcs.buttons {
        if slot.ty != CommonButton::Unknown {
            assert_eq!(slot.value, 0);
        }
    }
}
