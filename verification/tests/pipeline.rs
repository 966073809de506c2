use padmixer::emitter::{HidState, KeyEvent};
use padmixer::model::{BasicControllerState, CommonAnalog, CommonButton};
use padmixer::normalize::{VendorAxis, VendorButton};
use padmixer::poll::{PadEvent, PollSession, tick};
use padmixer::radial::standard_zone_table;
use padmixer::store::{StoredValue, ValueStore};

#[test]
fn stick_right_presses_zone_zero_then_deadzone_releases() {
    let table = standard_zone_table();
    let mut session = PollSession::new();
    let mut bcs = BasicControllerState::default();
    let mut store = ValueStore::new();
    store.insert("radial_x", StoredValue::I32(0));
    store.insert("radial_y", StoredValue::I32(0));
    let mut hid = HidState::new();

    session.apply_event(1, &PadEvent::AxisChanged(VendorAxis::RightStickX, 900), &mut bcs, &mut store);
    let first = tick(&bcs, &table, &mut hid, false);
    assert_eq!(first, vec![KeyEvent { code: 35, value: 1 }]);

    session.apply_event(1, &PadEvent::AxisChanged(VendorAxis::RightStickX, 0), &mut bcs, &mut store);
    let second = tick(&bcs, &table, &mut hid, false);
    assert_eq!(second, vec![KeyEvent { code: 35, value: 0 }]);
    for code in table.key_codes() {
        assert!(!hid.is_held(code));
    }
}

#[test]
fn repeated_ticks_with_steady_stick_emit_once() {
    let table = standard_zone_table();
    let mut bcs = BasicControllerState::default();
    bcs.try_update_analog(CommonAnalog::RightStickX, 1000);
    let mut hid = HidState::new();
    let first = tick(&bcs, &table, &mut hid, false);
    assert_eq!(first.len(), 1);
    let second = tick(&bcs, &table, &mut hid, false);
    assert!(second.is_empty());
}

#[test]
fn unmapped_button_event_updates_only_unknown_slot() {
    let mut session = PollSession::new();
    let mut bcs = BasicControllerState::default();
    let mut store = ValueStore::new();
    session.apply_event(
        7,
        &PadEvent::ButtonChanged(VendorButton::Unknown, 600),
        &mut bcs,
        &mut store,
    );
    assert_eq!(bcs.button_state_by_type(CommonButton::Unknown).value, 600);
    for slot in &bcs.buttons {
        if slot.ty != CommonButton::Unknown {
            assert_eq!(slot.value, 0);
        }
    }
    assert_eq!(session.current_gamepad, Some(7));
}

#[test]
fn button_events_drive_the_canonical_model() {
    let mut session = PollSession::new();
    let mut bcs = BasicControllerState::default();
    let mut store = ValueStore::new();
    session.apply_event(1, &PadEvent::ButtonPressed(VendorButton::South), &mut bcs, &mut store);
    assert_eq!(bcs.button_state_by_type(CommonButton::FaceSouth).value, 1000);
    session.apply_event(1, &PadEvent::ButtonReleased(VendorButton::South), &mut bcs, &mut store);
    assert_eq!(bcs.button_state_by_type(CommonButton::FaceSouth).value, 0);
    session.apply_event(1, &PadEvent::ButtonChanged(VendorButton::RightTrigger2, 350), &mut bcs, &mut store);
    assert_eq!(bcs.button_state_by_type(CommonButton::LegacyRT2).value, 350);
}

#[test]
fn right_stick_axes_publish_to_the_store() {
    let mut session = PollSession::new();
    let mut bcs = BasicControllerState::default();
    let mut store = ValueStore::new();
    let hx = store.insert("radial_x", StoredValue::I32(0));
    let hy = store.insert("radial_y", StoredValue::I32(0));

    session.apply_event(1, &PadEvent::AxisChanged(VendorAxis::RightStickX, 900), &mut bcs, &mut store);
    session.apply_event(1, &PadEvent::AxisChanged(VendorAxis::RightStickY, -400), &mut bcs, &mut store);
    session.apply_event(1, &PadEvent::AxisChanged(VendorAxis::LeftStickX, 123), &mut bcs, &mut store);

    assert_eq!(hx.load(&store).unwrap().as_i32(), Some(900));
    assert_eq!(hy.load(&store).unwrap().as_i32(), Some(-400));
    assert_eq!(bcs.analog_state_by_type(CommonAnalog::LeftStickX).value, 123);
}

#[test]
fn connection_events_leave_state_untouched() {
    let mut session = PollSession::new();
    let mut bcs = BasicControllerState::default();
    let mut store = ValueStore::new();
    session.apply_event(2, &PadEvent::Connected, &mut bcs, &mut store);
    assert_eq!(session.current_gamepad, Some(2));
    session.apply_event(3, &PadEvent::Disconnected, &mut bcs, &mut store);
    assert_eq!(session.current_gamepad, Some(3));
    for slot in &bcs.buttons {
        assert_eq!(slot.value, 0);
    }
}

#[test]
fn west_button_level_remap_is_edge_triggered() {
    let table = standard_zone_table();
    let bcs = BasicControllerState::default();
    let mut hid = HidState::new();
    // The west remap holds the h key down while the button is down, even
    // though the stick rests in the deadzone.
    let first = tick(&bcs, &table, &mut hid, true);
    assert_eq!(first, vec![KeyEvent { code: 35, value: 1 }]);
    let second = tick(&bcs, &table, &mut hid, true);
    assert!(second.is_empty());
    let third = tick(&bcs, &table, &mut hid, false);
    assert_eq!(third, vec![KeyEvent { code: 35, value: 0 }]);
    let fourth = tick(&bcs, &table, &mut hid, false);
    assert!(fourth.is_empty());
}
