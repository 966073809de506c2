use padmixer::emitter::{HidState, KeyEvent, button_remap};
use padmixer::model::CommonButton;
use padmixer::radial::standard_zone_table;

#[test]
fn apply_lets_only_level_changes_through() {
    let mut hid = HidState::new();
    let press = KeyEvent { code: 35, value: 1 };
    let release = KeyEvent { code: 35, value: 0 };
    assert!(hid.apply(press));
    assert!(!hid.apply(press));
    assert!(hid.is_held(35));
    assert!(hid.apply(release));
    assert!(!hid.apply(release));
    assert!(!hid.is_held(35));
}

#[test]
fn zone_tick_presses_selected_key() {
    let table = standard_zone_table();
    let mut hid = HidState::new();
    let out = hid.run_zone_tick(&table, Some(0));
    assert_eq!(out, vec![KeyEvent { code: 35, value: 1 }]);
    assert!(hid.is_held(35));
}

#[test]
fn second_tick_with_same_selection_emits_nothing() {
    let table = standard_zone_table();
    let mut hid = HidState::new();
    let first = hid.run_zone_tick(&table, Some(3));
    assert_eq!(first, vec![KeyEvent { code: 21, value: 1 }]);
    let second = hid.run_zone_tick(&table, Some(3));
    assert!(second.is_empty());
    let third = hid.run_zone_tick(&table, Some(3));
    assert!(third.is_empty());
    assert!(hid.is_held(21));
}

#[test]
fn changing_selection_releases_old_and_presses_new() {
    let table = standard_zone_table();
    let mut hid = HidState::new();
    hid.run_zone_tick(&table, Some(0));
    let out = hid.run_zone_tick(&table, Some(1));
    assert_eq!(
        out,
        vec![KeyEvent { code: 35, value: 0 }, KeyEvent { code: 36, value: 1 }]
    );
    assert!(!hid.is_held(35));
    assert!(hid.is_held(36));
}

#[test]
fn no_selection_releases_every_zone_key() {
    let table = standard_zone_table();
    let mut hid = HidState::new();
    hid.run_zone_tick(&table, Some(2));
    let out = hid.run_zone_tick(&table, None);
    assert_eq!(out, vec![KeyEvent { code: 37, value: 0 }]);
    for code in table.key_codes() {
        assert!(!hid.is_held(code));
    }
    let again = hid.run_zone_tick(&table, None);
    assert!(again.is_empty());
}

#[test]
fn zone_tick_leaves_foreign_keys_alone() {
    let table = standard_zone_table();
    let mut hid = HidState::new();
    hid.apply(KeyEvent { code: 200, value: 1 });
    hid.run_zone_tick(&table, Some(0));
    hid.run_zone_tick(&table, None);
    assert!(hid.is_held(200));
}

#[test]
fn west_face_button_maps_to_the_h_key() {
    assert_eq!(button_remap(CommonButton::FaceWest), Some(35));
    assert_eq!(button_remap(CommonButton::FaceSouth), None);
    assert_eq!(button_remap(CommonButton::Unknown), None);
}
