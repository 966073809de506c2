use padmixer::radial::{Zone, ZoneTable, select_zone, standard_zone_table};

#[test]
fn deadzone_selects_no_zone() {
    let table = standard_zone_table();
    assert_eq!(select_zone(&table, 0, 0), None);
    assert_eq!(select_zone(&table, 250, 250), None);
    assert_eq!(select_zone(&table, -300, 200), None);
    assert_eq!(select_zone(&table, 500, 0), None);
    assert_eq!(select_zone(&table, 0, -500), None);
}

#[test]
fn just_outside_deadzone_selects() {
    let table = standard_zone_table();
    assert_eq!(select_zone(&table, 501, 0), Some(0));
    assert_eq!(select_zone(&table, 0, 501), Some(2));
}

#[test]
fn eight_zones_select_by_angle() {
    let table = standard_zone_table();
    assert_eq!(select_zone(&table, 1000, 0), Some(0));
    assert_eq!(select_zone(&table, 700, 700), Some(1));
    assert_eq!(select_zone(&table, 0, 1000), Some(2));
    assert_eq!(select_zone(&table, -700, 700), Some(3));
    assert_eq!(select_zone(&table, -1000, 0), Some(4));
    assert_eq!(select_zone(&table, -700, -700), Some(5));
    assert_eq!(select_zone(&table, 0, -1000), Some(6));
    assert_eq!(select_zone(&table, 700, -700), Some(7));
}

#[test]
fn ties_resolve_to_earliest_zone() {
    let table = ZoneTable {
        zones: vec![
            Zone { keycode: 1, ux: 1000, uy: 0 },
            Zone { keycode: 2, ux: 0, uy: 1000 },
        ],
    };
    // (600, 600) is equidistant from both unit vectors.
    assert_eq!(select_zone(&table, 600, 600), Some(0));
}

#[test]
fn empty_table_selects_no_zone() {
    let table = ZoneTable { zones: Vec::new() };
    assert_eq!(select_zone(&table, 1000, 0), None);
}

#[test]
fn key_codes_follow_table_order() {
    let table = standard_zone_table();
    assert_eq!(table.key_codes(), vec![35, 36, 37, 21, 22, 23, 24, 25]);
}
