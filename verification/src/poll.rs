//! Polling-loop core: the decision step of the input thread.
//!
//! The surrounding loop — blocking on the device event queue, sampling the
//! gamepad, writing to the virtual device — is plain I/O and lives outside
//! the library. It hands every drained event to `apply_event`, which updates
//! the session, the canonical model and the value store, and then calls
//! `tick`, which turns the latest snapshot into the key events to emit.

use vstd::prelude::*;
use crate::valid_axis_value;
use crate::model::{BasicControllerState, CommonAnalog, button_updated, analog_updated};
use crate::normalize::{VendorAxis, VendorButton, axis_to_bcs, button_to_bcs, spec_axis_to_bcs,
    spec_button_to_bcs};
use crate::store::{StoredValue, ValueStore};
use crate::radial::{ZoneTable, spec_select, select_zone, zone_codes, KEY_CODE_H};
use crate::emitter::{HidState, KeyEvent, codes_distinct, sel_int};

verus! {

/// One event drained from the input-device queue, already reduced to plain
/// values: vendor identifiers and fixed-point magnitudes.
#[derive(Copy, Clone, PartialEq, Eq, Structural, Debug)]
pub enum PadEvent {
    ButtonPressed(VendorButton),
    ButtonRepeated(VendorButton),
    ButtonReleased(VendorButton),
    ButtonChanged(VendorButton, i32),
    AxisChanged(VendorAxis, i32),
    Connected,
    Disconnected,
    Dropped,
}

/// Any magnitude the event carries lies within the fixed-point unit range.
pub open spec fn event_value_ok(e: PadEvent) -> bool {
    match e {
        PadEvent::ButtonChanged(_, v) => valid_axis_value(v),
        PadEvent::AxisChanged(_, v) => valid_axis_value(v),
        _ => true,
    }
}

/// Connection state of the polling loop: no gamepad tracked yet, or the
/// identifier of the gamepad bound as current.
pub struct PollSession {
    pub current_gamepad: Option<u64>,
}

impl PollSession {
    /// A session with no gamepad bound.
    pub fn new() -> (r: Self)
        ensures
            r.current_gamepad is None,
    {
        PollSession { current_gamepad: None }
    }

    /// Apply one drained event: bind the reporting gamepad as current,
    /// normalize the identifier and update the canonical model, and publish
    /// the right stick's axes to the value store under "radial_x" and
    /// "radial_y". Events from any device are accepted once one has been
    /// seen.
    pub fn apply_event(
        &mut self,
        id: u64,
        event: &PadEvent,
        bcs: &mut BasicControllerState,
        store: &mut ValueStore,
    )
        requires
            event_value_ok(*event),
            old(store).wf(),
        ensures
            final(self).current_gamepad == Some(id),
            final(store).wf(),
            old(bcs).wf() ==> final(bcs).wf(),
            match *event {
                PadEvent::ButtonPressed(b) => button_updated(
                    *old(bcs),
                    *final(bcs),
                    spec_button_to_bcs(b),
                    1000,
                ) && final(store)@ == old(store)@,
                PadEvent::ButtonRepeated(b) => button_updated(
                    *old(bcs),
                    *final(bcs),
                    spec_button_to_bcs(b),
                    1000,
                ) && final(store)@ == old(store)@,
                PadEvent::ButtonReleased(b) => button_updated(
                    *old(bcs),
                    *final(bcs),
                    spec_button_to_bcs(b),
                    0,
                ) && final(store)@ == old(store)@,
                PadEvent::ButtonChanged(b, v) => button_updated(
                    *old(bcs),
                    *final(bcs),
                    spec_button_to_bcs(b),
                    v,
                ) && final(store)@ == old(store)@,
                PadEvent::AxisChanged(a, v) => {
                    &&& analog_updated(*old(bcs), *final(bcs), spec_axis_to_bcs(a), v)
                    &&& (a == VendorAxis::RightStickX ==> final(store)@ == old(store)@.insert(
                        "radial_x"@,
                        StoredValue::I32(v),
                    ))
                    &&& (a == VendorAxis::RightStickY ==> final(store)@ == old(store)@.insert(
                        "radial_y"@,
                        StoredValue::I32(v),
                    ))
                    &&& (a != VendorAxis::RightStickX && a != VendorAxis::RightStickY
                        ==> final(store)@ == old(store)@)
                },
                _ => *final(bcs) == *old(bcs) && final(store)@ == old(store)@,
            },
    {
        self.current_gamepad = Some(id);
        match event {
            PadEvent::ButtonPressed(b) => {
                bcs.try_update_button(button_to_bcs(*b), 1000);
            },
            PadEvent::ButtonRepeated(b) => {
                bcs.try_update_button(button_to_bcs(*b), 1000);
            },
            PadEvent::ButtonReleased(b) => {
                bcs.try_update_button(button_to_bcs(*b), 0);
            },
            PadEvent::ButtonChanged(b, v) => {
                bcs.try_update_button(button_to_bcs(*b), *v);
            },
            PadEvent::AxisChanged(a, v) => {
                if *a == VendorAxis::RightStickX {
                    let mut handle = store.get("radial_x");
                    handle.replace(StoredValue::I32(*v), store);
                } else if *a == VendorAxis::RightStickY {
                    let mut handle = store.get("radial_y");
                    handle.replace(StoredValue::I32(*v), store);
                }
                bcs.try_update_analog(axis_to_bcs(*a), *v);
            },
            PadEvent::Connected => {},
            PadEvent::Disconnected => {},
            PadEvent::Dropped => {},
        }
    }
}

/// Whether `sel` picks the zone at position `c` holds in the table.
pub open spec fn is_selected_code(codes: Seq<u16>, sel: Option<int>, c: u16) -> bool {
    sel matches Some(i) && 0 <= i < codes.len() && codes[i] == c
}

/// Whether the zone key at position `t` should be held this tick: it is the
/// selected zone, or it is the west remap key and the west button is down.
pub open spec fn desired_at(codes: Seq<u16>, sel: Option<int>, west: bool, t: int) -> bool {
    sel == Some(t) || (codes[t] == KEY_CODE_H && west)
}

/// The level every key should have after this tick: a zone key is held
/// exactly when it should be per `desired_at`; the west remap key, when it
/// is no zone key, is held exactly when the west button is down; every other
/// key keeps its level.
pub open spec fn tick_held_after(
    held: Set<u16>,
    codes: Seq<u16>,
    sel: Option<int>,
    west: bool,
) -> Set<u16> {
    Set::new(
        |c: u16|
            if c == KEY_CODE_H {
                west || is_selected_code(codes, sel, c)
            } else if codes.contains(c) {
                is_selected_code(codes, sel, c)
            } else {
                held.contains(c)
            },
    )
}

/// The releases a tick lets through for the first `j` zone keys, in table
/// order: one per held zone key that should not stay held.
pub open spec fn tick_releases_upto(
    held: Set<u16>,
    codes: Seq<u16>,
    sel: Option<int>,
    west: bool,
    j: int,
) -> Seq<KeyEvent>
    decreases j,
{
    if j <= 0 {
        Seq::empty()
    } else {
        tick_releases_upto(held, codes, sel, west, j - 1) + (
        if held.contains(codes[j - 1]) && !desired_at(codes, sel, west, j - 1) {
            seq![(KeyEvent { code: codes[j - 1], value: 0 })]
        } else {
            Seq::empty()
        })
    }
}

/// The release of the west remap key when it stands outside the zone table,
/// the west button is up, and the key is held.
pub open spec fn west_release(held: Set<u16>, codes: Seq<u16>, west: bool) -> Seq<KeyEvent> {
    if !west && !codes.contains(KEY_CODE_H) && held.contains(KEY_CODE_H) {
        seq![(KeyEvent { code: KEY_CODE_H, value: 0 })]
    } else {
        Seq::empty()
    }
}

/// The presses a tick lets through: the selected zone key if it was not
/// already held, then the west remap key if the west button is down, the key
/// was not already held and the zone press did not just press it.
pub open spec fn tick_presses(
    held: Set<u16>,
    codes: Seq<u16>,
    sel: Option<int>,
    west: bool,
) -> Seq<KeyEvent> {
    (if sel matches Some(i) && 0 <= i < codes.len() && !held.contains(codes[i]) {
        seq![(KeyEvent { code: codes[sel->0], value: 1 })]
    } else {
        Seq::empty()
    }) + (
    if west && !held.contains(KEY_CODE_H) && !is_selected_code(codes, sel, KEY_CODE_H) {
        seq![(KeyEvent { code: KEY_CODE_H, value: 1 })]
    } else {
        Seq::empty()
    })
}

/// The exact batch of logical key events one tick lets through: zone
/// releases in table order, then the west key's release if it is due, then
/// the presses.
pub open spec fn tick_out(
    held: Set<u16>,
    codes: Seq<u16>,
    sel: Option<int>,
    west: bool,
) -> Seq<KeyEvent> {
    tick_releases_upto(held, codes, sel, west, codes.len() as int) + west_release(held, codes, west)
        + tick_presses(held, codes, sel, west)
}

spec fn tick_released_upto(
    held: Set<u16>,
    codes: Seq<u16>,
    sel: Option<int>,
    west: bool,
    j: int,
) -> Set<u16> {
    Set::new(
        |c: u16|
            held.contains(c) && !(exists|t: int|
                0 <= t < j && #[trigger] codes[t] == c && !desired_at(codes, sel, west, t)),
    )
}

fn table_has_code(table: &ZoneTable, code: u16) -> (r: bool)
    ensures
        r == zone_codes(table.zones@).contains(code),
{
    let n = table.zones.len();
    let mut i: usize = 0;
    while i < n
        invariant
            i <= n,
            n == table.zones@.len(),
            forall|j: int| 0 <= j < i ==> #[trigger] table.zones@[j].keycode != code,
        decreases n - i,
    {
        if table.zones[i].keycode == code {
            proof {
                assert(zone_codes(table.zones@)[i as int] == code);
            }
            return true;
        }
        i = i + 1;
    }
    proof {
        if zone_codes(table.zones@).contains(code) {
            let w = choose|t: int|
                0 <= t < zone_codes(table.zones@).len() && zone_codes(table.zones@)[t] == code;
            assert(table.zones@[w].keycode == code);
        }
    }
    false
}

/// One poll tick over the latest snapshot: the radial zone pass over the
/// right stick and the level-triggered west remap (sampled per frame, not
/// event-driven), asserted together as one desired level per key — the
/// releases in table order first, then the presses. The returned events are
/// exactly the logical keystrokes this tick lets through; re-running a tick
/// on an unchanged snapshot returns nothing.
pub fn tick(
    bcs: &BasicControllerState,
    table: &ZoneTable,
    hid: &mut HidState,
    west_pressed: bool,
) -> (out: Vec<KeyEvent>)
    requires
        bcs.wf(),
        table.wf(),
        old(hid).wf(),
    ensures
        final(hid).wf(),
        ({
            let x = bcs.spec_read_analog(CommonAnalog::RightStickX) as int;
            let y = bcs.spec_read_analog(CommonAnalog::RightStickY) as int;
            let sel = spec_select(table.zones@, x, y);
            let codes = zone_codes(table.zones@);
            &&& final(hid)@ == tick_held_after(old(hid)@, codes, sel, west_pressed)
            &&& out@ == tick_out(old(hid)@, codes, sel, west_pressed)
        }),
{
    let ghost h0 = hid@;
    let x = bcs.analog_state_by_type(CommonAnalog::RightStickX).value;
    let y = bcs.analog_state_by_type(CommonAnalog::RightStickY).value;
    let sel = select_zone(table, x, y);
    let ghost codes = zone_codes(table.zones@);
    let ghost gsel = sel_int(sel);
    proof {
        assert(gsel == spec_select(table.zones@, x as int, y as int));
        assert(codes_distinct(codes));
    }
    let mut out: Vec<KeyEvent> = Vec::new();
    let n = table.zones.len();
    let mut j: usize = 0;
    while j < n
        invariant
            j <= n,
            n == table.zones@.len(),
            table.wf(),
            codes == zone_codes(table.zones@),
            sel_int(sel) == gsel,
            sel matches Some(u) ==> u < n,
            hid.wf(),
            hid@ == tick_released_upto(h0, codes, gsel, west_pressed, j as int),
            out@ == tick_releases_upto(h0, codes, gsel, west_pressed, j as int),
        decreases n - j,
    {
        let code = table.zones[j].keycode;
        let zone_selected = match sel {
            Some(i) => i == j,
            None => false,
        };
        let desired = zone_selected || (west_pressed && code == KEY_CODE_H);
        let ghost cur = hid@;
        proof {
            assert(codes[j as int] == code);
            assert(desired == desired_at(codes, gsel, west_pressed, j as int));
            assert forall|t: int| 0 <= t < j implies codes[t] != code by {
                assert(table.zones@[t].keycode != table.zones@[j as int].keycode);
            }
            assert(cur.contains(code) == h0.contains(code));
        }
        if !desired {
            let e = KeyEvent { code, value: 0 };
            let changed = hid.apply(e);
            if changed {
                out.push(e);
            }
            proof {
                assert forall|c: u16| hid@.contains(c) == tick_released_upto(
                    h0,
                    codes,
                    gsel,
                    west_pressed,
                    j + 1,
                ).contains(c) by {
                    if c == code {
                        assert(0 <= j < j + 1 && codes[j as int] == c && !desired_at(
                            codes,
                            gsel,
                            west_pressed,
                            j as int,
                        ));
                    } else if exists|t: int|
                        0 <= t < j + 1 && #[trigger] codes[t] == c && !desired_at(
                            codes,
                            gsel,
                            west_pressed,
                            t,
                        ) {
                        let t = choose|t: int|
                            0 <= t < j + 1 && #[trigger] codes[t] == c && !desired_at(
                                codes,
                                gsel,
                                west_pressed,
                                t,
                            );
                        assert(t < j);
                        assert(0 <= t < j && codes[t] == c && !desired_at(
                            codes,
                            gsel,
                            west_pressed,
                            t,
                        ));
                    }
                }
                assert(hid@ =~= tick_released_upto(h0, codes, gsel, west_pressed, j + 1));
                assert(out@ =~= tick_releases_upto(h0, codes, gsel, west_pressed, j + 1));
            }
        } else {
            proof {
                assert forall|c: u16| cur.contains(c) == tick_released_upto(
                    h0,
                    codes,
                    gsel,
                    west_pressed,
                    j + 1,
                ).contains(c) by {
                    if exists|t: int|
                        0 <= t < j + 1 && #[trigger] codes[t] == c && !desired_at(
                            codes,
                            gsel,
                            west_pressed,
                            t,
                        ) {
                        let t = choose|t: int|
                            0 <= t < j + 1 && #[trigger] codes[t] == c && !desired_at(
                                codes,
                                gsel,
                                west_pressed,
                                t,
                            );
                        assert(t != j);
                        assert(0 <= t < j && codes[t] == c && !desired_at(
                            codes,
                            gsel,
                            west_pressed,
                            t,
                        ));
                    }
                }
                assert(cur =~= tick_released_upto(h0, codes, gsel, west_pressed, j + 1));
                assert(out@ =~= tick_releases_upto(h0, codes, gsel, west_pressed, j + 1));
            }
        }
        j = j + 1;
    }
    let ghost rel_all = hid@;
    // The west remap key, when it is no zone key, carries the sampled level
    // alone: release it here when the button is up.
    let west_outside = !west_pressed && !table_has_code(table, KEY_CODE_H);
    if west_outside {
        let ghost cur = hid@;
        proof {
            if exists|t: int|
                0 <= t < n && #[trigger] codes[t] == KEY_CODE_H && !desired_at(
                    codes,
                    gsel,
                    west_pressed,
                    t,
                ) {
                let t = choose|t: int|
                    0 <= t < n && #[trigger] codes[t] == KEY_CODE_H && !desired_at(
                        codes,
                        gsel,
                        west_pressed,
                        t,
                    );
                assert(codes.contains(KEY_CODE_H));
            }
            assert(cur.contains(KEY_CODE_H) == h0.contains(KEY_CODE_H));
        }
        let e = KeyEvent { code: KEY_CODE_H, value: 0 };
        let changed = hid.apply(e);
        if changed {
            out.push(e);
        }
    }
    let ghost base = hid@;
    proof {
        assert(base == (if west_outside {
            rel_all.remove(KEY_CODE_H)
        } else {
            rel_all
        }));
        assert(out@ =~= tick_releases_upto(h0, codes, gsel, west_pressed, n as int)
            + west_release(h0, codes, west_pressed));
    }
    // Press pass: the selected zone key first, then the west remap key.
    if let Some(i) = sel {
        let code = table.zones[i].keycode;
        let ghost cur = hid@;
        proof {
            assert(codes[i as int] == code);
            assert forall|t: int|
                0 <= t < n && #[trigger] codes[t] == code implies desired_at(
                codes,
                gsel,
                west_pressed,
                t,
            ) by {
                if t < i {
                    assert(table.zones@[t].keycode != table.zones@[i as int].keycode);
                } else if t > i {
                    assert(table.zones@[i as int].keycode != table.zones@[t].keycode);
                }
            }
            assert(rel_all.contains(code) == h0.contains(code));
            if west_outside {
                assert(codes.contains(KEY_CODE_H) == false);
                assert(code != KEY_CODE_H);
            }
            assert(cur.contains(code) == h0.contains(code));
        }
        let e = KeyEvent { code, value: 1 };
        let changed = hid.apply(e);
        if changed {
            out.push(e);
        }
    }
    let ghost after_zone_press = hid@;
    if west_pressed {
        let ghost cur = hid@;
        proof {
            assert forall|t: int|
                0 <= t < n && #[trigger] codes[t] == KEY_CODE_H implies desired_at(
                codes,
                gsel,
                west_pressed,
                t,
            ) by {}
            assert(rel_all.contains(KEY_CODE_H) == h0.contains(KEY_CODE_H));
            assert(cur.contains(KEY_CODE_H) == (h0.contains(KEY_CODE_H) || is_selected_code(
                codes,
                gsel,
                KEY_CODE_H,
            ))) by {
                match gsel {
                    Some(i) => {
                        if codes[i] == KEY_CODE_H {
                            assert(after_zone_press.contains(KEY_CODE_H));
                        } else {
                            assert(after_zone_press.contains(KEY_CODE_H) == rel_all.contains(
                                KEY_CODE_H,
                            ));
                        }
                    },
                    None => {},
                }
            }
        }
        let e = KeyEvent { code: KEY_CODE_H, value: 1 };
        let changed = hid.apply(e);
        if changed {
            out.push(e);
        }
    }
    proof {
        assert(out@ =~= tick_out(h0, codes, gsel, west_pressed));
        assert forall|c: u16| hid@.contains(c) == tick_held_after(
            h0,
            codes,
            gsel,
            west_pressed,
        ).contains(c) by {
            if codes.contains(c) {
                let u = choose|t: int| 0 <= t < codes.len() && #[trigger] codes[t] == c;
                assert forall|t: int| 0 <= t < n && #[trigger] codes[t] == c implies t == u by {
                    if t < u {
                        assert(codes[t] != codes[u]);
                    } else if t > u {
                        assert(codes[u] != codes[t]);
                    }
                }
                if !desired_at(codes, gsel, west_pressed, u) {
                    assert(0 <= u < n && codes[u] == c && !desired_at(
                        codes,
                        gsel,
                        west_pressed,
                        u,
                    ));
                    assert(!rel_all.contains(c));
                } else {
                    assert(rel_all.contains(c) == h0.contains(c));
                }
            } else {
                if exists|t: int|
                    0 <= t < n && #[trigger] codes[t] == c && !desired_at(
                        codes,
                        gsel,
                        west_pressed,
                        t,
                    ) {
                    let t = choose|t: int|
                        0 <= t < n && #[trigger] codes[t] == c && !desired_at(
                            codes,
                            gsel,
                            west_pressed,
                            t,
                        );
                    assert(codes.contains(c));
                }
                assert(rel_all.contains(c) == h0.contains(c));
            }
        }
        assert(hid@ =~= tick_held_after(h0, codes, gsel, west_pressed));
    }
    out
}

proof fn lemma_tick_releases_fixpoint(
    h: Set<u16>,
    codes: Seq<u16>,
    sel: Option<int>,
    west: bool,
    j: int,
)
    requires
        codes_distinct(codes),
        sel matches Some(i) ==> 0 <= i < codes.len(),
        0 <= j <= codes.len(),
    ensures
        tick_releases_upto(tick_held_after(h, codes, sel, west), codes, sel, west, j) == Seq::<
            KeyEvent,
        >::empty(),
    decreases j,
{
    if j > 0 {
        lemma_tick_releases_fixpoint(h, codes, sel, west, j - 1);
        let h2 = tick_held_after(h, codes, sel, west);
        let c = codes[j - 1];
        if h2.contains(c) && !desired_at(codes, sel, west, j - 1) {
            assert(codes.contains(c));
            if c == KEY_CODE_H {
                if west {
                    assert(desired_at(codes, sel, west, j - 1));
                } else {
                    assert(is_selected_code(codes, sel, c));
                    let i = sel->0;
                    if i < j - 1 {
                        assert(codes[i] != codes[j - 1]);
                    } else if i > j - 1 {
                        assert(codes[j - 1] != codes[i]);
                    }
                    assert(desired_at(codes, sel, west, j - 1));
                }
            } else {
                assert(is_selected_code(codes, sel, c));
                let i = sel->0;
                if i < j - 1 {
                    assert(codes[i] != codes[j - 1]);
                } else if i > j - 1 {
                    assert(codes[j - 1] != codes[i]);
                }
                assert(desired_at(codes, sel, west, j - 1));
            }
            assert(false);
        }
        assert(tick_releases_upto(h2, codes, sel, west, j) =~= Seq::<KeyEvent>::empty());
    }
}

/// Law: a whole poll tick is idempotent. Once the held keys reflect a
/// selection and a sampled west level, re-running the tick with the same
/// selection and level changes nothing and lets no further logical keystroke
/// through.
pub proof fn lemma_tick_idempotent(h: Set<u16>, codes: Seq<u16>, sel: Option<int>, west: bool)
    requires
        codes_distinct(codes),
        sel matches Some(i) ==> 0 <= i < codes.len(),
    ensures
        tick_held_after(tick_held_after(h, codes, sel, west), codes, sel, west) == tick_held_after(
            h,
            codes,
            sel,
            west,
        ),
        tick_out(tick_held_after(h, codes, sel, west), codes, sel, west) == Seq::<
            KeyEvent,
        >::empty(),
{
    let h2 = tick_held_after(h, codes, sel, west);
    lemma_tick_releases_fixpoint(h, codes, sel, west, codes.len() as int);
    match sel {
        Some(i) => {
            assert(codes.contains(codes[i]));
            assert(h2.contains(codes[i]));
        },
        None => {},
    }
    assert(west_release(h2, codes, west) =~= Seq::<KeyEvent>::empty());
    assert(tick_presses(h2, codes, sel, west) =~= Seq::<KeyEvent>::empty());
    assert(tick_out(h2, codes, sel, west) =~= Seq::<KeyEvent>::empty());
    assert forall|c: u16| tick_held_after(h2, codes, sel, west).contains(c) == h2.contains(c) by {}
    assert(tick_held_after(h2, codes, sel, west) =~= h2);
}

} // verus!
