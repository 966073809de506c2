//! Virtual HID emitter model: edge-triggered press/release emission with no
//! stuck keys and no duplicate press/release pairs.
//!
//! `HidState` tracks which key codes are currently held, from the emitter's
//! own event stream. Every poll tick re-asserts the whole zone layout —
//! releasing every zone key but the selected one, then pressing the selected
//! one — and `HidState` lets through exactly the events that change a key's
//! level, so re-asserting an unchanged selection emits nothing.

use vstd::prelude::*;
use crate::model::CommonButton;
use crate::radial::{ZoneTable, zone_codes, KEY_CODE_H};

verus! {

/// One synthetic key event: a key code and a level (1 press, 0 release).
#[derive(Copy, Clone, PartialEq, Eq, Structural, Debug)]
pub struct KeyEvent {
    pub code: u16,
    pub value: i32,
}

/// The held set after one key event is applied.
pub open spec fn apply_one(held: Set<u16>, e: KeyEvent) -> Set<u16> {
    if e.value == 1 {
        held.insert(e.code)
    } else {
        held.remove(e.code)
    }
}

/// No key code occurs twice.
pub open spec fn codes_distinct(codes: Seq<u16>) -> bool {
    forall|i: int, j: int| 0 <= i < j < codes.len() ==> codes[i] != codes[j]
}

/// Selection as a mathematical index.
pub open spec fn sel_int(s: Option<usize>) -> Option<int> {
    match s {
        Some(u) => Some(u as int),
        None => None,
    }
}

/// The held set after one zone tick: every zone key is held exactly when it
/// is the selected one, and keys outside the table keep their level.
pub open spec fn zone_held_after(held: Set<u16>, codes: Seq<u16>, sel: Option<int>) -> Set<u16> {
    Set::new(
        |c: u16|
            if codes.contains(c) {
                sel matches Some(i) && 0 <= i < codes.len() && codes[i] == c
            } else {
                held.contains(c)
            },
    )
}

/// The release events a zone tick lets through for the first `j` zones, in
/// table order: one release per non-selected zone key that is currently held.
pub open spec fn release_events_upto(
    held: Set<u16>,
    codes: Seq<u16>,
    sel: Option<int>,
    j: int,
) -> Seq<KeyEvent>
    decreases j,
{
    if j <= 0 {
        Seq::empty()
    } else {
        release_events_upto(held, codes, sel, j - 1) + (
        if held.contains(codes[j - 1]) && sel != Some(j - 1) {
            seq![(KeyEvent { code: codes[j - 1], value: 0 })]
        } else {
            Seq::empty()
        })
    }
}

/// The press event a zone tick lets through: the selected key, if one is
/// selected and it is not already held.
pub open spec fn press_event(held: Set<u16>, codes: Seq<u16>, sel: Option<int>) -> Seq<KeyEvent> {
    if sel matches Some(i) && 0 <= i < codes.len() && !held.contains(codes[i]) {
        seq![(KeyEvent { code: codes[sel->0], value: 1 })]
    } else {
        Seq::empty()
    }
}

/// The exact batch of logical key events one zone tick lets through: the
/// releases in table order, then the press of the selected key.
pub open spec fn zone_out(held: Set<u16>, codes: Seq<u16>, sel: Option<int>) -> Seq<KeyEvent> {
    release_events_upto(held, codes, sel, codes.len() as int) + press_event(held, codes, sel)
}

/// The virtual device's held-key ledger: which key codes are currently down,
/// as implied by the emitter's own event stream.
pub struct HidState {
    held: Vec<u16>,
}

impl View for HidState {
    type V = Set<u16>;

    /// The set of key codes currently held.
    closed spec fn view(&self) -> Set<u16> {
        Set::new(|c: u16| self.held@.contains(c))
    }
}

impl HidState {
    /// Internal invariant: no code is recorded twice.
    pub closed spec fn wf(self) -> bool {
        forall|i: int, j: int| 0 <= i < j < self.held@.len() ==> self.held@[i] != self.held@[j]
    }

    /// A ledger with no key held.
    pub fn new() -> (r: Self)
        ensures
            r.wf(),
            r@ == Set::<u16>::empty(),
    {
        let r = HidState { held: Vec::new() };
        proof {
            assert(r@ =~= Set::<u16>::empty());
        }
        r
    }

    fn find_code(&self, code: u16) -> (r: Option<usize>)
        ensures
            match r {
                Some(i) => i < self.held@.len() && self.held@[i as int] == code,
                None => !self.held@.contains(code),
            },
    {
        let n = self.held.len();
        let mut i: usize = 0;
        while i < n
            invariant
                i <= n,
                n == self.held@.len(),
                forall|j: int| 0 <= j < i ==> self.held@[j] != code,
            decreases n - i,
        {
            if self.held[i] == code {
                return Some(i);
            }
            i = i + 1;
        }
        None
    }

    /// Whether a key code is currently held.
    pub fn is_held(&self, code: u16) -> (r: bool)
        ensures
            r == self@.contains(code),
    {
        match self.find_code(code) {
            Some(_) => true,
            None => false,
        }
    }

    /// Apply one key event to the ledger. Returns whether the event changes
    /// the key's level — only such events count as logical keystrokes; a
    /// redundant press or release is a safe no-op.
    pub fn apply(&mut self, e: KeyEvent) -> (changed: bool)
        requires
            old(self).wf(),
            e.value == 0 || e.value == 1,
        ensures
            final(self).wf(),
            final(self)@ == apply_one(old(self)@, e),
            changed == (old(self)@.contains(e.code) != (e.value == 1)),
    {
        let ghost pre = self.held@;
        match self.find_code(e.code) {
            Some(i) => {
                if e.value == 1 {
                    proof {
                        assert(self@ =~= apply_one(old(self)@, e));
                    }
                    false
                } else {
                    self.held.remove(i);
                    proof {
                        let post = self.held@;
                        assert forall|a: int, b: int| 0 <= a < b < post.len() implies post[a]
                            != post[b] by {
                            let a0: int = if a < i { a } else { a + 1 };
                            let b0: int = if b < i { b } else { b + 1 };
                            assert(pre[a0] != pre[b0]);
                        }
                        assert forall|c: u16| post.contains(c) == (pre.contains(c) && c != e.code)
                            by {
                            if post.contains(c) {
                                let w = choose|t: int| 0 <= t < post.len() && post[t] == c;
                                let w0: int = if w < i { w } else { w + 1 };
                                assert(pre[w0] == c);
                                if c == e.code {
                                    assert(pre[w0] == pre[i as int]);
                                    assert(w0 == i);
                                    assert(false);
                                }
                            }
                            if pre.contains(c) && c != e.code {
                                let w = choose|t: int| 0 <= t < pre.len() && pre[t] == c;
                                if w < i {
                                    assert(post[w] == c);
                                } else {
                                    assert(w != i);
                                    assert(post[w - 1] == c);
                                }
                            }
                        }
                        assert(self@ =~= apply_one(old(self)@, e));
                    }
                    true
                }
            },
            None => {
                if e.value == 1 {
                    self.held.push(e.code);
                    proof {
                        let post = self.held@;
                        assert forall|a: int, b: int| 0 <= a < b < post.len() implies post[a]
                            != post[b] by {
                            if b < pre.len() {
                                assert(pre[a] != pre[b]);
                            } else {
                                assert(post[b] == e.code);
                                assert(!pre.contains(e.code));
                                assert(pre[a] != e.code);
                            }
                        }
                        assert forall|c: u16| post.contains(c) == (pre.contains(c) || c == e.code)
                            by {
                            if post.contains(c) {
                                let w = choose|t: int| 0 <= t < post.len() && post[t] == c;
                                if w < pre.len() {
                                    assert(pre[w] == c);
                                }
                            }
                            if pre.contains(c) {
                                let w = choose|t: int| 0 <= t < pre.len() && pre[t] == c;
                                assert(post[w] == c);
                            }
                            if c == e.code {
                                assert(post[post.len() - 1] == c);
                            }
                        }
                        assert(self@ =~= apply_one(old(self)@, e));
                    }
                    true
                } else {
                    proof {
                        assert(self@ =~= apply_one(old(self)@, e));
                    }
                    false
                }
            },
        }
    }
}

spec fn zone_released_upto(held: Set<u16>, codes: Seq<u16>, sel: Option<int>, j: int) -> Set<u16> {
    Set::new(
        |c: u16|
            held.contains(c) && !(exists|t: int|
                0 <= t < j && #[trigger] codes[t] == c && sel != Some(t)),
    )
}

impl HidState {
    /// One zone tick: release every zone key but the selected one, in table
    /// order, then press the selected one. The returned events are exactly
    /// the logical keystrokes this lets through — re-asserting an unchanged
    /// selection returns nothing.
    pub fn run_zone_tick(&mut self, table: &ZoneTable, selected: Option<usize>) -> (out: Vec<
        KeyEvent,
    >)
        requires
            old(self).wf(),
            table.wf(),
            selected matches Some(i) ==> i < table.zones@.len(),
        ensures
            final(self).wf(),
            final(self)@ == zone_held_after(
                old(self)@,
                zone_codes(table.zones@),
                sel_int(selected),
            ),
            out@ == zone_out(old(self)@, zone_codes(table.zones@), sel_int(selected)),
    {
        let ghost h0 = self@;
        let ghost codes = zone_codes(table.zones@);
        let ghost sel = sel_int(selected);
        proof {
            assert(codes_distinct(codes));
        }
        let n = table.zones.len();
        let mut out: Vec<KeyEvent> = Vec::new();
        let mut j: usize = 0;
        while j < n
            invariant
                j <= n,
                n == table.zones@.len(),
                table.wf(),
                codes == zone_codes(table.zones@),
                sel == sel_int(selected),
                selected matches Some(i) ==> i < n,
                self.wf(),
                self@ == zone_released_upto(h0, codes, sel, j as int),
                out@ == release_events_upto(h0, codes, sel, j as int),
            decreases n - j,
        {
            let is_selected = match selected {
                Some(i) => i == j,
                None => false,
            };
            let ghost cur = self@;
            if !is_selected {
                let code = table.zones[j].keycode;
                proof {
                    assert(codes[j as int] == code);
                    assert forall|t: int| 0 <= t < j implies codes[t] != code by {
                        assert(table.zones@[t].keycode != table.zones@[j as int].keycode);
                    }
                    assert(cur.contains(code) == h0.contains(code));
                }
                let e = KeyEvent { code, value: 0 };
                let changed = self.apply(e);
                if changed {
                    out.push(e);
                }
                proof {
                    assert forall|c: u16| self@.contains(c) == zone_released_upto(
                        h0,
                        codes,
                        sel,
                        j + 1,
                    ).contains(c) by {
                        if c == code {
                            assert(0 <= j < j + 1 && codes[j as int] == c && sel != Some(j as int));
                        } else {
                            if exists|t: int|
                                0 <= t < j + 1 && #[trigger] codes[t] == c && sel != Some(t) {
                                let t = choose|t: int|
                                    0 <= t < j + 1 && #[trigger] codes[t] == c && sel != Some(t);
                                assert(t < j);
                                assert(0 <= t < j && codes[t] == c && sel != Some(t));
                            }
                        }
                    }
                    assert(self@ =~= zone_released_upto(h0, codes, sel, j + 1));
                    assert(out@ =~= release_events_upto(h0, codes, sel, j + 1));
                }
            } else {
                proof {
                    assert forall|c: u16| cur.contains(c) == zone_released_upto(
                        h0,
                        codes,
                        sel,
                        j + 1,
                    ).contains(c) by {
                        if exists|t: int|
                            0 <= t < j + 1 && #[trigger] codes[t] == c && sel != Some(t) {
                            let t = choose|t: int|
                                0 <= t < j + 1 && #[trigger] codes[t] == c && sel != Some(t);
                            assert(t != j);
                            assert(0 <= t < j && codes[t] == c && sel != Some(t));
                        }
                    }
                    assert(cur =~= zone_released_upto(h0, codes, sel, j + 1));
                    assert(out@ =~= release_events_upto(h0, codes, sel, j + 1));
                }
            }
            j = j + 1;
        }
        if let Some(i) = selected {
            let code = table.zones[i].keycode;
            let ghost cur = self@;
            proof {
                assert(codes[i as int] == code);
                assert forall|t: int| 0 <= t < n && t != i implies codes[t] != code by {
                    if t < i {
                        assert(table.zones@[t].keycode != table.zones@[i as int].keycode);
                    } else {
                        assert(table.zones@[i as int].keycode != table.zones@[t].keycode);
                    }
                }
                assert forall|t: int|
                    0 <= t < n && #[trigger] codes[t] == code implies !(sel != Some(t)) by {
                    assert(t == i);
                }
                assert(cur.contains(code) == h0.contains(code));
            }
            let e = KeyEvent { code, value: 1 };
            let changed = self.apply(e);
            if changed {
                out.push(e);
            }
            proof {
                assert(out@ =~= zone_out(h0, codes, sel));
                assert forall|c: u16| self@.contains(c) == zone_held_after(
                    h0,
                    codes,
                    sel,
                ).contains(c) by {
                    if codes.contains(c) {
                        let u = choose|t: int| 0 <= t < codes.len() && #[trigger] codes[t] == c;
                        if u == i {
                            assert(self@.contains(c));
                        } else {
                            assert(codes[u] == c && sel != Some(u));
                            assert(c != code);
                            assert(!cur.contains(c));
                            assert forall|t: int|
                                0 <= t < codes.len() && #[trigger] codes[t] == c implies !(sel
                                == Some(t)) by {
                                if t != u {
                                    if t < u {
                                        assert(codes[t] != codes[u]);
                                    } else {
                                        assert(codes[u] != codes[t]);
                                    }
                                }
                            }
                        }
                    } else {
                        assert(c != code);
                        assert(cur.contains(c) == h0.contains(c)) by {
                            if exists|t: int|
                                0 <= t < n && #[trigger] codes[t] == c && sel != Some(t) {
                                let t = choose|t: int|
                                    0 <= t < n && #[trigger] codes[t] == c && sel != Some(t);
                                assert(codes.contains(c));
                            }
                        }
                    }
                }
                assert(self@ =~= zone_held_after(h0, codes, sel));
            }
        } else {
            proof {
                assert(out@ =~= zone_out(h0, codes, sel));
                assert forall|c: u16| self@.contains(c) == zone_held_after(
                    h0,
                    codes,
                    sel,
                ).contains(c) by {
                    if codes.contains(c) {
                        let u = choose|t: int| 0 <= t < codes.len() && #[trigger] codes[t] == c;
                        assert(0 <= u < n && codes[u] == c && sel != Some(u));
                        assert(!self@.contains(c));
                    } else {
                        if exists|t: int| 0 <= t < n && #[trigger] codes[t] == c && sel != Some(t) {
                            let t = choose|t: int|
                                0 <= t < n && #[trigger] codes[t] == c && sel != Some(t);
                            assert(codes.contains(c));
                        }
                    }
                }
                assert(self@ =~= zone_held_after(h0, codes, sel));
            }
        }
        out
    }
}

proof fn lemma_release_fixpoint(h: Set<u16>, codes: Seq<u16>, sel: Option<int>, j: int)
    requires
        codes_distinct(codes),
        sel matches Some(i) ==> 0 <= i < codes.len(),
        0 <= j <= codes.len(),
    ensures
        release_events_upto(zone_held_after(h, codes, sel), codes, sel, j) == Seq::<
            KeyEvent,
        >::empty(),
    decreases j,
{
    if j > 0 {
        lemma_release_fixpoint(h, codes, sel, j - 1);
        let h2 = zone_held_after(h, codes, sel);
        if h2.contains(codes[j - 1]) && sel != Some(j - 1) {
            assert(codes.contains(codes[j - 1]));
            let i = sel->0;
            assert(codes[i] == codes[j - 1]);
            if i < j - 1 {
                assert(codes[i] != codes[j - 1]);
            } else if i > j - 1 {
                assert(codes[j - 1] != codes[i]);
            }
            assert(false);
        }
        assert(release_events_upto(h2, codes, sel, j) =~= Seq::<KeyEvent>::empty());
    }
}

/// Law: zone emission is idempotent. Once the held set reflects a selection,
/// running the same selection again changes nothing and lets no further
/// logical keystroke through — no repeated press reaches the system as a
/// duplicate key-down.
pub proof fn lemma_zone_emission_idempotent(held: Set<u16>, codes: Seq<u16>, sel: Option<int>)
    requires
        codes_distinct(codes),
        sel matches Some(i) ==> 0 <= i < codes.len(),
    ensures
        zone_held_after(zone_held_after(held, codes, sel), codes, sel) == zone_held_after(
            held,
            codes,
            sel,
        ),
        zone_out(zone_held_after(held, codes, sel), codes, sel) == Seq::<KeyEvent>::empty(),
{
    let h2 = zone_held_after(held, codes, sel);
    lemma_release_fixpoint(held, codes, sel, codes.len() as int);
    match sel {
        Some(i) => {
            assert(codes.contains(codes[i]));
            assert(h2.contains(codes[i]));
        },
        None => {},
    }
    assert(press_event(h2, codes, sel) =~= Seq::<KeyEvent>::empty());
    assert(zone_out(h2, codes, sel) =~= Seq::<KeyEvent>::empty());
    assert forall|c: u16| zone_held_after(h2, codes, sel).contains(c) == h2.contains(c) by {}
    assert(zone_held_after(h2, codes, sel) =~= h2);
}

/// Law: inside the deadzone — no selection — a zone tick leaves no zone key
/// held: every key in the table ends up released.
pub proof fn lemma_deadzone_releases_all(held: Set<u16>, codes: Seq<u16>)
    ensures
        forall|t: int|
            0 <= t < codes.len() ==> !zone_held_after(held, codes, None).contains(
                #[trigger] codes[t],
            ),
{
    assert forall|t: int|
        0 <= t < codes.len() implies !zone_held_after(held, codes, None).contains(codes[t]) by {
        assert(codes.contains(codes[t]));
    }
}

/// The compiled-in level-triggered remap: the canonical button each poll
/// tick samples, mapped to the physical key it drives. Only the west face
/// button carries a remap; every other button has none.
pub open spec fn spec_button_remap(b: CommonButton) -> Option<u16> {
    match b {
        CommonButton::FaceWest => Some(KEY_CODE_H),
        _ => None,
    }
}

/// The physical key code a canonical button is remapped to, if any.
pub fn button_remap(b: CommonButton) -> (r: Option<u16>)
    ensures
        r == spec_button_remap(b),
{
    match b {
        CommonButton::FaceWest => Some(KEY_CODE_H),
        _ => None,
    }
}

} // verus!
