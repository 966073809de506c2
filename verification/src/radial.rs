//! Radial zone mapper: nearest-neighbor selection of a discrete key from a
//! continuous 2D stick vector.
//!
//! A zone table is an ordered sequence of key codes with representative unit
//! vectors spaced evenly around a circle. Selection first applies a cheap L1
//! deadzone gate; outside the deadzone the zone with the smallest squared
//! Euclidean distance to the stick vector wins, and ties resolve to the
//! earliest zone in table order.

use vstd::prelude::*;
use crate::valid_axis_value;

verus! {

/// One discrete angular sector: its emitted key code and its representative
/// unit vector in fixed-point thousandths.
#[derive(Copy, Clone, PartialEq, Eq, Structural, Debug)]
pub struct Zone {
    pub keycode: u16,
    pub ux: i32,
    pub uy: i32,
}

/// L1 radius of the center deadzone: selection happens only when
/// |x| + |y| exceeds this (0.5 in fixed-point thousandths).
pub const DEADZONE_L1: i32 = 500;

/// Initial best-distance threshold for the nearest-zone scan. Any reachable
/// squared distance between an in-range stick vector and an in-range zone
/// vector is at most 8_000_000, so the first zone examined always beats this
/// sentinel and no zone index is ever selected without a real comparison.
pub const ZONE_DIST2_SENTINEL: i64 = 16_000_000;

/// Magnitude of a mathematical integer.
pub open spec fn abs_int(v: int) -> int {
    if v < 0 { -v } else { v }
}

/// The stick vector is inside the center deadzone when its L1 norm does not
/// exceed `DEADZONE_L1`.
pub open spec fn in_deadzone(x: int, y: int) -> bool {
    abs_int(x) + abs_int(y) <= DEADZONE_L1
}

/// Squared Euclidean distance between the stick vector and a zone's unit
/// vector.
pub open spec fn dist2(z: Zone, x: int, y: int) -> int {
    (x - z.ux) * (x - z.ux) + (y - z.uy) * (y - z.uy)
}

/// The key codes of a zone sequence, in table order.
pub open spec fn zone_codes(zs: Seq<Zone>) -> Seq<u16> {
    zs.map_values(|z: Zone| z.keycode)
}

/// Index of the nearest zone among those from position `j` on, given that
/// `b` is the best index seen so far; only a strictly smaller distance
/// displaces the current best, so the earliest minimum wins.
pub open spec fn argmin_from(zs: Seq<Zone>, x: int, y: int, j: int, b: int) -> int
    decreases zs.len() - j,
{
    if j < 0 || j >= zs.len() {
        b
    } else if dist2(zs[j], x, y) < dist2(zs[b], x, y) {
        argmin_from(zs, x, y, j + 1, j)
    } else {
        argmin_from(zs, x, y, j + 1, b)
    }
}

/// The zone the mapper selects for a stick vector: none inside the deadzone
/// or when the table is empty, otherwise the first index of minimal squared
/// distance.
pub open spec fn spec_select(zs: Seq<Zone>, x: int, y: int) -> Option<int> {
    if in_deadzone(x, y) || zs.len() == 0 {
        None
    } else {
        Some(argmin_from(zs, x, y, 1, 0))
    }
}

proof fn lemma_argmin_props(zs: Seq<Zone>, x: int, y: int, j: int, b: int)
    requires
        0 <= b < j <= zs.len(),
        b < zs.len(),
        forall|t: int| 0 <= t < j ==> dist2(zs[b], x, y) <= dist2(#[trigger] zs[t], x, y),
        forall|t: int| 0 <= t < b ==> dist2(#[trigger] zs[t], x, y) > dist2(zs[b], x, y),
    ensures
        ({
            let r = argmin_from(zs, x, y, j, b);
            &&& 0 <= r < zs.len()
            &&& forall|t: int| 0 <= t < zs.len() ==> dist2(zs[r], x, y) <= dist2(
                #[trigger] zs[t],
                x,
                y,
            )
            &&& forall|t: int| 0 <= t < r ==> dist2(#[trigger] zs[t], x, y) > dist2(zs[r], x, y)
        }),
    decreases zs.len() - j,
{
    if j >= zs.len() {
    } else if dist2(zs[j], x, y) < dist2(zs[b], x, y) {
        lemma_argmin_props(zs, x, y, j + 1, j);
    } else {
        lemma_argmin_props(zs, x, y, j + 1, b);
    }
}

/// Law: outside the deadzone, over a nonempty table, the mapper selects the
/// zone whose unit vector minimizes the squared Euclidean distance to the
/// stick vector, and a tie resolves to the earliest such zone in table order.
pub proof fn lemma_select_nearest(zs: Seq<Zone>, x: int, y: int)
    requires
        !in_deadzone(x, y),
        zs.len() > 0,
    ensures
        ({
            let r = spec_select(zs, x, y);
            &&& r matches Some(i)
            &&& 0 <= r->0 < zs.len()
            &&& forall|t: int| 0 <= t < zs.len() ==> dist2(zs[r->0], x, y) <= dist2(
                #[trigger] zs[t],
                x,
                y,
            )
            &&& forall|t: int| 0 <= t < r->0 ==> dist2(#[trigger] zs[t], x, y) > dist2(
                zs[r->0],
                x,
                y,
            )
        }),
{
    lemma_argmin_props(zs, x, y, 1, 0);
}

/// Law: inside the deadzone the mapper selects no zone, whatever the table
/// holds.
pub proof fn lemma_select_deadzone(zs: Seq<Zone>, x: int, y: int)
    requires
        in_deadzone(x, y),
    ensures
        spec_select(zs, x, y) is None,
{
}

/// The immutable table of zones, built once at startup.
pub struct ZoneTable {
    pub zones: Vec<Zone>,
}

impl ZoneTable {
    /// Well-formedness: every unit vector lies within one fixed-point unit
    /// per component, and no key code appears twice.
    pub open spec fn wf(self) -> bool {
        &&& forall|i: int|
            0 <= i < self.zones.len() ==> valid_axis_value(#[trigger] self.zones[i].ux)
                && valid_axis_value(self.zones[i].uy)
        &&& forall|i: int, j: int|
            0 <= i < j < self.zones.len() ==> #[trigger] self.zones[i].keycode
                != #[trigger] self.zones[j].keycode
    }

    /// The key codes of the table in order: the closed set of keys the
    /// virtual device must be able to emit.
    pub fn key_codes(&self) -> (codes: Vec<u16>)
        ensures
            codes@ == zone_codes(self.zones@),
    {
        let mut codes: Vec<u16> = Vec::new();
        let n = self.zones.len();
        let mut i: usize = 0;
        while i < n
            invariant
                i <= n,
                n == self.zones.len(),
                codes@.len() == i,
                forall|j: int| 0 <= j < i ==> #[trigger] codes@[j] == self.zones[j].keycode,
            decreases n - i,
        {
            codes.push(self.zones[i].keycode);
            i = i + 1;
        }
        proof {
            assert(codes@ =~= zone_codes(self.zones@));
        }
        codes
    }
}

fn zone_dist2(x: i32, y: i32, z: &Zone) -> (d: i64)
    requires
        valid_axis_value(x),
        valid_axis_value(y),
        valid_axis_value(z.ux),
        valid_axis_value(z.uy),
    ensures
        d == dist2(*z, x as int, y as int),
        0 <= d < ZONE_DIST2_SENTINEL,
{
    let dx: i64 = x as i64 - z.ux as i64;
    let dy: i64 = y as i64 - z.uy as i64;
    proof {
        assert(0 <= dx * dx <= 4_000_000 && 0 <= dy * dy <= 4_000_000) by (nonlinear_arith)
            requires
                -2000 <= dx <= 2000,
                -2000 <= dy <= 2000,
        ;
    }
    dx * dx + dy * dy
}

/// Select the nearest zone for the stick vector (x, y), or none inside the
/// center deadzone or over an empty table. The scan starts from a sentinel
/// threshold larger than any reachable distance, so the first zone always
/// wins the first comparison, and only a strictly smaller distance displaces
/// the current best: ties resolve to the earliest zone in table order.
pub fn select_zone(table: &ZoneTable, x: i32, y: i32) -> (r: Option<usize>)
    requires
        table.wf(),
        valid_axis_value(x),
        valid_axis_value(y),
    ensures
        (r is None) <==> (in_deadzone(x as int, y as int) || table.zones@.len() == 0),
        (r is None) <==> (spec_select(table.zones@, x as int, y as int) is None),
        r matches Some(u) ==> {
            &&& spec_select(table.zones@, x as int, y as int) == Some(u as int)
            &&& u < table.zones@.len()
            &&& forall|t: int|
                0 <= t < table.zones@.len() ==> dist2(table.zones@[u as int], x as int, y as int)
                    <= dist2(#[trigger] table.zones@[t], x as int, y as int)
            &&& forall|t: int|
                0 <= t < u as int ==> dist2(#[trigger] table.zones@[t], x as int, y as int) > dist2(
                    table.zones@[u as int],
                    x as int,
                    y as int,
                )
        },
{
    let ax: i32 = if x < 0 { -x } else { x };
    let ay: i32 = if y < 0 { -y } else { y };
    if ax + ay <= DEADZONE_L1 {
        return None;
    }
    let n = table.zones.len();
    if n == 0 {
        return None;
    }
    let ghost zs = table.zones@;
    let mut best: usize = 0;
    let mut best_d: i64 = ZONE_DIST2_SENTINEL;
    let mut i: usize = 0;
    while i < n
        invariant
            i <= n,
            n == table.zones@.len(),
            table.zones@ == zs,
            n > 0,
            table.wf(),
            valid_axis_value(x),
            valid_axis_value(y),
            i == 0 ==> best == 0 && best_d == ZONE_DIST2_SENTINEL,
            i > 0 ==> {
                &&& best < i
                &&& best_d == dist2(zs[best as int], x as int, y as int)
                &&& best_d < ZONE_DIST2_SENTINEL
                &&& argmin_from(zs, x as int, y as int, i as int, best as int) == argmin_from(
                    zs,
                    x as int,
                    y as int,
                    1,
                    0,
                )
            },
        decreases n - i,
    {
        let d = zone_dist2(x, y, &table.zones[i]);
        if d < best_d {
            best = i;
            best_d = d;
        }
        i = i + 1;
    }
    proof {
        lemma_argmin_props(zs, x as int, y as int, 1, 0);
    }
    Some(best)
}

/// Key code of the letter key that zone 0 (angle 0) emits.
pub const KEY_CODE_H: u16 = 35;

/// Key code of the letter key that zone 1 emits.
pub const KEY_CODE_J: u16 = 36;

/// Key code of the letter key that zone 2 (angle pi/2) emits.
pub const KEY_CODE_K: u16 = 37;

/// Key code of the letter key that zone 3 emits.
pub const KEY_CODE_Y: u16 = 21;

/// Key code of the letter key that zone 4 (angle pi) emits.
pub const KEY_CODE_U: u16 = 22;

/// Key code of the letter key that zone 5 emits.
pub const KEY_CODE_I: u16 = 23;

/// Key code of the letter key that zone 6 (angle 3*pi/2) emits.
pub const KEY_CODE_O: u16 = 24;

/// Key code of the letter key that zone 7 emits.
pub const KEY_CODE_P: u16 = 25;

/// Fixed-point value of cos(pi/4): the diagonal component of the odd zones'
/// unit vectors.
pub const DIAGONAL_UNIT: i32 = 707;

/// The compiled-in radial layout: eight zones evenly spaced around the
/// circle, zone `i` at angle `2*pi*i/8`, carrying the key codes for the
/// letters h, j, k, y, u, i, o and p in that order.
pub fn standard_zone_table() -> (t: ZoneTable)
    ensures
        t.wf(),
        t.zones@.len() == 8,
        t.zones@[0].keycode == KEY_CODE_H && t.zones@[0].ux == 1000 && t.zones@[0].uy == 0,
        t.zones@[1].keycode == KEY_CODE_J && t.zones@[1].ux == DIAGONAL_UNIT && t.zones@[1].uy
            == DIAGONAL_UNIT,
        t.zones@[2].keycode == KEY_CODE_K && t.zones@[2].ux == 0 && t.zones@[2].uy == 1000,
        t.zones@[3].keycode == KEY_CODE_Y && t.zones@[3].ux == -DIAGONAL_UNIT && t.zones@[3].uy
            == DIAGONAL_UNIT,
        t.zones@[4].keycode == KEY_CODE_U && t.zones@[4].ux == -1000 && t.zones@[4].uy == 0,
        t.zones@[5].keycode == KEY_CODE_I && t.zones@[5].ux == -DIAGONAL_UNIT && t.zones@[5].uy
            == -DIAGONAL_UNIT,
        t.zones@[6].keycode == KEY_CODE_O && t.zones@[6].ux == 0 && t.zones@[6].uy == -1000,
        t.zones@[7].keycode == KEY_CODE_P && t.zones@[7].ux == DIAGONAL_UNIT && t.zones@[7].uy
            == -DIAGONAL_UNIT,
{
    let mut zones: Vec<Zone> = Vec::new();
    zones.push(Zone { keycode: KEY_CODE_H, ux: 1000, uy: 0 });
    zones.push(Zone { keycode: KEY_CODE_J, ux: DIAGONAL_UNIT, uy: DIAGONAL_UNIT });
    zones.push(Zone { keycode: KEY_CODE_K, ux: 0, uy: 1000 });
    zones.push(Zone { keycode: KEY_CODE_Y, ux: -DIAGONAL_UNIT, uy: DIAGONAL_UNIT });
    zones.push(Zone { keycode: KEY_CODE_U, ux: -1000, uy: 0 });
    zones.push(Zone { keycode: KEY_CODE_I, ux: -DIAGONAL_UNIT, uy: -DIAGONAL_UNIT });
    zones.push(Zone { keycode: KEY_CODE_O, ux: 0, uy: -1000 });
    zones.push(Zone { keycode: KEY_CODE_P, ux: DIAGONAL_UNIT, uy: -DIAGONAL_UNIT });
    ZoneTable { zones }
}

} // verus!
