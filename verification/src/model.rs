//! Canonical controller model: device-agnostic identifiers for buttons and
//! axes, and a fully populated snapshot of their current values.
//!
//! Values are fixed-point thousandths (see `AXIS_UNIT`): buttons are 0 or
//! 1000 (fractional for pressure-sensitive triggers), sticks lie in
//! [-1000, 1000].

use vstd::prelude::*;
use crate::valid_axis_value;

verus! {

/// Canonical axis identifiers: the stable vocabulary the pipeline programs
/// against. `Unknown` is the sentinel for vendor axes without a mapping.
#[derive(Copy, Clone, PartialEq, Eq, Structural, Debug)]
pub enum CommonAnalog {
    LeftStickX,
    LeftStickY,
    LeftLever,
    RightStickX,
    RightStickY,
    RightLever,
    DPadX,
    DPadY,
    Unknown,
}

/// Canonical button identifiers, with an `Unknown` sentinel.
#[derive(Copy, Clone, PartialEq, Eq, Structural, Debug)]
pub enum CommonButton {
    LeftStickPress,
    RightStickPress,
    LeftShoulder,
    RightShoulder,
    FaceSouth,
    FaceEast,
    FaceWest,
    FaceNorth,
    DPadSouth,
    DPadEast,
    DPadWest,
    DPadNorth,
    Start,
    Select,
    Guide,
    LegacyC,
    LegacyZ,
    LegacyLT,
    LegacyLT2,
    LegacyRT,
    LegacyRT2,
    Unknown,
}

/// One analog slot: a canonical kind and its current fixed-point value.
#[derive(Copy, Clone, PartialEq, Eq, Structural, Debug)]
pub struct StateAnalog {
    pub ty: CommonAnalog,
    pub value: i32,
}

/// One button slot: a canonical kind and its current fixed-point value.
#[derive(Copy, Clone, PartialEq, Eq, Structural, Debug)]
pub struct StateButton {
    pub ty: CommonButton,
    pub value: i32,
}

/// Number of canonical analog kinds.
pub const ANALOG_COUNT: usize = 9;

/// Number of canonical button kinds.
pub const BUTTON_COUNT: usize = 22;

/// The slot index that holds a given analog kind in a well-formed state.
pub open spec fn analog_index(a: CommonAnalog) -> int {
    match a {
        CommonAnalog::LeftStickX => 0,
        CommonAnalog::LeftStickY => 1,
        CommonAnalog::LeftLever => 2,
        CommonAnalog::RightStickX => 3,
        CommonAnalog::RightStickY => 4,
        CommonAnalog::RightLever => 5,
        CommonAnalog::DPadX => 6,
        CommonAnalog::DPadY => 7,
        CommonAnalog::Unknown => 8,
    }
}

/// The analog kind that a slot index holds in a well-formed state;
/// the inverse of `analog_index`.
pub open spec fn analog_kind_of(i: int) -> CommonAnalog {
    if i == 0 { CommonAnalog::LeftStickX }
    else if i == 1 { CommonAnalog::LeftStickY }
    else if i == 2 { CommonAnalog::LeftLever }
    else if i == 3 { CommonAnalog::RightStickX }
    else if i == 4 { CommonAnalog::RightStickY }
    else if i == 5 { CommonAnalog::RightLever }
    else if i == 6 { CommonAnalog::DPadX }
    else if i == 7 { CommonAnalog::DPadY }
    else { CommonAnalog::Unknown }
}

/// The slot index that holds a given button kind in a well-formed state.
pub open spec fn button_index(b: CommonButton) -> int {
    match b {
        CommonButton::LeftStickPress => 0,
        CommonButton::RightStickPress => 1,
        CommonButton::LeftShoulder => 2,
        CommonButton::RightShoulder => 3,
        CommonButton::FaceSouth => 4,
        CommonButton::FaceEast => 5,
        CommonButton::FaceWest => 6,
        CommonButton::FaceNorth => 7,
        CommonButton::DPadSouth => 8,
        CommonButton::DPadEast => 9,
        CommonButton::DPadWest => 10,
        CommonButton::DPadNorth => 11,
        CommonButton::Start => 12,
        CommonButton::Select => 13,
        CommonButton::Guide => 14,
        CommonButton::LegacyC => 15,
        CommonButton::LegacyZ => 16,
        CommonButton::LegacyLT => 17,
        CommonButton::LegacyLT2 => 18,
        CommonButton::LegacyRT => 19,
        CommonButton::LegacyRT2 => 20,
        CommonButton::Unknown => 21,
    }
}

/// The button kind that a slot index holds in a well-formed state;
/// the inverse of `button_index`.
pub open spec fn button_kind_of(i: int) -> CommonButton {
    if i == 0 { CommonButton::LeftStickPress }
    else if i == 1 { CommonButton::RightStickPress }
    else if i == 2 { CommonButton::LeftShoulder }
    else if i == 3 { CommonButton::RightShoulder }
    else if i == 4 { CommonButton::FaceSouth }
    else if i == 5 { CommonButton::FaceEast }
    else if i == 6 { CommonButton::FaceWest }
    else if i == 7 { CommonButton::FaceNorth }
    else if i == 8 { CommonButton::DPadSouth }
    else if i == 9 { CommonButton::DPadEast }
    else if i == 10 { CommonButton::DPadWest }
    else if i == 11 { CommonButton::DPadNorth }
    else if i == 12 { CommonButton::Start }
    else if i == 13 { CommonButton::Select }
    else if i == 14 { CommonButton::Guide }
    else if i == 15 { CommonButton::LegacyC }
    else if i == 16 { CommonButton::LegacyZ }
    else if i == 17 { CommonButton::LegacyLT }
    else if i == 18 { CommonButton::LegacyLT2 }
    else if i == 19 { CommonButton::LegacyRT }
    else if i == 20 { CommonButton::LegacyRT2 }
    else { CommonButton::Unknown }
}

/// A device-agnostic controller snapshot: one slot for every canonical
/// analog kind and one for every canonical button kind, always fully
/// populated.
pub struct BasicControllerState {
    pub analogs: Vec<StateAnalog>,
    pub buttons: Vec<StateButton>,
}

impl BasicControllerState {
    /// Well-formedness: exactly one slot per canonical kind, in canonical
    /// order, and every stored value within the fixed-point unit range.
    pub open spec fn wf(self) -> bool {
        &&& self.analogs.len() == ANALOG_COUNT
        &&& forall|i: int| 0 <= i < ANALOG_COUNT ==> #[trigger] self.analogs[i].ty == analog_kind_of(i)
        &&& forall|i: int| 0 <= i < ANALOG_COUNT ==> valid_axis_value(#[trigger] self.analogs[i].value)
        &&& self.buttons.len() == BUTTON_COUNT
        &&& forall|i: int| 0 <= i < BUTTON_COUNT ==> #[trigger] self.buttons[i].ty == button_kind_of(i)
        &&& forall|i: int| 0 <= i < BUTTON_COUNT ==> valid_axis_value(#[trigger] self.buttons[i].value)
    }

    /// The value currently stored for an analog kind, in a well-formed state.
    pub open spec fn spec_read_analog(self, a: CommonAnalog) -> i32 {
        self.analogs[analog_index(a)].value
    }

    /// The value currently stored for a button kind, in a well-formed state.
    pub open spec fn spec_read_button(self, b: CommonButton) -> i32 {
        self.buttons[button_index(b)].value
    }

    /// All slots hold zero.
    pub open spec fn all_zero(self) -> bool {
        &&& forall|i: int| 0 <= i < self.analogs.len() ==> #[trigger] self.analogs[i].value == 0
        &&& forall|i: int| 0 <= i < self.buttons.len() ==> #[trigger] self.buttons[i].value == 0
    }
}

/// Broadcast update: every button slot of kind `ty` in `post` holds `value`,
/// every other slot is unchanged, and the analog slots are untouched.
pub open spec fn button_updated(
    pre: BasicControllerState,
    post: BasicControllerState,
    ty: CommonButton,
    value: i32,
) -> bool {
    &&& post.buttons.len() == pre.buttons.len()
    &&& forall|i: int| 0 <= i < pre.buttons.len() ==> #[trigger] post.buttons[i].ty == pre.buttons[i].ty
    &&& forall|i: int|
        0 <= i < pre.buttons.len() && pre.buttons[i].ty == ty ==> #[trigger] post.buttons[i].value == value
    &&& forall|i: int|
        0 <= i < pre.buttons.len() && pre.buttons[i].ty != ty ==> #[trigger] post.buttons[i].value
            == pre.buttons[i].value
    &&& post.analogs == pre.analogs
}

/// Broadcast update for analog slots, symmetric to `button_updated`.
pub open spec fn analog_updated(
    pre: BasicControllerState,
    post: BasicControllerState,
    ty: CommonAnalog,
    value: i32,
) -> bool {
    &&& post.analogs.len() == pre.analogs.len()
    &&& forall|i: int| 0 <= i < pre.analogs.len() ==> #[trigger] post.analogs[i].ty == pre.analogs[i].ty
    &&& forall|i: int|
        0 <= i < pre.analogs.len() && pre.analogs[i].ty == ty ==> #[trigger] post.analogs[i].value == value
    &&& forall|i: int|
        0 <= i < pre.analogs.len() && pre.analogs[i].ty != ty ==> #[trigger] post.analogs[i].value
            == pre.analogs[i].value
    &&& post.buttons == pre.buttons
}

impl BasicControllerState {
    /// The slot that holds a button kind. Total: every canonical kind,
    /// including `Unknown`, has exactly one slot in a well-formed state.
    pub fn button_state_by_type(&self, by: CommonButton) -> (r: StateButton)
        requires
            self.wf(),
        ensures
            r == self.buttons[button_index(by)],
            r.ty == by,
            r.value == self.spec_read_button(by),
    {
        match by {
            CommonButton::LeftStickPress => self.buttons[0],
            CommonButton::RightStickPress => self.buttons[1],
            CommonButton::LeftShoulder => self.buttons[2],
            CommonButton::RightShoulder => self.buttons[3],
            CommonButton::FaceSouth => self.buttons[4],
            CommonButton::FaceEast => self.buttons[5],
            CommonButton::FaceWest => self.buttons[6],
            CommonButton::FaceNorth => self.buttons[7],
            CommonButton::DPadSouth => self.buttons[8],
            CommonButton::DPadEast => self.buttons[9],
            CommonButton::DPadWest => self.buttons[10],
            CommonButton::DPadNorth => self.buttons[11],
            CommonButton::Start => self.buttons[12],
            CommonButton::Select => self.buttons[13],
            CommonButton::Guide => self.buttons[14],
            CommonButton::LegacyC => self.buttons[15],
            CommonButton::LegacyZ => self.buttons[16],
            CommonButton::LegacyLT => self.buttons[17],
            CommonButton::LegacyLT2 => self.buttons[18],
            CommonButton::LegacyRT => self.buttons[19],
            CommonButton::LegacyRT2 => self.buttons[20],
            CommonButton::Unknown => self.buttons[21],
        }
    }

    /// The slot that holds an analog kind; total like `button_state_by_type`.
    pub fn analog_state_by_type(&self, by: CommonAnalog) -> (r: StateAnalog)
        requires
            self.wf(),
        ensures
            r == self.analogs[analog_index(by)],
            r.ty == by,
            r.value == self.spec_read_analog(by),
    {
        match by {
            CommonAnalog::LeftStickX => self.analogs[0],
            CommonAnalog::LeftStickY => self.analogs[1],
            CommonAnalog::LeftLever => self.analogs[2],
            CommonAnalog::RightStickX => self.analogs[3],
            CommonAnalog::RightStickY => self.analogs[4],
            CommonAnalog::RightLever => self.analogs[5],
            CommonAnalog::DPadX => self.analogs[6],
            CommonAnalog::DPadY => self.analogs[7],
            CommonAnalog::Unknown => self.analogs[8],
        }
    }

    /// Overwrite the value of every button slot whose kind equals `ty`
    /// (in a well-formed state, exactly one). Scans all slots, so duplicate
    /// kinds are tolerated gracefully.
    pub fn try_update_button(&mut self, ty: CommonButton, value: i32)
        requires
            valid_axis_value(value),
        ensures
            button_updated(*old(self), *final(self), ty, value),
            old(self).wf() ==> final(self).wf(),
    {
        let n = self.buttons.len();
        let mut i: usize = 0;
        while i < n
            invariant
                i <= n,
                n == self.buttons.len(),
                n == old(self).buttons.len(),
                self.analogs == old(self).analogs,
                forall|j: int| 0 <= j < n ==> #[trigger] self.buttons[j].ty == old(self).buttons[j].ty,
                forall|j: int|
                    0 <= j < i && old(self).buttons[j].ty == ty ==> #[trigger] self.buttons[j].value
                        == value,
                forall|j: int|
                    0 <= j < n && !(0 <= j < i && old(self).buttons[j].ty == ty)
                        ==> #[trigger] self.buttons[j].value == old(self).buttons[j].value,
            decreases n - i,
        {
            if self.buttons[i].ty == ty {
                let slot_ty = self.buttons[i].ty;
                self.buttons.set(i, StateButton { ty: slot_ty, value });
            }
            i = i + 1;
        }
    }

    /// Overwrite the value of every analog slot whose kind equals `ty`,
    /// symmetric to `try_update_button`.
    pub fn try_update_analog(&mut self, ty: CommonAnalog, value: i32)
        requires
            valid_axis_value(value),
        ensures
            analog_updated(*old(self), *final(self), ty, value),
            old(self).wf() ==> final(self).wf(),
    {
        let n = self.analogs.len();
        let mut i: usize = 0;
        while i < n
            invariant
                i <= n,
                n == self.analogs.len(),
                n == old(self).analogs.len(),
                self.buttons == old(self).buttons,
                forall|j: int| 0 <= j < n ==> #[trigger] self.analogs[j].ty == old(self).analogs[j].ty,
                forall|j: int|
                    0 <= j < i && old(self).analogs[j].ty == ty ==> #[trigger] self.analogs[j].value
                        == value,
                forall|j: int|
                    0 <= j < n && !(0 <= j < i && old(self).analogs[j].ty == ty)
                        ==> #[trigger] self.analogs[j].value == old(self).analogs[j].value,
            decreases n - i,
        {
            if self.analogs[i].ty == ty {
                let slot_ty = self.analogs[i].ty;
                self.analogs.set(i, StateAnalog { ty: slot_ty, value });
            }
            i = i + 1;
        }
    }
}

/// Law: in a well-formed state, updating button kind `ty` to `value` makes
/// that kind read `value` while every other kind reads what it read before.
pub proof fn lemma_button_update_then_read(
    pre: BasicControllerState,
    post: BasicControllerState,
    ty: CommonButton,
    value: i32,
)
    requires
        pre.wf(),
        button_updated(pre, post, ty, value),
    ensures
        post.spec_read_button(ty) == value,
        forall|other: CommonButton| other != ty ==> #[trigger] post.spec_read_button(other)
            == pre.spec_read_button(other),
{
    assert(pre.buttons[button_index(ty)].ty == button_kind_of(button_index(ty)));
    assert(forall|other: CommonButton| other != ty ==> pre.buttons[#[trigger] button_index(other)].ty
        == button_kind_of(button_index(other)));
}

/// Law: the analog counterpart of `lemma_button_update_then_read`.
pub proof fn lemma_analog_update_then_read(
    pre: BasicControllerState,
    post: BasicControllerState,
    ty: CommonAnalog,
    value: i32,
)
    requires
        pre.wf(),
        analog_updated(pre, post, ty, value),
    ensures
        post.spec_read_analog(ty) == value,
        forall|other: CommonAnalog| other != ty ==> #[trigger] post.spec_read_analog(other)
            == pre.spec_read_analog(other),
{
    assert(pre.analogs[analog_index(ty)].ty == analog_kind_of(analog_index(ty)));
    assert(forall|other: CommonAnalog| other != ty ==> pre.analogs[#[trigger] analog_index(other)].ty
        == analog_kind_of(analog_index(other)));
}

/// The analog kind stored at a slot index, as executable code.
fn analog_kind_at(i: usize) -> (k: CommonAnalog)
    requires
        i < ANALOG_COUNT,
    ensures
        k == analog_kind_of(i as int),
{
    match i {
        0 => CommonAnalog::LeftStickX,
        1 => CommonAnalog::LeftStickY,
        2 => CommonAnalog::LeftLever,
        3 => CommonAnalog::RightStickX,
        4 => CommonAnalog::RightStickY,
        5 => CommonAnalog::RightLever,
        6 => CommonAnalog::DPadX,
        7 => CommonAnalog::DPadY,
        _ => CommonAnalog::Unknown,
    }
}

/// The button kind stored at a slot index, as executable code.
fn button_kind_at(i: usize) -> (k: CommonButton)
    requires
        i < BUTTON_COUNT,
    ensures
        k == button_kind_of(i as int),
{
    match i {
        0 => CommonButton::LeftStickPress,
        1 => CommonButton::RightStickPress,
        2 => CommonButton::LeftShoulder,
        3 => CommonButton::RightShoulder,
        4 => CommonButton::FaceSouth,
        5 => CommonButton::FaceEast,
        6 => CommonButton::FaceWest,
        7 => CommonButton::FaceNorth,
        8 => CommonButton::DPadSouth,
        9 => CommonButton::DPadEast,
        10 => CommonButton::DPadWest,
        11 => CommonButton::DPadNorth,
        12 => CommonButton::Start,
        13 => CommonButton::Select,
        14 => CommonButton::Guide,
        15 => CommonButton::LegacyC,
        16 => CommonButton::LegacyZ,
        17 => CommonButton::LegacyLT,
        18 => CommonButton::LegacyLT2,
        19 => CommonButton::LegacyRT,
        20 => CommonButton::LegacyRT2,
        _ => CommonButton::Unknown,
    }
}

impl Default for BasicControllerState {
    /// A fresh snapshot: every canonical kind present once, all values zero.
    fn default() -> (r: Self)
        ensures
            r.wf(),
            r.all_zero(),
    {
        let mut analogs: Vec<StateAnalog> = Vec::new();
        let mut i: usize = 0;
        while i < ANALOG_COUNT
            invariant
                i <= ANALOG_COUNT,
                analogs.len() == i,
                forall|j: int| 0 <= j < i ==> #[trigger] analogs[j].ty == analog_kind_of(j),
                forall|j: int| 0 <= j < i ==> #[trigger] analogs[j].value == 0,
            decreases ANALOG_COUNT - i,
        {
            let ty = analog_kind_at(i);
            analogs.push(StateAnalog { ty, value: 0 });
            i = i + 1;
        }
        let mut buttons: Vec<StateButton> = Vec::new();
        let mut i: usize = 0;
        while i < BUTTON_COUNT
            invariant
                i <= BUTTON_COUNT,
                buttons.len() == i,
                forall|j: int| 0 <= j < i ==> #[trigger] buttons[j].ty == button_kind_of(j),
                forall|j: int| 0 <= j < i ==> #[trigger] buttons[j].value == 0,
            decreases BUTTON_COUNT - i,
        {
            let ty = button_kind_at(i);
            buttons.push(StateButton { ty, value: 0 });
            i = i + 1;
        }
        BasicControllerState { analogs, buttons }
    }
}

} // verus!
