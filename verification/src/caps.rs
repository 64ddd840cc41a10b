//! The controller capability model: a static description of a controller's
//! axes, joysticks (axis pairs) and buttons, with a stable name-to-index
//! mapping.  The capability table drives both the command grammar (which
//! names the parser recognises) and the scheduler's output (which axis and
//! button ids it writes).
//!
//! Names are lower-case ASCII byte strings.  Axis `min`/`max` are the raw
//! range reported by the driver for that axis, kept within a comfortable
//! band so that midpoint arithmetic cannot overflow.

use vstd::prelude::*;

verus! {

/// Largest per-button duration cap, equal to the per-line duration cap.
pub const MAX_BUTTON_CAP_MS: u64 = 30000;

/// Bound on raw axis range endpoints, so `(max - min) / 2` fits an `i64`.
pub const AXIS_RANGE_BOUND: i64 = 0x8000_0000;

/// One analog axis: its name, the driver's axis id, and its raw range.
#[derive(Clone)]
pub struct AxisDef {
    pub name: Vec<u8>,
    pub hid: u32,
    pub min: i64,
    pub max: i64,
}

/// One joystick: a pair of axis names (x, then y).
#[derive(Clone)]
pub struct JoystickDef {
    pub name: Vec<u8>,
    pub x_axis: Vec<u8>,
    pub y_axis: Vec<u8>,
}

/// One button: its name, the driver's one-based button index, and the
/// longest press this button accepts from a vote.
#[derive(Clone)]
pub struct ButtonDef {
    pub name: Vec<u8>,
    pub index: u8,
    pub max_duration_ms: u64,
}

/// A byte allowed in a capability name: lower-case letter, digit or `_`.
pub open spec fn name_byte_ok(b: u8) -> bool {
    (97 <= b && b <= 122) || (48 <= b && b <= 57) || b == 95
}

/// A well-formed capability name: non-empty, all bytes allowed.
pub open spec fn name_ok(s: Seq<u8>) -> bool {
    s.len() > 0 && forall|k: int| 0 <= k < s.len() ==> name_byte_ok(#[trigger] s[k])
}

/// Position of the first name in `names` equal to `name`, scanning from
/// index `i`.
pub open spec fn name_index_from(names: Seq<Seq<u8>>, name: Seq<u8>, i: int) -> Option<int>
    decreases names.len() - i,
{
    if i < 0 || i >= names.len() {
        None
    } else if names[i] == name {
        Some(i)
    } else {
        name_index_from(names, name, i + 1)
    }
}

pub proof fn lemma_name_index_from_range(names: Seq<Seq<u8>>, name: Seq<u8>, i: int)
    ensures
        match name_index_from(names, name, i) {
            Option::Some(m) => i <= m < names.len() && names[m] == name,
            Option::None => true,
        },
    decreases names.len() - i,
{
    if 0 <= i < names.len() && names[i] != name {
        lemma_name_index_from_range(names, name, i + 1);
    }
}

/// The static capability table of one controller.
#[derive(Clone)]
pub struct Capability {
    pub axes: Vec<AxisDef>,
    pub joysticks: Vec<JoystickDef>,
    pub buttons: Vec<ButtonDef>,
}

impl Capability {
    pub open spec fn axis_name(self, i: int) -> Seq<u8> {
        self.axes@[i].name@
    }

    pub open spec fn joystick_name(self, i: int) -> Seq<u8> {
        self.joysticks@[i].name@
    }

    pub open spec fn button_name(self, i: int) -> Seq<u8> {
        self.buttons@[i].name@
    }

    pub open spec fn has_axis(self, name: Seq<u8>) -> bool {
        exists|i: int| 0 <= i < self.axes@.len() && self.axis_name(i) == name
    }

    pub open spec fn spec_find_axis(self, name: Seq<u8>) -> Option<int> {
        name_index_from(self.axes@.map(|i: int, a: AxisDef| a.name@), name, 0)
    }

    pub open spec fn spec_find_joystick(self, name: Seq<u8>) -> Option<int> {
        name_index_from(self.joysticks@.map(|i: int, j: JoystickDef| j.name@), name, 0)
    }

    pub open spec fn spec_find_button(self, name: Seq<u8>) -> Option<int> {
        name_index_from(self.buttons@.map(|i: int, b: ButtonDef| b.name@), name, 0)
    }

    /// Every axis, joystick and button is well formed, names are unique
    /// within each class, joysticks refer to existing axes, button indices
    /// are unique, and button caps stay within the per-line cap.
    pub open spec fn wf(self) -> bool {
        &&& forall|i: int|
            0 <= i < self.axes@.len() ==> {
                &&& name_ok(self.axis_name(i))
                &&& -AXIS_RANGE_BOUND <= (#[trigger] self.axes@[i]).min
                &&& self.axes@[i].min <= self.axes@[i].max
                &&& self.axes@[i].max <= AXIS_RANGE_BOUND
            }
        &&& forall|i: int, j: int|
            0 <= i < j < self.axes@.len() ==> self.axis_name(i) != self.axis_name(j)
        &&& forall|i: int|
            0 <= i < self.joysticks@.len() ==> {
                &&& name_ok(self.joystick_name(i))
                &&& self.has_axis((#[trigger] self.joysticks@[i]).x_axis@)
                &&& self.has_axis(self.joysticks@[i].y_axis@)
            }
        &&& forall|i: int, j: int|
            0 <= i < j < self.joysticks@.len() ==> self.joystick_name(i) != self.joystick_name(j)
        &&& forall|i: int|
            0 <= i < self.buttons@.len() ==> {
                &&& name_ok(self.button_name(i))
                &&& (#[trigger] self.buttons@[i]).max_duration_ms <= MAX_BUTTON_CAP_MS
            }
        &&& forall|i: int, j: int|
            0 <= i < j < self.buttons@.len() ==> {
                &&& self.button_name(i) != self.button_name(j)
                &&& self.buttons@[i].index != self.buttons@[j].index
            }
    }

    /// The first axis whose name equals `name`, if any.
    pub fn find_axis(&self, name: &[u8]) -> (r: Option<usize>)
        ensures
            match r {
                Some(i) => i < self.axes@.len() && self.axis_name(i as int) == name@
                    && self.spec_find_axis(name@) == Some(i as int),
                None => self.spec_find_axis(name@) is None && forall|i: int| 0 <= i < self.axes@.len() ==> self.axis_name(i) != name@,
            },
    {
        let mut i: usize = 0;
        while i < self.axes.len()
            invariant
                i <= self.axes@.len(),
                forall|j: int| 0 <= j < i ==> self.axis_name(j) != name@,
                self.spec_find_axis(name@) == name_index_from(
                    self.axes@.map(|k: int, d: AxisDef| d.name@),
                    name@,
                    i as int,
                ),
            decreases self.axes@.len() - i,
        {
            if bytes_eq(self.axes[i].name.as_slice(), name) {
                return Some(i);
            }
            i = i + 1;
        }
        None
    }

    /// The first joystick whose name equals `name`, if any.
    pub fn find_joystick(&self, name: &[u8]) -> (r: Option<usize>)
        ensures
            match r {
                Some(i) => i < self.joysticks@.len() && self.joystick_name(i as int) == name@
                    && self.spec_find_joystick(name@) == Some(i as int),
                None => self.spec_find_joystick(name@) is None && forall|i: int|
                    0 <= i < self.joysticks@.len() ==> self.joystick_name(i) != name@,
            },
    {
        let mut i: usize = 0;
        while i < self.joysticks.len()
            invariant
                i <= self.joysticks@.len(),
                forall|j: int| 0 <= j < i ==> self.joystick_name(j) != name@,
                self.spec_find_joystick(name@) == name_index_from(
                    self.joysticks@.map(|k: int, d: JoystickDef| d.name@),
                    name@,
                    i as int,
                ),
            decreases self.joysticks@.len() - i,
        {
            if bytes_eq(self.joysticks[i].name.as_slice(), name) {
                return Some(i);
            }
            i = i + 1;
        }
        None
    }

    /// The first button whose name equals `name`, if any.
    pub fn find_button(&self, name: &[u8]) -> (r: Option<usize>)
        ensures
            match r {
                Some(i) => i < self.buttons@.len() && self.button_name(i as int) == name@
                    && self.spec_find_button(name@) == Some(i as int),
                None => self.spec_find_button(name@) is None && forall|i: int|
                    0 <= i < self.buttons@.len() ==> self.button_name(i) != name@,
            },
    {
        let mut i: usize = 0;
        while i < self.buttons.len()
            invariant
                i <= self.buttons@.len(),
                forall|j: int| 0 <= j < i ==> self.button_name(j) != name@,
                self.spec_find_button(name@) == name_index_from(
                    self.buttons@.map(|k: int, d: ButtonDef| d.name@),
                    name@,
                    i as int,
                ),
            decreases self.buttons@.len() - i,
        {
            if bytes_eq(self.buttons[i].name.as_slice(), name) {
                return Some(i);
            }
            i = i + 1;
        }
        None
    }
}

impl Capability {
    /// Check the declared capability against what the device reports:
    /// `axis_present[i]` says whether the device has the axis declared at
    /// position `i`, and `button_count` is how many buttons the device
    /// exposes.  Fails with 1 exactly when a declared axis is missing,
    /// and with 2 exactly when all axes are present but the device has
    /// fewer buttons than the capability declares.
    pub fn verify_device_compatibility(&self, axis_present: &Vec<bool>, button_count: u8) -> (r:
        Result<(), u8>)
        requires
            axis_present@.len() == self.axes@.len(),
        ensures
            match r {
                Result::Ok(()) => (forall|i: int|
                    0 <= i < axis_present@.len() ==> #[trigger] axis_present@[i])
                    && self.buttons@.len() <= button_count,
                Result::Err(e) => {
                    ||| (e == 1 && exists|i: int|
                        0 <= i < axis_present@.len() && !(#[trigger] axis_present@[i]))
                    ||| (e == 2 && (forall|i: int|
                        0 <= i < axis_present@.len() ==> #[trigger] axis_present@[i])
                        && button_count < self.buttons@.len())
                },
            },
    {
        let n = axis_present.len();
        let mut i: usize = 0;
        while i < n
            invariant
                n == axis_present@.len(),
                i <= n,
                forall|k: int| 0 <= k < i as int ==> #[trigger] axis_present@[k],
            decreases n - i,
        {
            if !axis_present[i] {
                return Err(1);
            }
            i = i + 1;
        }
        if (button_count as usize) < self.buttons.len() {
            return Err(2);
        }
        Ok(())
    }
}

/// Byte-for-byte equality of two byte strings.
pub fn bytes_eq(a: &[u8], b: &[u8]) -> (r: bool)
    ensures
        r == (a@ == b@),
{
    if a.len() != b.len() {
        proof {
            assert(a@.len() != b@.len());
        }
        return false;
    }
    let n = a.len();
    let mut i: usize = 0;
    while i < n
        invariant
            n == a@.len() == b@.len(),
            i <= n,
            forall|j: int| 0 <= j < i ==> a@[j] == b@[j],
        decreases n - i,
    {
        if a[i] != b[i] {
            return false;
        }
        i = i + 1;
    }
    proof {
        assert(a@ =~= b@);
    }
    true
}

} // verus!

verus! {

/// Per-button press caps: most buttons share a default cap, a few carry
/// configured overrides (long-press buttons, and a short cap for the
/// pause button).
pub const DEFAULT_BUTTON_MAX_MS: u64 = 5000;

/// The shape of the sample GameCube capability table: two joysticks over
/// four axes, and twelve buttons with their per-button duration caps.
pub open spec fn is_gcn_capability(c: Capability) -> bool {
    &&& c.axes@.len() == 4
    &&& c.axes@[0].name@ == seq![106u8, 120u8] && c.axes@[0].hid == 0x30
    &&& c.axes@[1].name@ == seq![106u8, 121u8] && c.axes@[1].hid == 0x31
    &&& c.axes@[2].name@ == seq![99u8, 120u8] && c.axes@[2].hid == 0x33
    &&& c.axes@[3].name@ == seq![99u8, 121u8] && c.axes@[3].hid == 0x34
    &&& c.joysticks@.len() == 2
    &&& c.joysticks@[0].name@ == seq![99u8, 111u8, 110u8, 116u8, 114u8, 111u8, 108u8, 95u8, 115u8, 116u8, 105u8, 99u8, 107u8]
    &&& c.joysticks@[0].x_axis@ == seq![106u8, 120u8] && c.joysticks@[0].y_axis@ == seq![106u8, 121u8]
    &&& c.joysticks@[1].name@ == seq![99u8, 95u8, 115u8, 116u8, 105u8, 99u8, 107u8]
    &&& c.joysticks@[1].x_axis@ == seq![99u8, 120u8] && c.joysticks@[1].y_axis@ == seq![99u8, 121u8]
    &&& c.buttons@.len() == 12
    &&& c.buttons@[0].name@ == seq![97u8] && c.buttons@[0].index == 1 && c.buttons@[0].max_duration_ms == 5000
    &&& c.buttons@[1].name@ == seq![98u8] && c.buttons@[1].index == 2 && c.buttons@[1].max_duration_ms == 30000
    &&& c.buttons@[2].name@ == seq![120u8] && c.buttons@[2].index == 3 && c.buttons@[2].max_duration_ms == 30000
    &&& c.buttons@[3].name@ == seq![121u8] && c.buttons@[3].index == 4 && c.buttons@[3].max_duration_ms == 5000
    &&& c.buttons@[4].name@ == seq![122u8] && c.buttons@[4].index == 5 && c.buttons@[4].max_duration_ms == 5000
    &&& c.buttons@[5].name@ == seq![108u8] && c.buttons@[5].index == 6 && c.buttons@[5].max_duration_ms == 5000
    &&& c.buttons@[6].name@ == seq![114u8] && c.buttons@[6].index == 7 && c.buttons@[6].max_duration_ms == 10000
    &&& c.buttons@[7].name@ == seq![115u8, 116u8, 97u8, 114u8, 116u8] && c.buttons@[7].index == 8 && c.buttons@[7].max_duration_ms == 500
    &&& c.buttons@[8].name@ == seq![100u8, 117u8, 112u8] && c.buttons@[8].index == 9 && c.buttons@[8].max_duration_ms == 5000
    &&& c.buttons@[9].name@ == seq![100u8, 100u8, 111u8, 119u8, 110u8] && c.buttons@[9].index == 10 && c.buttons@[9].max_duration_ms == 5000
    &&& c.buttons@[10].name@ == seq![100u8, 108u8, 101u8, 102u8, 116u8] && c.buttons@[10].index == 11 && c.buttons@[10].max_duration_ms == 5000
    &&& c.buttons@[11].name@ == seq![100u8, 114u8, 105u8, 103u8, 104u8, 116u8] && c.buttons@[11].index == 12 && c.buttons@[11].max_duration_ms == 5000
}

/// Build the capability table of the sample GameCube-style controller
/// from the four axis ranges the driver reports.  Fails when a reported
/// range is inverted or outside the supported band.
pub fn sample_gcn_controller_hardware(
    jx_min: i64,
    jx_max: i64,
    jy_min: i64,
    jy_max: i64,
    cx_min: i64,
    cx_max: i64,
    cy_min: i64,
    cy_max: i64,
) -> (r: Result<Capability, u8>)
    ensures
        match r {
            Result::Ok(c) => {
                &&& c.wf()
                &&& is_gcn_capability(c)
                &&& c.axes@[0].min == jx_min && c.axes@[0].max == jx_max
                &&& c.axes@[1].min == jy_min && c.axes@[1].max == jy_max
                &&& c.axes@[2].min == cx_min && c.axes@[2].max == cx_max
                &&& c.axes@[3].min == cy_min && c.axes@[3].max == cy_max
            },
            Result::Err(_) => !(-AXIS_RANGE_BOUND <= jx_min <= jx_max <= AXIS_RANGE_BOUND
                && -AXIS_RANGE_BOUND <= jy_min <= jy_max <= AXIS_RANGE_BOUND
                && -AXIS_RANGE_BOUND <= cx_min <= cx_max <= AXIS_RANGE_BOUND
                && -AXIS_RANGE_BOUND <= cy_min <= cy_max <= AXIS_RANGE_BOUND),
        },
{
    if !(-AXIS_RANGE_BOUND <= jx_min && jx_min <= jx_max && jx_max <= AXIS_RANGE_BOUND) {
        return Err(1);
    }
    if !(-AXIS_RANGE_BOUND <= jy_min && jy_min <= jy_max && jy_max <= AXIS_RANGE_BOUND) {
        return Err(2);
    }
    if !(-AXIS_RANGE_BOUND <= cx_min && cx_min <= cx_max && cx_max <= AXIS_RANGE_BOUND) {
        return Err(3);
    }
    if !(-AXIS_RANGE_BOUND <= cy_min && cy_min <= cy_max && cy_max <= AXIS_RANGE_BOUND) {
        return Err(4);
    }
    let mut axes: Vec<AxisDef> = Vec::new();
    let n_jx: Vec<u8> = vec![106u8, 120u8];
    let n_jy: Vec<u8> = vec![106u8, 121u8];
    let n_cx: Vec<u8> = vec![99u8, 120u8];
    let n_cy: Vec<u8> = vec![99u8, 121u8];
    axes.push(AxisDef { name: n_jx, hid: 0x30, min: jx_min, max: jx_max });
    axes.push(AxisDef { name: n_jy, hid: 0x31, min: jy_min, max: jy_max });
    axes.push(AxisDef { name: n_cx, hid: 0x33, min: cx_min, max: cx_max });
    axes.push(AxisDef { name: n_cy, hid: 0x34, min: cy_min, max: cy_max });
    let mut joysticks: Vec<JoystickDef> = Vec::new();
    let n_control: Vec<u8> = vec![99u8, 111u8, 110u8, 116u8, 114u8, 111u8, 108u8, 95u8, 115u8, 116u8, 105u8, 99u8, 107u8];
    let n_jx2: Vec<u8> = vec![106u8, 120u8];
    let n_jy2: Vec<u8> = vec![106u8, 121u8];
    joysticks.push(JoystickDef { name: n_control, x_axis: n_jx2, y_axis: n_jy2 });
    let n_c: Vec<u8> = vec![99u8, 95u8, 115u8, 116u8, 105u8, 99u8, 107u8];
    let n_cx2: Vec<u8> = vec![99u8, 120u8];
    let n_cy2: Vec<u8> = vec![99u8, 121u8];
    joysticks.push(JoystickDef { name: n_c, x_axis: n_cx2, y_axis: n_cy2 });
    let mut buttons: Vec<ButtonDef> = Vec::new();
    let n_btn_a_1: Vec<u8> = vec![97u8];
    buttons.push(ButtonDef { name: n_btn_a_1, index: 1, max_duration_ms: DEFAULT_BUTTON_MAX_MS });
    let n_btn_b_2: Vec<u8> = vec![98u8];
    buttons.push(ButtonDef { name: n_btn_b_2, index: 2, max_duration_ms: 30000 });
    let n_btn_x_3: Vec<u8> = vec![120u8];
    buttons.push(ButtonDef { name: n_btn_x_3, index: 3, max_duration_ms: 30000 });
    let n_btn_y_4: Vec<u8> = vec![121u8];
    buttons.push(ButtonDef { name: n_btn_y_4, index: 4, max_duration_ms: DEFAULT_BUTTON_MAX_MS });
    let n_btn_z_5: Vec<u8> = vec![122u8];
    buttons.push(ButtonDef { name: n_btn_z_5, index: 5, max_duration_ms: DEFAULT_BUTTON_MAX_MS });
    let n_btn_l_6: Vec<u8> = vec![108u8];
    buttons.push(ButtonDef { name: n_btn_l_6, index: 6, max_duration_ms: DEFAULT_BUTTON_MAX_MS });
    let n_btn_r_7: Vec<u8> = vec![114u8];
    buttons.push(ButtonDef { name: n_btn_r_7, index: 7, max_duration_ms: 10000 });
    let n_btn_start_8: Vec<u8> = vec![115u8, 116u8, 97u8, 114u8, 116u8];
    buttons.push(ButtonDef { name: n_btn_start_8, index: 8, max_duration_ms: 500 });
    let n_btn_dup_9: Vec<u8> = vec![100u8, 117u8, 112u8];
    buttons.push(ButtonDef { name: n_btn_dup_9, index: 9, max_duration_ms: DEFAULT_BUTTON_MAX_MS });
    let n_btn_ddown_10: Vec<u8> = vec![100u8, 100u8, 111u8, 119u8, 110u8];
    buttons.push(ButtonDef { name: n_btn_ddown_10, index: 10, max_duration_ms: DEFAULT_BUTTON_MAX_MS });
    let n_btn_dleft_11: Vec<u8> = vec![100u8, 108u8, 101u8, 102u8, 116u8];
    buttons.push(ButtonDef { name: n_btn_dleft_11, index: 11, max_duration_ms: DEFAULT_BUTTON_MAX_MS });
    let n_btn_dright_12: Vec<u8> = vec![100u8, 114u8, 105u8, 103u8, 104u8, 116u8];
    buttons.push(ButtonDef { name: n_btn_dright_12, index: 12, max_duration_ms: DEFAULT_BUTTON_MAX_MS });
    let c = Capability { axes, joysticks, buttons };
    proof {
        assert(c.axes@[0].name@ =~= seq![106u8, 120u8]);
        assert(c.axes@[1].name@ =~= seq![106u8, 121u8]);
        assert(c.axes@[2].name@ =~= seq![99u8, 120u8]);
        assert(c.axes@[3].name@ =~= seq![99u8, 121u8]);
        assert(c.joysticks@[0].name@ =~= seq![99u8, 111u8, 110u8, 116u8, 114u8, 111u8, 108u8, 95u8, 115u8, 116u8, 105u8, 99u8, 107u8]);
        assert(c.joysticks@[0].x_axis@ =~= seq![106u8, 120u8]);
        assert(c.joysticks@[0].y_axis@ =~= seq![106u8, 121u8]);
        assert(c.joysticks@[1].name@ =~= seq![99u8, 95u8, 115u8, 116u8, 105u8, 99u8, 107u8]);
        assert(c.joysticks@[1].x_axis@ =~= seq![99u8, 120u8]);
        assert(c.joysticks@[1].y_axis@ =~= seq![99u8, 121u8]);
        assert(c.buttons@[0].name@ =~= seq![97u8]);
        assert(c.buttons@[1].name@ =~= seq![98u8]);
        assert(c.buttons@[2].name@ =~= seq![120u8]);
        assert(c.buttons@[3].name@ =~= seq![121u8]);
        assert(c.buttons@[4].name@ =~= seq![122u8]);
        assert(c.buttons@[5].name@ =~= seq![108u8]);
        assert(c.buttons@[6].name@ =~= seq![114u8]);
        assert(c.buttons@[7].name@ =~= seq![115u8, 116u8, 97u8, 114u8, 116u8]);
        assert(c.buttons@[8].name@ =~= seq![100u8, 117u8, 112u8]);
        assert(c.buttons@[9].name@ =~= seq![100u8, 100u8, 111u8, 119u8, 110u8]);
        assert(c.buttons@[10].name@ =~= seq![100u8, 108u8, 101u8, 102u8, 116u8]);
        assert(c.buttons@[11].name@ =~= seq![100u8, 114u8, 105u8, 103u8, 104u8, 116u8]);
        assert(c.axis_name(0) == c.joysticks@[0].x_axis@);
        assert(c.axis_name(1) == c.joysticks@[0].y_axis@);
        assert(c.axis_name(2) == c.joysticks@[1].x_axis@);
        assert(c.axis_name(3) == c.joysticks@[1].y_axis@);
        assert(c.has_axis(c.joysticks@[0].x_axis@));
        assert(c.has_axis(c.joysticks@[0].y_axis@));
        assert(c.has_axis(c.joysticks@[1].x_axis@));
        assert(c.has_axis(c.joysticks@[1].y_axis@));
        assert(c.wf());
    }
    Ok(c)
}

/// The shape of the sample N64 capability table: one joystick over two
/// axes, and fourteen buttons with their per-button duration caps.
pub open spec fn is_n64_capability(c: Capability) -> bool {
    &&& c.axes@.len() == 2
    &&& c.axes@[0].name@ == seq![120u8] && c.axes@[0].hid == 0x30
    &&& c.axes@[1].name@ == seq![121u8] && c.axes@[1].hid == 0x31
    &&& c.joysticks@.len() == 1
    &&& c.joysticks@[0].name@ == seq![99u8, 111u8, 110u8, 116u8, 114u8, 111u8, 108u8, 95u8, 115u8, 116u8, 105u8, 99u8, 107u8]
    &&& c.joysticks@[0].x_axis@ == seq![120u8] && c.joysticks@[0].y_axis@ == seq![121u8]
    &&& c.buttons@.len() == 14
    &&& c.buttons@[0].name@ == seq![97u8] && c.buttons@[0].index == 1 && c.buttons@[0].max_duration_ms == 5000
    &&& c.buttons@[1].name@ == seq![98u8] && c.buttons@[1].index == 2 && c.buttons@[1].max_duration_ms == 30000
    &&& c.buttons@[2].name@ == seq![122u8] && c.buttons@[2].index == 3 && c.buttons@[2].max_duration_ms == 5000
    &&& c.buttons@[3].name@ == seq![108u8] && c.buttons@[3].index == 4 && c.buttons@[3].max_duration_ms == 5000
    &&& c.buttons@[4].name@ == seq![114u8] && c.buttons@[4].index == 5 && c.buttons@[4].max_duration_ms == 10000
    &&& c.buttons@[5].name@ == seq![115u8, 116u8, 97u8, 114u8, 116u8] && c.buttons@[5].index == 6 && c.buttons@[5].max_duration_ms == 500
    &&& c.buttons@[6].name@ == seq![99u8, 117u8, 112u8] && c.buttons@[6].index == 7 && c.buttons@[6].max_duration_ms == 5000
    &&& c.buttons@[7].name@ == seq![99u8, 100u8, 111u8, 119u8, 110u8] && c.buttons@[7].index == 8 && c.buttons@[7].max_duration_ms == 5000
    &&& c.buttons@[8].name@ == seq![99u8, 108u8, 101u8, 102u8, 116u8] && c.buttons@[8].index == 9 && c.buttons@[8].max_duration_ms == 5000
    &&& c.buttons@[9].name@ == seq![99u8, 114u8, 105u8, 103u8, 104u8, 116u8] && c.buttons@[9].index == 10 && c.buttons@[9].max_duration_ms == 5000
    &&& c.buttons@[10].name@ == seq![100u8, 117u8, 112u8] && c.buttons@[10].index == 11 && c.buttons@[10].max_duration_ms == 5000
    &&& c.buttons@[11].name@ == seq![100u8, 100u8, 111u8, 119u8, 110u8] && c.buttons@[11].index == 12 && c.buttons@[11].max_duration_ms == 5000
    &&& c.buttons@[12].name@ == seq![100u8, 108u8, 101u8, 102u8, 116u8] && c.buttons@[12].index == 13 && c.buttons@[12].max_duration_ms == 5000
    &&& c.buttons@[13].name@ == seq![100u8, 114u8, 105u8, 103u8, 104u8, 116u8] && c.buttons@[13].index == 14 && c.buttons@[13].max_duration_ms == 5000
}

/// Build the capability table of the sample N64-style controller from
/// the two axis ranges the driver reports.
pub fn sample_n64_controller_hardware(x_min: i64, x_max: i64, y_min: i64, y_max: i64) -> (r:
    Result<Capability, u8>)
    ensures
        match r {
            Result::Ok(c) => {
                &&& c.wf()
                &&& is_n64_capability(c)
                &&& c.axes@[0].min == x_min && c.axes@[0].max == x_max
                &&& c.axes@[1].min == y_min && c.axes@[1].max == y_max
            },
            Result::Err(_) => !(-AXIS_RANGE_BOUND <= x_min <= x_max <= AXIS_RANGE_BOUND
                && -AXIS_RANGE_BOUND <= y_min <= y_max <= AXIS_RANGE_BOUND),
        },
{
    if !(-AXIS_RANGE_BOUND <= x_min && x_min <= x_max && x_max <= AXIS_RANGE_BOUND) {
        return Err(1);
    }
    if !(-AXIS_RANGE_BOUND <= y_min && y_min <= y_max && y_max <= AXIS_RANGE_BOUND) {
        return Err(2);
    }
    let mut axes: Vec<AxisDef> = Vec::new();
    let n_x: Vec<u8> = vec![120u8];
    let n_y: Vec<u8> = vec![121u8];
    axes.push(AxisDef { name: n_x, hid: 0x30, min: x_min, max: x_max });
    axes.push(AxisDef { name: n_y, hid: 0x31, min: y_min, max: y_max });
    let mut joysticks: Vec<JoystickDef> = Vec::new();
    let n_control: Vec<u8> = vec![99u8, 111u8, 110u8, 116u8, 114u8, 111u8, 108u8, 95u8, 115u8, 116u8, 105u8, 99u8, 107u8];
    let n_x2: Vec<u8> = vec![120u8];
    let n_y2: Vec<u8> = vec![121u8];
    joysticks.push(JoystickDef { name: n_control, x_axis: n_x2, y_axis: n_y2 });
    let mut buttons: Vec<ButtonDef> = Vec::new();
    let n_btn_a_1: Vec<u8> = vec![97u8];
    buttons.push(ButtonDef { name: n_btn_a_1, index: 1, max_duration_ms: DEFAULT_BUTTON_MAX_MS });
    let n_btn_b_2: Vec<u8> = vec![98u8];
    buttons.push(ButtonDef { name: n_btn_b_2, index: 2, max_duration_ms: 30000 });
    let n_btn_z_3: Vec<u8> = vec![122u8];
    buttons.push(ButtonDef { name: n_btn_z_3, index: 3, max_duration_ms: DEFAULT_BUTTON_MAX_MS });
    let n_btn_l_4: Vec<u8> = vec![108u8];
    buttons.push(ButtonDef { name: n_btn_l_4, index: 4, max_duration_ms: DEFAULT_BUTTON_MAX_MS });
    let n_btn_r_5: Vec<u8> = vec![114u8];
    buttons.push(ButtonDef { name: n_btn_r_5, index: 5, max_duration_ms: 10000 });
    let n_btn_start_6: Vec<u8> = vec![115u8, 116u8, 97u8, 114u8, 116u8];
    buttons.push(ButtonDef { name: n_btn_start_6, index: 6, max_duration_ms: 500 });
    let n_btn_cup_7: Vec<u8> = vec![99u8, 117u8, 112u8];
    buttons.push(ButtonDef { name: n_btn_cup_7, index: 7, max_duration_ms: DEFAULT_BUTTON_MAX_MS });
    let n_btn_cdown_8: Vec<u8> = vec![99u8, 100u8, 111u8, 119u8, 110u8];
    buttons.push(ButtonDef { name: n_btn_cdown_8, index: 8, max_duration_ms: DEFAULT_BUTTON_MAX_MS });
    let n_btn_cleft_9: Vec<u8> = vec![99u8, 108u8, 101u8, 102u8, 116u8];
    buttons.push(ButtonDef { name: n_btn_cleft_9, index: 9, max_duration_ms: DEFAULT_BUTTON_MAX_MS });
    let n_btn_cright_10: Vec<u8> = vec![99u8, 114u8, 105u8, 103u8, 104u8, 116u8];
    buttons.push(ButtonDef { name: n_btn_cright_10, index: 10, max_duration_ms: DEFAULT_BUTTON_MAX_MS });
    let n_btn_dup_11: Vec<u8> = vec![100u8, 117u8, 112u8];
    buttons.push(ButtonDef { name: n_btn_dup_11, index: 11, max_duration_ms: DEFAULT_BUTTON_MAX_MS });
    let n_btn_ddown_12: Vec<u8> = vec![100u8, 100u8, 111u8, 119u8, 110u8];
    buttons.push(ButtonDef { name: n_btn_ddown_12, index: 12, max_duration_ms: DEFAULT_BUTTON_MAX_MS });
    let n_btn_dleft_13: Vec<u8> = vec![100u8, 108u8, 101u8, 102u8, 116u8];
    buttons.push(ButtonDef { name: n_btn_dleft_13, index: 13, max_duration_ms: DEFAULT_BUTTON_MAX_MS });
    let n_btn_dright_14: Vec<u8> = vec![100u8, 114u8, 105u8, 103u8, 104u8, 116u8];
    buttons.push(ButtonDef { name: n_btn_dright_14, index: 14, max_duration_ms: DEFAULT_BUTTON_MAX_MS });
    let c = Capability { axes, joysticks, buttons };
    proof {
        assert(c.axes@[0].name@ =~= seq![120u8]);
        assert(c.axes@[1].name@ =~= seq![121u8]);
        assert(c.joysticks@[0].name@ =~= seq![99u8, 111u8, 110u8, 116u8, 114u8, 111u8, 108u8, 95u8, 115u8, 116u8, 105u8, 99u8, 107u8]);
        assert(c.joysticks@[0].x_axis@ =~= seq![120u8]);
        assert(c.joysticks@[0].y_axis@ =~= seq![121u8]);
        assert(c.buttons@[0].name@ =~= seq![97u8]);
        assert(c.buttons@[1].name@ =~= seq![98u8]);
        assert(c.buttons@[2].name@ =~= seq![122u8]);
        assert(c.buttons@[3].name@ =~= seq![108u8]);
        assert(c.buttons@[4].name@ =~= seq![114u8]);
        assert(c.buttons@[5].name@ =~= seq![115u8, 116u8, 97u8, 114u8, 116u8]);
        assert(c.buttons@[6].name@ =~= seq![99u8, 117u8, 112u8]);
        assert(c.buttons@[7].name@ =~= seq![99u8, 100u8, 111u8, 119u8, 110u8]);
        assert(c.buttons@[8].name@ =~= seq![99u8, 108u8, 101u8, 102u8, 116u8]);
        assert(c.buttons@[9].name@ =~= seq![99u8, 114u8, 105u8, 103u8, 104u8, 116u8]);
        assert(c.buttons@[10].name@ =~= seq![100u8, 117u8, 112u8]);
        assert(c.buttons@[11].name@ =~= seq![100u8, 100u8, 111u8, 119u8, 110u8]);
        assert(c.buttons@[12].name@ =~= seq![100u8, 108u8, 101u8, 102u8, 116u8]);
        assert(c.buttons@[13].name@ =~= seq![100u8, 114u8, 105u8, 103u8, 104u8, 116u8]);
        assert(c.axis_name(0) == c.joysticks@[0].x_axis@);
        assert(c.axis_name(1) == c.joysticks@[0].y_axis@);
        assert(c.has_axis(c.joysticks@[0].x_axis@));
        assert(c.has_axis(c.joysticks@[0].y_axis@));
        assert(c.wf());
    }
    Ok(c)
}

/// The guard-slot index of a N64-style button name, or `-1` for an
/// unknown name.
pub open spec fn spec_button_guard_index_n64(s: Seq<u8>) -> int {
    if s == seq![97u8] {
        0
    }
    else if s == seq![98u8] {
        1
    }
    else if s == seq![122u8] {
        2
    }
    else if s == seq![108u8] {
        3
    }
    else if s == seq![114u8] {
        4
    }
    else if s == seq![115u8, 116u8, 97u8, 114u8, 116u8] {
        5
    }
    else if s == seq![99u8, 117u8, 112u8] {
        6
    }
    else if s == seq![99u8, 100u8, 111u8, 119u8, 110u8] {
        7
    }
    else if s == seq![99u8, 108u8, 101u8, 102u8, 116u8] {
        8
    }
    else if s == seq![99u8, 114u8, 105u8, 103u8, 104u8, 116u8] {
        9
    }
    else if s == seq![100u8, 117u8, 112u8] {
        10
    }
    else if s == seq![100u8, 100u8, 111u8, 119u8, 110u8] {
        11
    }
    else if s == seq![100u8, 108u8, 101u8, 102u8, 116u8] {
        12
    }
    else if s == seq![100u8, 114u8, 105u8, 103u8, 104u8, 116u8] {
        13
    } else {
        -1
    }
}

/// Guard-slot index of a N64-style button name.
pub fn get_button_guard_index_n64(name: &[u8]) -> (r: usize)
    requires
        spec_button_guard_index_n64(name@) >= 0,
    ensures
        r == spec_button_guard_index_n64(name@),
{
    let kw_a: Vec<u8> = vec![97u8];
    let kw_b: Vec<u8> = vec![98u8];
    let kw_z: Vec<u8> = vec![122u8];
    let kw_l: Vec<u8> = vec![108u8];
    let kw_r: Vec<u8> = vec![114u8];
    let kw_start: Vec<u8> = vec![115u8, 116u8, 97u8, 114u8, 116u8];
    let kw_cup: Vec<u8> = vec![99u8, 117u8, 112u8];
    let kw_cdown: Vec<u8> = vec![99u8, 100u8, 111u8, 119u8, 110u8];
    let kw_cleft: Vec<u8> = vec![99u8, 108u8, 101u8, 102u8, 116u8];
    let kw_cright: Vec<u8> = vec![99u8, 114u8, 105u8, 103u8, 104u8, 116u8];
    let kw_dup: Vec<u8> = vec![100u8, 117u8, 112u8];
    let kw_ddown: Vec<u8> = vec![100u8, 100u8, 111u8, 119u8, 110u8];
    let kw_dleft: Vec<u8> = vec![100u8, 108u8, 101u8, 102u8, 116u8];
    let kw_dright: Vec<u8> = vec![100u8, 114u8, 105u8, 103u8, 104u8, 116u8];
    proof {
        assert(kw_a@ =~= seq![97u8]);
        assert(kw_b@ =~= seq![98u8]);
        assert(kw_z@ =~= seq![122u8]);
        assert(kw_l@ =~= seq![108u8]);
        assert(kw_r@ =~= seq![114u8]);
        assert(kw_start@ =~= seq![115u8, 116u8, 97u8, 114u8, 116u8]);
        assert(kw_cup@ =~= seq![99u8, 117u8, 112u8]);
        assert(kw_cdown@ =~= seq![99u8, 100u8, 111u8, 119u8, 110u8]);
        assert(kw_cleft@ =~= seq![99u8, 108u8, 101u8, 102u8, 116u8]);
        assert(kw_cright@ =~= seq![99u8, 114u8, 105u8, 103u8, 104u8, 116u8]);
        assert(kw_dup@ =~= seq![100u8, 117u8, 112u8]);
        assert(kw_ddown@ =~= seq![100u8, 100u8, 111u8, 119u8, 110u8]);
        assert(kw_dleft@ =~= seq![100u8, 108u8, 101u8, 102u8, 116u8]);
        assert(kw_dright@ =~= seq![100u8, 114u8, 105u8, 103u8, 104u8, 116u8]);
    }
    if bytes_eq(name, kw_a.as_slice()) {
        0
    }
    else if bytes_eq(name, kw_b.as_slice()) {
        1
    }
    else if bytes_eq(name, kw_z.as_slice()) {
        2
    }
    else if bytes_eq(name, kw_l.as_slice()) {
        3
    }
    else if bytes_eq(name, kw_r.as_slice()) {
        4
    }
    else if bytes_eq(name, kw_start.as_slice()) {
        5
    }
    else if bytes_eq(name, kw_cup.as_slice()) {
        6
    }
    else if bytes_eq(name, kw_cdown.as_slice()) {
        7
    }
    else if bytes_eq(name, kw_cleft.as_slice()) {
        8
    }
    else if bytes_eq(name, kw_cright.as_slice()) {
        9
    }
    else if bytes_eq(name, kw_dup.as_slice()) {
        10
    }
    else if bytes_eq(name, kw_ddown.as_slice()) {
        11
    }
    else if bytes_eq(name, kw_dleft.as_slice()) {
        12
    }
    else if bytes_eq(name, kw_dright.as_slice()) {
        13
    }
    else {
        proof {
            assert(false);
        }
        0
    }
}

/// The guard-slot index of a GameCube-style button name, or `-1` for an
/// unknown name.
pub open spec fn spec_button_guard_index_gcn(s: Seq<u8>) -> int {
    if s == seq![97u8] {
        0
    }
    else if s == seq![98u8] {
        1
    }
    else if s == seq![120u8] {
        2
    }
    else if s == seq![121u8] {
        3
    }
    else if s == seq![122u8] {
        4
    }
    else if s == seq![108u8] {
        5
    }
    else if s == seq![114u8] {
        6
    }
    else if s == seq![115u8, 116u8, 97u8, 114u8, 116u8] {
        7
    }
    else if s == seq![100u8, 117u8, 112u8] {
        8
    }
    else if s == seq![100u8, 100u8, 111u8, 119u8, 110u8] {
        9
    }
    else if s == seq![100u8, 108u8, 101u8, 102u8, 116u8] {
        10
    }
    else if s == seq![100u8, 114u8, 105u8, 103u8, 104u8, 116u8] {
        11
    } else {
        -1
    }
}

/// Guard-slot index of a GameCube-style button name.
pub fn get_button_guard_index_gcn(name: &[u8]) -> (r: usize)
    requires
        spec_button_guard_index_gcn(name@) >= 0,
    ensures
        r == spec_button_guard_index_gcn(name@),
{
    let kw_a: Vec<u8> = vec![97u8];
    let kw_b: Vec<u8> = vec![98u8];
    let kw_x: Vec<u8> = vec![120u8];
    let kw_y: Vec<u8> = vec![121u8];
    let kw_z: Vec<u8> = vec![122u8];
    let kw_l: Vec<u8> = vec![108u8];
    let kw_r: Vec<u8> = vec![114u8];
    let kw_start: Vec<u8> = vec![115u8, 116u8, 97u8, 114u8, 116u8];
    let kw_dup: Vec<u8> = vec![100u8, 117u8, 112u8];
    let kw_ddown: Vec<u8> = vec![100u8, 100u8, 111u8, 119u8, 110u8];
    let kw_dleft: Vec<u8> = vec![100u8, 108u8, 101u8, 102u8, 116u8];
    let kw_dright: Vec<u8> = vec![100u8, 114u8, 105u8, 103u8, 104u8, 116u8];
    proof {
        assert(kw_a@ =~= seq![97u8]);
        assert(kw_b@ =~= seq![98u8]);
        assert(kw_x@ =~= seq![120u8]);
        assert(kw_y@ =~= seq![121u8]);
        assert(kw_z@ =~= seq![122u8]);
        assert(kw_l@ =~= seq![108u8]);
        assert(kw_r@ =~= seq![114u8]);
        assert(kw_start@ =~= seq![115u8, 116u8, 97u8, 114u8, 116u8]);
        assert(kw_dup@ =~= seq![100u8, 117u8, 112u8]);
        assert(kw_ddown@ =~= seq![100u8, 100u8, 111u8, 119u8, 110u8]);
        assert(kw_dleft@ =~= seq![100u8, 108u8, 101u8, 102u8, 116u8]);
        assert(kw_dright@ =~= seq![100u8, 114u8, 105u8, 103u8, 104u8, 116u8]);
    }
    if bytes_eq(name, kw_a.as_slice()) {
        0
    }
    else if bytes_eq(name, kw_b.as_slice()) {
        1
    }
    else if bytes_eq(name, kw_x.as_slice()) {
        2
    }
    else if bytes_eq(name, kw_y.as_slice()) {
        3
    }
    else if bytes_eq(name, kw_z.as_slice()) {
        4
    }
    else if bytes_eq(name, kw_l.as_slice()) {
        5
    }
    else if bytes_eq(name, kw_r.as_slice()) {
        6
    }
    else if bytes_eq(name, kw_start.as_slice()) {
        7
    }
    else if bytes_eq(name, kw_dup.as_slice()) {
        8
    }
    else if bytes_eq(name, kw_ddown.as_slice()) {
        9
    }
    else if bytes_eq(name, kw_dleft.as_slice()) {
        10
    }
    else if bytes_eq(name, kw_dright.as_slice()) {
        11
    }
    else {
        proof {
            assert(false);
        }
        0
    }
}

} // verus!
