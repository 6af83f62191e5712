//! The joystick: directions as keys, pointer motion, the grade-mode drag and
//! the Codex stick.

use vstd::prelude::*;

use crate::codex::{act, call_of, Binding, CodexCall, CodexStatus};
use crate::guarantees::buttons_settle;
use crate::keymap::{JOY_MODE_GRADE, JOY_MODE_KEYS, MODE_CODEX, SLOT_JOY_UP};
use crate::pad::{
    codex_mode, force_send_mouse, mouse_buttons, post_event, set_held, Pad, PadModel,
};
use crate::queues::{forced, InputEvent, MouseFrame, EVENT_QUEUE, MOUSE_QUEUE};
use crate::scan::send_buttons;

verus! {

/// No direction.
pub const DIR_NONE: u8 = 0xFF;

/// Direction indices, on the wire and behind `SLOT_JOY_UP`.
pub const DIR_UP: u8 = 0;

pub const DIR_DOWN: u8 = 1;

pub const DIR_LEFT: u8 = 2;

pub const DIR_RIGHT: u8 = 3;

/// Reading of an axis at rest.
pub const CENTRE: i32 = 2048;

/// Largest reading of an axis: the converter has twelve bits.
pub const AXIS_MAX: u16 = 4095;

/// Pointer-mode dead zone around the centre. The key threshold is a trigger
/// point; this only absorbs the stick's slop.
pub const MOUSE_DEADZONE: i32 = 200;

/// Mouse mode: pixels per frame are deflection times speed over this.
pub const MOUSE_DIV: i32 = 512;

/// Grade mode: pixels per frame are deflection times squared speed over this.
pub const GRADE_DIV: i32 = 8192;

/// Grade mode: the drag ends once both axes are this close to the centre.
pub const DRAG_RELEASE: i32 = 120;

/// Largest motion of one frame.
pub const MOTION_MAX: i32 = 127;

/// What the Codex keymap makes of the stick.
#[derive(Clone, Copy, Debug, PartialEq, Eq, Structural)]
pub enum Joystick {
    /// Nothing.
    Inactive,
    /// The Codex Micro's analog stick.
    Vendor,
    /// A radial menu of bindings.
    Sectors,
}

/// What the joystick task remembers.
#[derive(Clone, Copy, Debug, PartialEq, Eq, Structural)]
pub struct Stick {
    /// The direction the stick is deflected in, or `DIR_NONE`.
    pub last: u8,
    /// The binding of the radial sector that is open.
    pub sector_binding: Binding,
    /// The joystick mode that `last` was honoured in.
    pub last_mode: u8,
    /// Grade mode holds the button down.
    pub dragging: bool,
    /// Motion that has not made a whole pixel yet.
    pub acc_x: i32,
    pub acc_y: i32,
}

impl Stick {
    /// The direction is one of the four or none.
    pub open spec fn wf(self) -> bool {
        self.last < 4 || self.last == DIR_NONE
    }

    /// The left-over motion is less than the largest pixel.
    pub open spec fn fractional(self) -> bool {
        &&& -GRADE_DIV < self.acc_x < GRADE_DIV
        &&& -GRADE_DIV < self.acc_y < GRADE_DIV
    }

    /// A stick at rest.
    pub fn new() -> (stick: Stick)
        ensures
            stick == (Stick {
                last: DIR_NONE,
                sector_binding: Binding::Unbound,
                last_mode: JOY_MODE_KEYS,
                dragging: false,
                acc_x: 0,
                acc_y: 0,
            }),
            stick.wf(),
            stick.fractional(),
    {
        Stick {
            last: DIR_NONE,
            sector_binding: Binding::Unbound,
            last_mode: JOY_MODE_KEYS,
            dragging: false,
            acc_x: 0,
            acc_y: 0,
        }
    }
}

/// One reading of both axes.
#[derive(Clone, Copy, Debug, PartialEq, Eq, Structural)]
pub struct Axes {
    pub x: u16,
    pub y: u16,
}

impl Axes {
    /// Both readings have at most twelve bits.
    pub open spec fn wf(self) -> bool {
        self.x <= AXIS_MAX && self.y <= AXIS_MAX
    }

    /// The axes from the two converter nets. The board mounts the stick
    /// rotated: the `JOY_X` net senses vertical travel.
    pub fn from_nets(joy_x: u16, joy_y: u16) -> (axes: Axes)
        ensures
            axes == (Axes { x: joy_y, y: joy_x }),
    {
        Axes { x: joy_y, y: joy_x }
    }
}

/// The direction of a deflection past `threshold`; horizontal goes first.
pub open spec fn direction_of(axes: Axes, threshold: u16) -> u8 {
    if axes.x < CENTRE - threshold {
        DIR_LEFT
    } else if axes.x > CENTRE + threshold {
        DIR_RIGHT
    } else if axes.y < CENTRE - threshold {
        DIR_UP
    } else if axes.y > CENTRE + threshold {
        DIR_DOWN
    } else {
        DIR_NONE
    }
}

/// The direction of a deflection past `threshold`; horizontal goes first.
pub fn direction(axes: Axes, threshold: u16) -> (dir: u8)
    ensures
        dir == direction_of(axes, threshold),
        dir < 4 || dir == DIR_NONE,
{
    let lo: u16 = 2048u16.saturating_sub(threshold);
    let hi: u16 = 2048u16.saturating_add(threshold);
    if axes.x < lo {
        DIR_LEFT
    } else if axes.x > hi {
        DIR_RIGHT
    } else if axes.y < lo {
        DIR_UP
    } else if axes.y > hi {
        DIR_DOWN
    } else {
        DIR_NONE
    }
}

/// The stick angle of a direction, in thousandths of a turn: right 0, down
/// 250, left 500, up 750.
pub open spec fn angle_of(dir: u8) -> u16 {
    if dir == DIR_UP {
        750
    } else if dir == DIR_DOWN {
        250
    } else if dir == DIR_LEFT {
        500
    } else {
        0
    }
}

/// The stick angle of a direction, in thousandths of a turn.
pub fn dir_angle(dir: u8) -> (angle: u16)
    requires
        dir < 4,
    ensures
        angle == angle_of(dir),
{
    if dir == DIR_UP {
        750
    } else if dir == DIR_DOWN {
        250
    } else if dir == DIR_LEFT {
        500
    } else {
        0
    }
}

/// The input of a direction.
pub open spec fn dir_slot(dir: u8) -> int {
    SLOT_JOY_UP + dir
}

/// Directions are keys now.
pub open spec fn keys_mode(m: PadModel) -> bool {
    m.keymap.joy_mode == JOY_MODE_KEYS
}

/// A change of the joystick's mode while the stick is deflected: the direction
/// is handed over, so that no mode strands a held key, and a drag is dropped,
/// so that the button cannot stay latched.
pub open spec fn handed_over(m: PadModel, stick: Stick) -> (PadModel, Stick) {
    if m.device_mode == MODE_CODEX || m.keymap.joy_mode == stick.last_mode {
        (m, stick)
    } else {
        let turned = if stick.last == DIR_NONE {
            m
        } else {
            m.held_set(dir_slot(stick.last), keys_mode(m))
        };
        (
            if stick.dragging {
                (PadModel { grade_drag: false, ..turned }).sent_buttons()
            } else {
                turned
            },
            Stick {
                last_mode: m.keymap.joy_mode,
                acc_x: 0,
                acc_y: 0,
                dragging: false,
                ..stick
            },
        )
    }
}

/// What the stick is in the running mode.
pub open spec fn role_of(m: PadModel, joystick: Joystick) -> Joystick {
    if m.device_mode == MODE_CODEX {
        joystick
    } else {
        Joystick::Inactive
    }
}

/// The pad after the stick left direction `stick.last`.
pub open spec fn left(m: PadModel, stick: Stick, joystick: Joystick) -> PadModel {
    let next = match role_of(m, joystick) {
        Joystick::Vendor => m,
        Joystick::Sectors => m.acted(stick.sector_binding, false, dir_slot(stick.last)),
        Joystick::Inactive => if keys_mode(m) && m.device_mode != MODE_CODEX {
            m.held_set(dir_slot(stick.last), false)
        } else {
            m
        },
    };
    next.posted(3, stick.last, 0)
}

/// What leaving a direction asks of the Codex service.
pub open spec fn left_call(
    m: PadModel,
    stick: Stick,
    joystick: Joystick,
    status: CodexStatus,
) -> CodexCall {
    match role_of(m, joystick) {
        Joystick::Vendor => CodexCall::Stick { dir: stick.last, active: false },
        Joystick::Sectors => call_of(stick.sector_binding, false, status),
        Joystick::Inactive => CodexCall::Quiet,
    }
}

/// The event that closes the radial menu, if there is one.
pub open spec fn closed_call(
    m: PadModel,
    dir: u8,
    joystick: Joystick,
    status: CodexStatus,
) -> CodexCall {
    if role_of(m, joystick) == Joystick::Sectors {
        CodexCall::Radial {
            angle_milli: angle_of(dir),
            open: false,
            layer: status.layer_index,
            profile: status.profile_index,
        }
    } else {
        CodexCall::Quiet
    }
}

/// The pad after the stick entered direction `dir`, whose radial sector has
/// binding `sector`.
pub open spec fn entered(m: PadModel, dir: u8, joystick: Joystick, sector: Binding) -> PadModel {
    let next = match role_of(m, joystick) {
        Joystick::Vendor => m,
        Joystick::Sectors => m.acted(sector, true, dir_slot(dir)),
        Joystick::Inactive => if keys_mode(m) && m.device_mode != MODE_CODEX {
            m.held_set(dir_slot(dir), true)
        } else {
            m
        },
    };
    next.posted(3, dir, 1)
}

/// What entering a direction asks of the Codex service, in order.
pub open spec fn entered_calls(
    m: PadModel,
    dir: u8,
    joystick: Joystick,
    sector: Binding,
    status: CodexStatus,
) -> (CodexCall, CodexCall) {
    match role_of(m, joystick) {
        Joystick::Vendor => (CodexCall::Stick { dir, active: true }, CodexCall::Quiet),
        Joystick::Sectors => (
            CodexCall::Radial {
                angle_milli: angle_of(dir),
                open: true,
                layer: status.layer_index,
                profile: status.profile_index,
            },
            call_of(sector, true, status),
        ),
        Joystick::Inactive => (CodexCall::Quiet, CodexCall::Quiet),
    }
}

/// What is to be done next for the stick to point where it does.
#[derive(Clone, Copy, Debug, PartialEq, Eq, Structural)]
pub enum StickStep {
    /// Nothing: it is known to point there.
    Settled,
    /// Leave the direction it pointed in before.
    Leave,
    /// Enter the direction it points in now.
    Enter,
}

/// What is to be done next: the old direction is left before the new one is
/// entered.
pub open spec fn step_of(stick: Stick, dir: u8) -> StickStep {
    if dir == stick.last {
        StickStep::Settled
    } else if stick.last != DIR_NONE {
        StickStep::Leave
    } else {
        StickStep::Enter
    }
}

/// The pad and the stick after that step.
pub open spec fn stepped(
    m: PadModel,
    stick: Stick,
    dir: u8,
    joystick: Joystick,
    sector: Binding,
) -> (PadModel, Stick) {
    match step_of(stick, dir) {
        StickStep::Settled => (m, stick),
        StickStep::Leave => (left(m, stick, joystick), Stick { last: DIR_NONE, ..stick }),
        StickStep::Enter => (
            entered(m, dir, joystick, sector),
            Stick { last: dir, sector_binding: sector_after(m, stick, joystick, sector), ..stick },
        ),
    }
}

/// The sector binding that is remembered once a direction was entered.
pub open spec fn sector_after(
    m: PadModel,
    stick: Stick,
    joystick: Joystick,
    sector: Binding,
) -> Binding {
    if role_of(m, joystick) == Joystick::Sectors {
        sector
    } else {
        stick.sector_binding
    }
}

/// What is to be done next once the stick was read to point to `dir`. It takes
/// at most two steps to settle.
pub fn stick_next(stick: &Stick, dir: u8) -> (step: StickStep)
    requires
        stick.wf(),
        dir < 4 || dir == DIR_NONE,
    ensures
        step == step_of(*stick, dir),
        step == StickStep::Leave ==> stick.last < 4,
        step == StickStep::Enter ==> dir < 4,
{
    if dir == stick.last {
        StickStep::Settled
    } else if stick.last != DIR_NONE {
        StickStep::Leave
    } else {
        StickStep::Enter
    }
}

/// Takes one reading: hands a change of mode over and says where the stick
/// points now. `stick_next` says what is to be done about it.
pub fn stick_read(pad: &mut Pad, stick: &mut Stick, axes: Axes) -> (dir: u8)
    requires
        old(pad)@.wf(),
        old(stick).wf(),
    ensures
        (final(pad)@, *final(stick)) == handed_over(old(pad)@, *old(stick)),
        final(pad)@.wf(),
        final(stick).wf(),
        dir == direction_of(axes, old(pad)@.keymap.joy_threshold),
        dir < 4 || dir == DIR_NONE,
{
    let dir = direction(axes, pad.keymap.joy_threshold);
    let mode: u8 = pad.keymap.joy_mode;
    if !codex_mode(pad) && mode != stick.last_mode {
        stick.last_mode = mode;
        stick.acc_x = 0;
        stick.acc_y = 0;
        if stick.last != DIR_NONE {
            set_held(pad, SLOT_JOY_UP + stick.last as usize, mode == JOY_MODE_KEYS);
        }
        if stick.dragging {
            stick.dragging = false;
            pad.grade_drag = false;
            send_buttons(pad);
        }
    }
    dir
}

/// Leaves the direction that the stick was deflected in. Once the call that
/// comes back is performed, `stick_close` tells of the menu.
pub fn stick_leave(
    pad: &mut Pad,
    stick: &mut Stick,
    joystick: Joystick,
    status: CodexStatus,
) -> (call: CodexCall)
    requires
        old(pad)@.wf(),
        old(stick).wf(),
        old(stick).last != DIR_NONE,
    ensures
        final(pad)@ == left(old(pad)@, *old(stick), joystick),
        final(pad)@.wf(),
        *final(stick) == (Stick { last: DIR_NONE, ..*old(stick) }),
        final(stick).wf(),
        call == left_call(old(pad)@, *old(stick), joystick, status),
{
    let codex = codex_mode(pad);
    let dir: u8 = stick.last;
    let slot: usize = SLOT_JOY_UP + dir as usize;
    let role = if codex {
        joystick
    } else {
        Joystick::Inactive
    };
    let call = match role {
        Joystick::Vendor => CodexCall::Stick { dir, active: false },
        Joystick::Sectors => act(pad, stick.sector_binding, false, slot, status),
        Joystick::Inactive => {
            if pad.keymap.joy_mode == JOY_MODE_KEYS && !codex {
                set_held(pad, slot, false);
            }
            CodexCall::Quiet
        },
    };
    post_event(pad, 3, dir, 0);
    stick.last = DIR_NONE;
    call
}

/// The event that closes the radial menu once direction `dir` was left.
/// `status` is read after the release was performed: letting go of a layer
/// shows in it.
pub fn stick_close(pad: &Pad, dir: u8, joystick: Joystick, status: CodexStatus) -> (call: CodexCall)
    requires
        dir < 4,
    ensures
        call == closed_call(pad@, dir, joystick, status),
{
    if codex_mode(pad) {
        match joystick {
            Joystick::Sectors => CodexCall::Radial {
                angle_milli: dir_angle(dir),
                open: false,
                layer: status.layer_index,
                profile: status.profile_index,
            },
            _ => CodexCall::Quiet,
        }
    } else {
        CodexCall::Quiet
    }
}

/// Enters direction `dir`; `sector` is the binding of its radial sector, read
/// after the old direction was left.
pub fn stick_enter(
    pad: &mut Pad,
    stick: &mut Stick,
    dir: u8,
    joystick: Joystick,
    sector: Binding,
    status: CodexStatus,
) -> (calls: (CodexCall, CodexCall))
    requires
        old(pad)@.wf(),
        old(stick).wf(),
        dir < 4,
    ensures
        final(pad)@ == entered(old(pad)@, dir, joystick, sector),
        final(pad)@.wf(),
        *final(stick) == (Stick {
            last: dir,
            sector_binding: sector_after(old(pad)@, *old(stick), joystick, sector),
            ..*old(stick)
        }),
        final(stick).wf(),
        calls == entered_calls(old(pad)@, dir, joystick, sector, status),
{
    let codex = codex_mode(pad);
    let slot: usize = SLOT_JOY_UP + dir as usize;
    let role = if codex {
        joystick
    } else {
        Joystick::Inactive
    };
    let calls = match role {
        Joystick::Vendor => (CodexCall::Stick { dir, active: true }, CodexCall::Quiet),
        Joystick::Sectors => {
            stick.sector_binding = sector;
            let call = act(pad, sector, true, slot, status);
            (
                CodexCall::Radial {
                    angle_milli: dir_angle(dir),
                    open: true,
                    layer: status.layer_index,
                    profile: status.profile_index,
                },
                call,
            )
        },
        Joystick::Inactive => {
            if pad.keymap.joy_mode == JOY_MODE_KEYS && !codex {
                set_held(pad, slot, true);
            }
            (CodexCall::Quiet, CodexCall::Quiet)
        },
    };
    post_event(pad, 3, dir, 1);
    stick.last = dir;
    calls
}

/// How far a centred reading lies past the dead zone, with its sign.
pub open spec fn beyond_deadzone(centred: int) -> int {
    if centred > MOUSE_DEADZONE {
        centred - MOUSE_DEADZONE
    } else if centred < -MOUSE_DEADZONE {
        centred + MOUSE_DEADZONE
    } else {
        0
    }
}

/// How far a centred reading lies past the dead zone, with its sign.
fn past_deadzone(centred: i32) -> (past: i32)
    requires
        -CENTRE <= centred <= u16::MAX - CENTRE,
    ensures
        past == beyond_deadzone(centred as int),
{
    if centred > MOUSE_DEADZONE {
        centred - MOUSE_DEADZONE
    } else if centred < -MOUSE_DEADZONE {
        centred + MOUSE_DEADZONE
    } else {
        0
    }
}

/// The quotient rounded towards zero.
pub open spec fn quotient(value: int, div: int) -> int {
    if value >= 0 {
        value / div
    } else {
        -((-value) / div)
    }
}

/// The whole pixels in `value`, at most what one frame can carry.
pub open spec fn pixels(value: int, div: int) -> int {
    let whole = quotient(value, div);
    if whole > MOTION_MAX {
        MOTION_MAX as int
    } else if whole < -MOTION_MAX {
        -MOTION_MAX
    } else {
        whole
    }
}

/// The stick is near enough to the centre for a drag to end.
pub open spec fn is_home(axes: Axes) -> bool {
    &&& -DRAG_RELEASE < axes.x - CENTRE < DRAG_RELEASE
    &&& -DRAG_RELEASE < axes.y - CENTRE < DRAG_RELEASE
}

/// The stick is outside the dead zone.
pub open spec fn is_deflected(axes: Axes) -> bool {
    beyond_deadzone(axes.x - CENTRE) != 0 || beyond_deadzone(axes.y - CENTRE) != 0
}

/// Grade mode: a deflection grabs, with the button down before any motion, and
/// coming home lets go. A fresh grab starts with no fractions.
pub open spec fn drag_updated(m: PadModel, stick: Stick, axes: Axes) -> (PadModel, Stick) {
    if m.keymap.joy_mode != JOY_MODE_GRADE {
        (m, stick)
    } else if !stick.dragging && is_deflected(axes) {
        (
            (PadModel { grade_drag: true, ..m }).sent_buttons(),
            Stick { dragging: true, acc_x: 0, acc_y: 0, ..stick },
        )
    } else if stick.dragging && is_home(axes) {
        (
            (PadModel { grade_drag: false, ..m }).sent_buttons(),
            Stick { dragging: false, acc_x: 0, acc_y: 0, ..stick },
        )
    } else {
        (m, stick)
    }
}

/// What deflection is multiplied by.
pub open spec fn gain_of(m: PadModel) -> int {
    let speed = m.keymap.joy_mouse_speed as int;
    if m.keymap.joy_mode == JOY_MODE_GRADE {
        speed * speed
    } else {
        speed
    }
}

/// What makes one pixel.
pub open spec fn div_of(m: PadModel) -> int {
    if m.keymap.joy_mode == JOY_MODE_GRADE {
        GRADE_DIV as int
    } else {
        MOUSE_DIV as int
    }
}

/// The motion that has piled up on one axis.
pub open spec fn piled(m: PadModel, acc: i32, axis: u16) -> int {
    acc + beyond_deadzone(axis - CENTRE) * gain_of(m)
}

/// One frame of pointer motion: whole pixels go out, fractions stay.
pub open spec fn moved(m: PadModel, stick: Stick, axes: Axes) -> (PadModel, Stick) {
    let x = piled(m, stick.acc_x, axes.x);
    let y = piled(m, stick.acc_y, axes.y);
    let dx = pixels(x, div_of(m));
    let dy = pixels(y, div_of(m));
    (
        if dx != 0 || dy != 0 {
            m.sent_mouse(MouseFrame { buttons: m.buttons(), dx: dx as i8, dy: dy as i8 })
        } else {
            m
        },
        Stick {
            acc_x: (x - dx * div_of(m)) as i32,
            acc_y: (y - dy * div_of(m)) as i32,
            ..stick
        },
    )
}

/// One reading in the pointer modes; nothing in the others.
pub open spec fn pointed(m: PadModel, stick: Stick, axes: Axes) -> (PadModel, Stick) {
    if m.device_mode == MODE_CODEX || keys_mode(m) {
        (m, stick)
    } else {
        let (grabbed, dragging) = drag_updated(m, stick, axes);
        moved(grabbed, dragging, axes)
    }
}

/// The motion of one axis fits the machine's integers.
pub open spec fn axis_fits(m: PadModel, acc: i32, axis: u16) -> bool {
    &&& i32::MIN <= beyond_deadzone(axis - CENTRE) * gain_of(m) <= i32::MAX
    &&& i32::MIN <= piled(m, acc, axis) <= i32::MAX
}

/// One reading's motion fits the machine's integers.
pub open spec fn motion_fits(m: PadModel, stick: Stick, axes: Axes) -> bool {
    m.device_mode == MODE_CODEX || keys_mode(m) || {
        let (grabbed, dragging) = drag_updated(m, stick, axes);
        axis_fits(grabbed, dragging.acc_x, axes.x) && axis_fits(grabbed, dragging.acc_y, axes.y)
    }
}

/// The whole pixels in `value`, and what is left over.
fn whole_pixels(value: i32, div: i32) -> (split: (i32, i32))
    requires
        0 < div <= GRADE_DIV,
    ensures
        split.0 == pixels(value as int, div as int),
        split.1 == value - pixels(value as int, div as int) * div,
        -MOTION_MAX <= split.0 <= MOTION_MAX,
{
    let wide: i64 = value as i64;
    let by: i64 = div as i64;
    let whole: i64 = if wide >= 0 {
        wide / by
    } else {
        -((-wide) / by)
    };
    let sent: i64 = if whole > MOTION_MAX as i64 {
        MOTION_MAX as i64
    } else if whole < -(MOTION_MAX as i64) {
        -(MOTION_MAX as i64)
    } else {
        whole
    };
    proof {
        lemma_split(value as int, div as int);
    }
    let left: i64 = wide - sent * by;
    (sent as i32, left as i32)
}

/// Taking whole pixels out brings what is left no further from zero.
proof fn lemma_split(value: int, div: int)
    requires
        0 < div <= GRADE_DIV,
    ensures
        value >= 0 ==> 0 <= value - pixels(value, div) * div <= value,
        value <= 0 ==> value <= value - pixels(value, div) * div <= 0,
        -MOTION_MAX * GRADE_DIV <= pixels(value, div) * div <= MOTION_MAX * GRADE_DIV,
{
    let size = if value >= 0 {
        value
    } else {
        -value
    };
    let whole = size / div;
    vstd::arithmetic::div_mod::lemma_fundamental_div_mod(size, div);
    vstd::arithmetic::div_mod::lemma_div_pos_is_pos(size, div);
    let sent = if whole > MOTION_MAX {
        MOTION_MAX as int
    } else {
        whole
    };
    assert(0 <= sent * div <= whole * div && sent * div <= 127 * 8192) by (nonlinear_arith)
        requires
            0 <= sent <= whole,
            sent <= 127,
            0 < div <= 8192,
    ;
    assert(whole * div == div * whole) by (nonlinear_arith);
    assert((-sent) * div == -(sent * div)) by (nonlinear_arith);
}

/// A frame's worth of deflection never exceeds what one frame can carry, so
/// what is left over is less than a pixel.
proof fn lemma_remainder(m: PadModel, acc: i32, axis: u16)
    requires
        axis <= AXIS_MAX,
        -GRADE_DIV < acc < GRADE_DIV,
        m.keymap.joy_mouse_speed <= 10,
    ensures
        -1848 <= beyond_deadzone(axis - CENTRE) <= 1848,
        0 <= gain_of(m) <= 100,
        -200000 < piled(m, acc, axis) < 200000,
        pixels(piled(m, acc, axis), div_of(m)) == quotient(piled(m, acc, axis), div_of(m)),
        -MOTION_MAX < pixels(piled(m, acc, axis), div_of(m)) < MOTION_MAX,
        -div_of(m) < piled(m, acc, axis) - pixels(piled(m, acc, axis), div_of(m)) * div_of(m)
            < div_of(m),
{
    let past = beyond_deadzone(axis - CENTRE);
    let speed = m.keymap.joy_mouse_speed as int;
    assert(speed * speed <= 100) by (nonlinear_arith)
        requires
            0 <= speed <= 10,
    ;
    let gain = gain_of(m);
    if m.keymap.joy_mode == JOY_MODE_GRADE {
        assert(-184800 <= past * gain <= 184800) by (nonlinear_arith)
            requires
                -1848 <= past <= 1848,
                0 <= gain <= 100,
        ;
        let value = piled(m, acc, axis);
        assert(-8192 < value - quotient(value, 8192) * 8192 < 8192);
    } else {
        assert(-18480 <= past * gain <= 18480) by (nonlinear_arith)
            requires
                -1848 <= past <= 1848,
                0 <= gain <= 10,
        ;
        let value = piled(m, acc, axis);
        assert(-512 < value - quotient(value, 512) * 512 < 512);
    }
}

/// Whether one axis of motion fits the machine's integers.
fn one_axis_fits(past: i32, gain: i32, acc: i32) -> (fits: bool)
    ensures
        fits == (i32::MIN <= past * gain <= i32::MAX && i32::MIN <= acc + past * gain
            <= i32::MAX),
{
    match past.checked_mul(gain) {
        Some(motion) => acc.checked_add(motion).is_some(),
        None => false,
    }
}

/// Whether the motion of one reading fits the machine's integers. With the
/// settings in their ranges it always does.
pub fn stick_fits(pad: &Pad, stick: &Stick, axes: Axes) -> (fits: bool)
    ensures
        fits == motion_fits(pad@, *stick, axes),
{
    let mode: u8 = pad.keymap.joy_mode;
    if codex_mode(pad) || mode == JOY_MODE_KEYS {
        return true;
    }
    let grade = mode == JOY_MODE_GRADE;
    let off_x: i32 = axes.x as i32 - CENTRE;
    let off_y: i32 = axes.y as i32 - CENTRE;
    let cx: i32 = past_deadzone(off_x);
    let cy: i32 = past_deadzone(off_y);
    let grabs = grade && !stick.dragging && (cx != 0 || cy != 0);
    let lets_go = grade && stick.dragging && homed(off_x, off_y);
    let speed: i32 = pad.keymap.joy_mouse_speed as i32;
    assert(0 <= speed * speed <= 65025) by (nonlinear_arith)
        requires
            0 <= speed <= 255,
    ;
    let gain: i32 = if grade {
        speed * speed
    } else {
        speed
    };
    let (acc_x, acc_y): (i32, i32) = if grabs || lets_go {
        (0, 0)
    } else {
        (stick.acc_x, stick.acc_y)
    };
    one_axis_fits(cx, gain, acc_x) && one_axis_fits(cy, gain, acc_y)
}

/// Whether centred readings are near enough to the centre for a drag to end.
fn homed(off_x: i32, off_y: i32) -> (home: bool)
    ensures
        home == (-DRAG_RELEASE < off_x < DRAG_RELEASE && -DRAG_RELEASE < off_y < DRAG_RELEASE),
{
    -DRAG_RELEASE < off_x && off_x < DRAG_RELEASE && -DRAG_RELEASE < off_y && off_y < DRAG_RELEASE
}

/// Moves the pointer by one reading, in the pointer modes. Grade mode first
/// grabs or lets go.
pub fn stick_point(pad: &mut Pad, stick: &mut Stick, axes: Axes)
    requires
        old(pad)@.wf(),
        old(stick).wf(),
        motion_fits(old(pad)@, *old(stick), axes),
    ensures
        (final(pad)@, *final(stick)) == pointed(old(pad)@, *old(stick), axes),
        final(pad)@.wf(),
        final(stick).wf(),
{
    let mode: u8 = pad.keymap.joy_mode;
    if codex_mode(pad) || mode == JOY_MODE_KEYS {
        return;
    }
    let grade = mode == JOY_MODE_GRADE;
    let off_x: i32 = axes.x as i32 - CENTRE;
    let off_y: i32 = axes.y as i32 - CENTRE;
    let cx: i32 = past_deadzone(off_x);
    let cy: i32 = past_deadzone(off_y);
    if grade {
        if !stick.dragging && (cx != 0 || cy != 0) {
            stick.dragging = true;
            pad.grade_drag = true;
            stick.acc_x = 0;
            stick.acc_y = 0;
            send_buttons(pad);
        } else if stick.dragging && homed(off_x, off_y) {
            stick.dragging = false;
            pad.grade_drag = false;
            stick.acc_x = 0;
            stick.acc_y = 0;
            send_buttons(pad);
        }
    }
    let ghost grabbed = pad@;
    let ghost held = *stick;
    assert((grabbed, held) == drag_updated(old(pad)@, *old(stick), axes));
    let speed: i32 = pad.keymap.joy_mouse_speed as i32;
    assert(0 <= speed * speed <= 65025) by (nonlinear_arith)
        requires
            0 <= speed <= 255,
    ;
    let gain: i32 = if grade {
        speed * speed
    } else {
        speed
    };
    let div: i32 = if grade {
        GRADE_DIV
    } else {
        MOUSE_DIV
    };
    let x: i32 = stick.acc_x + cx * gain;
    let y: i32 = stick.acc_y + cy * gain;
    let (dx, left_x): (i32, i32) = whole_pixels(x, div);
    let (dy, left_y): (i32, i32) = whole_pixels(y, div);
    stick.acc_x = left_x;
    stick.acc_y = left_y;
    if dx != 0 || dy != 0 {
        let frame = MouseFrame { buttons: mouse_buttons(pad), dx: dx as i8, dy: dy as i8 };
        force_send_mouse(pad, frame);
    }
}

/// With the settings in their ranges and a twelve-bit converter, the motion of
/// every reading fits, and leaves less than a pixel over: from a stick at rest
/// on, no reading is ever refused.
pub proof fn law_motion_always_fits(m: PadModel, stick: Stick, axes: Axes)
    requires
        stick.fractional(),
        axes.wf(),
        m.keymap.in_range(),
    ensures
        motion_fits(m, stick, axes),
        pointed(m, stick, axes).1.fractional(),
        handed_over(m, stick).1.fractional(),
{
    let (grabbed, dragging) = drag_updated(m, stick, axes);
    lemma_remainder(grabbed, dragging.acc_x, axes.x);
    lemma_remainder(grabbed, dragging.acc_y, axes.y);
}

/// No motion is lost: the pixels sent and the fraction kept make up what piled
/// up, the fraction is less than a pixel, and no frame is cut short.
pub proof fn law_motion_is_conserved(m: PadModel, stick: Stick, axes: Axes)
    requires
        stick.fractional(),
        axes.wf(),
        m.keymap.joy_mouse_speed <= 10,
    ensures
        ({
            let next = moved(m, stick, axes).1;
            let dx = pixels(piled(m, stick.acc_x, axes.x), div_of(m));
            let dy = pixels(piled(m, stick.acc_y, axes.y), div_of(m));
            &&& dx * div_of(m) + next.acc_x == stick.acc_x + beyond_deadzone(axes.x - CENTRE)
                * gain_of(m)
            &&& dy * div_of(m) + next.acc_y == stick.acc_y + beyond_deadzone(axes.y - CENTRE)
                * gain_of(m)
            &&& -div_of(m) < next.acc_x < div_of(m)
            &&& -div_of(m) < next.acc_y < div_of(m)
            &&& -MOTION_MAX < dx < MOTION_MAX
            &&& -MOTION_MAX < dy < MOTION_MAX
        }),
{
    lemma_remainder(m, stick.acc_x, axes.x);
    lemma_remainder(m, stick.acc_y, axes.y);
}

/// The pad and the stick after a run of readings.
pub open spec fn pointed_through(m: PadModel, stick: Stick, reads: Seq<Axes>) -> (PadModel, Stick)
    decreases reads.len(),
{
    if reads.len() == 0 {
        (m, stick)
    } else {
        let (before, at) = pointed_through(m, stick, reads.drop_last());
        pointed(before, at, reads.last())
    }
}

/// The reading of the vertical or the horizontal axis.
pub open spec fn axis_of(axes: Axes, vertical: bool) -> u16 {
    if vertical {
        axes.y
    } else {
        axes.x
    }
}

/// The motion left over on the vertical or the horizontal axis.
pub open spec fn acc_of(stick: Stick, vertical: bool) -> i32 {
    if vertical {
        stick.acc_y
    } else {
        stick.acc_x
    }
}

/// The pixels that a run of readings sends along one axis. A reading that grabs
/// or lets go drops the fractions before it moves.
pub open spec fn travelled(m: PadModel, stick: Stick, reads: Seq<Axes>, vertical: bool) -> int
    decreases reads.len(),
{
    if reads.len() == 0 {
        0
    } else {
        let (before, at) = pointed_through(m, stick, reads.drop_last());
        let (grabbed, dragging) = drag_updated(before, at, reads.last());
        travelled(m, stick, reads.drop_last(), vertical) + pixels(
            piled(grabbed, acc_of(dragging, vertical), axis_of(reads.last(), vertical)),
            div_of(grabbed),
        )
    }
}

/// The deflection of a run of readings along one axis.
pub open spec fn deflected(reads: Seq<Axes>, vertical: bool) -> int
    decreases reads.len(),
{
    if reads.len() == 0 {
        0
    } else {
        deflected(reads.drop_last(), vertical) + beyond_deadzone(
            axis_of(reads.last(), vertical) - CENTRE,
        )
    }
}

/// One more frame keeps the sum of what was sent and what is left.
proof fn lemma_pace(
    sent: int,
    dx: int,
    left: int,
    next: int,
    start: int,
    gone: int,
    past: int,
    gain: int,
    div: int,
)
    requires
        sent * div + left == start + gone * gain,
        dx * div + next == left + past * gain,
    ensures
        (sent + dx) * div + next == start + (gone + past) * gain,
{
    assert((gone + past) * gain == gone * gain + past * gain) by (nonlinear_arith);
    assert((sent + dx) * div == sent * div + dx * div) by (nonlinear_arith);
}

/// In mouse mode the pointer travels, along either axis, by deflection times
/// speed, to within one pixel, however long the run: fractions are carried,
/// never dropped.
pub proof fn law_pointer_keeps_pace(m: PadModel, stick: Stick, reads: Seq<Axes>, vertical: bool)
    requires
        stick.fractional(),
        forall|i: int| 0 <= i < reads.len() ==> (#[trigger] reads[i]).wf(),
        m.device_mode != MODE_CODEX,
        !keys_mode(m),
        m.keymap.joy_mode != JOY_MODE_GRADE,
        m.keymap.joy_mouse_speed <= 10,
    ensures
        pointed_through(m, stick, reads).0.keymap == m.keymap,
        pointed_through(m, stick, reads).0.device_mode == m.device_mode,
        pointed_through(m, stick, reads).1.fractional(),
        travelled(m, stick, reads, vertical) * MOUSE_DIV + acc_of(
            pointed_through(m, stick, reads).1,
            vertical,
        ) == acc_of(stick, vertical) + deflected(reads, vertical) * m.keymap.joy_mouse_speed,
        reads.len() > 0 ==> -MOUSE_DIV < acc_of(pointed_through(m, stick, reads).1, vertical)
            < MOUSE_DIV,
    decreases reads.len(),
{
    let speed = m.keymap.joy_mouse_speed as int;
    if reads.len() > 0 {
        let rest = reads.drop_last();
        assert forall|i: int| 0 <= i < rest.len() implies (#[trigger] rest[i]).wf() by {
            assert(rest[i] == reads[i]);
        }
        law_pointer_keeps_pace(m, stick, rest, vertical);
        let (before, at) = pointed_through(m, stick, rest);
        let axes = reads.last();
        assert(reads[reads.len() - 1].wf());
        law_motion_is_conserved(before, at, axes);
        let past = beyond_deadzone(axis_of(axes, vertical) - CENTRE);
        let gone = deflected(rest, vertical);
        let left = acc_of(at, vertical);
        let sent = pixels(piled(before, left, axis_of(axes, vertical)), div_of(before));
        let next = moved(before, at, axes).1;
        assert(pointed_through(m, stick, reads).1 == next);
        assert(sent * 512 + acc_of(next, vertical) == left + past * gain_of(before));
        lemma_pace(
            travelled(m, stick, rest, vertical),
            sent,
            left as int,
            acc_of(next, vertical) as int,
            acc_of(stick, vertical) as int,
            gone,
            past,
            speed,
            512,
        );
    } else {
        assert(0 * speed == 0) by (nonlinear_arith);
    }
}

/// One more frame of a drag keeps the sum of what was sent and what is left.
proof fn lemma_drag_frame(
    before: PadModel,
    at: Stick,
    axes: Axes,
    vertical: bool,
    sent: int,
    start: int,
    gone: int,
)
    requires
        at.fractional(),
        at.dragging,
        axes.wf(),
        !is_home(axes),
        before.device_mode != MODE_CODEX,
        before.keymap.joy_mode == JOY_MODE_GRADE,
        before.keymap.joy_mouse_speed <= 10,
        sent * GRADE_DIV + acc_of(at, vertical) == start + gone * gain_of(before),
    ensures
        drag_updated(before, at, axes) == (before, at),
        pointed(before, at, axes).0.keymap == before.keymap,
        pointed(before, at, axes).0.device_mode == before.device_mode,
        pointed(before, at, axes).1.dragging,
        pointed(before, at, axes).1.fractional(),
        (sent + pixels(
            piled(before, acc_of(at, vertical), axis_of(axes, vertical)),
            div_of(before),
        )) * GRADE_DIV + acc_of(pointed(before, at, axes).1, vertical) == start + (gone
            + beyond_deadzone(axis_of(axes, vertical) - CENTRE)) * gain_of(before),
{
    law_motion_is_conserved(before, at, axes);
    lemma_pace(
        sent,
        pixels(piled(before, acc_of(at, vertical), axis_of(axes, vertical)), div_of(before)),
        acc_of(at, vertical) as int,
        acc_of(moved(before, at, axes).1, vertical) as int,
        start,
        gone,
        beyond_deadzone(axis_of(axes, vertical) - CENTRE),
        gain_of(before),
        GRADE_DIV as int,
    );
}

/// In grade mode, while a drag lasts, the pointer travels, along either axis, by
/// deflection times squared speed, to within one pixel, however long the run:
/// fractions are carried, never dropped.
pub proof fn law_drag_keeps_pace(m: PadModel, stick: Stick, reads: Seq<Axes>, vertical: bool)
    requires
        stick.fractional(),
        stick.dragging,
        forall|i: int|
            0 <= i < reads.len() ==> (#[trigger] reads[i]).wf() && !is_home(reads[i]),
        m.device_mode != MODE_CODEX,
        m.keymap.joy_mode == JOY_MODE_GRADE,
        m.keymap.joy_mouse_speed <= 10,
    ensures
        gain_of(m) == m.keymap.joy_mouse_speed * m.keymap.joy_mouse_speed,
        pointed_through(m, stick, reads).0.keymap == m.keymap,
        pointed_through(m, stick, reads).0.device_mode == m.device_mode,
        pointed_through(m, stick, reads).1.dragging,
        pointed_through(m, stick, reads).1.fractional(),
        travelled(m, stick, reads, vertical) * GRADE_DIV + acc_of(
            pointed_through(m, stick, reads).1,
            vertical,
        ) == acc_of(stick, vertical) + deflected(reads, vertical) * gain_of(m),
    decreases reads.len(),
{
    if reads.len() > 0 {
        let rest = reads.drop_last();
        assert forall|i: int| 0 <= i < rest.len() implies (#[trigger] rest[i]).wf() && !is_home(
            rest[i],
        ) by {
            assert(rest[i] == reads[i]);
        }
        law_drag_keeps_pace(m, stick, rest, vertical);
        let (before, at) = pointed_through(m, stick, rest);
        assert(reads[reads.len() - 1].wf() && !is_home(reads[reads.len() - 1]));
        lemma_drag_frame(
            before,
            at,
            reads.last(),
            vertical,
            travelled(m, stick, rest, vertical),
            acc_of(stick, vertical) as int,
            deflected(rest, vertical),
        );
    } else {
        let gain = gain_of(m);
        assert(0 * gain == 0) by (nonlinear_arith);
    }
}

/// A whole drag, from the reading that grabs on: the pointer travels by its
/// deflection times squared speed, to within one pixel. What was left over from
/// before the grab plays no part.
pub proof fn law_fresh_drag_keeps_pace(
    m: PadModel,
    stick: Stick,
    reads: Seq<Axes>,
    vertical: bool,
)
    requires
        !stick.dragging,
        reads.len() > 0,
        is_deflected(reads[0]),
        forall|i: int|
            0 <= i < reads.len() ==> (#[trigger] reads[i]).wf() && !is_home(reads[i]),
        m.device_mode != MODE_CODEX,
        m.keymap.joy_mode == JOY_MODE_GRADE,
        m.keymap.joy_mouse_speed <= 10,
    ensures
        pointed_through(m, stick, reads).0.keymap == m.keymap,
        pointed_through(m, stick, reads).0.device_mode == m.device_mode,
        pointed_through(m, stick, reads).1.dragging,
        pointed_through(m, stick, reads).1.fractional(),
        travelled(m, stick, reads, vertical) * GRADE_DIV + acc_of(
            pointed_through(m, stick, reads).1,
            vertical,
        ) == deflected(reads, vertical) * gain_of(m),
    decreases reads.len(),
{
    let rest = reads.drop_last();
    let axes = reads.last();
    assert(reads[reads.len() - 1].wf() && !is_home(reads[reads.len() - 1]));
    if rest.len() == 0 {
        assert(pointed_through(m, stick, rest) == (m, stick));
        let (grabbed, fresh) = drag_updated(m, stick, axes);
        let gain = gain_of(m);
        assert(0 * gain == 0) by (nonlinear_arith);
        lemma_drag_frame(grabbed, fresh, axes, vertical, 0, 0, 0);
        assert(travelled(m, stick, rest, vertical) == 0);
        assert(deflected(rest, vertical) == 0);
    } else {
        assert forall|i: int| 0 <= i < rest.len() implies (#[trigger] rest[i]).wf() && !is_home(
            rest[i],
        ) by {
            assert(rest[i] == reads[i]);
        }
        assert(rest[0] == reads[0]);
        law_fresh_drag_keeps_pace(m, stick, rest, vertical);
        let (before, at) = pointed_through(m, stick, rest);
        lemma_drag_frame(
            before,
            at,
            axes,
            vertical,
            travelled(m, stick, rest, vertical),
            0,
            deflected(rest, vertical),
        );
    }
}

/// Inside the dead zone nothing moves, and no fraction changes.
pub proof fn law_dead_zone_is_quiet(m: PadModel, stick: Stick, axes: Axes)
    requires
        !is_deflected(axes),
        -div_of(m) < stick.acc_x < div_of(m),
        -div_of(m) < stick.acc_y < div_of(m),
    ensures
        moved(m, stick, axes) == (m, stick),
{
    let gain = gain_of(m);
    assert(0 * gain == 0) by (nonlinear_arith);
}

/// A grab shows the host the button down before any motion: the last two
/// frames queued are the button without motion, then the motion.
pub proof fn law_grab_precedes_motion(m: PadModel, stick: Stick, axes: Axes)
    requires
        m.wf(),
        m.device_mode != MODE_CODEX,
        m.keymap.joy_mode == JOY_MODE_GRADE,
        !stick.dragging,
        is_deflected(axes),
    ensures
        ({
            let (next, after) = pointed(m, stick, axes);
            let (grabbed, fresh) = drag_updated(m, stick, axes);
            let down = MouseFrame { buttons: m.push_buttons | 1, dx: 0, dy: 0 };
            &&& after.dragging && next.grade_drag
            &&& fresh.acc_x == 0 && fresh.acc_y == 0
            &&& grabbed.mouse.last() == down
            &&& next.mouse == grabbed.mouse || {
                &&& next.mouse.len() >= 2
                &&& next.mouse[next.mouse.len() - 2] == down
                &&& next.mouse.last().buttons == down.buttons
            }
        }),
{
    let grabbed = drag_updated(m, stick, axes).0;
    assert(grabbed.mouse.len() <= MOUSE_QUEUE);
}

/// Between the release threshold and the dead zone a drag neither starts nor
/// ends: jitter at the edge cannot fire clicks.
pub proof fn law_drag_has_hysteresis(m: PadModel, stick: Stick, axes: Axes)
    requires
        !is_deflected(axes),
        !is_home(axes),
    ensures
        drag_updated(m, stick, axes) == (m, stick),
        DRAG_RELEASE < MOUSE_DEADZONE,
{
}

/// The held button is what the stick drags with, and only grade mode drags.
pub open spec fn drag_consistent(m: PadModel, stick: Stick) -> bool {
    &&& stick.dragging == m.grade_drag
    &&& stick.dragging ==> stick.last_mode == JOY_MODE_GRADE
}

/// However the mode changes, the auto-held button never stays latched: after
/// each reading it is down only in grade mode, and the host is on its way to
/// the buttons that are down.
pub proof fn law_drag_is_never_latched(m: PadModel, stick: Stick, axes: Axes, shown: u8)
    requires
        m.wf(),
        stick.wf(),
        m.device_mode != MODE_CODEX,
        drag_consistent(m, stick),
        buttons_settle(shown, m),
    ensures
        ({
            let (handed, at) = handed_over(m, stick);
            let (next, after) = pointed(handed, at, axes);
            &&& drag_consistent(handed, at)
            &&& buttons_settle(shown, handed)
            &&& drag_consistent(next, after)
            &&& buttons_settle(shown, next)
            &&& next.grade_drag ==> m.keymap.joy_mode == JOY_MODE_GRADE
        }),
{
}

/// In the pad's own mode, a direction's input is held exactly while the stick
/// points there in keys mode.
pub open spec fn directions_consistent(m: PadModel, stick: Stick) -> bool {
    forall|dir: u8|
        dir < 4 ==> (#[trigger] m.held[dir_slot(dir)] is Some) == (stick.last == dir
            && stick.last_mode == JOY_MODE_KEYS)
}

/// However the mode changes while the stick is deflected, no direction is ever
/// stranded: a hand-over, leaving and entering each keep the held inputs in
/// step with the stick.
pub proof fn law_direction_is_never_stranded(
    m: PadModel,
    stick: Stick,
    dir: u8,
    joystick: Joystick,
    sector: Binding,
)
    requires
        m.wf(),
        stick.wf(),
        m.device_mode != MODE_CODEX,
        directions_consistent(m, stick),
        dir < 4,
    ensures
        ({
            let (handed, at) = handed_over(m, stick);
            let gone = Stick { last: DIR_NONE, ..at };
            let out = if at.last == DIR_NONE {
                handed
            } else {
                left(handed, at, joystick)
            };
            let there = Stick { last: dir, ..gone };
            &&& at.last_mode == m.keymap.joy_mode
            &&& directions_consistent(handed, at)
            &&& directions_consistent(out, gone)
            &&& directions_consistent(entered(out, dir, joystick, sector), there)
        }),
{
    let (handed, at) = handed_over(m, stick);
    let gone = Stick { last: DIR_NONE, ..at };
    let out = if at.last == DIR_NONE {
        handed
    } else {
        left(handed, at, joystick)
    };
    let there = Stick { last: dir, ..gone };
    let inn = entered(out, dir, joystick, sector);
    assert forall|d: u8| d < 4 implies (#[trigger] handed.held[dir_slot(d)] is Some) == (at.last
        == d && at.last_mode == JOY_MODE_KEYS) by {
        assert((m.held[dir_slot(d)] is Some) == (stick.last == d && stick.last_mode
            == JOY_MODE_KEYS));
    }
    assert forall|d: u8| d < 4 implies (#[trigger] out.held[dir_slot(d)] is Some) == (gone.last == d
        && gone.last_mode == JOY_MODE_KEYS) by {
        assert((handed.held[dir_slot(d)] is Some) == (at.last == d && at.last_mode
            == JOY_MODE_KEYS));
    }
    assert forall|d: u8| d < 4 implies (#[trigger] inn.held[dir_slot(d)] is Some) == (there.last
        == d && there.last_mode == JOY_MODE_KEYS) by {
        assert((out.held[dir_slot(d)] is Some) == (gone.last == d && gone.last_mode
            == JOY_MODE_KEYS));
    }
}

/// In Codex mode, leaving a radial sector releases the very binding that
/// entering it pressed.
pub proof fn law_sector_is_retracted(m: PadModel, stick: Stick, dir: u8, sector: Binding)
    requires
        m.wf(),
        m.device_mode == MODE_CODEX,
        dir < 4,
        m.held[dir_slot(dir)] is None,
    ensures
        ({
            let there = Stick { last: dir, sector_binding: sector, ..stick };
            left(entered(m, dir, Joystick::Sectors, sector), there, Joystick::Sectors).held
                == m.held
        }),
{
    let there = Stick { last: dir, sector_binding: sector, ..stick };
    let inn = entered(m, dir, Joystick::Sectors, sector);
    assert(left(inn, there, Joystick::Sectors).held == m.held);
}

/// Crossing the threshold posts the live event in every mode, whatever the
/// stick means there.
pub proof fn law_crossings_post_events(
    m: PadModel,
    stick: Stick,
    dir: u8,
    joystick: Joystick,
    sector: Binding,
)
    ensures
        left(m, stick, joystick).events == m.posted(3, stick.last, 0).events,
        entered(m, dir, joystick, sector).events == m.posted(3, dir, 1).events,
{
}

/// What one tick of the joystick tells the host application: the direction left,
/// then the direction entered.
pub open spec fn crossing_posted(m: PadModel, last: u8, dir: u8) -> PadModel {
    if dir == last {
        m
    } else {
        let out = if last == DIR_NONE {
            m
        } else {
            m.posted(3, last, 0)
        };
        if dir == DIR_NONE {
            out
        } else {
            out.posted(3, dir, 1)
        }
    }
}

/// Handing a mode over posts no event and leaves the direction as it is.
proof fn lemma_hand_over_posts_nothing(m: PadModel, stick: Stick)
    ensures
        handed_over(m, stick).0.events == m.events,
        handed_over(m, stick).1.last == stick.last,
{
}

/// Moving the pointer posts no event and leaves the direction as it is.
proof fn lemma_pointer_posts_nothing(m: PadModel, stick: Stick, axes: Axes)
    ensures
        pointed(m, stick, axes).0.events == m.events,
        pointed(m, stick, axes).1.last == stick.last,
{
}

/// What a step posts, and where it leaves the stick.
proof fn lemma_step_posts(
    m: PadModel,
    stick: Stick,
    dir: u8,
    joystick: Joystick,
    sector: Binding,
)
    ensures
        stepped(m, stick, dir, joystick, sector).0.events == (match step_of(stick, dir) {
            StickStep::Settled => m.events,
            StickStep::Leave => m.posted(3, stick.last, 0).events,
            StickStep::Enter => m.posted(3, dir, 1).events,
        }),
        stepped(m, stick, dir, joystick, sector).1.last == (match step_of(stick, dir) {
            StickStep::Settled => stick.last,
            StickStep::Leave => DIR_NONE,
            StickStep::Enter => dir,
        }),
{
    law_crossings_post_events(m, stick, dir, joystick, sector);
}

/// What posting an event makes of the queue depends on the queue alone.
proof fn lemma_posted_by_queue(m: PadModel, n: PadModel, src: u8, a: u8, b: u8)
    requires
        n.events == m.events,
    ensures
        n.posted(src, a, b).events == m.posted(src, a, b).events,
{
}

/// One whole tick, in every mode: two steps settle the stick where it points,
/// and the events gained are the old direction left, then the new one entered,
/// and nothing else.
#[verifier::spinoff_prover]
pub proof fn law_tick_posts_crossing(
    m: PadModel,
    stick: Stick,
    axes: Axes,
    dir: u8,
    joystick: Joystick,
    sector: Binding,
)
    requires
        stick.wf(),
        dir < 4 || dir == DIR_NONE,
    ensures
        ({
            let (handed, at) = handed_over(m, stick);
            let (out, gone) = stepped(handed, at, dir, joystick, sector);
            let (inn, there) = stepped(out, gone, dir, joystick, sector);
            let (next, after) = pointed(inn, there, axes);
            &&& step_of(there, dir) == StickStep::Settled
            &&& after.last == dir && after.wf()
            &&& next.events == crossing_posted(m, stick.last, dir).events
            &&& dir != stick.last && dir != DIR_NONE && stick.last != DIR_NONE && m.events.len() + 2
                <= EVENT_QUEUE ==> next.events == m.events.push(
                InputEvent { src: 3, a: stick.last, b: 0 },
            ).push(InputEvent { src: 3, a: dir, b: 1 })
        }),
{
    let (handed, at) = handed_over(m, stick);
    let (out, gone) = stepped(handed, at, dir, joystick, sector);
    let (inn, there) = stepped(out, gone, dir, joystick, sector);
    lemma_hand_over_posts_nothing(m, stick);
    lemma_step_posts(handed, at, dir, joystick, sector);
    lemma_step_posts(out, gone, dir, joystick, sector);
    lemma_pointer_posts_nothing(inn, there, axes);
    let told = m.posted(3, stick.last, 0);
    lemma_posted_by_queue(m, handed, 3, stick.last, 0);
    lemma_posted_by_queue(m, handed, 3, dir, 1);
    if step_of(at, dir) == StickStep::Leave {
        lemma_posted_by_queue(told, out, 3, dir, 1);
    }
}

/// In Codex mode the joystick mode is moot: no hand-over, no pointer.
pub proof fn law_codex_mode_has_no_pointer(m: PadModel, stick: Stick, axes: Axes)
    requires
        m.device_mode == MODE_CODEX,
    ensures
        handed_over(m, stick) == (m, stick),
        pointed(m, stick, axes) == (m, stick),
{
}

/// How far a reading lies past the dead zone of 200 counts around 2048, with its
/// sign: right and down are positive.
pub open spec fn counts_past(axis: u16) -> int {
    if axis > 2248 {
        axis - 2248
    } else if axis < 1848 {
        axis - 1848
    } else {
        0
    }
}

/// The horizontal pixels in a run of frames.
pub open spec fn sum_dx(frames: Seq<MouseFrame>) -> int
    decreases frames.len(),
{
    if frames.len() == 0 {
        0
    } else {
        sum_dx(frames.drop_last()) + frames.last().dx
    }
}

/// The vertical pixels in a run of frames.
pub open spec fn sum_dy(frames: Seq<MouseFrame>) -> int
    decreases frames.len(),
{
    if frames.len() == 0 {
        0
    } else {
        sum_dy(frames.drop_last()) + frames.last().dy
    }
}

/// The pad once the host has read its mouse queue.
pub open spec fn mouse_read(m: PadModel) -> PadModel {
    PadModel { mouse: Seq::empty(), ..m }
}

/// Pixels add up over two runs of frames.
proof fn lemma_sums_add(a: Seq<MouseFrame>, b: Seq<MouseFrame>)
    ensures
        sum_dx(a + b) == sum_dx(a) + sum_dx(b),
        sum_dy(a + b) == sum_dy(a) + sum_dy(b),
    decreases b.len(),
{
    if b.len() == 0 {
        assert(a + b == a);
    } else {
        assert((a + b).drop_last() == a + b.drop_last());
        lemma_sums_add(a, b.drop_last());
    }
}

/// The pixels of no frame, one frame and two.
proof fn lemma_short_sums(f: MouseFrame, g: MouseFrame)
    ensures
        sum_dx(Seq::empty()) == 0,
        sum_dy(Seq::empty()) == 0,
        sum_dx(seq![f]) == f.dx,
        sum_dy(seq![f]) == f.dy,
        sum_dx(seq![f, g]) == f.dx + g.dx,
        sum_dy(seq![f, g]) == f.dy + g.dy,
{
    reveal_with_fuel(sum_dx, 3);
    reveal_with_fuel(sum_dy, 3);
    assert(seq![f].drop_last() == Seq::<MouseFrame>::empty());
    assert(seq![f, g].drop_last() == seq![f]);
}

/// Whole pixels have the sign of the motion, are at most 127, and leave less than
/// one over unless they are cut short.
proof fn lemma_pixels_bound(value: int, div: int)
    requires
        0 < div <= 8192,
    ensures
        -127 <= pixels(value, div) <= 127,
        value >= 0 ==> pixels(value, div) >= 0 && value - pixels(value, div) * div >= 0,
        value <= 0 ==> pixels(value, div) <= 0 && value - pixels(value, div) * div <= 0,
        -127 < pixels(value, div) < 127 ==> -div < value - pixels(value, div) * div < div,
{
    lemma_split(value, div);
    let size = if value >= 0 {
        value
    } else {
        -value
    };
    vstd::arithmetic::div_mod::lemma_fundamental_div_mod(size, div);
    vstd::arithmetic::div_mod::lemma_div_pos_is_pos(size, div);
    vstd::arithmetic::div_mod::lemma_mod_bound(size, div);
    let whole = size / div;
    assert(whole * div == div * whole && (-whole) * div == -(whole * div)) by (nonlinear_arith);
}

/// One reading in a pointer mode that neither grabs nor lets go, on a queue that
/// the host has read. At most one frame is queued, and only one that moves. Its
/// motion, on each axis and with its sign, together with what is carried over,
/// is what was carried plus deflection times speed (squared in grade mode), in
/// pixels of 512 (8192 in grade mode). A frame goes no further than 127 and never
/// the wrong way, and less than a pixel is carried unless it went that far. It
/// carries the buttons that are down, and nothing else changes.
pub proof fn law_frame_carries_motion(m: PadModel, stick: Stick, axes: Axes)
    requires
        m.mouse.len() == 0,
        m.device_mode != 1,
        m.keymap.joy_mode != 0,
        m.keymap.joy_mode == 2 && stick.dragging ==> !(1928 < axes.x < 2168 && 1928 < axes.y
            < 2168),
        m.keymap.joy_mode == 2 && !stick.dragging ==> 1848 <= axes.x <= 2248 && 1848 <= axes.y
            <= 2248,
        motion_fits(m, stick, axes),
    ensures
        ({
            let (next, after) = pointed(m, stick, axes);
            let speed = m.keymap.joy_mouse_speed as int;
            let gain = if m.keymap.joy_mode == 2 {
                speed * speed
            } else {
                speed
            };
            let div = if m.keymap.joy_mode == 2 {
                8192int
            } else {
                512int
            };
            let x = stick.acc_x + counts_past(axes.x) * gain;
            let y = stick.acc_y + counts_past(axes.y) * gain;
            let dx = sum_dx(next.mouse);
            let dy = sum_dy(next.mouse);
            &&& next.mouse.len() <= 1
            &&& next.mouse.len() == 0 <==> dx == 0 && dy == 0
            &&& dx * div + after.acc_x == x
            &&& dy * div + after.acc_y == y
            &&& -127 <= dx <= 127 && -127 <= dy <= 127
            &&& x >= 0 ==> dx >= 0 && after.acc_x >= 0
            &&& x <= 0 ==> dx <= 0 && after.acc_x <= 0
            &&& y >= 0 ==> dy >= 0 && after.acc_y >= 0
            &&& y <= 0 ==> dy <= 0 && after.acc_y <= 0
            &&& -127 < dx < 127 ==> -div < after.acc_x < div
            &&& -127 < dy < 127 ==> -div < after.acc_y < div
            &&& next.mouse.len() == 1 ==> next.mouse[0].buttons == (if m.grade_drag {
                m.push_buttons | 1
            } else {
                m.push_buttons
            })
            &&& next == (PadModel { mouse: next.mouse, ..m })
            &&& after == (Stick { acc_x: after.acc_x, acc_y: after.acc_y, ..stick })
        }),
{
    let (next, after) = pointed(m, stick, axes);
    assert(drag_updated(m, stick, axes) == (m, stick));
    assert(beyond_deadzone(axes.x - CENTRE) == counts_past(axes.x));
    assert(beyond_deadzone(axes.y - CENTRE) == counts_past(axes.y));
    let x = piled(m, stick.acc_x, axes.x);
    let y = piled(m, stick.acc_y, axes.y);
    let dx = pixels(x, div_of(m));
    let dy = pixels(y, div_of(m));
    lemma_pixels_bound(x, div_of(m));
    lemma_pixels_bound(y, div_of(m));
    lemma_split(x, div_of(m));
    lemma_split(y, div_of(m));
    crate::guarantees::law_buttons_are_exact(m);
    let frame = MouseFrame { buttons: m.buttons(), dx: dx as i8, dy: dy as i8 };
    lemma_short_sums(frame, frame);
    if dx != 0 || dy != 0 {
        assert(next.mouse =~= seq![frame]);
    } else {
        assert(next.mouse =~= Seq::empty());
    }
}

/// The reading that grabs, on a queue that the host has read: in grade mode, from
/// 201 counts off centre on. The first frame puts the left button down without
/// motion; a second one may move, with the button down. What was carried before
/// plays no part.
pub proof fn law_grab_frames(m: PadModel, stick: Stick, axes: Axes)
    requires
        m.mouse.len() == 0,
        m.device_mode != 1,
        m.keymap.joy_mode == 2,
        !stick.dragging,
        axes.x > 2248 || axes.x < 1848 || axes.y > 2248 || axes.y < 1848,
        motion_fits(m, stick, axes),
    ensures
        ({
            let (next, after) = pointed(m, stick, axes);
            let gain = m.keymap.joy_mouse_speed * m.keymap.joy_mouse_speed;
            &&& 1 <= next.mouse.len() <= 2
            &&& next.mouse[0] == (MouseFrame { buttons: m.push_buttons | 1, dx: 0, dy: 0 })
            &&& next.mouse.last().buttons == m.push_buttons | 1
            &&& next.grade_drag && after.dragging
            &&& sum_dx(next.mouse) * 8192 + after.acc_x == counts_past(axes.x) * gain
            &&& sum_dy(next.mouse) * 8192 + after.acc_y == counts_past(axes.y) * gain
            &&& next == (PadModel { mouse: next.mouse, grade_drag: true, ..m })
            &&& after == (Stick {
                dragging: true,
                acc_x: after.acc_x,
                acc_y: after.acc_y,
                ..stick
            })
        }),
{
    let (next, after) = pointed(m, stick, axes);
    let (grabbed, fresh) = drag_updated(m, stick, axes);
    let down = MouseFrame { buttons: m.push_buttons | 1, dx: 0, dy: 0 };
    crate::guarantees::law_buttons_are_exact(grabbed);
    assert(grabbed.mouse =~= seq![down]);
    let read = mouse_read(grabbed);
    assert(drag_updated(read, fresh, axes) == (read, fresh));
    law_frame_carries_motion(read, fresh, axes);
    let (moved_on, end) = pointed(read, fresh, axes);
    assert(end == after);
    let frames = moved_on.mouse;
    assert(next.mouse =~= seq![down] + frames);
    lemma_sums_add(seq![down], frames);
    lemma_short_sums(down, down);
}

/// Coming home lets go: in grade mode, once both axes are less than 120 counts off
/// centre. One frame without motion lifts the left button, unless the push switch
/// holds it, and nothing is carried on.
pub proof fn law_home_lets_go(m: PadModel, stick: Stick, axes: Axes)
    requires
        m.mouse.len() == 0,
        m.device_mode != 1,
        m.keymap.joy_mode == 2,
        stick.dragging,
        1928 < axes.x < 2168,
        1928 < axes.y < 2168,
    ensures
        ({
            let (next, after) = pointed(m, stick, axes);
            &&& next.mouse == seq![MouseFrame { buttons: m.push_buttons, dx: 0, dy: 0 }]
            &&& next == (PadModel { mouse: next.mouse, grade_drag: false, ..m })
            &&& after == (Stick { dragging: false, acc_x: 0, acc_y: 0, ..stick })
        }),
{
    let (let_go, rest) = drag_updated(m, stick, axes);
    crate::guarantees::law_buttons_are_exact(let_go);
    let gain = gain_of(let_go);
    assert(0 * gain == 0) by (nonlinear_arith);
    assert(let_go.mouse =~= seq![MouseFrame { buttons: m.push_buttons, dx: 0, dy: 0 }]);
}

/// A stick that rests inside the dead zone without a drag, with less than a mouse
/// pixel carried, and any stick in keys mode or in Codex mode, leaves pad and stick
/// as they are.
pub proof fn law_resting_stick_is_quiet(m: PadModel, stick: Stick, axes: Axes)
    requires
        m.keymap.joy_mode == 0 || m.device_mode == 1 || (1848 <= axes.x <= 2248 && 1848 <= axes.y
            <= 2248 && !stick.dragging && -512 < stick.acc_x < 512 && -512 < stick.acc_y < 512),
    ensures
        pointed(m, stick, axes) == (m, stick),
{
    if !(m.keymap.joy_mode == 0 || m.device_mode == 1) {
        let gain = gain_of(m);
        assert(0 * gain == 0) by (nonlinear_arith);
    }
}

/// A queue of eight after frames were forced into it one by one.
pub open spec fn queued_behind(queue: Seq<MouseFrame>, frames: Seq<MouseFrame>) -> Seq<MouseFrame>
    decreases frames.len(),
{
    if frames.len() == 0 {
        queue
    } else {
        forced(queued_behind(queue, frames.drop_last()), frames.last(), 8)
    }
}

/// What a reading queues does not depend on what waits: the same frames go behind
/// it, and the stick is left the same.
pub proof fn law_frames_go_behind(m: PadModel, stick: Stick, axes: Axes)
    requires
        m.wf(),
    ensures
        ({
            let (next, after) = pointed(m, stick, axes);
            let (read, same) = pointed(mouse_read(m), stick, axes);
            &&& next.mouse == queued_behind(m.mouse, read.mouse)
            &&& next == (PadModel { mouse: next.mouse, ..read })
            &&& after == same
            &&& read.mouse.len() <= 2
        }),
{
    let (next, after) = pointed(m, stick, axes);
    let (read, same) = pointed(mouse_read(m), stick, axes);
    let frames = read.mouse;
    reveal_with_fuel(queued_behind, 3);
    if frames.len() == 1 {
        assert(frames.drop_last() =~= Seq::empty());
    } else if frames.len() == 2 {
        assert(frames.drop_last().drop_last() =~= Seq::empty());
    }
}

/// The pad and the stick after a run of readings, each on a queue that the host has
/// read.
pub open spec fn played(m: PadModel, stick: Stick, reads: Seq<Axes>) -> (PadModel, Stick)
    decreases reads.len(),
{
    if reads.len() == 0 {
        (m, stick)
    } else {
        let (before, at) = played(m, stick, reads.drop_last());
        pointed(mouse_read(before), at, reads.last())
    }
}

/// All frames that such a run queues.
pub open spec fn played_frames(m: PadModel, stick: Stick, reads: Seq<Axes>) -> Seq<MouseFrame>
    decreases reads.len(),
{
    if reads.len() == 0 {
        Seq::empty()
    } else {
        let (before, at) = played(m, stick, reads.drop_last());
        played_frames(m, stick, reads.drop_last()) + pointed(
            mouse_read(before),
            at,
            reads.last(),
        ).0.mouse
    }
}

/// The horizontal deflection of a run of readings.
pub open spec fn past_x(reads: Seq<Axes>) -> int
    decreases reads.len(),
{
    if reads.len() == 0 {
        0
    } else {
        past_x(reads.drop_last()) + counts_past(reads.last().x)
    }
}

/// The vertical deflection of a run of readings.
pub open spec fn past_y(reads: Seq<Axes>) -> int
    decreases reads.len(),
{
    if reads.len() == 0 {
        0
    } else {
        past_y(reads.drop_last()) + counts_past(reads.last().y)
    }
}

/// Over any run of readings in mouse mode, the frames queued move the pointer, on
/// each axis and with its sign, by deflection times speed over 512, to within one
/// pixel.
pub proof fn law_mouse_frames_keep_pace(m: PadModel, stick: Stick, reads: Seq<Axes>)
    requires
        -512 < stick.acc_x < 512,
        -512 < stick.acc_y < 512,
        forall|i: int|
            0 <= i < reads.len() ==> (#[trigger] reads[i]).x <= 4095 && reads[i].y <= 4095,
        m.device_mode != 1,
        m.keymap.joy_mode == 1,
        m.keymap.joy_mouse_speed <= 10,
    ensures
        ({
            let (next, after) = played(m, stick, reads);
            let frames = played_frames(m, stick, reads);
            let speed = m.keymap.joy_mouse_speed as int;
            &&& sum_dx(frames) * 512 + after.acc_x == stick.acc_x + past_x(reads) * speed
            &&& sum_dy(frames) * 512 + after.acc_y == stick.acc_y + past_y(reads) * speed
            &&& -512 < after.acc_x < 512 && -512 < after.acc_y < 512
            &&& next == (PadModel { mouse: next.mouse, ..m })
            &&& after == (Stick { acc_x: after.acc_x, acc_y: after.acc_y, ..stick })
        }),
    decreases reads.len(),
{
    let speed = m.keymap.joy_mouse_speed as int;
    assert(0 * speed == 0) by (nonlinear_arith);
    if reads.len() > 0 {
        let rest = reads.drop_last();
        assert forall|i: int| 0 <= i < rest.len() implies (#[trigger] rest[i]).x <= 4095
            && rest[i].y <= 4095 by {
            assert(rest[i] == reads[i]);
        }
        law_mouse_frames_keep_pace(m, stick, rest);
        let (before, at) = played(m, stick, rest);
        let axes = reads.last();
        assert(reads[reads.len() - 1].wf());
        let read = mouse_read(before);
        lemma_fits(read, at, axes);
        law_frame_carries_motion(read, at, axes);
        let (next, after) = pointed(read, at, axes);
        lemma_sums_add(played_frames(m, stick, rest), next.mouse);
        lemma_pace(
            sum_dx(played_frames(m, stick, rest)),
            sum_dx(next.mouse),
            at.acc_x as int,
            after.acc_x as int,
            stick.acc_x as int,
            past_x(rest),
            counts_past(axes.x),
            speed,
            512,
        );
        lemma_pace(
            sum_dy(played_frames(m, stick, rest)),
            sum_dy(next.mouse),
            at.acc_y as int,
            after.acc_y as int,
            stick.acc_y as int,
            past_y(rest),
            counts_past(axes.y),
            speed,
            512,
        );
        lemma_remainder(read, at.acc_x, axes.x);
        lemma_remainder(read, at.acc_y, axes.y);
    }
}

/// With a speed of at most ten and twelve-bit readings, motion fits.
proof fn lemma_fits(m: PadModel, stick: Stick, axes: Axes)
    requires
        stick.fractional(),
        axes.wf(),
        m.keymap.joy_mouse_speed <= 10,
    ensures
        motion_fits(m, stick, axes),
{
    let (grabbed, dragging) = drag_updated(m, stick, axes);
    lemma_remainder(grabbed, dragging.acc_x, axes.x);
    lemma_remainder(grabbed, dragging.acc_y, axes.y);
}

/// Over any run of readings in grade mode, while a drag lasts, the frames queued
/// move the pointer, on each axis and with its sign, by deflection times squared
/// speed over 8192, to within one pixel.
pub proof fn law_drag_frames_keep_pace(m: PadModel, stick: Stick, reads: Seq<Axes>)
    requires
        stick.dragging,
        -8192 < stick.acc_x < 8192,
        -8192 < stick.acc_y < 8192,
        forall|i: int|
            0 <= i < reads.len() ==> (#[trigger] reads[i]).x <= 4095 && reads[i].y <= 4095 && !(1928
                < reads[i].x < 2168 && 1928 < reads[i].y < 2168),
        m.device_mode != 1,
        m.keymap.joy_mode == 2,
        m.keymap.joy_mouse_speed <= 10,
    ensures
        ({
            let (next, after) = played(m, stick, reads);
            let frames = played_frames(m, stick, reads);
            let gain = m.keymap.joy_mouse_speed * m.keymap.joy_mouse_speed;
            &&& sum_dx(frames) * 8192 + after.acc_x == stick.acc_x + past_x(reads) * gain
            &&& sum_dy(frames) * 8192 + after.acc_y == stick.acc_y + past_y(reads) * gain
            &&& -8192 < after.acc_x < 8192 && -8192 < after.acc_y < 8192
            &&& next == (PadModel { mouse: next.mouse, ..m })
            &&& after == (Stick { acc_x: after.acc_x, acc_y: after.acc_y, ..stick })
        }),
    decreases reads.len(),
{
    let gain = m.keymap.joy_mouse_speed * m.keymap.joy_mouse_speed;
    assert(0 * gain == 0) by (nonlinear_arith);
    if reads.len() > 0 {
        let rest = reads.drop_last();
        assert forall|i: int| 0 <= i < rest.len() implies (#[trigger] rest[i]).x <= 4095
            && rest[i].y <= 4095 && !(1928 < rest[i].x < 2168 && 1928 < rest[i].y < 2168) by {
            assert(rest[i] == reads[i]);
        }
        law_drag_frames_keep_pace(m, stick, rest);
        let (before, at) = played(m, stick, rest);
        let axes = reads.last();
        assert(reads[reads.len() - 1].wf());
        let read = mouse_read(before);
        lemma_fits(read, at, axes);
        law_frame_carries_motion(read, at, axes);
        let (next, after) = pointed(read, at, axes);
        lemma_sums_add(played_frames(m, stick, rest), next.mouse);
        lemma_pace(
            sum_dx(played_frames(m, stick, rest)),
            sum_dx(next.mouse),
            at.acc_x as int,
            after.acc_x as int,
            stick.acc_x as int,
            past_x(rest),
            counts_past(axes.x),
            gain,
            8192,
        );
        lemma_pace(
            sum_dy(played_frames(m, stick, rest)),
            sum_dy(next.mouse),
            at.acc_y as int,
            after.acc_y as int,
            stick.acc_y as int,
            past_y(rest),
            counts_past(axes.y),
            gain,
            8192,
        );
        lemma_remainder(read, at.acc_x, axes.x);
        lemma_remainder(read, at.acc_y, axes.y);
    }
}

/// The direction of a deflection: a horizontal one, past the threshold around 2048,
/// goes before a vertical one.
pub proof fn law_direction_by_deflection(axes: Axes, threshold: u16)
    ensures
        direction_of(axes, threshold) == 2 <==> axes.x + threshold < 2048,
        direction_of(axes, threshold) == 3 <==> axes.x > 2048 + threshold,
        direction_of(axes, threshold) == 0 <==> axes.y + threshold < 2048 && axes.x + threshold
            >= 2048 && axes.x <= 2048 + threshold,
        direction_of(axes, threshold) == 1 <==> axes.y > 2048 + threshold && axes.x + threshold
            >= 2048 && axes.x <= 2048 + threshold,
        direction_of(axes, threshold) == 0xFF <==> axes.x + threshold >= 2048 && axes.x <= 2048
            + threshold && axes.y + threshold >= 2048 && axes.y <= 2048 + threshold,
{
}

/// Angles go round in quarter turns of 250: right, down, left, up.
pub proof fn law_angles_go_round()
    ensures
        angle_of(3) == 0,
        angle_of(1) == angle_of(3) + 250,
        angle_of(2) == angle_of(1) + 250,
        angle_of(0) == angle_of(2) + 250,
{
}

/// Out of Codex mode and in keys mode, entering a direction presses the keymap's
/// slot for it and leaving releases it; in the pointer modes neither holds
/// anything. The service is asked for nothing.
pub proof fn law_directions_are_keys(
    m: PadModel,
    stick: Stick,
    dir: u8,
    joystick: Joystick,
    sector: Binding,
    status: CodexStatus,
)
    requires
        m.wf(),
        m.device_mode != 1,
        dir < 4,
        stick.last < 4,
    ensures
        ({
            let inn = entered(m, dir, joystick, sector);
            let out = left(m, stick, joystick);
            let held = m.applied(16 + dir, Some(m.keymap.slots@[16 + dir]));
            let freed = m.applied(16 + stick.last, None);
            &&& m.keymap.joy_mode == 0 ==> inn == (PadModel { events: inn.events, ..held })
            &&& m.keymap.joy_mode == 0 ==> out == (PadModel { events: out.events, ..freed })
            &&& m.keymap.joy_mode != 0 ==> inn == (PadModel { events: inn.events, ..m })
            &&& m.keymap.joy_mode != 0 ==> out == (PadModel { events: out.events, ..m })
            &&& entered_calls(m, dir, joystick, sector, status) == (
                CodexCall::Quiet,
                CodexCall::Quiet,
            )
            &&& left_call(m, stick, joystick, status) == CodexCall::Quiet
            &&& closed_call(m, stick.last, joystick, status) == CodexCall::Quiet
        }),
{
}

/// In Codex mode the stick is what its keymap makes of it. The vendor's stick
/// reports each direction taken and left; a radial menu is opened at the angle of
/// the direction, performs the sector's binding on the direction's entry, and is
/// closed at the angle left; without a role only events are posted.
pub proof fn law_codex_stick_roles(
    m: PadModel,
    stick: Stick,
    dir: u8,
    sector: Binding,
    status: CodexStatus,
)
    requires
        m.wf(),
        m.device_mode == 1,
        dir < 4,
        stick.last < 4,
    ensures
        entered(m, dir, Joystick::Vendor, sector) == m.posted(3, dir, 1),
        left(m, stick, Joystick::Vendor) == m.posted(3, stick.last, 0),
        entered_calls(m, dir, Joystick::Vendor, sector, status) == (
            CodexCall::Stick { dir, active: true },
            CodexCall::Quiet,
        ),
        left_call(m, stick, Joystick::Vendor, status) == (CodexCall::Stick {
            dir: stick.last,
            active: false,
        }),
        closed_call(m, stick.last, Joystick::Vendor, status) == CodexCall::Quiet,
        entered(m, dir, Joystick::Inactive, sector) == m.posted(3, dir, 1),
        left(m, stick, Joystick::Inactive) == m.posted(3, stick.last, 0),
        entered_calls(m, dir, Joystick::Inactive, sector, status) == (
            CodexCall::Quiet,
            CodexCall::Quiet,
        ),
        left_call(m, stick, Joystick::Inactive, status) == CodexCall::Quiet,
        closed_call(m, stick.last, Joystick::Inactive, status) == CodexCall::Quiet,
        entered(m, dir, Joystick::Sectors, sector) == m.acted(sector, true, 16 + dir).posted(
            3,
            dir,
            1,
        ),
        left(m, stick, Joystick::Sectors) == m.acted(
            stick.sector_binding,
            false,
            16 + stick.last,
        ).posted(3, stick.last, 0),
        entered_calls(m, dir, Joystick::Sectors, sector, status).0 == (CodexCall::Radial {
            angle_milli: angle_of(dir),
            open: true,
            layer: status.layer_index,
            profile: status.profile_index,
        }),
        entered_calls(m, dir, Joystick::Sectors, sector, status).1 == call_of(sector, true, status),
        left_call(m, stick, Joystick::Sectors, status) == call_of(
            stick.sector_binding,
            false,
            status,
        ),
        closed_call(m, stick.last, Joystick::Sectors, status) == (CodexCall::Radial {
            angle_milli: angle_of(stick.last),
            open: false,
            layer: status.layer_index,
            profile: status.profile_index,
        }),
        sector_after(m, stick, Joystick::Sectors, sector) == sector,
        sector_after(m, stick, Joystick::Vendor, sector) == stick.sector_binding,
{
}

/// A change of the joystick's mode starts afresh: no motion is carried over, the
/// direction the stick points in is held or released as the new mode asks, and a
/// drag ends with a frame without motion that says which buttons are left. Without
/// a change nothing happens.
pub proof fn law_mode_change_starts_afresh(m: PadModel, stick: Stick)
    requires
        m.wf(),
        stick.wf(),
    ensures
        ({
            let (next, after) = handed_over(m, stick);
            let slot = 16 + stick.last;
            let turned = if stick.last == 0xFF {
                m
            } else if m.keymap.joy_mode == 0 {
                m.applied(slot, Some(m.keymap.slots@[slot]))
            } else {
                m.applied(slot, None)
            };
            &&& m.device_mode == 1 || m.keymap.joy_mode == stick.last_mode ==> next == m && after
                == stick
            &&& m.device_mode != 1 && m.keymap.joy_mode != stick.last_mode ==> {
                &&& after == (Stick {
                    last_mode: m.keymap.joy_mode,
                    dragging: false,
                    acc_x: 0,
                    acc_y: 0,
                    ..stick
                })
                &&& !stick.dragging ==> next == turned
                &&& stick.dragging ==> {
                    &&& !next.grade_drag
                    &&& next.mouse.last() == (MouseFrame {
                        buttons: m.push_buttons,
                        dx: 0,
                        dy: 0,
                    })
                    &&& next == (PadModel { mouse: next.mouse, grade_drag: false, ..turned })
                }
            }
        }),
{
    let slot = 16 + stick.last;
    let turned = if stick.last == 0xFF {
        m
    } else if m.keymap.joy_mode == 0 {
        m.applied(slot, Some(m.keymap.slots@[slot]))
    } else {
        m.applied(slot, None)
    };
    crate::guarantees::law_buttons_are_exact(PadModel { grade_drag: false, ..turned });
}

/// A stick that does not point where it is known to is first taken out of its old
/// direction, if it has one, and then into the new one.
pub proof fn law_steps_lead_there(stick: Stick, dir: u8)
    ensures
        step_of(stick, dir) == StickStep::Settled <==> dir == stick.last,
        step_of(stick, dir) == StickStep::Leave <==> dir != stick.last && stick.last != 0xFF,
        step_of(stick, dir) == StickStep::Enter <==> dir != stick.last && stick.last == 0xFF,
{
}

/// Motion fits exactly if, on both axes, deflection times speed (squared in grade
/// mode), and its sum with what is carried, are within 32 bits. Grabbing and letting
/// go carry nothing; without a pointer everything fits.
pub proof fn law_motion_fits_32_bits(m: PadModel, stick: Stick, axes: Axes)
    ensures
        ({
            let speed = m.keymap.joy_mouse_speed as int;
            let gain = if m.keymap.joy_mode == 2 {
                speed * speed
            } else {
                speed
            };
            let deflected = axes.x > 2248 || axes.x < 1848 || axes.y > 2248 || axes.y < 1848;
            let home = 1928 < axes.x < 2168 && 1928 < axes.y < 2168;
            let afresh = m.keymap.joy_mode == 2 && ((!stick.dragging && deflected) || (
            stick.dragging && home));
            let x = counts_past(axes.x) * gain;
            let y = counts_past(axes.y) * gain;
            let carried_x = if afresh {
                0
            } else {
                stick.acc_x as int
            };
            let carried_y = if afresh {
                0
            } else {
                stick.acc_y as int
            };
            let pointer = m.device_mode != 1 && m.keymap.joy_mode != 0;
            motion_fits(m, stick, axes) <==> !pointer || (-0x8000_0000 <= x <= 0x7FFF_FFFF
                && -0x8000_0000 <= y <= 0x7FFF_FFFF && -0x8000_0000 <= carried_x + x <= 0x7FFF_FFFF
                && -0x8000_0000 <= carried_y + y <= 0x7FFF_FFFF)
        }),
{
    assert(beyond_deadzone(axes.x - CENTRE) == counts_past(axes.x));
    assert(beyond_deadzone(axes.y - CENTRE) == counts_past(axes.y));
}

} // verus!
