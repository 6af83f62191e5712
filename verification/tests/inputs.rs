use openmicro::boot::{boot_chord, boot_mode, BootMode};
use openmicro::codex::{
    act, route, route_tap, Binding, CodexCall, CodexSource, CodexStatus, MacroKeys,
};
use openmicro::encoder::{encoder_detent, Detent, Encoder};
use openmicro::joystick::{
    dir_angle, direction, stick_close, stick_enter, stick_fits, stick_leave, stick_next,
    stick_point, stick_read, Axes, Joystick, Stick, StickStep, DIR_DOWN, DIR_LEFT, DIR_NONE, DIR_RIGHT, DIR_UP,
};
use openmicro::keymap::{
    Keymap, LedPattern, Slot, SlotKind, JOY_MODE_GRADE, JOY_MODE_KEYS, JOY_MODE_MOUSE, MODE_CODEX,
    MODE_OPENMICRO, SLOT_COUNT, SLOT_ENC_CCW, SLOT_ENC_CW, SLOT_ENC_PRESS, SLOT_JOY_LEFT,
    SLOT_JOY_PRESS, SLOT_JOY_RIGHT, SLOT_TOUCH_TAP,
};
use openmicro::pad::Pad;
use openmicro::pump::{next_event, next_outgoing, MouseReport, Outgoing};
use openmicro::queues::InputEvent;
use openmicro::report::HELD_LEN;
use openmicro::scan::{
    encoder_switch, joystick_switch, key_edge, position, KeyCell, KeyEdge, PushSwitch, Scanner,
};
use openmicro::touch::{charge_time, touch_tap, Touch};

const STATUS: CodexStatus = CodexStatus { layer_index: 2, profile_index: 5 };

fn key(code: u16) -> Slot {
    Slot { kind: SlotKind::Keyboard, mods: 0, code }
}

fn pad_in(device_mode: u8) -> Pad {
    let pattern = LedPattern { mode: 0, r: 0, g: 0, b: 0 };
    let mut slots = [Slot { kind: SlotKind::Empty, mods: 0, code: 0 }; SLOT_COUNT];
    for i in 0..SLOT_COUNT {
        slots[i] = key(10 + i as u16);
    }
    let keymap = Keymap {
        slots,
        joy_threshold: 1000,
        joy_mode: JOY_MODE_KEYS,
        joy_mouse_speed: 5,
        led_brightness: 100,
        key_pattern: pattern,
        ug_pattern: pattern,
        device_mode,
    };
    Pad::new(keymap, device_mode)
}

fn pad() -> Pad {
    pad_in(MODE_OPENMICRO)
}

fn bound(binding: Binding) -> CodexSource {
    CodexSource { forced_slot: None, binding }
}

fn forced(slot: Slot) -> CodexSource {
    CodexSource { forced_slot: Some(slot), binding: Binding::Oai(1) }
}

fn unbound() -> CodexSource {
    bound(Binding::Unbound)
}

fn keycode(pad: &mut Pad) -> u8 {
    match next_outgoing(pad) {
        Some(Outgoing::Keyboard(t)) => {
            assert_eq!(t.second, None);
            t.first.keycodes[0]
        }
        other => panic!("{:?}", other),
    }
}

fn mouse(pad: &mut Pad) -> MouseReport {
    match next_outgoing(pad) {
        Some(Outgoing::Mouse(r)) => r,
        other => panic!("{:?}", other),
    }
}

fn moved(buttons: u8, x: i8, y: i8) -> MouseReport {
    MouseReport { buttons, x, y, wheel: 0, pan: 0 }
}

fn event(pad: &mut Pad) -> (u8, u8, u8) {
    match next_event(pad) {
        Some(InputEvent { src, a, b }) => (src, a, b),
        None => panic!("no event"),
    }
}

// ---- boot ----

#[test]
fn chord_needs_every_sample() {
    let held = [true; 20];
    let up = [false; 20];
    let mut glanced = held;
    glanced[7] = false;
    assert_eq!(boot_chord(&held, &up), Some(MODE_OPENMICRO));
    assert_eq!(boot_chord(&up, &held), Some(MODE_CODEX));
    assert_eq!(boot_chord(&held, &held), None);
    assert_eq!(boot_chord(&up, &up), None);
    assert_eq!(boot_chord(&glanced, &up), None);
    assert_eq!(boot_chord(&glanced, &held), Some(MODE_CODEX));
}

#[test]
fn chord_overrides_the_saved_mode() {
    let own = |changed| BootMode { mode: MODE_OPENMICRO, changed, rgb: 0xF5AE58 };
    let codex = |changed| BootMode { mode: MODE_CODEX, changed, rgb: 0xFFFFFF };
    assert_eq!(boot_mode(MODE_OPENMICRO, None), own(false));
    assert_eq!(boot_mode(MODE_OPENMICRO, Some(MODE_OPENMICRO)), own(false));
    assert_eq!(boot_mode(MODE_OPENMICRO, Some(MODE_CODEX)), codex(true));
    assert_eq!(boot_mode(MODE_CODEX, Some(MODE_OPENMICRO)), own(true));
    assert_eq!(boot_mode(MODE_CODEX, None), codex(false));
}

// ---- matrix ----

#[test]
fn matrix_positions() {
    let expected = [
        [None, Some(0), Some(1), None],
        [Some(2), Some(3), Some(4), Some(5)],
        [Some(6), Some(7), Some(8), Some(9)],
        [None, Some(10), Some(11), Some(12)],
    ];
    for row in 0..4 {
        for col in 0..4 {
            assert_eq!(position(row, col), expected[row][col]);
        }
    }
}

#[test]
fn five_scans_make_an_edge() {
    let mut cell = KeyCell { debounce: 0, pressed: false, suppress: false };
    for _ in 0..4 {
        assert_eq!(cell.sample(true), None);
    }
    assert_eq!(cell.sample(true), Some(true));
    assert_eq!(cell.sample(true), None);
    for _ in 0..4 {
        assert_eq!(cell.sample(false), None);
    }
    assert_eq!(cell.sample(false), Some(false));
}

#[test]
fn a_glitch_starts_the_count_again() {
    let mut cell = KeyCell { debounce: 0, pressed: false, suppress: false };
    for _ in 0..4 {
        assert_eq!(cell.sample(true), None);
    }
    assert_eq!(cell.sample(false), None);
    for _ in 0..4 {
        assert_eq!(cell.sample(true), None);
    }
    assert_eq!(cell.sample(true), Some(true));
}

#[test]
fn key_down_at_boot_is_swallowed_once() {
    let mut levels = [[false; 4]; 4];
    levels[1][0] = true;
    let mut scanner = Scanner::new(levels, true, true);
    for _ in 0..5 {
        assert_eq!(scanner.sample(1, 0, false), None);
    }
    for _ in 0..4 {
        assert_eq!(scanner.sample(1, 0, true), None);
    }
    assert_eq!(scanner.sample(1, 0, true), Some(KeyEdge { pos: 2, down: true }));
}

#[test]
fn places_without_a_switch_make_no_edge() {
    let mut scanner = Scanner::new([[false; 4]; 4], true, true);
    for _ in 0..20 {
        assert_eq!(scanner.sample(0, 0, true), None);
        assert_eq!(scanner.sample(0, 3, true), None);
        assert_eq!(scanner.sample(3, 0, true), None);
    }
}

#[test]
fn key_edge_emits_posts_and_lights() {
    let mut pad = pad();
    let call = key_edge(&mut pad, KeyEdge { pos: 9, down: true }, unbound(), STATUS);
    assert_eq!(call, CodexCall::Quiet);
    assert_eq!(pad.keystate, 1 << 9);
    assert_eq!(keycode(&mut pad), 19);
    assert_eq!(event(&mut pad), (0, 9, 1));
    key_edge(&mut pad, KeyEdge { pos: 9, down: false }, unbound(), STATUS);
    assert_eq!(pad.keystate, 0);
    assert_eq!(keycode(&mut pad), 0);
    assert_eq!(event(&mut pad), (0, 9, 0));
}

#[test]
fn key_edge_in_codex_mode_asks_the_service() {
    let mut pad = pad_in(MODE_CODEX);
    let edge = KeyEdge { pos: 1, down: true };
    let call = key_edge(&mut pad, edge, bound(Binding::Oai(7)), STATUS);
    assert_eq!(call, CodexCall::Oai { control: 7, pressed: true });
    assert_eq!(next_outgoing(&mut pad), None);
    assert_eq!(event(&mut pad), (0, 1, 1));
    assert_eq!(pad.keystate, 2);
}

#[test]
fn encoder_push_is_a_held_slot() {
    let mut pad = pad();
    let mut scanner = Scanner::new([[false; 4]; 4], true, true);
    encoder_switch(&mut pad, &mut scanner, true, unbound(), STATUS);
    assert_eq!(next_outgoing(&mut pad), None);
    encoder_switch(&mut pad, &mut scanner, false, unbound(), STATUS);
    assert_eq!(keycode(&mut pad), 10 + SLOT_ENC_PRESS as u8);
    assert_eq!(event(&mut pad), (2, 1, 0));
    encoder_switch(&mut pad, &mut scanner, true, unbound(), STATUS);
    assert_eq!(keycode(&mut pad), 0);
    assert_eq!(event(&mut pad), (2, 0, 0));
}

#[test]
fn push_down_at_boot_is_swallowed() {
    let mut switch = PushSwitch { last: false, suppress: true };
    assert_eq!(switch.sample(false), None);
    assert_eq!(switch.sample(true), None);
    assert_eq!(switch.sample(false), Some(true));
    assert_eq!(switch.sample(true), Some(false));
}

#[test]
fn joystick_push_is_a_key_or_a_click() {
    let mut pad = pad();
    let mut scanner = Scanner::new([[false; 4]; 4], true, true);
    joystick_switch(&mut pad, &mut scanner, false);
    assert_eq!(keycode(&mut pad), 10 + SLOT_JOY_PRESS as u8);
    assert_eq!(event(&mut pad), (3, 4, 1));
    // The mode changes in mid-push: the key is retracted, no click follows.
    pad.keymap.joy_mode = JOY_MODE_MOUSE;
    joystick_switch(&mut pad, &mut scanner, false);
    assert_eq!(keycode(&mut pad), 0);
    assert_eq!(next_outgoing(&mut pad), None);
    joystick_switch(&mut pad, &mut scanner, true);
    assert_eq!(mouse(&mut pad), moved(0, 0, 0));
    joystick_switch(&mut pad, &mut scanner, false);
    assert_eq!(mouse(&mut pad), moved(1, 0, 0));
    // And back: the click is retracted.
    pad.keymap.joy_mode = JOY_MODE_KEYS;
    joystick_switch(&mut pad, &mut scanner, false);
    assert_eq!(mouse(&mut pad), moved(0, 0, 0));
    assert_eq!(pad.push_buttons, 0);
}

#[test]
fn joystick_push_in_codex_mode_is_an_event_only() {
    let mut pad = pad_in(MODE_CODEX);
    let mut scanner = Scanner::new([[false; 4]; 4], true, true);
    joystick_switch(&mut pad, &mut scanner, false);
    assert_eq!(next_outgoing(&mut pad), None);
    assert_eq!(event(&mut pad), (3, 4, 1));
}

// ---- bindings ----

#[test]
fn bindings_ask_the_service() {
    let mut pad = pad_in(MODE_CODEX);
    let cases = [
        (Binding::Unbound, CodexCall::Quiet, CodexCall::Quiet),
        (Binding::Unsupported, CodexCall::Quiet, CodexCall::Quiet),
        (Binding::Function, CodexCall::Quiet, CodexCall::Quiet),
        (
            Binding::Oai(3),
            CodexCall::Oai { control: 3, pressed: true },
            CodexCall::Oai { control: 3, pressed: false },
        ),
        (Binding::LayerToggle(4), CodexCall::ToggleLayer(4), CodexCall::Quiet),
        (
            Binding::LayerHold(4),
            CodexCall::HoldLayer { layer: 4, pressed: true },
            CodexCall::HoldLayer { layer: 4, pressed: false },
        ),
        (Binding::Profile(6), CodexCall::SetProfile(6), CodexCall::Quiet),
        (Binding::Macro(9), CodexCall::RunMacro(9), CodexCall::Quiet),
        (Binding::Multi(8), CodexCall::MultiTap(8), CodexCall::MultiTap(8)),
        (Binding::Smart(11), CodexCall::Smart(11), CodexCall::Quiet),
        (
            Binding::CheatSheet(2),
            CodexCall::CheatSheet { mode: 2, layer: 2, profile: 5 },
            CodexCall::Quiet,
        ),
        (
            Binding::CheatSheet(3),
            CodexCall::CheatSheet { mode: 1, layer: 2, profile: 5 },
            CodexCall::CheatSheet { mode: 0, layer: 2, profile: 5 },
        ),
    ];
    for (binding, down, up) in cases {
        assert_eq!(act(&mut pad, binding, true, 0, STATUS), down);
        assert_eq!(act(&mut pad, binding, false, 0, STATUS), up);
        assert_eq!(next_outgoing(&mut pad), None);
    }
}

#[test]
fn bindings_hold_keys_and_usages() {
    let mut pad = pad_in(MODE_CODEX);
    act(&mut pad, Binding::Key { mods: 0, code: 4 }, true, 0, STATUS);
    act(&mut pad, Binding::Key { mods: 0, code: 4 }, false, 0, STATUS);
    assert_eq!(keycode(&mut pad), 4);
    assert_eq!(keycode(&mut pad), 0);
    act(&mut pad, Binding::Consumer(0xE9), true, 0, STATUS);
    assert!(matches!(next_outgoing(&mut pad), Some(Outgoing::Consumer(r)) if r.usage_id == 0xE9));
    act(&mut pad, Binding::Consumer(0xE9), false, 0, STATUS);
    assert!(matches!(next_outgoing(&mut pad), Some(Outgoing::Consumer(r)) if r.usage_id == 0));
}

#[test]
fn backlight_steps_stay_in_range() {
    let mut pad = pad_in(MODE_CODEX);
    for expected in [132, 164, 196, 228, 255, 255] {
        act(&mut pad, Binding::Backlight(1), true, 0, STATUS);
        act(&mut pad, Binding::Backlight(1), false, 0, STATUS);
        assert_eq!(pad.keymap.led_brightness, expected);
    }
    pad.keymap.led_brightness = 70;
    for expected in [38, 16, 16] {
        act(&mut pad, Binding::Backlight(-1), true, 0, STATUS);
        assert_eq!(pad.keymap.led_brightness, expected);
    }
}

#[test]
fn routing_prefers_the_forced_slot() {
    let mut pad = pad_in(MODE_CODEX);
    assert_eq!(route(&mut pad, 0, true, forced(key(50)), STATUS), CodexCall::Quiet);
    assert_eq!(keycode(&mut pad), 50);
    assert_eq!(route(&mut pad, 0, false, forced(key(50)), STATUS), CodexCall::Quiet);
    assert_eq!(keycode(&mut pad), 0);
    let mut own = pad_in(MODE_OPENMICRO);
    assert_eq!(route(&mut own, 0, true, forced(key(50)), STATUS), CodexCall::Quiet);
    assert_eq!(keycode(&mut own), 10);
}

#[test]
fn routed_taps() {
    let mut pad = pad_in(MODE_CODEX);
    let calls = route_tap(&mut pad, 5, bound(Binding::LayerHold(1)), STATUS);
    assert_eq!(
        calls,
        (
            CodexCall::HoldLayer { layer: 1, pressed: true },
            CodexCall::HoldLayer { layer: 1, pressed: false }
        )
    );
    // A forced slot means that the keymap's own slot is tapped.
    route_tap(&mut pad, 5, forced(key(50)), STATUS);
    assert_eq!(keycode(&mut pad), 15);
    assert_eq!(keycode(&mut pad), 0);
}

#[test]
fn macros_take_their_own_entries() {
    let mut pad = pad_in(MODE_CODEX);
    let keys = MacroKeys;
    for code in 1..=5 {
        keys.press(&mut pad, Binding::Key { mods: 0, code }, STATUS);
    }
    assert!(pad.held[..SLOT_COUNT].iter().all(|e| e.is_none()));
    for i in 0..4 {
        assert_eq!(pad.held[SLOT_COUNT + i], Some(key(1 + i as u16)));
    }
    keys.release(&mut pad, Binding::Key { mods: 0, code: 2 }, STATUS);
    assert_eq!(pad.held[SLOT_COUNT + 1], None);
    // Neither the dropped key nor one with other modifiers is held.
    keys.release(&mut pad, Binding::Key { mods: 0, code: 5 }, STATUS);
    keys.release(&mut pad, Binding::Key { mods: 2, code: 1 }, STATUS);
    assert_eq!(pad.held.iter().filter(|e| e.is_some()).count(), 3);
    assert_eq!(HELD_LEN, 28);
}

#[test]
fn macros_act_on_other_bindings() {
    let mut pad = pad_in(MODE_CODEX);
    let keys = MacroKeys;
    keys.press(&mut pad, Binding::Consumer(0xCD), STATUS);
    assert_eq!(pad.held[SLOT_COUNT], Some(Slot::consumer(0xCD)));
    keys.release(&mut pad, Binding::Consumer(0xCD), STATUS);
    assert_eq!(pad.held[SLOT_COUNT], None);
    assert_eq!(
        keys.press(&mut pad, Binding::Oai(1), STATUS),
        CodexCall::Oai { control: 1, pressed: true }
    );
}

#[test]
fn macro_plays_a_key_and_a_usage_together() {
    let mut pad = pad_in(MODE_CODEX);
    let keys = MacroKeys;
    let held_key = Binding::Key { mods: 2, code: 4 };
    let usage = Binding::Consumer(0xE9);
    let consumer = |pad: &mut Pad| match next_outgoing(pad) {
        Some(Outgoing::Consumer(report)) => report.usage_id,
        other => panic!("{:?}", other),
    };
    keys.press(&mut pad, held_key, STATUS);
    assert!(matches!(next_outgoing(&mut pad), Some(Outgoing::Keyboard(t))
        if t.first.modifier == 2 && t.second.unwrap().keycodes[0] == 4));
    keys.press(&mut pad, usage, STATUS);
    assert_eq!(consumer(&mut pad), 0xE9);
    assert_eq!(next_outgoing(&mut pad), None);
    assert_eq!(
        pad.held[SLOT_COUNT],
        Some(Slot { kind: SlotKind::Keyboard, mods: 2, code: 4 })
    );
    assert_eq!(pad.held[SLOT_COUNT + 1], Some(Slot::consumer(0xE9)));
    // Each release retracts what its own press emitted, in either order.
    keys.release(&mut pad, held_key, STATUS);
    assert!(matches!(next_outgoing(&mut pad), Some(Outgoing::Keyboard(t))
        if t.first.keycodes[0] == 0 && t.second.unwrap().modifier == 0));
    assert_eq!(pad.held[SLOT_COUNT + 1], Some(Slot::consumer(0xE9)));
    keys.release(&mut pad, usage, STATUS);
    assert_eq!(consumer(&mut pad), 0);
    assert!(pad.held.iter().all(|e| e.is_none()));
    assert_eq!(next_outgoing(&mut pad), None);
}

#[test]
fn macro_with_no_entry_left_drops_what_it_presses() {
    let mut pad = pad_in(MODE_CODEX);
    let keys = MacroKeys;
    for code in 1..=4 {
        keys.press(&mut pad, Binding::Key { mods: 0, code }, STATUS);
        assert!(next_outgoing(&mut pad).is_some());
    }
    let before = pad.held;
    keys.press(&mut pad, Binding::Consumer(0xE9), STATUS);
    keys.release(&mut pad, Binding::Consumer(0xE9), STATUS);
    assert_eq!(pad.held, before);
    assert_eq!(next_outgoing(&mut pad), None);
}

// ---- encoder ----

fn turn(encoder: &mut Encoder, states: &[(bool, bool)]) -> Vec<Detent> {
    states.iter().map(|&(a, b)| encoder.edge(a, b)).filter(|d| *d != Detent::Still).collect()
}

#[test]
fn two_counts_make_a_detent() {
    let cw = [(true, false), (true, true), (false, true), (false, false)];
    let ccw = [(false, true), (true, true), (true, false), (false, false)];
    let mut encoder = Encoder::new(false, false);
    assert_eq!(turn(&mut encoder, &cw), vec![Detent::Cw, Detent::Cw]);
    assert_eq!(turn(&mut encoder, &ccw), vec![Detent::Ccw, Detent::Ccw]);
}

#[test]
fn bounce_cancels() {
    let mut encoder = Encoder::new(false, false);
    let bounce = [(true, false), (false, false), (true, false), (false, false)];
    assert_eq!(turn(&mut encoder, &bounce), vec![]);
    assert_eq!(encoder, Encoder { state: 0, accum: 0 });
}

#[test]
fn illegal_jumps_count_nothing() {
    let mut encoder = Encoder::new(false, false);
    assert_eq!(turn(&mut encoder, &[(true, true), (false, false), (true, true)]), vec![]);
    assert_eq!(encoder, Encoder { state: 3, accum: 0 });
}

#[test]
fn detents_tap_their_slots() {
    let mut pad = pad();
    encoder_detent(&mut pad, true, unbound(), STATUS);
    assert_eq!(keycode(&mut pad), 10 + SLOT_ENC_CW as u8);
    assert_eq!(keycode(&mut pad), 0);
    assert_eq!(event(&mut pad), (1, 1, 0));
    encoder_detent(&mut pad, false, unbound(), STATUS);
    assert_eq!(keycode(&mut pad), 10 + SLOT_ENC_CCW as u8);
    assert_eq!(keycode(&mut pad), 0);
    assert_eq!(event(&mut pad), (1, 0, 0));
}

// ---- joystick ----

fn at(x: u16, y: u16) -> Axes {
    Axes { x, y }
}

#[test]
fn nets_are_swapped() {
    assert_eq!(Axes::from_nets(100, 200), at(200, 100));
}

#[test]
fn directions() {
    assert_eq!(direction(at(2048, 2048), 1000), DIR_NONE);
    assert_eq!(direction(at(1048, 3048), 1000), DIR_NONE);
    assert_eq!(direction(at(1047, 0), 1000), DIR_LEFT);
    assert_eq!(direction(at(3049, 0), 1000), DIR_RIGHT);
    assert_eq!(direction(at(2048, 1047), 1000), DIR_UP);
    assert_eq!(direction(at(2048, 3049), 1000), DIR_DOWN);
    assert_eq!(direction(at(0, 4095), 5000), DIR_NONE);
    assert_eq!(direction(at(0, 4095), 65535), DIR_NONE);
}

#[test]
fn angles() {
    assert_eq!([DIR_UP, DIR_DOWN, DIR_LEFT, DIR_RIGHT].map(dir_angle), [750, 250, 500, 0]);
}

#[test]
fn direction_is_a_held_key() {
    let mut pad = pad();
    let mut stick = Stick::new();
    assert_eq!(stick_read(&mut pad, &mut stick, at(0, 2048)), DIR_LEFT);
    stick_enter(&mut pad, &mut stick, DIR_LEFT, Joystick::Inactive, Binding::Unbound, STATUS);
    assert_eq!(keycode(&mut pad), 10 + SLOT_JOY_LEFT as u8);
    assert_eq!(event(&mut pad), (3, DIR_LEFT, 1));
    assert_eq!(stick.last, DIR_LEFT);
    stick_leave(&mut pad, &mut stick, Joystick::Inactive, STATUS);
    assert_eq!(keycode(&mut pad), 0);
    assert_eq!(event(&mut pad), (3, DIR_LEFT, 0));
    assert_eq!(stick.last, DIR_NONE);
}

#[test]
fn a_tick_leaves_before_it_enters() {
    let mut pad = pad();
    let mut stick = Stick::new();
    for (axes, steps) in [
        (at(0, 2048), 1),
        (at(0, 2048), 0),
        (at(4095, 2048), 2),
        (at(2048, 2048), 1),
    ] {
        let dir = stick_read(&mut pad, &mut stick, axes);
        let mut taken = 0;
        loop {
            match stick_next(&stick, dir) {
                StickStep::Settled => break,
                StickStep::Leave => {
                    stick_leave(&mut pad, &mut stick, Joystick::Inactive, STATUS);
                }
                StickStep::Enter => {
                    let none = Binding::Unbound;
                    stick_enter(&mut pad, &mut stick, dir, Joystick::Inactive, none, STATUS);
                }
            }
            taken += 1;
        }
        assert_eq!(taken, steps);
        assert_eq!(stick.last, dir);
    }
    assert_eq!(event(&mut pad), (3, DIR_LEFT, 1));
    assert_eq!(event(&mut pad), (3, DIR_LEFT, 0));
    assert_eq!(event(&mut pad), (3, DIR_RIGHT, 1));
    assert_eq!(event(&mut pad), (3, DIR_RIGHT, 0));
    assert_eq!(next_event(&mut pad), None);
}

#[test]
fn mode_change_hands_the_direction_over() {
    let mut pad = pad();
    let mut stick = Stick::new();
    stick_enter(&mut pad, &mut stick, DIR_RIGHT, Joystick::Inactive, Binding::Unbound, STATUS);
    assert_eq!(keycode(&mut pad), 10 + SLOT_JOY_RIGHT as u8);
    pad.keymap.joy_mode = JOY_MODE_MOUSE;
    stick_read(&mut pad, &mut stick, at(4095, 2048));
    assert_eq!(keycode(&mut pad), 0);
    pad.keymap.joy_mode = JOY_MODE_KEYS;
    stick_read(&mut pad, &mut stick, at(4095, 2048));
    assert_eq!(keycode(&mut pad), 10 + SLOT_JOY_RIGHT as u8);
}

#[test]
fn codex_stick_is_reported() {
    let mut pad = pad_in(MODE_CODEX);
    let mut stick = Stick::new();
    let quiet = CodexCall::Quiet;
    let calls =
        stick_enter(&mut pad, &mut stick, DIR_UP, Joystick::Vendor, Binding::Unbound, STATUS);
    assert_eq!(calls, (CodexCall::Stick { dir: DIR_UP, active: true }, quiet));
    let call = stick_leave(&mut pad, &mut stick, Joystick::Vendor, STATUS);
    assert_eq!(call, CodexCall::Stick { dir: DIR_UP, active: false });
    assert_eq!(stick_close(&pad, DIR_UP, Joystick::Vendor, STATUS), quiet);
    assert_eq!(next_outgoing(&mut pad), None);
}

#[test]
fn codex_sectors_press_and_release_their_binding() {
    let mut pad = pad_in(MODE_CODEX);
    let mut stick = Stick::new();
    let radial = |open, layer| CodexCall::Radial { angle_milli: 250, open, layer, profile: 5 };
    let sector = Binding::LayerHold(2);
    let calls = stick_enter(&mut pad, &mut stick, DIR_DOWN, Joystick::Sectors, sector, STATUS);
    assert_eq!(
        calls,
        (radial(true, 2), CodexCall::HoldLayer { layer: 2, pressed: true })
    );
    let call = stick_leave(&mut pad, &mut stick, Joystick::Sectors, STATUS);
    assert_eq!(call, CodexCall::HoldLayer { layer: 2, pressed: false });
    let later = CodexStatus { layer_index: 0, profile_index: 5 };
    assert_eq!(stick_close(&pad, DIR_DOWN, Joystick::Sectors, later), radial(false, 0));
    let key = Binding::Key { mods: 0, code: 9 };
    stick_enter(&mut pad, &mut stick, DIR_DOWN, Joystick::Sectors, key, STATUS);
    assert_eq!(keycode(&mut pad), 9);
    stick_leave(&mut pad, &mut stick, Joystick::Sectors, STATUS);
    assert_eq!(keycode(&mut pad), 0);
}

#[test]
fn mouse_mode_moves_by_deflection_times_speed() {
    let mut pad = pad();
    pad.keymap.joy_mode = JOY_MODE_MOUSE;
    let mut stick = Stick::new();
    stick_read(&mut pad, &mut stick, at(0, 2048));
    // 1848 counts at speed 5: 9240 / 512 is 18 pixels and 24 over.
    stick_point(&mut pad, &mut stick, at(0, 2048));
    assert_eq!(mouse(&mut pad), moved(0, -18, 0));
    assert_eq!((stick.acc_x, stick.acc_y), (-24, 0));
    // Inside the dead zone nothing moves.
    stick_point(&mut pad, &mut stick, at(2248, 1848));
    assert_eq!(next_outgoing(&mut pad), None);
    assert_eq!((stick.acc_x, stick.acc_y), (-24, 0));
    // One count past it: 5 of 512 per frame, a pixel after 103 frames.
    let mut frames = 0;
    while next_outgoing(&mut pad).is_none() {
        stick_point(&mut pad, &mut stick, at(2048, 2249));
        frames += 1;
    }
    assert_eq!(frames, 103);
}

#[test]
fn motion_past_one_frame_is_carried() {
    let mut pad = pad();
    pad.keymap.joy_mode = JOY_MODE_MOUSE;
    pad.keymap.joy_mouse_speed = 255;
    let mut stick = Stick::new();
    stick_read(&mut pad, &mut stick, at(0, 2048));
    assert!(stick_fits(&pad, &stick, at(0, 2048)));
    // 1848 * 255 is 471240; one frame carries 127 pixels of 512.
    stick_point(&mut pad, &mut stick, at(0, 2048));
    assert_eq!(mouse(&mut pad), moved(0, -127, 0));
    assert_eq!(stick.acc_x, -471240 + 127 * 512);
    stick.acc_x = i32::MIN + 471239;
    assert!(!stick_fits(&pad, &stick, at(0, 2048)));
    assert!(stick_fits(&pad, &stick, at(4095, 2048)));
    stick.acc_x = i32::MIN;
    assert!(stick_fits(&pad, &stick, at(2048, 2048)));
    stick_point(&mut pad, &mut stick, at(2048, 2048));
    assert_eq!(mouse(&mut pad), moved(0, -127, 0));
    assert_eq!(stick.acc_x, i32::MIN + 127 * 512);
    // A fresh grab starts from nothing, so it fits whatever was left.
    pad.keymap.joy_mode = JOY_MODE_GRADE;
    pad.keymap.joy_mouse_speed = 10;
    assert!(stick_fits(&pad, &stick, at(0, 2048)));
    pad.keymap.joy_mouse_speed = 255;
    assert!(!stick_fits(&pad, &stick, Axes { x: u16::MAX, y: 2048 }));
}

#[test]
fn grade_mode_spans_two_decades() {
    for (speed, dx, rest) in [(1, 0, 1847), (10, 22, 4476)] {
        let mut pad = pad();
        pad.keymap.joy_mode = JOY_MODE_GRADE;
        pad.keymap.joy_mouse_speed = speed;
        let mut stick = Stick::new();
        stick_read(&mut pad, &mut stick, at(4095, 2048));
        stick_point(&mut pad, &mut stick, at(4095, 2048));
        assert_eq!(mouse(&mut pad), moved(1, 0, 0));
        if dx != 0 {
            assert_eq!(mouse(&mut pad), moved(1, dx, 0));
        }
        assert_eq!(next_outgoing(&mut pad), None);
        assert_eq!(stick.acc_x, rest);
    }
}

#[test]
fn grade_drag_keeps_pace() {
    let mut pad = pad();
    pad.keymap.joy_mode = JOY_MODE_GRADE;
    pad.keymap.joy_mouse_speed = 10;
    let mut stick = Stick::new();
    stick_read(&mut pad, &mut stick, at(2048, 2048));
    // What was left over before the grab plays no part.
    stick.acc_x = 5000;
    stick.acc_y = -5000;
    let mut travelled = (0i32, 0i32);
    for _ in 0..3 {
        stick_point(&mut pad, &mut stick, at(4095, 0));
        while let Some(Outgoing::Mouse(r)) = next_outgoing(&mut pad) {
            assert_eq!(r.buttons, 1);
            travelled = (travelled.0 + r.x as i32, travelled.1 + r.y as i32);
        }
    }
    // Three frames of 1847 and -1848 counts, times 100, over 8192.
    assert_eq!(travelled, (67, -67));
    assert_eq!((stick.acc_x, stick.acc_y), (5236, -5536));
    // The drag lasts inside the dead zone and moves on from its fractions.
    stick_point(&mut pad, &mut stick, at(2200, 2048));
    assert!(stick.dragging);
    stick_point(&mut pad, &mut stick, at(2278, 2048));
    assert_eq!(mouse(&mut pad), moved(1, 1, 0));
    assert_eq!((stick.acc_x, stick.acc_y), (5236 + 30 * 100 - 8192, -5536));
}

#[test]
fn grade_drag_grabs_and_lets_go() {
    let mut pad = pad();
    pad.keymap.joy_mode = JOY_MODE_GRADE;
    pad.keymap.joy_mouse_speed = 1;
    let mut stick = Stick::new();
    stick_read(&mut pad, &mut stick, at(2300, 2048));
    stick_point(&mut pad, &mut stick, at(2300, 2048));
    assert_eq!(mouse(&mut pad), moved(1, 0, 0));
    // Back inside the dead zone, but not home: still dragging.
    stick_point(&mut pad, &mut stick, at(2200, 2048));
    assert!(stick.dragging && pad.grade_drag);
    assert_eq!(next_outgoing(&mut pad), None);
    stick_point(&mut pad, &mut stick, at(2167, 1929));
    assert_eq!(mouse(&mut pad), moved(0, 0, 0));
    assert!(!stick.dragging && !pad.grade_drag);
    // Not home on one axis.
    stick_point(&mut pad, &mut stick, at(2300, 2048));
    mouse(&mut pad);
    stick_point(&mut pad, &mut stick, at(2048, 2168));
    assert!(stick.dragging);
    // A change of mode drops the drag.
    pad.keymap.joy_mode = JOY_MODE_MOUSE;
    stick_read(&mut pad, &mut stick, at(2048, 2168));
    assert_eq!(mouse(&mut pad), moved(0, 0, 0));
    assert!(!stick.dragging && !pad.grade_drag);
}

#[test]
fn push_does_not_lift_the_drag() {
    let mut pad = pad();
    pad.keymap.joy_mode = JOY_MODE_GRADE;
    let mut stick = Stick::new();
    let mut scanner = Scanner::new([[false; 4]; 4], true, true);
    stick_read(&mut pad, &mut stick, at(2300, 2048));
    stick_point(&mut pad, &mut stick, at(2300, 2048));
    mouse(&mut pad);
    joystick_switch(&mut pad, &mut scanner, false);
    assert_eq!(mouse(&mut pad), moved(1, 0, 0));
    joystick_switch(&mut pad, &mut scanner, true);
    assert_eq!(mouse(&mut pad), moved(1, 0, 0));
}

#[test]
fn keys_and_codex_modes_have_no_pointer() {
    let mut stick = Stick::new();
    let mut own = pad();
    stick_point(&mut own, &mut stick, at(0, 0));
    assert_eq!(next_outgoing(&mut own), None);
    let mut codex = pad_in(MODE_CODEX);
    codex.keymap.joy_mode = JOY_MODE_MOUSE;
    stick_read(&mut codex, &mut stick, at(0, 0));
    stick_point(&mut codex, &mut stick, at(0, 0));
    assert_eq!(next_outgoing(&mut codex), None);
    assert_eq!(stick.last_mode, JOY_MODE_KEYS);
}

// ---- touch ----

#[test]
fn touch_taps_once() {
    let mut touch = Touch::new();
    assert!(!touch.read(192));
    assert_eq!(touch.baseline, 192);
    // A hovering hand stays under a quarter over the baseline.
    assert!(!touch.read(218));
    assert_eq!(touch.baseline, (192 * 15 + 218) / 16);
    assert!(touch.read(300));
    assert!(!touch.read(1015));
    assert_eq!(touch.baseline, 193);
    assert!(!touch.read(192));
    assert!(touch.read(242));
}

#[test]
fn touch_threshold_is_a_quarter() {
    let mut touch = Touch { baseline: 200, armed: true };
    assert!(!touch.read(250));
    let mut touch = Touch { baseline: 200, armed: true };
    assert!(touch.read(251));
}

#[test]
fn charge_cycles_are_summed() {
    let mut counts = [3; 64];
    assert_eq!(charge_time(&counts), 192);
    counts[63] = 2000;
    assert_eq!(charge_time(&counts), 63 * 3 + 2000);
}

#[test]
fn tap_of_the_touch_pad() {
    let mut pad = pad();
    touch_tap(&mut pad, unbound(), STATUS);
    assert_eq!(keycode(&mut pad), 10 + SLOT_TOUCH_TAP as u8);
    assert_eq!(keycode(&mut pad), 0);
    assert_eq!(event(&mut pad), (4, 1, 0));
    let mut codex = pad_in(MODE_CODEX);
    let calls = touch_tap(&mut codex, bound(Binding::Smart(4)), STATUS);
    assert_eq!(calls, (CodexCall::Smart(4), CodexCall::Quiet));
}
