use openmicro::keymap::{Keymap, LedPattern, Slot, SlotKind, SLOT_COUNT};
use openmicro::pad::{
    apply_slot, codex_mode, force_send_consumer, force_send_kbd, force_send_mouse, mouse_buttons,
    post_event, send_keyboard_transition, set_held, tap_slot, Pad,
};
use openmicro::pump::{
    following_report, next_event, next_outgoing, resync, MouseReport, Outgoing, Pump, Written,
};
use openmicro::queues::{InputEvent, MouseFrame};
use openmicro::report::{
    empty_keyboard_report, has_added_key, has_removed_key, keyboard_report, keyboard_transition,
    retained_keycodes, same_keyboard_report, KeyboardReport, KeyboardTransition, HELD_LEN,
    MACRO_SLOTS,
};

fn key(mods: u8, code: u16) -> Slot {
    Slot { kind: SlotKind::Keyboard, mods, code }
}

fn empty() -> Slot {
    Slot { kind: SlotKind::Empty, mods: 0, code: 0 }
}

fn keymap() -> Keymap {
    let pattern = LedPattern { mode: 0, r: 0, g: 0, b: 0 };
    Keymap {
        slots: [empty(); SLOT_COUNT],
        joy_threshold: 1000,
        joy_mode: 0,
        joy_mouse_speed: 5,
        led_brightness: 255,
        key_pattern: pattern,
        ug_pattern: pattern,
        device_mode: 0,
    }
}

fn pad() -> Pad {
    Pad::new(keymap(), 0)
}

fn report(modifier: u8, keycodes: [u8; 6]) -> KeyboardReport {
    KeyboardReport { modifier, reserved: 0, leds: 0, keycodes }
}

fn next_keyboard(pad: &mut Pad) -> KeyboardTransition {
    match next_outgoing(pad) {
        Some(Outgoing::Keyboard(t)) => t,
        other => panic!("{:?}", other),
    }
}

fn next_usage(pad: &mut Pad) -> u16 {
    match next_outgoing(pad) {
        Some(Outgoing::Consumer(r)) => r.usage_id,
        other => panic!("{:?}", other),
    }
}

#[test]
fn held_set_has_room_for_macros() {
    assert_eq!(HELD_LEN, SLOT_COUNT + MACRO_SLOTS);
}

#[test]
fn composite_report_merges_modifiers_and_codes() {
    let mut held = [None; HELD_LEN];
    held[1] = Some(key(0x01, 4));
    held[2] = Some(Slot::consumer(0xE9));
    held[3] = Some(key(0x02, 5));
    held[4] = Some(key(0x00, 4));
    held[5] = Some(key(0x08, 0));
    held[6] = Some(empty());
    assert_eq!(keyboard_report(&held), report(0x0B, [4, 5, 0, 0, 0, 0]));
    assert_eq!(keyboard_report(&[None; HELD_LEN]), empty_keyboard_report());
}

#[test]
fn composite_report_truncates_at_six_keys() {
    let mut held = [None; HELD_LEN];
    for i in 0..8 {
        held[i] = Some(key(1 << i, 10 + i as u16));
    }
    assert_eq!(keyboard_report(&held), report(0xFF, [10, 11, 12, 13, 14, 15]));
}

#[test]
fn comparisons_of_reports() {
    let a = report(1, [4, 5, 0, 0, 0, 0]);
    let b = report(1, [5, 6, 0, 0, 0, 0]);
    assert!(same_keyboard_report(&a, &a));
    assert!(!same_keyboard_report(&a, &b));
    assert!(!same_keyboard_report(&a, &report(2, a.keycodes)));
    assert!(has_added_key(&a, &b));
    assert!(has_removed_key(&a, &b));
    assert!(!has_added_key(&a, &report(1, [5, 0, 0, 0, 0, 0])));
    assert!(!has_removed_key(&report(1, [5, 0, 0, 0, 0, 0]), &a));
    assert_eq!(retained_keycodes(&a, &b), [5, 0, 0, 0, 0, 0]);
}

#[test]
fn no_transition_between_equal_reports() {
    let a = report(1, [4, 0, 0, 0, 0, 0]);
    assert_eq!(keyboard_transition(a, a, true), None);
    assert_eq!(keyboard_transition(a, a, false), None);
}

#[test]
fn press_settles_modifiers_first() {
    let before = empty_keyboard_report();
    let after = report(2, [4, 0, 0, 0, 0, 0]);
    assert_eq!(
        keyboard_transition(before, after, true),
        Some(KeyboardTransition::pair(report(2, [0; 6]), after))
    );
}

#[test]
fn release_retires_keys_first() {
    let before = report(2, [4, 0, 0, 0, 0, 0]);
    let after = empty_keyboard_report();
    assert_eq!(
        keyboard_transition(before, after, false),
        Some(KeyboardTransition::pair(report(2, [0; 6]), after))
    );
}

#[test]
fn release_hides_newly_exposed_key() {
    let before = report(2, [4, 5, 6, 7, 8, 9]);
    let after = report(0, [5, 6, 7, 8, 9, 10]);
    assert_eq!(
        keyboard_transition(before, after, false),
        Some(KeyboardTransition::pair(report(2, [5, 6, 7, 8, 9, 0]), after))
    );
}

#[test]
fn plain_changes_take_one_report() {
    let none = empty_keyboard_report();
    let plain = report(0, [4, 0, 0, 0, 0, 0]);
    let shift = report(2, [0; 6]);
    assert_eq!(keyboard_transition(none, plain, true), Some(KeyboardTransition::single(plain)));
    assert_eq!(keyboard_transition(none, shift, true), Some(KeyboardTransition::single(shift)));
    assert_eq!(keyboard_transition(shift, none, false), Some(KeyboardTransition::single(none)));
}

#[test]
fn held_keys_combine_and_come_back_apart() {
    let mut pad = pad();
    apply_slot(&mut pad, 0, Some(key(0, 4)));
    apply_slot(&mut pad, 1, Some(key(2, 5)));
    apply_slot(&mut pad, 0, None);
    assert_eq!(next_keyboard(&mut pad), KeyboardTransition::single(report(0, [4, 0, 0, 0, 0, 0])));
    assert_eq!(
        next_keyboard(&mut pad),
        KeyboardTransition::pair(report(2, [4, 0, 0, 0, 0, 0]), report(2, [4, 5, 0, 0, 0, 0]))
    );
    assert_eq!(next_keyboard(&mut pad), KeyboardTransition::single(report(2, [5, 0, 0, 0, 0, 0])));
    assert_eq!(next_outgoing(&mut pad), None);
}

#[test]
fn release_retracts_what_the_press_emitted() {
    let mut pad = pad();
    pad.keymap.slots[3] = key(0, 4);
    set_held(&mut pad, 3, true);
    pad.keymap.slots[3] = Slot::consumer(0xCD);
    set_held(&mut pad, 3, false);
    assert_eq!(next_keyboard(&mut pad), KeyboardTransition::single(report(0, [4, 0, 0, 0, 0, 0])));
    assert_eq!(next_keyboard(&mut pad), KeyboardTransition::single(empty_keyboard_report()));
    assert_eq!(next_outgoing(&mut pad), None);
}

#[test]
fn repeated_press_only_replaces_the_memory() {
    let mut pad = pad();
    apply_slot(&mut pad, 0, Some(key(0, 4)));
    apply_slot(&mut pad, 0, Some(key(0, 5)));
    next_keyboard(&mut pad);
    assert_eq!(next_outgoing(&mut pad), None);
    assert_eq!(pad.held[0], Some(key(0, 5)));
}

#[test]
fn release_of_nothing_says_nothing() {
    let mut pad = pad();
    apply_slot(&mut pad, 7, None);
    assert_eq!(next_outgoing(&mut pad), None);
}

#[test]
fn empty_slot_says_nothing() {
    let mut pad = pad();
    tap_slot(&mut pad, 7);
    assert_eq!(next_outgoing(&mut pad), None);
    assert_eq!(pad.held[7], None);
}

#[test]
fn overlapping_usages_do_not_strand_each_other() {
    let mut pad = pad();
    apply_slot(&mut pad, 2, Some(Slot::consumer(0xE9)));
    apply_slot(&mut pad, 1, Some(Slot::consumer(0xEA)));
    apply_slot(&mut pad, 1, None);
    apply_slot(&mut pad, 2, None);
    assert_eq!(next_usage(&mut pad), 0xE9);
    assert_eq!(next_usage(&mut pad), 0xEA);
    assert_eq!(next_usage(&mut pad), 0xE9);
    assert_eq!(next_usage(&mut pad), 0);
    assert_eq!(next_outgoing(&mut pad), None);
}

#[test]
fn tap_presses_and_releases() {
    let mut pad = pad();
    pad.keymap.slots[13] = Slot::consumer(0xE9);
    tap_slot(&mut pad, 13);
    assert_eq!(next_usage(&mut pad), 0xE9);
    assert_eq!(next_usage(&mut pad), 0);
    assert_eq!(pad.held[13], None);
}

#[test]
fn full_keyboard_queue_keeps_the_newest() {
    let mut pad = pad();
    for code in 1..=20u8 {
        force_send_kbd(&mut pad, KeyboardTransition::single(report(0, [code, 0, 0, 0, 0, 0])));
    }
    for code in 5..=20u8 {
        assert_eq!(next_keyboard(&mut pad).first.keycodes[0], code);
    }
    assert_eq!(next_outgoing(&mut pad), None);
}

#[test]
fn full_consumer_queue_keeps_the_newest() {
    let mut pad = pad();
    for usage in 1..=10 {
        force_send_consumer(&mut pad, usage);
    }
    for usage in 3..=10 {
        assert_eq!(next_usage(&mut pad), usage);
    }
    assert_eq!(next_outgoing(&mut pad), None);
}

#[test]
fn full_mouse_queue_keeps_the_newest() {
    let mut pad = pad();
    for dx in 1..=10 {
        force_send_mouse(&mut pad, MouseFrame { buttons: 1, dx, dy: -dx });
    }
    for dx in 3..=10 {
        let report = MouseReport { buttons: 1, x: dx, y: -dx, wheel: 0, pan: 0 };
        assert_eq!(next_outgoing(&mut pad), Some(Outgoing::Mouse(report)));
    }
    assert_eq!(next_outgoing(&mut pad), None);
}

#[test]
fn full_event_queue_drops_the_newest() {
    let mut pad = pad();
    for a in 0..20 {
        post_event(&mut pad, 0, a, 1);
    }
    for a in 0..16 {
        assert_eq!(next_event(&mut pad), Some(InputEvent { src: 0, a, b: 1 }));
    }
    assert_eq!(next_event(&mut pad), None);
}

#[test]
fn keyboard_goes_out_before_consumer_before_mouse() {
    let mut pad = pad();
    force_send_mouse(&mut pad, MouseFrame { buttons: 0, dx: 1, dy: 0 });
    force_send_consumer(&mut pad, 0xCD);
    send_keyboard_transition(
        &mut pad,
        empty_keyboard_report(),
        report(0, [4, 0, 0, 0, 0, 0]),
        true,
    );
    assert!(matches!(next_outgoing(&mut pad), Some(Outgoing::Keyboard(_))));
    assert!(matches!(next_outgoing(&mut pad), Some(Outgoing::Consumer(_))));
    assert!(matches!(next_outgoing(&mut pad), Some(Outgoing::Mouse(_))));
}

#[test]
fn resync_reasserts_what_is_held() {
    let mut pad = pad();
    apply_slot(&mut pad, 0, Some(key(0, 4)));
    apply_slot(&mut pad, 1, Some(key(2, 5)));
    let held = report(2, [4, 5, 0, 0, 0, 0]);
    assert_eq!(resync(&mut pad), KeyboardTransition::pair(report(2, [0; 6]), held));
    assert_eq!(next_outgoing(&mut pad), None);
}

#[test]
fn resync_of_a_pad_at_rest_clears_the_host() {
    let mut pad = pad();
    assert_eq!(resync(&mut pad), KeyboardTransition::single(empty_keyboard_report()));
}

#[test]
fn only_a_disabled_endpoint_asks_for_resync() {
    let mut pump = Pump::new();
    assert!(!pump.needs_resync);
    pump.keyboard_written(Written::Disabled);
    assert!(pump.needs_resync);
    pump.keyboard_written(Written::Overflow);
    assert!(!pump.needs_resync);
    pump.keyboard_written(Written::Disabled);
    pump.keyboard_written(Written::Sent);
    assert!(!pump.needs_resync);
}

#[test]
fn second_report_follows_only_a_sent_first() {
    let after = report(2, [4, 0, 0, 0, 0, 0]);
    let pair = KeyboardTransition::pair(report(2, [0; 6]), after);
    assert_eq!(following_report(&pair, Written::Sent), Some(after));
    assert_eq!(following_report(&pair, Written::Disabled), None);
    assert_eq!(following_report(&pair, Written::Overflow), None);
    assert_eq!(following_report(&KeyboardTransition::single(after), Written::Sent), None);
}

#[test]
fn buttons_combine_push_and_drag() {
    let mut pad = pad();
    assert_eq!(mouse_buttons(&pad), 0);
    pad.grade_drag = true;
    assert_eq!(mouse_buttons(&pad), 1);
    pad.push_buttons = 1;
    pad.grade_drag = false;
    assert_eq!(mouse_buttons(&pad), 1);
}

#[test]
fn device_mode_is_told() {
    assert!(!codex_mode(&pad()));
    assert!(codex_mode(&Pad::new(keymap(), 1)));
}
