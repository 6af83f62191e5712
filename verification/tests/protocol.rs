use openmicro::keymap::{Keymap, LedPattern, Slot, SlotKind, SLOT_COUNT};
use openmicro::lighting::{splash, Lighting};
use openmicro::pad::Pad;
use openmicro::protocol::{
    command, done_reply, event_report, mode_saved, page_reply, Outcome, Reply,
};
use openmicro::queues::InputEvent;

const VERSION: &[u8] = b"0.10.0";

fn setup() -> (Pad, Lighting) {
    let keymap = Keymap {
        slots: [Slot { kind: SlotKind::Empty, mods: 0, code: 0 }; SLOT_COUNT],
        joy_threshold: 1000,
        joy_mode: 0,
        joy_mouse_speed: 5,
        led_brightness: 200,
        key_pattern: LedPattern { mode: 0, r: 1, g: 2, b: 3 },
        ug_pattern: LedPattern { mode: 1, r: 4, g: 5, b: 6 },
        device_mode: 0,
    };
    (Pad::new(keymap, 0), Lighting::new(splash(0, false, 0)))
}

fn report(bytes: &[u8]) -> [u8; 32] {
    let mut report = [0; 32];
    report[..bytes.len()].copy_from_slice(bytes);
    report
}

fn reply(bytes: &[u8]) -> Reply {
    Reply { bytes: report(bytes) }
}

fn answer(bytes: &[u8]) -> Outcome {
    Outcome::Answer(reply(bytes))
}

fn run(pad: &mut Pad, lighting: &mut Lighting, bytes: &[u8]) -> Outcome {
    command(pad, lighting, &report(bytes), VERSION, 1234)
}

#[test]
fn version_query() {
    let (mut pad, mut l) = setup();
    assert_eq!(run(&mut pad, &mut l, &[1]), answer(&[1, 6, b'0', b'.', b'1', b'0', b'.', b'0']));
}

#[test]
fn keyed_resets() {
    let (mut pad, mut l) = setup();
    assert_eq!(run(&mut pad, &mut l, b"\x02DFU!"), Outcome::EnterDfu(reply(&[2, 1])));
    assert_eq!(run(&mut pad, &mut l, b"\x02DFU?"), Outcome::Silent);
    assert_eq!(run(&mut pad, &mut l, b"\x12BOOT"), Outcome::EnterBootloader(reply(&[0x12, 1])));
    assert_eq!(run(&mut pad, &mut l, b"\x12BOOX"), answer(&[0x12, 0]));
}

#[test]
fn keyed_flash_commands() {
    let (mut pad, mut l) = setup();
    assert_eq!(run(&mut pad, &mut l, b"\x05SAVE"), Outcome::Save);
    assert_eq!(run(&mut pad, &mut l, b"\x05save"), Outcome::Silent);
    assert_eq!(run(&mut pad, &mut l, b"\x06RST!"), Outcome::FactoryReset);
    assert_eq!(run(&mut pad, &mut l, b"\x06"), Outcome::Silent);
    assert_eq!(done_reply(5, true), reply(&[5, 1]));
    assert_eq!(done_reply(6, false), reply(&[6, 0]));
}

#[test]
fn keymap_pages() {
    let (mut pad, mut l) = setup();
    assert_eq!(run(&mut pad, &mut l, &[3, 2]), Outcome::ReadPage { page: 2 });
    assert_eq!(run(&mut pad, &mut l, &[4, 1, 7]), Outcome::WritePage { page: 1, count: 7 });
    let mut slots = [0; 28];
    slots[0] = 9;
    slots[27] = 8;
    let page = page_reply(2, 7, &slots);
    assert_eq!(page.bytes[..4], [3, 2, 7, 9]);
    assert_eq!(page.bytes[30..], [8, 0]);
}

#[test]
fn analog_threshold_is_clamped() {
    let (mut pad, mut l) = setup();
    assert_eq!(run(&mut pad, &mut l, &[7]), answer(&[7, 0xE8, 0x03]));
    for (lo, hi, stored) in [(0x2C, 0x01, 300), (0, 0, 200), (199, 0, 200), (0xFF, 0xFF, 1900)] {
        assert_eq!(run(&mut pad, &mut l, &[8, lo, hi]), answer(&[8, 1]));
        assert_eq!(pad.keymap.joy_threshold, stored);
        let bytes = stored.to_le_bytes();
        assert_eq!(run(&mut pad, &mut l, &[7]), answer(&[7, bytes[0], bytes[1]]));
    }
}

#[test]
fn joystick_mode_and_speed() {
    let (mut pad, mut l) = setup();
    assert_eq!(run(&mut pad, &mut l, &[9]), answer(&[9, 0, 5]));
    for (mode, speed, m, s) in [(1, 3, 1, 3), (2, 10, 2, 10), (3, 11, 0, 10), (2, 0, 2, 1)] {
        assert_eq!(run(&mut pad, &mut l, &[0x0A, mode, speed]), answer(&[0x0A, 1]));
        assert_eq!(run(&mut pad, &mut l, &[9]), answer(&[9, m, s]));
    }
}

#[test]
fn brightness() {
    let (mut pad, mut l) = setup();
    assert_eq!(run(&mut pad, &mut l, &[0x0B]), answer(&[0x0B, 200]));
    assert_eq!(run(&mut pad, &mut l, &[0x0C, 33]), answer(&[0x0C, 1]));
    assert_eq!(run(&mut pad, &mut l, &[0x0B]), answer(&[0x0B, 33]));
}

#[test]
fn patterns() {
    let (mut pad, mut l) = setup();
    assert_eq!(run(&mut pad, &mut l, &[0x0D]), answer(&[0x0D, 0, 1, 2, 3, 1, 4, 5, 6]));
    let set = [0x0E, 1, 10, 20, 30, 9, 40, 50, 60];
    assert_eq!(run(&mut pad, &mut l, &set), answer(&[0x0E, 1]));
    assert_eq!(run(&mut pad, &mut l, &[0x0D]), answer(&[0x0D, 1, 10, 20, 30, 0, 40, 50, 60]));
}

#[test]
fn key_overrides() {
    let (mut pad, mut l) = setup();
    assert_eq!(run(&mut pad, &mut l, &[0x0F, 4, 1, 0xAA, 0xBB, 0xCC]), answer(&[0x0F, 1]));
    assert_eq!(l.overrides.mask, 1 << 4);
    assert_eq!(l.overrides.rgb[4], 0xAABBCC);
    assert_eq!(l.overrides.at, 1234);
    assert_eq!(run(&mut pad, &mut l, &[0x0F, 13, 1]), answer(&[0x0F, 0]));
    assert_eq!(l.overrides.mask, 1 << 4);
    assert_eq!(run(&mut pad, &mut l, &[0x0F, 4, 0]), answer(&[0x0F, 1]));
    assert_eq!(l.overrides.mask, 0);
}

#[test]
fn device_mode() {
    let (mut pad, mut l) = setup();
    assert_eq!(run(&mut pad, &mut l, &[0x10]), answer(&[0x10, 0]));
    assert_eq!(run(&mut pad, &mut l, b"\x11\x02MODE"), answer(&[0x11, 0]));
    assert_eq!(run(&mut pad, &mut l, b"\x11\x00MODE"), answer(&[0x11, 1]));
    assert_eq!(run(&mut pad, &mut l, b"\x11\x01mode"), Outcome::Silent);
    assert_eq!(pad.keymap.device_mode, 0);
    assert_eq!(run(&mut pad, &mut l, b"\x11\x01MODE"), Outcome::SaveMode);
    assert_eq!(pad.keymap.device_mode, 1);
    assert_eq!(pad.device_mode, 0);
    assert_eq!(mode_saved(&mut pad, true), Outcome::Restart(reply(&[0x11, 1])));
    assert_eq!(pad.keymap.device_mode, 1);
    assert_eq!(mode_saved(&mut pad, false), answer(&[0x11, 0]));
    assert_eq!(pad.keymap.device_mode, 0);
}

#[test]
fn boot_info_and_unknown_commands() {
    let (mut pad, mut l) = setup();
    assert_eq!(run(&mut pad, &mut l, &[0x20]), Outcome::BootInfo);
    for cmd in [0x00, 0x13, 0x1F, 0x21, 0x80, 0xFF] {
        assert_eq!(run(&mut pad, &mut l, &[cmd]), Outcome::Silent);
    }
}

#[test]
fn events_have_their_own_report() {
    assert_eq!(event_report(InputEvent { src: 3, a: 2, b: 1 }), reply(&[0x80, 3, 2, 1]));
}
