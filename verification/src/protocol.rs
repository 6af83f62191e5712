//! The host application's protocol: one command per 32-byte report.
//!
//! Replies echo the command byte; unsolicited event reports start with
//! `EVENT_REPORT`. Commands that need flash or a reset come back as what is to
//! be done, and the result of that is turned into the reply here.

use vstd::prelude::*;

use crate::colour::{law_colour_bytes, pack, packed};
use crate::keymap::{
    Keymap, LedPattern, DEFAULT_JOY_MODE, JOY_MODE_GRADE, KEY_COUNT, LED_PATTERN_RAINBOW,
    LED_PATTERN_SOLID, MODE_CODEX,
};
use crate::lighting::{law_overrides_are_per_key, Lighting, LightingModel};
use crate::pad::{Pad, PadModel};
use crate::queues::InputEvent;

verus! {

/// Length of every report, both ways.
pub const REPORT_LEN: usize = 32;

/// Slot bytes of one keymap page.
pub const PAGE_BYTES: usize = 28;

pub const CMD_VERSION: u8 = 0x01;

pub const CMD_ENTER_DFU: u8 = 0x02;

pub const CMD_GET_KEYMAP: u8 = 0x03;

pub const CMD_SET_KEYMAP: u8 = 0x04;

pub const CMD_SAVE: u8 = 0x05;

pub const CMD_FACTORY_RESET: u8 = 0x06;

pub const CMD_GET_ANALOG: u8 = 0x07;

pub const CMD_SET_ANALOG: u8 = 0x08;

pub const CMD_GET_JOYMODE: u8 = 0x09;

pub const CMD_SET_JOYMODE: u8 = 0x0A;

pub const CMD_GET_LED: u8 = 0x0B;

pub const CMD_SET_LED: u8 = 0x0C;

pub const CMD_GET_LEDPATTERN: u8 = 0x0D;

pub const CMD_SET_LEDPATTERN: u8 = 0x0E;

pub const CMD_SET_KEY_LED_OVERRIDE: u8 = 0x0F;

pub const CMD_GET_MODE: u8 = 0x10;

pub const CMD_SET_MODE: u8 = 0x11;

pub const CMD_ENTER_BOOT: u8 = 0x12;

pub const CMD_BOOT_INFO: u8 = 0x20;

/// First byte of an unsolicited event report.
pub const EVENT_REPORT: u8 = 0x80;

/// Bounds of the joystick threshold: a tiny one would stream arrows from
/// noise, a huge one could never trigger.
pub const THRESHOLD_MIN: u16 = 200;

pub const THRESHOLD_MAX: u16 = 1900;

/// Bounds of the pointer speed.
pub const SPEED_MIN: u8 = 1;

pub const SPEED_MAX: u8 = 10;

/// The key `DFU!`.
pub open spec fn dfu_key() -> Seq<u8> {
    seq![68u8, 70u8, 85u8, 33u8]
}

/// The key `BOOT`.
pub open spec fn boot_key() -> Seq<u8> {
    seq![66u8, 79u8, 79u8, 84u8]
}

/// The key `SAVE`.
pub open spec fn save_key() -> Seq<u8> {
    seq![83u8, 65u8, 86u8, 69u8]
}

/// The key `RST!`.
pub open spec fn reset_key() -> Seq<u8> {
    seq![82u8, 83u8, 84u8, 33u8]
}

/// The key `MODE`.
pub open spec fn mode_key() -> Seq<u8> {
    seq![77u8, 79u8, 68u8, 69u8]
}

/// The command carries `key` from byte `at` on.
pub open spec fn keyed(buf: Seq<u8>, at: int, key: Seq<u8>) -> bool {
    buf.subrange(at, at + 4) == key
}

/// A report that starts with `bytes` and holds zeros behind them.
pub open spec fn filled(bytes: Seq<u8>) -> Seq<u8> {
    Seq::new(
        REPORT_LEN as nat,
        |i: int|
            if i < bytes.len() {
                bytes[i]
            } else {
                0u8
            },
    )
}

/// One report to the host.
#[derive(Clone, Copy, Debug, PartialEq, Eq)]
pub struct Reply {
    pub bytes: [u8; REPORT_LEN],
}

impl View for Reply {
    type V = Seq<u8>;

    open spec fn view(&self) -> Seq<u8> {
        self.bytes@
    }
}

/// What a command comes to.
#[derive(Clone, Copy, Debug, PartialEq, Eq)]
pub enum Outcome {
    /// Nothing is answered.
    Silent,
    /// Answer.
    Answer(Reply),
    /// Answer, then reset into the ROM bootloader.
    EnterDfu(Reply),
    /// Answer, then reset into the resident bootloader's update mode.
    EnterBootloader(Reply),
    /// Answer, then reset to come up in the new mode.
    Restart(Reply),
    /// Answer with the bootloader's info block.
    BootInfo,
    /// Read keymap page `page` and answer with `page_reply`.
    ReadPage { page: u8 },
    /// Write the `count` slots in the command to keymap page `page` and answer
    /// with `done_reply`.
    WritePage { page: u8, count: u8 },
    /// Write the configuration to flash and answer with `done_reply`.
    Save,
    /// Restore the factory configuration and answer with `done_reply`.
    FactoryReset,
    /// The configuration carries a new device mode: write it to flash and hand
    /// the result to `mode_saved`.
    SaveMode,
}

/// What a command comes to.
#[verifier::ext_equal]
pub ghost enum OutcomeModel {
    Silent,
    Answer(Seq<u8>),
    EnterDfu(Seq<u8>),
    EnterBootloader(Seq<u8>),
    Restart(Seq<u8>),
    BootInfo,
    ReadPage { page: u8 },
    WritePage { page: u8, count: u8 },
    Save,
    FactoryReset,
    SaveMode,
}

impl View for Outcome {
    type V = OutcomeModel;

    open spec fn view(&self) -> OutcomeModel {
        match *self {
            Outcome::Silent => OutcomeModel::Silent,
            Outcome::Answer(reply) => OutcomeModel::Answer(reply@),
            Outcome::EnterDfu(reply) => OutcomeModel::EnterDfu(reply@),
            Outcome::EnterBootloader(reply) => OutcomeModel::EnterBootloader(reply@),
            Outcome::Restart(reply) => OutcomeModel::Restart(reply@),
            Outcome::BootInfo => OutcomeModel::BootInfo,
            Outcome::ReadPage { page } => OutcomeModel::ReadPage { page },
            Outcome::WritePage { page, count } => OutcomeModel::WritePage { page, count },
            Outcome::Save => OutcomeModel::Save,
            Outcome::FactoryReset => OutcomeModel::FactoryReset,
            Outcome::SaveMode => OutcomeModel::SaveMode,
        }
    }
}

/// The threshold that a command asks for, brought into bounds.
pub open spec fn asked_threshold(lo: u8, hi: u8) -> u16 {
    let asked = lo + 256 * hi;
    if asked < THRESHOLD_MIN {
        THRESHOLD_MIN
    } else if asked > THRESHOLD_MAX {
        THRESHOLD_MAX
    } else {
        asked as u16
    }
}

/// The joystick mode that a command asks for; an unknown one is the default.
pub open spec fn asked_joy_mode(mode: u8) -> u8 {
    if mode <= JOY_MODE_GRADE {
        mode
    } else {
        DEFAULT_JOY_MODE
    }
}

/// The pointer speed that a command asks for, brought into bounds.
pub open spec fn asked_speed(speed: u8) -> u8 {
    if speed < SPEED_MIN {
        SPEED_MIN
    } else if speed > SPEED_MAX {
        SPEED_MAX
    } else {
        speed
    }
}

/// The pattern that a command asks for; an unknown mode is the rainbow.
pub open spec fn asked_pattern(mode: u8, r: u8, g: u8, b: u8) -> LedPattern {
    LedPattern {
        mode: if mode <= LED_PATTERN_SOLID {
            mode
        } else {
            LED_PATTERN_RAINBOW
        },
        r,
        g,
        b,
    }
}

/// The command asks for a device mode that is neither unknown nor running.
pub open spec fn switches_mode(m: PadModel, buf: Seq<u8>) -> bool {
    buf[0] == CMD_SET_MODE && keyed(buf, 2, mode_key()) && buf[1] <= MODE_CODEX && buf[1]
        != m.device_mode
}

/// The configuration after a command.
pub open spec fn keymap_after(m: PadModel, buf: Seq<u8>) -> Keymap {
    if buf[0] == CMD_SET_ANALOG {
        Keymap { joy_threshold: asked_threshold(buf[1], buf[2]), ..m.keymap }
    } else if buf[0] == CMD_SET_JOYMODE {
        Keymap {
            joy_mode: asked_joy_mode(buf[1]),
            joy_mouse_speed: asked_speed(buf[2]),
            ..m.keymap
        }
    } else if buf[0] == CMD_SET_LED {
        Keymap { led_brightness: buf[1], ..m.keymap }
    } else if buf[0] == CMD_SET_LEDPATTERN {
        Keymap {
            key_pattern: asked_pattern(buf[1], buf[2], buf[3], buf[4]),
            ug_pattern: asked_pattern(buf[5], buf[6], buf[7], buf[8]),
            ..m.keymap
        }
    } else if switches_mode(m, buf) {
        Keymap { device_mode: buf[1], ..m.keymap }
    } else {
        m.keymap
    }
}

/// The lighting after a command: overrides are asserted or taken back.
pub open spec fn lighting_after(l: LightingModel, buf: Seq<u8>, now: u32) -> LightingModel {
    if buf[0] == CMD_SET_KEY_LED_OVERRIDE && buf[1] < KEY_COUNT {
        LightingModel {
            overrides: if buf[2] != 0 {
                l.overrides.asserted(buf[1] as int, packed(buf[3], buf[4], buf[5]), now)
            } else {
                l.overrides.retracted(buf[1] as int)
            },
            ..l
        }
    } else {
        l
    }
}

/// What a command comes to, on a pad that runs firmware `version`. A command
/// whose key is wrong counts as unknown, and what is unknown is not answered;
/// only the bootloader request is refused by an answer.
pub open spec fn outcome_of(m: PadModel, buf: Seq<u8>, version: Seq<u8>) -> OutcomeModel {
    let cmd = buf[0];
    if cmd == CMD_VERSION {
        OutcomeModel::Answer(filled(seq![cmd, version.len() as u8] + version))
    } else if cmd == CMD_ENTER_DFU && keyed(buf, 1, dfu_key()) {
        OutcomeModel::EnterDfu(filled(seq![cmd, 1u8]))
    } else if cmd == CMD_ENTER_BOOT {
        if keyed(buf, 1, boot_key()) {
            OutcomeModel::EnterBootloader(filled(seq![cmd, 1u8]))
        } else {
            OutcomeModel::Answer(filled(seq![cmd, 0u8]))
        }
    } else if cmd == CMD_BOOT_INFO {
        OutcomeModel::BootInfo
    } else if cmd == CMD_GET_KEYMAP {
        OutcomeModel::ReadPage { page: buf[1] }
    } else if cmd == CMD_SET_KEYMAP {
        OutcomeModel::WritePage { page: buf[1], count: buf[2] }
    } else if cmd == CMD_SAVE && keyed(buf, 1, save_key()) {
        OutcomeModel::Save
    } else if cmd == CMD_FACTORY_RESET && keyed(buf, 1, reset_key()) {
        OutcomeModel::FactoryReset
    } else if cmd == CMD_GET_ANALOG {
        OutcomeModel::Answer(
            filled(
                seq![
                    cmd,
                    (m.keymap.joy_threshold % 256) as u8,
                    (m.keymap.joy_threshold / 256) as u8,
                ],
            ),
        )
    } else if cmd == CMD_SET_ANALOG {
        OutcomeModel::Answer(filled(seq![cmd, 1u8]))
    } else if cmd == CMD_GET_JOYMODE {
        OutcomeModel::Answer(filled(seq![cmd, m.keymap.joy_mode, m.keymap.joy_mouse_speed]))
    } else if cmd == CMD_SET_JOYMODE {
        OutcomeModel::Answer(filled(seq![cmd, 1u8]))
    } else if cmd == CMD_GET_LED {
        OutcomeModel::Answer(filled(seq![cmd, m.keymap.led_brightness]))
    } else if cmd == CMD_SET_LED {
        OutcomeModel::Answer(filled(seq![cmd, 1u8]))
    } else if cmd == CMD_GET_LEDPATTERN {
        let k = m.keymap.key_pattern;
        let u = m.keymap.ug_pattern;
        OutcomeModel::Answer(
            filled(seq![cmd, k.mode, k.r, k.g, k.b, u.mode, u.r, u.g, u.b]),
        )
    } else if cmd == CMD_SET_LEDPATTERN {
        OutcomeModel::Answer(filled(seq![cmd, 1u8]))
    } else if cmd == CMD_SET_KEY_LED_OVERRIDE {
        OutcomeModel::Answer(
            filled(
                seq![
                    cmd,
                    if buf[1] < KEY_COUNT {
                        1u8
                    } else {
                        0u8
                    },
                ],
            ),
        )
    } else if cmd == CMD_GET_MODE {
        OutcomeModel::Answer(filled(seq![cmd, m.device_mode]))
    } else if cmd == CMD_SET_MODE && keyed(buf, 2, mode_key()) {
        if switches_mode(m, buf) {
            OutcomeModel::SaveMode
        } else {
            OutcomeModel::Answer(
                filled(
                    seq![
                        cmd,
                        if buf[1] <= MODE_CODEX {
                            1u8
                        } else {
                            0u8
                        },
                    ],
                ),
            )
        }
    } else {
        OutcomeModel::Silent
    }
}

/// Whether the command carries the key `a b c d` from byte `at` on.
fn has_key(buf: &[u8; REPORT_LEN], at: usize, a: u8, b: u8, c: u8, d: u8) -> (found: bool)
    requires
        at + 4 <= REPORT_LEN,
    ensures
        found == keyed(buf@, at as int, seq![a, b, c, d]),
{
    let found = buf[at] == a && buf[at + 1] == b && buf[at + 2] == c && buf[at + 3] == d;
    let ghost carried = buf@.subrange(at as int, at + 4);
    let ghost key = seq![a, b, c, d];
    assert(carried[0] == buf@[at as int] && carried[1] == buf@[at + 1] && carried[2] == buf@[at
        + 2] && carried[3] == buf@[at + 3]);
    assert(key[0] == a && key[1] == b && key[2] == c && key[3] == d);
    if found {
        assert(carried =~= key);
    }
    found
}

/// The reply that echoes `cmd` and says `value`.
fn short_reply(cmd: u8, value: u8) -> (reply: Reply)
    ensures
        reply@ == filled(seq![cmd, value]),
{
    let mut bytes: [u8; REPORT_LEN] = [0; REPORT_LEN];
    bytes[0] = cmd;
    bytes[1] = value;
    assert(bytes@ =~= filled(seq![cmd, value]));
    Reply { bytes }
}

/// The reply to a command that was carried out, or that failed.
pub fn done_reply(cmd: u8, ok: bool) -> (reply: Reply)
    ensures
        reply@ == filled(
            seq![
                cmd,
                if ok {
                    1u8
                } else {
                    0u8
                },
            ],
        ),
        ok ==> says(reply@, cmd, 1),
        !ok ==> says(reply@, cmd, 0),
{
    short_reply(
        cmd,
        if ok {
            1
        } else {
            0
        },
    )
}

/// The reply that tells the firmware version.
fn version_reply(version: &[u8]) -> (reply: Reply)
    requires
        version@.len() + 2 <= REPORT_LEN,
    ensures
        reply@ == filled(seq![CMD_VERSION, version@.len() as u8] + version@),
{
    let mut bytes: [u8; REPORT_LEN] = [0; REPORT_LEN];
    let n: usize = version.len();
    bytes[0] = CMD_VERSION;
    bytes[1] = n as u8;
    let mut i: usize = 0;
    while i < n
        invariant
            i <= n,
            n == version@.len(),
            n + 2 <= REPORT_LEN,
            bytes@[0] == CMD_VERSION,
            bytes@[1] == n as u8,
            forall|j: int| 0 <= j < i ==> #[trigger] bytes@[j + 2] == version@[j],
            forall|j: int| i + 2 <= j < REPORT_LEN ==> #[trigger] bytes@[j] == 0,
        decreases n - i,
    {
        bytes[i + 2] = version[i];
        i += 1;
    }
    let ghost told = seq![CMD_VERSION, version@.len() as u8] + version@;
    assert forall|j: int| 0 <= j < REPORT_LEN implies bytes@[j] == filled(told)[j] by {
        if 2 <= j < n + 2 {
            assert(bytes@[(j - 2) + 2] == version@[j - 2]);
        }
    }
    assert(bytes@ =~= filled(told));
    Reply { bytes }
}

/// The reply with a keymap page: `count` of its slots, as `slots` holds them.
pub fn page_reply(page: u8, count: u8, slots: &[u8; PAGE_BYTES]) -> (reply: Reply)
    ensures
        reply@ == filled(seq![CMD_GET_KEYMAP, page, count] + slots@),
        reply@.len() == 32,
        reply@[0] == 0x03,
        reply@[1] == page,
        reply@[2] == count,
        reply@.subrange(3, 31) == slots@,
        reply@[31] == 0,
{
    let mut bytes: [u8; REPORT_LEN] = [0; REPORT_LEN];
    bytes[0] = CMD_GET_KEYMAP;
    bytes[1] = page;
    bytes[2] = count;
    let mut i: usize = 0;
    while i < PAGE_BYTES
        invariant
            i <= PAGE_BYTES,
            bytes@[0] == CMD_GET_KEYMAP,
            bytes@[1] == page,
            bytes@[2] == count,
            forall|j: int| 0 <= j < i ==> #[trigger] bytes@[j + 3] == slots@[j],
            forall|j: int| i + 3 <= j < REPORT_LEN ==> #[trigger] bytes@[j] == 0,
        decreases PAGE_BYTES - i,
    {
        bytes[i + 3] = slots[i];
        i += 1;
    }
    let ghost told = seq![CMD_GET_KEYMAP, page, count] + slots@;
    assert forall|j: int| 0 <= j < REPORT_LEN implies bytes@[j] == filled(told)[j] by {
        if 3 <= j < PAGE_BYTES + 3 {
            assert(bytes@[(j - 3) + 3] == slots@[j - 3]);
        }
    }
    assert(bytes@ =~= filled(told));
    assert(bytes@.subrange(3, 31) =~= slots@) by {
        assert forall|j: int| 0 <= j < 28 implies bytes@.subrange(3, 31)[j] == slots@[j] by {
            assert(bytes@[j + 3] == slots@[j]);
        }
    }
    Reply { bytes }
}

/// The report that tells the host application of an input.
pub fn event_report(event: InputEvent) -> (report: Reply)
    ensures
        report@ == filled(seq![EVENT_REPORT, event.src, event.a, event.b]),
        report@.len() == 32,
        report@[0] == 0x80,
        report@[1] == event.src,
        report@[2] == event.a,
        report@[3] == event.b,
        forall|i: int| 4 <= i < 32 ==> #[trigger] report@[i] == 0,
{
    let mut bytes: [u8; REPORT_LEN] = [0; REPORT_LEN];
    bytes[0] = EVENT_REPORT;
    bytes[1] = event.src;
    bytes[2] = event.a;
    bytes[3] = event.b;
    assert(bytes@ =~= filled(seq![EVENT_REPORT, event.src, event.a, event.b]));
    Reply { bytes }
}

/// The pattern that a command asks for.
fn pattern(mode: u8, r: u8, g: u8, b: u8) -> (pattern: LedPattern)
    ensures
        pattern == asked_pattern(mode, r, g, b),
{
    LedPattern {
        mode: if mode <= LED_PATTERN_SOLID {
            mode
        } else {
            LED_PATTERN_RAINBOW
        },
        r,
        g,
        b,
    }
}

/// The threshold that a command asks for.
fn threshold(lo: u8, hi: u8) -> (threshold: u16)
    ensures
        threshold == asked_threshold(lo, hi),
{
    let asked: u16 = lo as u16 + 256 * (hi as u16);
    if asked < THRESHOLD_MIN {
        THRESHOLD_MIN
    } else if asked > THRESHOLD_MAX {
        THRESHOLD_MAX
    } else {
        asked
    }
}

/// The reply that reads a setting back.
fn settings_reply(cmd: u8, keymap: &Keymap) -> (reply: Reply)
    requires
        cmd == CMD_GET_ANALOG || cmd == CMD_GET_JOYMODE || cmd == CMD_GET_LEDPATTERN,
    ensures
        reply@ == (if cmd == CMD_GET_ANALOG {
            filled(
                seq![
                    cmd,
                    (keymap.joy_threshold % 256) as u8,
                    (keymap.joy_threshold / 256) as u8,
                ],
            )
        } else if cmd == CMD_GET_JOYMODE {
            filled(seq![cmd, keymap.joy_mode, keymap.joy_mouse_speed])
        } else {
            filled(
                seq![
                    cmd,
                    keymap.key_pattern.mode,
                    keymap.key_pattern.r,
                    keymap.key_pattern.g,
                    keymap.key_pattern.b,
                    keymap.ug_pattern.mode,
                    keymap.ug_pattern.r,
                    keymap.ug_pattern.g,
                    keymap.ug_pattern.b,
                ],
            )
        }),
{
    let mut bytes: [u8; REPORT_LEN] = [0; REPORT_LEN];
    bytes[0] = cmd;
    if cmd == CMD_GET_ANALOG {
        bytes[1] = (keymap.joy_threshold % 256) as u8;
        bytes[2] = (keymap.joy_threshold / 256) as u8;
        assert(bytes@ =~= filled(
            seq![cmd, (keymap.joy_threshold % 256) as u8, (keymap.joy_threshold / 256) as u8],
        ));
    } else if cmd == CMD_GET_JOYMODE {
        bytes[1] = keymap.joy_mode;
        bytes[2] = keymap.joy_mouse_speed;
        assert(bytes@ =~= filled(seq![cmd, keymap.joy_mode, keymap.joy_mouse_speed]));
    } else {
        bytes[1] = keymap.key_pattern.mode;
        bytes[2] = keymap.key_pattern.r;
        bytes[3] = keymap.key_pattern.g;
        bytes[4] = keymap.key_pattern.b;
        bytes[5] = keymap.ug_pattern.mode;
        bytes[6] = keymap.ug_pattern.r;
        bytes[7] = keymap.ug_pattern.g;
        bytes[8] = keymap.ug_pattern.b;
        assert(bytes@ =~= filled(
            seq![
                cmd,
                keymap.key_pattern.mode,
                keymap.key_pattern.r,
                keymap.key_pattern.g,
                keymap.key_pattern.b,
                keymap.ug_pattern.mode,
                keymap.ug_pattern.r,
                keymap.ug_pattern.g,
                keymap.ug_pattern.b,
            ],
        ));
    }
    Reply { bytes }
}

/// Takes one command of the host application. `version` is the firmware's own;
/// `now` is the time in milliseconds.
pub fn command(
    pad: &mut Pad,
    lighting: &mut Lighting,
    buf: &[u8; REPORT_LEN],
    version: &[u8],
    now: u32,
) -> (outcome: Outcome)
    requires
        version@.len() + 2 <= REPORT_LEN,
    ensures
        outcome@ == outcome_of(old(pad)@, buf@, version@),
        final(pad)@ == (PadModel { keymap: keymap_after(old(pad)@, buf@), ..old(pad)@ }),
        final(lighting)@ == lighting_after(old(lighting)@, buf@, now),
{
    let cmd: u8 = buf[0];
    if cmd == CMD_VERSION {
        Outcome::Answer(version_reply(version))
    } else if cmd == CMD_ENTER_DFU && has_key(buf, 1, 68, 70, 85, 33) {
        Outcome::EnterDfu(done_reply(cmd, true))
    } else if cmd == CMD_ENTER_BOOT {
        if has_key(buf, 1, 66, 79, 79, 84) {
            Outcome::EnterBootloader(done_reply(cmd, true))
        } else {
            // Refused, but answered, so that the host can tell a wrong key
            // from a firmware without the command.
            Outcome::Answer(done_reply(cmd, false))
        }
    } else if cmd == CMD_BOOT_INFO {
        Outcome::BootInfo
    } else if cmd == CMD_GET_KEYMAP {
        Outcome::ReadPage { page: buf[1] }
    } else if cmd == CMD_SET_KEYMAP {
        Outcome::WritePage { page: buf[1], count: buf[2] }
    } else if cmd == CMD_SAVE && has_key(buf, 1, 83, 65, 86, 69) {
        Outcome::Save
    } else if cmd == CMD_FACTORY_RESET && has_key(buf, 1, 82, 83, 84, 33) {
        Outcome::FactoryReset
    } else if cmd == CMD_GET_ANALOG || cmd == CMD_GET_JOYMODE || cmd == CMD_GET_LEDPATTERN {
        Outcome::Answer(settings_reply(cmd, &pad.keymap))
    } else if cmd == CMD_SET_ANALOG {
        pad.keymap.joy_threshold = threshold(buf[1], buf[2]);
        Outcome::Answer(done_reply(cmd, true))
    } else if cmd == CMD_SET_JOYMODE {
        pad.keymap.joy_mode = if buf[1] <= JOY_MODE_GRADE {
            buf[1]
        } else {
            DEFAULT_JOY_MODE
        };
        pad.keymap.joy_mouse_speed = if buf[2] < SPEED_MIN {
            SPEED_MIN
        } else if buf[2] > SPEED_MAX {
            SPEED_MAX
        } else {
            buf[2]
        };
        Outcome::Answer(done_reply(cmd, true))
    } else if cmd == CMD_GET_LED {
        Outcome::Answer(short_reply(cmd, pad.keymap.led_brightness))
    } else if cmd == CMD_SET_LED {
        pad.keymap.led_brightness = buf[1];
        Outcome::Answer(done_reply(cmd, true))
    } else if cmd == CMD_SET_LEDPATTERN {
        pad.keymap.key_pattern = pattern(buf[1], buf[2], buf[3], buf[4]);
        pad.keymap.ug_pattern = pattern(buf[5], buf[6], buf[7], buf[8]);
        Outcome::Answer(done_reply(cmd, true))
    } else if cmd == CMD_SET_KEY_LED_OVERRIDE {
        let index: usize = buf[1] as usize;
        if index < KEY_COUNT {
            if buf[2] != 0 {
                lighting.overrides.set(index, pack(buf[3], buf[4], buf[5]), now);
            } else {
                lighting.overrides.clear(index);
            }
        }
        Outcome::Answer(done_reply(cmd, index < KEY_COUNT))
    } else if cmd == CMD_GET_MODE {
        Outcome::Answer(short_reply(cmd, pad.device_mode))
    } else if cmd == CMD_SET_MODE && has_key(buf, 2, 77, 79, 68, 69) {
        let mode: u8 = buf[1];
        if mode > MODE_CODEX {
            Outcome::Answer(done_reply(cmd, false))
        } else if mode == pad.device_mode {
            // Already running it: nothing to persist or restart.
            Outcome::Answer(done_reply(cmd, true))
        } else {
            pad.keymap.device_mode = mode;
            Outcome::SaveMode
        }
    } else {
        Outcome::Silent
    }
}

/// The configuration after an attempt to save a new device mode: on a flash
/// error the running mode is put back, or a later ordinary save would carry
/// the switch that the host was told had failed.
pub open spec fn keymap_saved(m: PadModel, ok: bool) -> Keymap {
    if ok {
        m.keymap
    } else {
        Keymap { device_mode: m.device_mode, ..m.keymap }
    }
}

/// Finishes a switch of the device mode once flash was written, or was not.
pub fn mode_saved(pad: &mut Pad, ok: bool) -> (outcome: Outcome)
    ensures
        final(pad)@ == (PadModel { keymap: keymap_saved(old(pad)@, ok), ..old(pad)@ }),
        outcome@ == (if ok {
            OutcomeModel::Restart(filled(seq![CMD_SET_MODE, 1u8]))
        } else {
            OutcomeModel::Answer(filled(seq![CMD_SET_MODE, 0u8]))
        }),
        ok ==> (outcome@ matches OutcomeModel::Restart(reply) && says(reply, 0x11, 1)),
        !ok ==> (outcome@ matches OutcomeModel::Answer(reply) && says(reply, 0x11, 0)),
{
    if ok {
        Outcome::Restart(done_reply(CMD_SET_MODE, true))
    } else {
        pad.keymap.device_mode = pad.device_mode;
        Outcome::Answer(done_reply(CMD_SET_MODE, false))
    }
}

/// The bytes that an outcome sends at once, if it sends any.
pub open spec fn answered(outcome: OutcomeModel) -> Option<Seq<u8>> {
    match outcome {
        OutcomeModel::Answer(reply) => Some(reply),
        OutcomeModel::EnterDfu(reply) => Some(reply),
        OutcomeModel::EnterBootloader(reply) => Some(reply),
        OutcomeModel::Restart(reply) => Some(reply),
        _ => None,
    }
}

/// Every reply is a full report that echoes its command, and none can be taken
/// for an event report.
pub proof fn law_replies_echo_command(m: PadModel, buf: Seq<u8>, version: Seq<u8>)
    ensures
        answered(outcome_of(m, buf, version)) matches Some(reply) ==> reply.len() == REPORT_LEN
            && reply[0] == buf[0] && reply[0] != EVENT_REPORT,
{
}

/// A command whose key is wrong does nothing: it changes neither configuration
/// nor lights and triggers neither flash nor reset. It is not even answered,
/// but for the bootloader request, which is refused by an answer.
pub proof fn law_wrong_key_does_nothing(
    m: PadModel,
    l: LightingModel,
    buf: Seq<u8>,
    version: Seq<u8>,
    now: u32,
)
    requires
        ({
            ||| buf[0] == CMD_ENTER_DFU && !keyed(buf, 1, dfu_key())
            ||| buf[0] == CMD_ENTER_BOOT && !keyed(buf, 1, boot_key())
            ||| buf[0] == CMD_SAVE && !keyed(buf, 1, save_key())
            ||| buf[0] == CMD_FACTORY_RESET && !keyed(buf, 1, reset_key())
            ||| buf[0] == CMD_SET_MODE && !keyed(buf, 2, mode_key())
        }),
    ensures
        keymap_after(m, buf) == m.keymap,
        lighting_after(l, buf, now) == l,
        buf[0] != CMD_ENTER_BOOT ==> outcome_of(m, buf, version) == OutcomeModel::Silent,
        buf[0] == CMD_ENTER_BOOT ==> outcome_of(m, buf, version) == OutcomeModel::Answer(
            filled(seq![CMD_ENTER_BOOT, 0u8]),
        ),
{
}

/// Nothing but its own command, with its key, resets the pad or writes flash.
pub proof fn law_flash_and_reset_are_keyed(m: PadModel, buf: Seq<u8>, version: Seq<u8>)
    ensures
        outcome_of(m, buf, version) is EnterDfu <==> buf[0] == CMD_ENTER_DFU && keyed(
            buf,
            1,
            dfu_key(),
        ),
        outcome_of(m, buf, version) is EnterBootloader <==> buf[0] == CMD_ENTER_BOOT && keyed(
            buf,
            1,
            boot_key(),
        ),
        outcome_of(m, buf, version) is Save <==> buf[0] == CMD_SAVE && keyed(buf, 1, save_key()),
        outcome_of(m, buf, version) is FactoryReset <==> buf[0] == CMD_FACTORY_RESET && keyed(
            buf,
            1,
            reset_key(),
        ),
        outcome_of(m, buf, version) is SaveMode <==> switches_mode(m, buf),
        !(outcome_of(m, buf, version) is Restart),
{
}

/// The commands, on configuration and lights, always leave the configuration
/// in its ranges, whatever bytes they carry.
pub proof fn law_commands_keep_ranges(m: PadModel, buf: Seq<u8>, ok: bool)
    requires
        m.keymap.in_range(),
        m.device_mode <= MODE_CODEX,
    ensures
        keymap_after(m, buf).in_range(),
        keymap_saved(m, ok).in_range(),
        keymap_after(m, buf).slots == m.keymap.slots,
{
}

/// What a `GET` answers after the matching `SET` is what was set, brought into
/// bounds.
pub proof fn law_get_reads_what_set_wrote(
    m: PadModel,
    set: Seq<u8>,
    get: Seq<u8>,
    version: Seq<u8>,
)
    requires
        set.len() == REPORT_LEN,
    ensures
        ({
            let after = PadModel { keymap: keymap_after(m, set), ..m };
            let answer = outcome_of(after, get, version);
            &&& set[0] == CMD_SET_ANALOG && get[0] == CMD_GET_ANALOG ==> answer
                == OutcomeModel::Answer(
                filled(
                    seq![
                        CMD_GET_ANALOG,
                        (asked_threshold(set[1], set[2]) % 256) as u8,
                        (asked_threshold(set[1], set[2]) / 256) as u8,
                    ],
                ),
            )
            &&& set[0] == CMD_SET_JOYMODE && get[0] == CMD_GET_JOYMODE ==> answer
                == OutcomeModel::Answer(
                filled(seq![CMD_GET_JOYMODE, asked_joy_mode(set[1]), asked_speed(set[2])]),
            )
            &&& set[0] == CMD_SET_LED && get[0] == CMD_GET_LED ==> answer == OutcomeModel::Answer(
                filled(seq![CMD_GET_LED, set[1]]),
            )
            &&& set[0] == CMD_SET_LEDPATTERN && get[0] == CMD_GET_LEDPATTERN ==> answer
                == OutcomeModel::Answer(
                filled(
                    seq![
                        CMD_GET_LEDPATTERN,
                        asked_pattern(set[1], set[2], set[3], set[4]).mode,
                        set[2],
                        set[3],
                        set[4],
                        asked_pattern(set[5], set[6], set[7], set[8]).mode,
                        set[6],
                        set[7],
                        set[8],
                    ],
                ),
            )
        }),
{
}

/// A threshold within bounds is read back byte for byte.
pub proof fn law_threshold_roundtrip(lo: u8, hi: u8)
    requires
        THRESHOLD_MIN <= lo + 256 * hi <= THRESHOLD_MAX,
    ensures
        asked_threshold(lo, hi) % 256 == lo,
        asked_threshold(lo, hi) / 256 == hi,
{
}

/// A switch of the device mode that flash refuses leaves the configuration as
/// it was: the next save cannot carry it.
pub proof fn law_refused_switch_leaves_no_trace(m: PadModel, buf: Seq<u8>)
    requires
        switches_mode(m, buf),
        m.keymap.device_mode == m.device_mode,
    ensures
        ({
            let asked = PadModel { keymap: keymap_after(m, buf), ..m };
            &&& asked.keymap.device_mode == buf[1]
            &&& keymap_saved(asked, true) == asked.keymap
            &&& keymap_saved(asked, false) == m.keymap
        }),
{
}

/// The running device mode never changes while the pad runs, and no command
/// touches what is held or queued.
pub proof fn law_commands_leave_inputs_alone(m: PadModel, buf: Seq<u8>)
    ensures
        ({
            let after = PadModel { keymap: keymap_after(m, buf), ..m };
            &&& after.device_mode == m.device_mode
            &&& after.held == m.held
            &&& after.kbd == m.kbd
            &&& after.consumer == m.consumer
            &&& after.mouse == m.mouse
            &&& m.wf() ==> after.wf()
        }),
{
}

/// A report holds the bytes told, from the front, and zeros behind them.
pub proof fn law_reports_are_zero_filled(bytes: Seq<u8>, i: int)
    requires
        0 <= i < 32,
    ensures
        filled(bytes).len() == 32,
        i < bytes.len() ==> filled(bytes)[i] == bytes[i],
        i >= bytes.len() ==> filled(bytes)[i] == 0,
{
}

/// The command carries these four characters from byte `at` on.
pub open spec fn spells(buf: Seq<u8>, at: int, a: char, b: char, c: char, d: char) -> bool {
    buf[at] == a as u8 && buf[at + 1] == b as u8 && buf[at + 2] == c as u8 && buf[at + 3] == d as u8
}

/// A key is four characters.
proof fn lemma_key_spells(buf: Seq<u8>, at: int, key: Seq<u8>)
    requires
        buf.len() == 32,
        0 <= at <= 28,
        key.len() == 4,
    ensures
        keyed(buf, at, key) <==> buf[at] == key[0] && buf[at + 1] == key[1] && buf[at + 2] == key[2]
            && buf[at + 3] == key[3],
{
    let carried = buf.subrange(at, at + 4);
    assert(carried[0] == buf[at] && carried[1] == buf[at + 1] && carried[2] == buf[at + 2]
        && carried[3] == buf[at + 3]);
    if buf[at] == key[0] && buf[at + 1] == key[1] && buf[at + 2] == key[2] && buf[at + 3]
        == key[3] {
        assert(carried =~= key);
    }
}

/// A report of 32 bytes that starts with these and holds zeros behind them.
pub open spec fn says(reply: Seq<u8>, cmd: u8, value: u8) -> bool {
    &&& reply.len() == 32
    &&& reply[0] == cmd
    &&& reply[1] == value
    &&& forall|i: int| 2 <= i < 32 ==> #[trigger] reply[i] == 0
}

/// What resets the pad or writes flash, and how it is answered: each only on its
/// own command with its own word. The ROM and the bootloader request are
/// acknowledged; the bootloader request with a wrong word is refused by an answer.
pub proof fn law_words_guard_commands(m: PadModel, buf: Seq<u8>, version: Seq<u8>)
    requires
        buf.len() == 32,
    ensures
        ({
            let outcome = outcome_of(m, buf, version);
            &&& outcome is EnterDfu <==> buf[0] == 0x02 && spells(buf, 1, 'D', 'F', 'U', '!')
            &&& outcome is EnterBootloader <==> buf[0] == 0x12 && spells(buf, 1, 'B', 'O', 'O', 'T')
            &&& outcome is Save <==> buf[0] == 0x05 && spells(buf, 1, 'S', 'A', 'V', 'E')
            &&& outcome is FactoryReset <==> buf[0] == 0x06 && spells(buf, 1, 'R', 'S', 'T', '!')
            &&& outcome is SaveMode <==> buf[0] == 0x11 && spells(buf, 2, 'M', 'O', 'D', 'E')
                && buf[1] <= 1 && buf[1] != m.device_mode
            &&& outcome matches OutcomeModel::EnterDfu(reply) ==> says(reply, 0x02, 1)
            &&& outcome matches OutcomeModel::EnterBootloader(reply) ==> says(reply, 0x12, 1)
            &&& buf[0] == 0x12 && !spells(buf, 1, 'B', 'O', 'O', 'T') ==> (
            outcome matches OutcomeModel::Answer(reply) && says(reply, 0x12, 0))
            &&& outcome is BootInfo <==> buf[0] == 0x20
            &&& outcome is ReadPage <==> buf[0] == 0x03
            &&& outcome is WritePage <==> buf[0] == 0x04
            &&& outcome matches OutcomeModel::ReadPage { page } ==> page == buf[1]
            &&& outcome matches OutcomeModel::WritePage { page, count } ==> page == buf[1] && count
                == buf[2]
        }),
{
    lemma_key_spells(buf, 1, dfu_key());
    lemma_key_spells(buf, 1, boot_key());
    lemma_key_spells(buf, 1, save_key());
    lemma_key_spells(buf, 1, reset_key());
    lemma_key_spells(buf, 2, mode_key());
}

/// What is not answered: a command that is not known, and one whose word is wrong,
/// but for the bootloader request.
pub proof fn law_unknown_commands_are_silent(m: PadModel, buf: Seq<u8>, version: Seq<u8>)
    requires
        buf.len() == 32,
    ensures
        outcome_of(m, buf, version) is Silent <==> buf[0] == 0 || (0x13 <= buf[0] && buf[0] != 0x20)
            || (buf[0] == 0x02 && !spells(buf, 1, 'D', 'F', 'U', '!')) || (buf[0] == 0x05
            && !spells(buf, 1, 'S', 'A', 'V', 'E')) || (buf[0] == 0x06 && !spells(
            buf,
            1,
            'R',
            'S',
            'T',
            '!',
        )) || (buf[0] == 0x11 && !spells(buf, 2, 'M', 'O', 'D', 'E')),
{
    lemma_key_spells(buf, 1, dfu_key());
    lemma_key_spells(buf, 1, boot_key());
    lemma_key_spells(buf, 1, save_key());
    lemma_key_spells(buf, 1, reset_key());
    lemma_key_spells(buf, 2, mode_key());
}

/// What the reading commands answer: the version with its length, the settings as
/// they are, the mode that runs.
pub proof fn law_reads_tell_settings(m: PadModel, buf: Seq<u8>, version: Seq<u8>, i: int)
    requires
        buf.len() == 32,
        version.len() <= 30,
        0 <= i < 30,
    ensures
        ({
            let k = m.keymap;
            &&& buf[0] == 0x01 ==> (outcome_of(m, buf, version) matches OutcomeModel::Answer(r)
                && r.len() == 32 && r[0] == 0x01 && r[1] == version.len() && (i < version.len()
                ==> r[i + 2] == version[i]) && (i >= version.len() ==> r[i + 2] == 0))
            &&& buf[0] == 0x07 ==> (outcome_of(m, buf, version) matches OutcomeModel::Answer(r)
                && r.len() == 32 && r[0] == 0x07 && r[1] + 256 * r[2] == k.joy_threshold && (i >= 1
                ==> r[i + 2] == 0))
            &&& buf[0] == 0x09 ==> (outcome_of(m, buf, version) matches OutcomeModel::Answer(r)
                && r.len() == 32 && r[0] == 0x09 && r[1] == k.joy_mode && r[2] == k.joy_mouse_speed
                && (i >= 1 ==> r[i + 2] == 0))
            &&& buf[0] == 0x0B ==> (outcome_of(m, buf, version) matches OutcomeModel::Answer(r)
                && says(r, 0x0B, k.led_brightness))
            &&& buf[0] == 0x0D ==> (outcome_of(m, buf, version) matches OutcomeModel::Answer(r)
                && r.len() == 32 && r[0] == 0x0D && r[1] == k.key_pattern.mode && r[2]
                == k.key_pattern.r && r[3] == k.key_pattern.g && r[4] == k.key_pattern.b && r[5]
                == k.ug_pattern.mode && r[6] == k.ug_pattern.r && r[7] == k.ug_pattern.g && r[8]
                == k.ug_pattern.b && (i >= 7 ==> r[i + 2] == 0))
            &&& buf[0] == 0x10 ==> (outcome_of(m, buf, version) matches OutcomeModel::Answer(r)
                && says(r, 0x10, m.device_mode))
        }),
{
    let told = seq![buf[0], version.len() as u8] + version;
    if i < version.len() {
        assert(told[i + 2] == version[i]);
    }
}

/// What the writing commands answer: that it is done; an override of a key there is
/// not, and a mode there is not, are refused; the mode that runs already is done.
pub proof fn law_writes_are_acknowledged(m: PadModel, buf: Seq<u8>, version: Seq<u8>)
    requires
        buf.len() == 32,
    ensures
        buf[0] == 0x08 || buf[0] == 0x0A || buf[0] == 0x0C || buf[0] == 0x0E ==> (outcome_of(
            m,
            buf,
            version,
        ) matches OutcomeModel::Answer(r) && says(r, buf[0], 1)),
        buf[0] == 0x0F && buf[1] < 13 ==> (outcome_of(m, buf, version) matches OutcomeModel::Answer(
            r,
        ) && says(r, 0x0F, 1)),
        buf[0] == 0x0F && buf[1] >= 13 ==> (outcome_of(
            m,
            buf,
            version,
        ) matches OutcomeModel::Answer(r) && says(r, 0x0F, 0)),
        buf[0] == 0x11 && spells(buf, 2, 'M', 'O', 'D', 'E') && buf[1] > 1 ==> (outcome_of(
            m,
            buf,
            version,
        ) matches OutcomeModel::Answer(r) && says(r, 0x11, 0)),
        buf[0] == 0x11 && spells(buf, 2, 'M', 'O', 'D', 'E') && buf[1] <= 1 && buf[1]
            == m.device_mode ==> (outcome_of(m, buf, version) matches OutcomeModel::Answer(r)
            && says(r, 0x11, 1)),
{
    lemma_key_spells(buf, 2, mode_key());
}

/// What the writing commands set. A value within bounds is taken as it is, one
/// outside goes to the nearer bound or to the default, and each command sets its
/// own settings and no other.
pub proof fn law_writes_set_their_own(m: PadModel, buf: Seq<u8>)
    requires
        buf.len() == 32,
    ensures
        ({
            let k = m.keymap;
            let n = keymap_after(m, buf);
            let asked = buf[1] + 256 * buf[2];
            &&& buf[0] == 0x08 ==> {
                &&& 200 <= asked <= 1900 ==> n.joy_threshold == asked
                &&& asked < 200 ==> n.joy_threshold == 200
                &&& asked > 1900 ==> n.joy_threshold == 1900
                &&& n == (Keymap { joy_threshold: n.joy_threshold, ..k })
            }
            &&& buf[0] == 0x0A ==> {
                &&& buf[1] <= 2 ==> n.joy_mode == buf[1]
                &&& buf[1] > 2 ==> n.joy_mode == 0
                &&& 1 <= buf[2] <= 10 ==> n.joy_mouse_speed == buf[2]
                &&& buf[2] == 0 ==> n.joy_mouse_speed == 1
                &&& buf[2] > 10 ==> n.joy_mouse_speed == 10
                &&& n == (Keymap {
                    joy_mode: n.joy_mode,
                    joy_mouse_speed: n.joy_mouse_speed,
                    ..k
                })
            }
            &&& buf[0] == 0x0C ==> n == (Keymap { led_brightness: buf[1], ..k })
            &&& buf[0] == 0x0E ==> {
                &&& n.key_pattern.mode == (if buf[1] == 1 {
                    1u8
                } else {
                    0u8
                })
                &&& n.key_pattern.r == buf[2] && n.key_pattern.g == buf[3] && n.key_pattern.b
                    == buf[4]
                &&& n.ug_pattern.mode == (if buf[5] == 1 {
                    1u8
                } else {
                    0u8
                })
                &&& n.ug_pattern.r == buf[6] && n.ug_pattern.g == buf[7] && n.ug_pattern.b == buf[8]
                &&& n == (Keymap { key_pattern: n.key_pattern, ug_pattern: n.ug_pattern, ..k })
            }
            &&& buf[0] == 0x11 && spells(buf, 2, 'M', 'O', 'D', 'E') && buf[1] <= 1 && buf[1]
                != m.device_mode ==> n == (Keymap { device_mode: buf[1], ..k })
            &&& buf[0] == 0x11 && !(spells(buf, 2, 'M', 'O', 'D', 'E') && buf[1] <= 1 && buf[1]
                != m.device_mode) ==> n == k
            &&& buf[0] != 0x08 && buf[0] != 0x0A && buf[0] != 0x0C && buf[0] != 0x0E && buf[0]
                != 0x11 ==> n == k
        }),
{
    lemma_key_spells(buf, 2, mode_key());
}

/// A per-key override command sets the bit of its key exactly if it enables it,
/// with the colour it carries and the time it came; it leaves the bit and the
/// colour of every other key, and the rest of the lighting, as they were. One for a
/// key there is not, and every other command, changes no light.
pub proof fn law_override_command_is_per_key(
    l: LightingModel,
    buf: Seq<u8>,
    now: u32,
    other: u16,
)
    requires
        buf.len() == 32,
        l.overrides.rgb.len() == 13,
        other < 13,
    ensures
        ({
            let next = lighting_after(l, buf, now);
            let o = l.overrides;
            let n = next.overrides;
            &&& buf[0] != 0x0F || buf[1] >= 13 ==> next == l
            &&& buf[0] == 0x0F && buf[1] < 13 ==> {
                &&& (n.mask >> buf[1] as u16) & 1 == (if buf[2] != 0 {
                    1u16
                } else {
                    0u16
                })
                &&& buf[2] != 0 ==> n.rgb[buf[1] as int] == buf[3] * 65536 + buf[4] * 256 + buf[5]
                &&& buf[2] != 0 ==> n.at == now
                &&& buf[2] == 0 ==> n.rgb == o.rgb && n.at == o.at
                &&& other != buf[1] ==> (n.mask >> other) & 1 == (o.mask >> other) & 1
                &&& other != buf[1] ==> n.rgb[other as int] == o.rgb[other as int]
                &&& next == (LightingModel { overrides: n, ..l })
            }
        }),
{
    if buf[1] < 13 {
        law_overrides_are_per_key(
            l.overrides,
            buf[1] as u16,
            other,
            packed(buf[3], buf[4], buf[5]),
            now,
        );
        law_colour_bytes(0, buf[3], buf[4], buf[5]);
    }
}

/// A switch of the mode that was saved keeps what it set; one that flash refused is
/// put back to the mode that runs, and no other setting with it.
pub proof fn law_saved_mode_stands(m: PadModel)
    ensures
        keymap_saved(m, true) == m.keymap,
        keymap_saved(m, false) == (Keymap { device_mode: m.device_mode, ..m.keymap }),
{
}

} // verus!
