//! The configuration that decides what every input of the pad emits.

use vstd::prelude::*;

verus! {

/// Number of keys in the switch matrix; key positions are `0..KEY_COUNT`.
pub const KEY_COUNT: usize = 13;

/// Number of configurable inputs. The keys come first, by position.
pub const SLOT_COUNT: usize = 24;

/// Encoder turned clockwise by one detent.
pub const SLOT_ENC_CW: usize = 13;

/// Encoder turned counter-clockwise by one detent.
pub const SLOT_ENC_CCW: usize = 14;

/// Encoder push switch.
pub const SLOT_ENC_PRESS: usize = 15;

/// Joystick up; the four directions are consecutive.
pub const SLOT_JOY_UP: usize = 16;

/// Joystick down.
pub const SLOT_JOY_DOWN: usize = 17;

/// Joystick left.
pub const SLOT_JOY_LEFT: usize = 18;

/// Joystick right.
pub const SLOT_JOY_RIGHT: usize = 19;

/// Joystick push switch.
pub const SLOT_JOY_PRESS: usize = 20;

/// Touch pad tapped.
pub const SLOT_TOUCH_TAP: usize = 21;

/// Device mode: the pad's own identity.
pub const MODE_OPENMICRO: u8 = 0;

/// Device mode: Codex Micro compatibility.
pub const MODE_CODEX: u8 = 1;

/// Joystick mode: directions are keys.
pub const JOY_MODE_KEYS: u8 = 0;

/// Joystick mode: deflection moves the pointer.
pub const JOY_MODE_MOUSE: u8 = 1;

/// Joystick mode: deflection drags, with a squared speed curve.
pub const JOY_MODE_GRADE: u8 = 2;

/// Joystick mode taken when an unknown one is asked for.
pub const DEFAULT_JOY_MODE: u8 = JOY_MODE_KEYS;

/// Idle pattern of an LED chain: rotating hue.
pub const LED_PATTERN_RAINBOW: u8 = 0;

/// Idle pattern of an LED chain: one colour.
pub const LED_PATTERN_SOLID: u8 = 1;

/// What kind of code a slot emits.
#[derive(Clone, Copy, Debug, PartialEq, Eq, Structural)]
pub enum SlotKind {
    /// Nothing.
    Empty,
    /// A keyboard usage with modifiers.
    Keyboard,
    /// A consumer-control usage.
    Consumer,
}

/// What one input emits.
#[derive(Clone, Copy, Debug, PartialEq, Eq, Structural)]
pub struct Slot {
    pub kind: SlotKind,
    pub mods: u8,
    pub code: u16,
}

impl Slot {
    /// The slot that emits the consumer-control usage `usage`.
    pub fn consumer(usage: u16) -> (slot: Slot)
        ensures
            slot == consumer_slot(usage),
    {
        Slot { kind: SlotKind::Consumer, mods: 0, code: usage }
    }
}

/// The slot that emits the consumer-control usage `usage`.
pub open spec fn consumer_slot(usage: u16) -> Slot {
    Slot { kind: SlotKind::Consumer, mods: 0, code: usage }
}

/// Idle pattern of one LED chain.
#[derive(Clone, Copy, Debug, PartialEq, Eq, Structural)]
pub struct LedPattern {
    pub mode: u8,
    pub r: u8,
    pub g: u8,
    pub b: u8,
}

/// The whole stored configuration.
#[derive(Clone, Copy, Debug)]
pub struct Keymap {
    /// What each input emits.
    pub slots: [Slot; SLOT_COUNT],
    /// Deflection, in ADC counts, at which a joystick direction triggers.
    pub joy_threshold: u16,
    /// One of the `JOY_MODE_*` constants.
    pub joy_mode: u8,
    /// Pointer speed.
    pub joy_mouse_speed: u8,
    /// Overall LED brightness.
    pub led_brightness: u8,
    /// Idle pattern of the per-key chain.
    pub key_pattern: LedPattern,
    /// Idle pattern of the underglow ring.
    pub ug_pattern: LedPattern,
    /// The device mode of the next boot.
    pub device_mode: u8,
}

impl Keymap {
    /// Every tunable value lies in the range that the host protocol admits.
    pub open spec fn in_range(self) -> bool {
        &&& 200 <= self.joy_threshold <= 1900
        &&& self.joy_mode <= JOY_MODE_GRADE
        &&& 1 <= self.joy_mouse_speed <= 10
        &&& self.key_pattern.mode <= LED_PATTERN_SOLID
        &&& self.ug_pattern.mode <= LED_PATTERN_SOLID
        &&& self.device_mode <= MODE_CODEX
    }

    /// What input `slot_idx` emits now.
    pub fn slot(&self, slot_idx: usize) -> (slot: Slot)
        requires
            slot_idx < SLOT_COUNT,
        ensures
            slot == self.slots@[slot_idx as int],
    {
        self.slots[slot_idx]
    }
}

} // verus!
