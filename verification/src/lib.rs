//! Verified logic of the OpenMicro macropad firmware.

pub mod keymap;
pub mod report;
pub mod queues;
pub mod pad;
pub mod guarantees;
pub mod codex;
pub mod scan;
pub mod encoder;
pub mod joystick;
pub mod touch;
pub mod version;
pub mod boot;
pub mod colour;
pub mod lighting;
pub mod protocol;
pub mod pump;
