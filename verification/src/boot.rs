//! Choosing the device mode at power-up.

use vstd::prelude::*;

use crate::keymap::{MODE_CODEX, MODE_OPENMICRO};

verus! {

/// Samples of the boot chord, taken over 100 ms.
pub const CHORD_SAMPLES: usize = 20;

/// Splash colour of the pad's own mode.
pub const MODE_RGB_OPENMICRO: u32 = 0xF5AE58;

/// Splash colour of Codex mode.
pub const MODE_RGB_CODEX: u32 = 0xFFFFFF;

/// Every sample found the key down.
pub open spec fn held_throughout(samples: Seq<bool>) -> bool {
    forall|i: int| 0 <= i < samples.len() ==> #[trigger] samples[i]
}

/// The mode that the chord asks for: a key counts only if it is down in every
/// sample, and both keys down is ambiguous.
pub open spec fn chord_of(key2: Seq<bool>, key3: Seq<bool>) -> Option<u8> {
    if held_throughout(key2) && !held_throughout(key3) {
        Some(MODE_OPENMICRO)
    } else if held_throughout(key3) && !held_throughout(key2) {
        Some(MODE_CODEX)
    } else {
        None
    }
}

/// Whether every sample found the key down.
fn all_high(samples: &[bool; CHORD_SAMPLES]) -> (all: bool)
    ensures
        all == held_throughout(samples@),
{
    let mut high: usize = 0;
    let mut i: usize = 0;
    while i < CHORD_SAMPLES
        invariant
            high <= i <= CHORD_SAMPLES,
            high == i <==> forall|j: int| 0 <= j < i ==> #[trigger] samples@[j],
        decreases CHORD_SAMPLES - i,
    {
        if samples[i] {
            high += 1;
        }
        i += 1;
    }
    high == CHORD_SAMPLES
}

/// Boot chord: a key held while power arrives picks the device mode for this
/// and every later boot. The samples are those of the first two keys of the
/// second row, so a bounce or a glancing touch cannot flip the mode.
pub fn boot_chord(key2: &[bool; CHORD_SAMPLES], key3: &[bool; CHORD_SAMPLES]) -> (mode: Option<u8>)
    ensures
        mode == chord_of(key2@, key3@),
{
    match (all_high(key2), all_high(key3)) {
        (true, false) => Some(MODE_OPENMICRO),
        (false, true) => Some(MODE_CODEX),
        _ => None,
    }
}

/// How this boot comes up.
#[derive(Clone, Copy, Debug, PartialEq, Eq, Structural)]
pub struct BootMode {
    /// The device mode of this power cycle.
    pub mode: u8,
    /// Whether the chord changed it: only then is it saved, and the splash
    /// blinks.
    pub changed: bool,
    /// Splash colour.
    pub rgb: u32,
}

/// How this boot comes up: in the saved mode, unless a chord says otherwise.
pub open spec fn boot_of(saved: u8, chord: Option<u8>) -> BootMode {
    let mode = match chord {
        Some(asked) => asked,
        None => saved,
    };
    BootMode {
        mode,
        changed: mode != saved,
        rgb: if mode == MODE_CODEX {
            MODE_RGB_CODEX
        } else {
            MODE_RGB_OPENMICRO
        },
    }
}

/// Decides how this boot comes up.
pub fn boot_mode(saved: u8, chord: Option<u8>) -> (boot: BootMode)
    ensures
        boot == boot_of(saved, chord),
{
    let mode: u8 = match chord {
        Some(asked) => asked,
        None => saved,
    };
    BootMode {
        mode,
        changed: mode != saved,
        rgb: if mode == MODE_CODEX {
            MODE_RGB_CODEX
        } else {
            MODE_RGB_OPENMICRO
        },
    }
}

/// One sample with the key up keeps that key from choosing a mode, and the two
/// keys together choose none.
pub proof fn law_glancing_touch_is_ignored(key2: Seq<bool>, key3: Seq<bool>, i: int)
    ensures
        0 <= i < key2.len() && !key2[i] ==> chord_of(key2, key3) != Some(MODE_OPENMICRO),
        0 <= i < key3.len() && !key3[i] ==> chord_of(key2, key3) != Some(MODE_CODEX),
        held_throughout(key2) && held_throughout(key3) ==> chord_of(key2, key3) is None,
{
}

/// Without a chord the saved mode stands and nothing is written; a chord that
/// confirms it writes nothing either.
pub proof fn law_flash_is_spared(saved: u8, chord: Option<u8>)
    ensures
        boot_of(saved, chord).changed <==> (chord matches Some(asked) && asked != saved),
        !boot_of(saved, chord).changed ==> boot_of(saved, chord).mode == saved,
{
}

/// The first key, down throughout, asks for the pad's own mode and the second for
/// Codex mode; one that was up in any sample asks for nothing, and both together
/// ask for nothing.
pub proof fn law_chord_picks_mode(key2: Seq<bool>, key3: Seq<bool>, up: int)
    ensures
        (forall|i: int| 0 <= i < key2.len() ==> #[trigger] key2[i]) && 0 <= up < key3.len()
            && !key3[up] ==> chord_of(key2, key3) == Some(0u8),
        (forall|i: int| 0 <= i < key3.len() ==> #[trigger] key3[i]) && 0 <= up < key2.len()
            && !key2[up] ==> chord_of(key2, key3) == Some(1u8),
        (forall|i: int| 0 <= i < key2.len() ==> #[trigger] key2[i]) && (forall|i: int|
            0 <= i < key3.len() ==> #[trigger] key3[i]) ==> chord_of(key2, key3) is None,
        0 <= up < key2.len() && up < key3.len() && !key2[up] && !key3[up] ==> chord_of(key2, key3)
            is None,
{
}

/// A chord decides the mode, else the saved one does. It shows white in Codex mode
/// and amber in the pad's own.
pub proof fn law_boot_follows_chord(saved: u8, asked: u8)
    ensures
        boot_of(saved, Some(asked)).mode == asked,
        boot_of(saved, Some(asked)).changed == (asked != saved),
        boot_of(saved, None).mode == saved,
        !boot_of(saved, None).changed,
        boot_of(saved, Some(1)).rgb == 0xFFFFFF,
        boot_of(saved, Some(0)).rgb == 0xF5AE58,
        boot_of(1, None).rgb == 0xFFFFFF,
        saved != 1 ==> boot_of(saved, None).rgb == 0xF5AE58,
{
}

} // verus!
