//! Codex Micro compatibility mode: what a control's binding does to the pad,
//! and what it asks of the Codex service.

use vstd::prelude::*;

use crate::guarantees::{
    consumer_settles, keyboard_settles, law_consumer_settles, law_keyboard_settles,
};
use crate::keymap::{consumer_slot, Keymap, Slot, SlotKind, MODE_CODEX, SLOT_COUNT};
use crate::pad::{apply_slot, codex_mode, set_held, tap_slot, Pad, PadModel};
use crate::report::{ReportModel, HELD_LEN};

verus! {

/// What a control is bound to in the Codex keymap.
#[derive(Clone, Copy, Debug, PartialEq, Eq, Structural)]
pub enum Binding {
    /// Nothing.
    Unbound,
    /// Something the pad cannot do.
    Unsupported,
    /// The function key; nothing for the pad to do.
    Function,
    /// A control of the Codex host protocol.
    Oai(u8),
    /// A key with modifiers.
    Key { mods: u8, code: u8 },
    /// A consumer-control usage.
    Consumer(u16),
    /// Toggles a layer.
    LayerToggle(u8),
    /// Holds a layer while down.
    LayerHold(u8),
    /// Switches the profile.
    Profile(u8),
    /// Plays a macro.
    Macro(u16),
    /// A binding that depends on the number of taps.
    Multi(u16),
    /// A smart action of the host.
    Smart(u16),
    /// Shows the cheat sheet; mode 3 shows it while held.
    CheatSheet(u8),
    /// Steps the LED brightness.
    Backlight(i8),
}

/// Where the Codex keymap stands: active layer and profile.
#[derive(Clone, Copy, Debug, PartialEq, Eq, Structural)]
pub struct CodexStatus {
    pub layer_index: u8,
    pub profile_index: u8,
}

/// What the pad asks of the Codex service.
#[derive(Clone, Copy, Debug, PartialEq, Eq, Structural)]
pub enum CodexCall {
    /// Nothing.
    Quiet,
    /// Report a control of the host protocol.
    Oai { control: u8, pressed: bool },
    /// Toggle a layer.
    ToggleLayer(u8),
    /// Hold or let go of a layer.
    HoldLayer { layer: u8, pressed: bool },
    /// Switch the profile.
    SetProfile(u8),
    /// Start a macro.
    RunMacro(u16),
    /// Count a tap of a multi-tap binding; the binding that comes of it is
    /// then to be acted on in place of this one.
    MultiTap(u16),
    /// Post a smart action.
    Smart(u16),
    /// Post a cheat-sheet event.
    CheatSheet { mode: u8, layer: u8, profile: u8 },
    /// Post a radial-menu event.
    Radial { angle_milli: u16, open: bool, layer: u8, profile: u8 },
    /// Report an analog-stick direction.
    Stick { dir: u8, active: bool },
}

/// What the Codex keymap says of one control.
#[derive(Clone, Copy, Debug, PartialEq, Eq, Structural)]
pub struct CodexSource {
    /// A slot that the pad's own keymap forces on the control.
    pub forced_slot: Option<Slot>,
    /// The binding that counts where nothing is forced.
    pub binding: Binding,
}

/// LED brightness after a step up (`delta > 0`) or down; it never goes dark.
pub open spec fn backlight_step(brightness: u8, delta: i8) -> u8 {
    if delta > 0 {
        if brightness + 32 <= 255 {
            (brightness + 32) as u8
        } else {
            255
        }
    } else if brightness - 32 >= 16 {
        (brightness - 32) as u8
    } else {
        16
    }
}

/// The slot that a binding holds, if it holds one.
pub open spec fn bound_slot(binding: Binding) -> Option<Slot> {
    match binding {
        Binding::Key { mods, code } => Some(
            Slot { kind: SlotKind::Keyboard, mods, code: code as u16 },
        ),
        Binding::Consumer(usage) => Some(consumer_slot(usage)),
        _ => None,
    }
}

/// What a binding asks of the Codex service when its control goes down or up.
pub open spec fn call_of(binding: Binding, pressed: bool, status: CodexStatus) -> CodexCall {
    match binding {
        Binding::Oai(control) => CodexCall::Oai { control, pressed },
        Binding::LayerToggle(layer) => if pressed {
            CodexCall::ToggleLayer(layer)
        } else {
            CodexCall::Quiet
        },
        Binding::LayerHold(layer) => CodexCall::HoldLayer { layer, pressed },
        Binding::Profile(profile) => if pressed {
            CodexCall::SetProfile(profile)
        } else {
            CodexCall::Quiet
        },
        Binding::Macro(id) => if pressed {
            CodexCall::RunMacro(id)
        } else {
            CodexCall::Quiet
        },
        Binding::Multi(id) => CodexCall::MultiTap(id),
        Binding::Smart(id) => if pressed {
            CodexCall::Smart(id)
        } else {
            CodexCall::Quiet
        },
        Binding::CheatSheet(mode) => if pressed || mode == 3 {
            CodexCall::CheatSheet {
                mode: if mode == 3 {
                    if pressed {
                        1
                    } else {
                        0
                    }
                } else {
                    mode
                },
                layer: status.layer_index,
                profile: status.profile_index,
            }
        } else {
            CodexCall::Quiet
        },
        _ => CodexCall::Quiet,
    }
}

impl PadModel {
    /// The pad after a control with this binding, which owns held entry `idx`,
    /// went down or up.
    pub open spec fn acted(self, binding: Binding, pressed: bool, idx: int) -> PadModel {
        match (bound_slot(binding), binding) {
            (Some(slot), _) => self.applied(
                idx,
                if pressed {
                    Some(slot)
                } else {
                    None
                },
            ),
            (None, Binding::Backlight(delta)) => if pressed {
                PadModel {
                    keymap: Keymap {
                        led_brightness: backlight_step(self.keymap.led_brightness, delta),
                        ..self.keymap
                    },
                    ..self
                }
            } else {
                self
            },
            _ => self,
        }
    }

    /// The pad after the control that owns input `idx` went down or up.
    pub open spec fn routed(self, idx: int, down: bool, source: CodexSource) -> PadModel {
        if self.device_mode == MODE_CODEX {
            match source.forced_slot {
                Some(slot) => self.applied(
                    idx,
                    if down {
                        Some(slot)
                    } else {
                        None
                    },
                ),
                None => self.acted(source.binding, down, idx),
            }
        } else {
            self.held_set(idx, down)
        }
    }

    /// The pad after the control that owns input `idx` was tapped.
    pub open spec fn route_tapped(self, idx: int, source: CodexSource) -> PadModel {
        if self.device_mode == MODE_CODEX && source.forced_slot is None {
            self.acted(source.binding, true, idx).acted(source.binding, false, idx)
        } else {
            self.tapped(idx)
        }
    }

    /// What going down or up asks of the Codex service.
    pub open spec fn route_call(
        self,
        down: bool,
        source: CodexSource,
        status: CodexStatus,
    ) -> CodexCall {
        if self.device_mode == MODE_CODEX && source.forced_slot is None {
            call_of(source.binding, down, status)
        } else {
            CodexCall::Quiet
        }
    }
}

/// Performs a binding for a control going down or up. `slot` is the held entry
/// that the control owns, so what it holds is retracted exactly when it
/// releases. The Codex service is to perform the call that comes back.
pub fn act(
    pad: &mut Pad,
    binding: Binding,
    pressed: bool,
    slot: usize,
    status: CodexStatus,
) -> (call: CodexCall)
    requires
        old(pad)@.wf(),
        bound_slot(binding) is Some ==> slot < HELD_LEN,
    ensures
        final(pad)@ == old(pad)@.acted(binding, pressed, slot as int),
        final(pad)@.wf(),
        call == call_of(binding, pressed, status),
{
    match binding {
        Binding::Unbound | Binding::Unsupported | Binding::Function => CodexCall::Quiet,
        Binding::Oai(control) => CodexCall::Oai { control, pressed },
        Binding::Key { mods, code } => {
            let press: Option<Slot> = if pressed {
                Some(Slot { kind: SlotKind::Keyboard, mods, code: code as u16 })
            } else {
                None
            };
            apply_slot(pad, slot, press);
            CodexCall::Quiet
        },
        Binding::Consumer(usage) => {
            let press: Option<Slot> = if pressed {
                Some(Slot::consumer(usage))
            } else {
                None
            };
            apply_slot(pad, slot, press);
            CodexCall::Quiet
        },
        Binding::LayerToggle(layer) => if pressed {
            CodexCall::ToggleLayer(layer)
        } else {
            CodexCall::Quiet
        },
        Binding::LayerHold(layer) => CodexCall::HoldLayer { layer, pressed },
        Binding::Profile(profile) => if pressed {
            CodexCall::SetProfile(profile)
        } else {
            CodexCall::Quiet
        },
        Binding::Macro(id) => if pressed {
            CodexCall::RunMacro(id)
        } else {
            CodexCall::Quiet
        },
        Binding::Multi(id) => CodexCall::MultiTap(id),
        Binding::Smart(id) => if pressed {
            CodexCall::Smart(id)
        } else {
            CodexCall::Quiet
        },
        Binding::CheatSheet(mode) => {
            let shown: u8 = match (mode, pressed) {
                (3, true) => 1,
                (3, false) => 0,
                (m, true) => m,
                (_, false) => {
                    return CodexCall::Quiet;
                },
            };
            CodexCall::CheatSheet {
                mode: shown,
                layer: status.layer_index,
                profile: status.profile_index,
            }
        },
        Binding::Backlight(delta) => {
            if pressed {
                let brightness: u8 = pad.keymap.led_brightness;
                pad.keymap.led_brightness = if delta > 0 {
                    brightness.saturating_add(32)
                } else {
                    let dimmed: u8 = brightness.saturating_sub(32);
                    if dimmed > 16 {
                        dimmed
                    } else {
                        16
                    }
                };
            }
            CodexCall::Quiet
        },
    }
}

/// Performs a control going down or up: through the pad's keymap, or, in Codex
/// mode, through the slot forced on the control or its binding.
pub fn route(
    pad: &mut Pad,
    slot: usize,
    down: bool,
    source: CodexSource,
    status: CodexStatus,
) -> (call: CodexCall)
    requires
        old(pad)@.wf(),
        slot < SLOT_COUNT,
    ensures
        final(pad)@ == old(pad)@.routed(slot as int, down, source),
        final(pad)@.wf(),
        call == old(pad)@.route_call(down, source, status),
{
    if codex_mode(pad) {
        if let Some(own) = source.forced_slot {
            let press: Option<Slot> = if down {
                Some(own)
            } else {
                None
            };
            apply_slot(pad, slot, press);
            CodexCall::Quiet
        } else {
            act(pad, source.binding, down, slot, status)
        }
    } else {
        set_held(pad, slot, down);
        CodexCall::Quiet
    }
}

/// Performs a control being tapped: press, then release. A slot forced on the
/// control in Codex mode means that the keymap's own slot is tapped.
pub fn route_tap(
    pad: &mut Pad,
    slot: usize,
    source: CodexSource,
    status: CodexStatus,
) -> (calls: (CodexCall, CodexCall))
    requires
        old(pad)@.wf(),
        slot < SLOT_COUNT,
    ensures
        final(pad)@ == old(pad)@.route_tapped(slot as int, source),
        final(pad)@.wf(),
        calls.0 == old(pad)@.route_call(true, source, status),
        calls.1 == old(pad)@.route_call(false, source, status),
{
    if codex_mode(pad) {
        if source.forced_slot.is_some() {
            tap_slot(pad, slot);
            (CodexCall::Quiet, CodexCall::Quiet)
        } else {
            let down = act(pad, source.binding, true, slot, status);
            let up = act(pad, source.binding, false, slot, status);
            (down, up)
        }
    } else {
        tap_slot(pad, slot);
        (CodexCall::Quiet, CodexCall::Quiet)
    }
}

/// The first entry of the held set, from `from` on, that `wanted` accepts, or
/// the end of the set.
pub open spec fn first_entry(
    held: Seq<Option<Slot>>,
    from: int,
    wanted: spec_fn(Option<Slot>) -> bool,
) -> int
    decreases held.len() - from,
{
    if from >= held.len() {
        held.len() as int
    } else if wanted(held[from]) {
        from
    } else {
        first_entry(held, from + 1, wanted)
    }
}

/// The entry that a macro's key press takes.
pub open spec fn free_macro_entry(held: Seq<Option<Slot>>) -> int {
    first_entry(held, SLOT_COUNT as int, |entry: Option<Slot>| entry is None)
}

/// The macro entry that holds exactly this key.
pub open spec fn macro_entry_of(held: Seq<Option<Slot>>, slot: Slot) -> int {
    first_entry(
        held,
        SLOT_COUNT as int,
        |entry: Option<Slot>|
            entry matches Some(s) && s.kind == slot.kind && s.mods == slot.mods && s.code
                == slot.code,
    )
}

impl PadModel {
    /// The pad after a macro pressed `binding`: what holds a slot takes the
    /// first free macro entry, and is dropped where there is none; anything
    /// else acts as a control would.
    pub open spec fn macro_pressed(self, binding: Binding) -> PadModel {
        if bound_slot(binding) is Some {
            let entry = free_macro_entry(self.held);
            if entry < HELD_LEN {
                self.acted(binding, true, entry)
            } else {
                self
            }
        } else {
            self.acted(binding, true, SLOT_COUNT as int)
        }
    }

    /// The pad after a macro released `binding`: what holds a slot leaves the
    /// first macro entry that holds it.
    pub open spec fn macro_released(self, binding: Binding) -> PadModel {
        if bound_slot(binding) is Some {
            let entry = macro_entry_of(self.held, bound_slot(binding)->0);
            if entry < HELD_LEN {
                self.acted(binding, false, entry)
            } else {
                self
            }
        } else {
            self.acted(binding, false, SLOT_COUNT as int)
        }
    }
}

/// Macro playback's view of the keyboard: keys and consumer usages occupy the
/// macro entries of the held set, one each, so that none displaces another;
/// everything else acts as a control would.
pub struct MacroKeys;

impl MacroKeys {
    /// A macro presses `b`. Where a multi-tap call comes back, the macro is to
    /// press the binding that comes of it.
    pub fn press(&self, pad: &mut Pad, b: Binding, status: CodexStatus) -> (call: CodexCall)
        requires
            old(pad)@.wf(),
        ensures
            final(pad)@ == old(pad)@.macro_pressed(b),
            final(pad)@.wf(),
            call == call_of(b, true, status),
    {
        match b {
            Binding::Key { .. } | Binding::Consumer(_) => {
                let ghost wanted = |entry: Option<Slot>| entry is None;
                let mut i: usize = SLOT_COUNT;
                while i < HELD_LEN
                    invariant
                        SLOT_COUNT <= i <= HELD_LEN,
                        bound_slot(b) is Some,
                        pad@ == old(pad)@,
                        pad@.wf(),
                        wanted == (|entry: Option<Slot>| entry is None),
                        free_macro_entry(pad@.held) == first_entry(pad@.held, i as int, wanted),
                    decreases HELD_LEN - i,
                {
                    if pad.held[i].is_none() {
                        return act(pad, b, true, i, status);
                    }
                    i += 1;
                }
                CodexCall::Quiet
            },
            other => act(pad, other, true, SLOT_COUNT, status),
        }
    }

    /// A macro releases `b`. Where a multi-tap call comes back, the macro is to
    /// release the binding that comes of it.
    pub fn release(&self, pad: &mut Pad, b: Binding, status: CodexStatus) -> (call: CodexCall)
        requires
            old(pad)@.wf(),
        ensures
            final(pad)@ == old(pad)@.macro_released(b),
            final(pad)@.wf(),
            call == call_of(b, false, status),
    {
        let slot: Slot = match b {
            Binding::Key { mods, code } => Slot {
                kind: SlotKind::Keyboard,
                mods,
                code: code as u16,
            },
            Binding::Consumer(usage) => Slot::consumer(usage),
            other => {
                return act(pad, other, false, SLOT_COUNT, status);
            },
        };
        let ghost wanted = |entry: Option<Slot>|
            entry matches Some(s) && s.kind == slot.kind && s.mods == slot.mods && s.code
                == slot.code;
        let mut i: usize = SLOT_COUNT;
        while i < HELD_LEN
            invariant
                SLOT_COUNT <= i <= HELD_LEN,
                bound_slot(b) == Some(slot),
                pad@ == old(pad)@,
                pad@.wf(),
                wanted == (|entry: Option<Slot>|
                    entry matches Some(s) && s.kind == slot.kind && s.mods == slot.mods && s.code
                        == slot.code),
                macro_entry_of(pad@.held, slot) == first_entry(pad@.held, i as int, wanted),
            decreases HELD_LEN - i,
        {
            if let Some(s) = pad.held[i] {
                if s.kind == slot.kind && s.mods == slot.mods && s.code == slot.code {
                    return act(pad, b, false, i, status);
                }
            }
            i += 1;
        }
        CodexCall::Quiet
    }
}

/// The entry found is the first that is wanted, or there is none.
proof fn lemma_first_entry(
    held: Seq<Option<Slot>>,
    from: int,
    wanted: spec_fn(Option<Slot>) -> bool,
)
    requires
        0 <= from <= held.len(),
    ensures
        from <= first_entry(held, from, wanted) <= held.len(),
        first_entry(held, from, wanted) < held.len() ==> wanted(
            held[first_entry(held, from, wanted)],
        ),
        forall|i: int|
            from <= i < first_entry(held, from, wanted) ==> !wanted(#[trigger] held[i]),
    decreases held.len() - from,
{
    if from < held.len() && !wanted(held[from]) {
        lemma_first_entry(held, from + 1, wanted);
    }
}

/// A key or usage that a macro presses and releases again leaves nothing held,
/// unless the macro was holding that very one already. While it is pressed,
/// everything that was held stays held; with no macro entry free it is dropped
/// whole.
pub proof fn law_macro_key_is_retracted(m: PadModel, binding: Binding)
    requires
        m.wf(),
        bound_slot(binding) is Some,
        macro_entry_of(m.held, bound_slot(binding)->0) == HELD_LEN,
    ensures
        ({
            let pressed = m.macro_pressed(binding);
            let entry = free_macro_entry(m.held);
            &&& pressed.macro_released(binding).held == m.held
            &&& forall|i: int|
                0 <= i < HELD_LEN && m.held[i] is Some ==> #[trigger] pressed.held[i] == m.held[i]
            &&& entry < HELD_LEN ==> pressed.held[entry] == bound_slot(binding)
            &&& entry == HELD_LEN ==> pressed == m
        }),
{
    let slot = bound_slot(binding)->0;
    let free = |entry: Option<Slot>| entry is None;
    let same = |entry: Option<Slot>|
        entry matches Some(s) && s.kind == slot.kind && s.mods == slot.mods && s.code == slot.code;
    let entry = free_macro_entry(m.held);
    let pressed = m.macro_pressed(binding);
    lemma_first_entry(m.held, SLOT_COUNT as int, free);
    lemma_first_entry(m.held, SLOT_COUNT as int, same);
    lemma_first_entry(pressed.held, SLOT_COUNT as int, same);
    if entry < HELD_LEN {
        let found = macro_entry_of(pressed.held, slot);
        assert(same(pressed.held[entry]));
        assert(found == entry) by {
            if found < entry {
                assert(pressed.held[found] == m.held[found]);
                assert(!same(m.held[found]));
            }
        }
        assert(pressed.macro_released(binding).held == m.held);
    } else {
        assert(pressed == m);
        assert(pressed.macro_released(binding).held == m.held);
    }
}

/// Whatever a macro presses or releases, the host stays on its way to the
/// keyboard state and to a consumer usage that are held: no macro strands a
/// key or loses a usage.
pub proof fn law_macros_settle(m: PadModel, binding: Binding, shown: ReportModel, usage: u16)
    requires
        m.wf(),
        keyboard_settles(shown, m),
        consumer_settles(usage, m),
    ensures
        keyboard_settles(shown, m.macro_pressed(binding)),
        consumer_settles(usage, m.macro_pressed(binding)),
        keyboard_settles(shown, m.macro_released(binding)),
        consumer_settles(usage, m.macro_released(binding)),
{
    if let Some(slot) = bound_slot(binding) {
        let free = |entry: Option<Slot>| entry is None;
        let same = |entry: Option<Slot>|
            entry matches Some(s) && s.kind == slot.kind && s.mods == slot.mods && s.code
                == slot.code;
        lemma_first_entry(m.held, SLOT_COUNT as int, free);
        lemma_first_entry(m.held, SLOT_COUNT as int, same);
        let entry = free_macro_entry(m.held);
        if entry < HELD_LEN {
            law_keyboard_settles(m, entry, Some(slot), shown);
            law_consumer_settles(m, entry, Some(slot), usage);
        }
        let holder = macro_entry_of(m.held, slot);
        if holder < HELD_LEN {
            law_keyboard_settles(m, holder, None, shown);
            law_consumer_settles(m, holder, None, usage);
        }
    } else {
        lemma_settles_by_queues(m, m.macro_pressed(binding), shown, usage);
        lemma_settles_by_queues(m, m.macro_released(binding), shown, usage);
    }
}

/// Whether a pad settles depends on what is held and queued alone.
proof fn lemma_settles_by_queues(m: PadModel, n: PadModel, shown: ReportModel, usage: u16)
    requires
        n.held == m.held,
        n.kbd == m.kbd,
        n.consumer == m.consumer,
        keyboard_settles(shown, m),
        consumer_settles(usage, m),
    ensures
        keyboard_settles(shown, n),
        consumer_settles(usage, n),
{
}

/// A control's binding only ever changes the held entry that the control owns,
/// the keyboard and consumer queues, and the brightness.
pub proof fn law_binding_owns_one_entry(m: PadModel, binding: Binding, pressed: bool, idx: int)
    requires
        m.wf(),
        0 <= idx < HELD_LEN,
    ensures
        forall|i: int|
            0 <= i < HELD_LEN && i != idx ==> #[trigger] m.acted(binding, pressed, idx).held[i]
                == m.held[i],
        m.acted(binding, pressed, idx).mouse == m.mouse,
        m.acted(binding, pressed, idx).events == m.events,
        m.acted(binding, pressed, idx).buttons() == m.buttons(),
        m.acted(binding, pressed, idx).device_mode == m.device_mode,
        m.acted(binding, pressed, idx).keymap.slots == m.keymap.slots,
{
}

/// A step of the backlight goes the way it says, and stays clear of dark.
pub proof fn law_backlight_step(brightness: u8, delta: i8)
    ensures
        delta > 0 ==> backlight_step(brightness, delta) >= brightness,
        delta <= 0 ==> backlight_step(brightness, delta) >= 16,
        delta <= 0 && brightness >= 16 ==> backlight_step(brightness, delta) <= brightness,
{
}

/// In Codex mode every input goes to its binding, or to the slot forced on it,
/// and never through the pad's own keymap: whatever the keymap holds, the same
/// comes of it. Only a tap of a control with a forced slot taps the keymap's
/// own.
pub proof fn law_codex_mode_ignores_keymap(
    m: PadModel,
    slots: [Slot; SLOT_COUNT],
    idx: int,
    down: bool,
    source: CodexSource,
)
    requires
        m.device_mode == MODE_CODEX,
    ensures
        ({
            let other = PadModel { keymap: Keymap { slots, ..m.keymap }, ..m };
            let here = m.routed(idx, down, source);
            let there = other.routed(idx, down, source);
            &&& there.held == here.held
            &&& there.kbd == here.kbd
            &&& there.consumer == here.consumer
            &&& source.forced_slot is None ==> {
                let tapped = m.route_tapped(idx, source);
                let elsewhere = other.route_tapped(idx, source);
                &&& elsewhere.held == tapped.held
                &&& elsewhere.kbd == tapped.kbd
                &&& elsewhere.consumer == tapped.consumer
            }
        }),
{
}

/// What a control asks of the service when it goes down, and when it comes up
/// again. Toggles, profiles, macros and smart actions ask once, on the press, for
/// what they name; host controls and layer holds tell both edges; a multi-tap
/// counts both.
pub proof fn law_bindings_ask_for_what_they_name(status: CodexStatus, n: u8, id: u16)
    ensures
        call_of(Binding::Oai(n), true, status) == (CodexCall::Oai { control: n, pressed: true }),
        call_of(Binding::Oai(n), false, status) == (CodexCall::Oai { control: n, pressed: false }),
        call_of(Binding::LayerHold(n), true, status) == (CodexCall::HoldLayer {
            layer: n,
            pressed: true,
        }),
        call_of(Binding::LayerHold(n), false, status) == (CodexCall::HoldLayer {
            layer: n,
            pressed: false,
        }),
        call_of(Binding::LayerToggle(n), true, status) == CodexCall::ToggleLayer(n),
        call_of(Binding::Profile(n), true, status) == CodexCall::SetProfile(n),
        call_of(Binding::Macro(id), true, status) == CodexCall::RunMacro(id),
        call_of(Binding::Smart(id), true, status) == CodexCall::Smart(id),
        call_of(Binding::LayerToggle(n), false, status) == CodexCall::Quiet,
        call_of(Binding::Profile(n), false, status) == CodexCall::Quiet,
        call_of(Binding::Macro(id), false, status) == CodexCall::Quiet,
        call_of(Binding::Smart(id), false, status) == CodexCall::Quiet,
        call_of(Binding::Multi(id), true, status) == CodexCall::MultiTap(id),
        call_of(Binding::Multi(id), false, status) == CodexCall::MultiTap(id),
{
}

/// What holds a slot, steps the backlight or does nothing asks for nothing.
pub proof fn law_local_bindings_ask_for_nothing(
    status: CodexStatus,
    pressed: bool,
    mods: u8,
    code: u8,
    usage: u16,
    delta: i8,
)
    ensures
        call_of(Binding::Key { mods, code }, pressed, status) == CodexCall::Quiet,
        call_of(Binding::Consumer(usage), pressed, status) == CodexCall::Quiet,
        call_of(Binding::Backlight(delta), pressed, status) == CodexCall::Quiet,
        call_of(Binding::Unbound, pressed, status) == CodexCall::Quiet,
        call_of(Binding::Unsupported, pressed, status) == CodexCall::Quiet,
        call_of(Binding::Function, pressed, status) == CodexCall::Quiet,
{
}

/// The cheat sheet is shown in its mode on the press and is left alone on the
/// release; in mode 3 it is shown while held, as mode 1 and then mode 0. It tells
/// the layer and profile that are active.
pub proof fn law_cheat_sheet_modes(status: CodexStatus, mode: u8)
    ensures
        ({
            let down = call_of(Binding::CheatSheet(mode), true, status);
            let up = call_of(Binding::CheatSheet(mode), false, status);
            &&& down == (CodexCall::CheatSheet {
                mode: if mode == 3 {
                    1
                } else {
                    mode
                },
                layer: status.layer_index,
                profile: status.profile_index,
            })
            &&& mode != 3 ==> up == CodexCall::Quiet
            &&& mode == 3 ==> up == (CodexCall::CheatSheet {
                mode: 0,
                layer: status.layer_index,
                profile: status.profile_index,
            })
        }),
{
}

/// What a control's binding does to the pad. A key or a usage takes the control's
/// entry, whole, and leaves it on the release; the backlight steps on the press;
/// every other binding leaves the pad as it is.
pub proof fn law_bindings_act_on_own_entry(
    m: PadModel,
    idx: int,
    mods: u8,
    code: u8,
    usage: u16,
    delta: i8,
)
    requires
        m.wf(),
        0 <= idx < 28,
        m.held[idx] is None,
    ensures
        ({
            let key = Binding::Key { mods, code };
            let consumer = Binding::Consumer(usage);
            let held_key = m.acted(key, true, idx).held[idx];
            let held_usage = m.acted(consumer, true, idx).held[idx];
            let lit = m.acted(Binding::Backlight(delta), true, idx);
            &&& held_key matches Some(s) && s.kind == SlotKind::Keyboard && s.mods == mods && s.code
                == code
            &&& held_usage matches Some(s) && s.kind == SlotKind::Consumer && s.code == usage
                && s.mods == 0
            &&& m.acted(key, true, idx) == m.applied(idx, held_key)
            &&& m.acted(consumer, true, idx) == m.applied(idx, held_usage)
            &&& m.acted(key, true, idx).acted(key, false, idx).held == m.held
            &&& m.acted(consumer, true, idx).acted(consumer, false, idx).held == m.held
            &&& m.acted(Binding::Backlight(delta), false, idx) == m
            &&& lit.held == m.held && lit.kbd == m.kbd && lit.consumer == m.consumer
            &&& delta > 0 ==> lit.keymap.led_brightness == 255 || lit.keymap.led_brightness
                == m.keymap.led_brightness + 32
            &&& delta > 0 && m.keymap.led_brightness <= 223 ==> lit.keymap.led_brightness
                == m.keymap.led_brightness + 32
            &&& delta <= 0 && m.keymap.led_brightness >= 48 ==> lit.keymap.led_brightness
                == m.keymap.led_brightness - 32
            &&& delta <= 0 && m.keymap.led_brightness < 48 ==> lit.keymap.led_brightness == 16
            &&& lit.keymap == (Keymap {
                led_brightness: lit.keymap.led_brightness,
                ..m.keymap
            })
        }),
{
    let key = Binding::Key { mods, code };
    let consumer = Binding::Consumer(usage);
    assert(m.acted(key, true, idx).acted(key, false, idx).held =~= m.held);
    assert(m.acted(consumer, true, idx).acted(consumer, false, idx).held =~= m.held);
}

/// A press of a key or a usage puts it in the control's entry and a release empties
/// the entry, whatever it held.
pub proof fn law_bound_release_empties_entry(m: PadModel, idx: int, binding: Binding)
    requires
        m.wf(),
        0 <= idx < 28,
        binding is Key || binding is Consumer,
    ensures
        m.acted(binding, false, idx) == m.applied(idx, None),
        binding matches Binding::Key { mods, code } ==> m.acted(binding, true, idx) == m.applied(
            idx,
            Some(Slot { kind: SlotKind::Keyboard, mods, code: code as u16 }),
        ),
        binding matches Binding::Consumer(usage) ==> m.acted(binding, true, idx) == m.applied(
            idx,
            Some(Slot { kind: SlotKind::Consumer, mods: 0, code: usage }),
        ),
{
}

/// Bindings that the service performs, or nobody, leave the pad as it is.
pub proof fn law_service_bindings_leave_pad(
    m: PadModel,
    binding: Binding,
    pressed: bool,
    idx: int,
)
    requires
        !(binding is Key || binding is Consumer || binding is Backlight),
    ensures
        m.acted(binding, pressed, idx) == m,
{
}

/// Where an input goes. Out of Codex mode it is the keymap's slot, and the service
/// is asked for nothing; in Codex mode the slot forced on the control, if there is
/// one, and the service is asked for nothing; else the control's binding.
pub proof fn law_inputs_are_routed(
    m: PadModel,
    idx: int,
    down: bool,
    source: CodexSource,
    status: CodexStatus,
)
    requires
        m.wf(),
        0 <= idx < 24,
    ensures
        m.device_mode != 1 && m.held[idx] is None && down ==> m.routed(idx, down, source).held[idx]
            == Some(m.keymap.slots@[idx]),
        m.device_mode != 1 && down ==> m.routed(idx, down, source) == m.applied(
            idx,
            Some(m.keymap.slots@[idx]),
        ),
        m.device_mode != 1 && !down ==> m.routed(idx, down, source) == m.applied(idx, None),
        m.device_mode != 1 ==> m.route_call(down, source, status) == CodexCall::Quiet,
        m.device_mode == 1 && source.forced_slot is Some && down ==> m.routed(idx, down, source)
            == m.applied(idx, source.forced_slot),
        m.device_mode == 1 && source.forced_slot is Some && !down ==> m.routed(idx, down, source)
            == m.applied(idx, None),
        m.device_mode == 1 && source.forced_slot is Some ==> m.route_call(down, source, status)
            == CodexCall::Quiet,
        m.device_mode == 1 && source.forced_slot is None ==> m.routed(idx, down, source) == m.acted(
            source.binding,
            down,
            idx,
        ) && m.route_call(down, source, status) == call_of(source.binding, down, status),
{
}

/// A tapped input is pressed and then released: the keymap's slot out of Codex
/// mode and under a forced slot, else the control's binding.
pub proof fn law_taps_are_routed(m: PadModel, idx: int, source: CodexSource)
    requires
        m.wf(),
        0 <= idx < 24,
    ensures
        m.device_mode != 1 || source.forced_slot is Some ==> m.route_tapped(idx, source)
            == m.applied(idx, Some(m.keymap.slots@[idx])).applied(idx, None),
        m.device_mode == 1 && source.forced_slot is None ==> m.route_tapped(idx, source) == m.acted(
            source.binding,
            true,
            idx,
        ).acted(source.binding, false, idx),
{
}

/// A macro's key or usage takes the lowest macro entry that is free, behind the
/// entries of the inputs, whole; with the four of them taken it is dropped. Its
/// release empties the lowest macro entry that holds the very same. Anything else
/// acts as a control would.
pub proof fn law_macro_entries(m: PadModel, binding: Binding, e: int)
    requires
        m.wf(),
        24 <= e < 28,
    ensures
        (binding is Key || binding is Consumer) && m.held[e] is None && (forall|i: int|
            24 <= i < e ==> #[trigger] m.held[i] is Some) ==> m.macro_pressed(binding) == m.acted(
            binding,
            true,
            e,
        ),
        (binding is Key || binding is Consumer) && (forall|i: int|
            24 <= i < 28 ==> #[trigger] m.held[i] is Some) ==> m.macro_pressed(binding) == m,
        binding matches Binding::Key { mods, code } && m.held[e] == Some(
            Slot { kind: SlotKind::Keyboard, mods, code: code as u16 },
        ) && (forall|i: int| 24 <= i < e ==> #[trigger] m.held[i] != m.held[e])
            ==> m.macro_released(binding) == m.applied(e, None),
        binding matches Binding::Consumer(usage) && m.held[e] == Some(
            Slot { kind: SlotKind::Consumer, mods: 0, code: usage },
        ) && (forall|i: int| 24 <= i < e ==> #[trigger] m.held[i] != m.held[e])
            ==> m.macro_released(binding) == m.applied(e, None),
        binding matches Binding::Key { mods, code } && (forall|i: int|
            24 <= i < 28 ==> #[trigger] m.held[i] != Some(
                Slot { kind: SlotKind::Keyboard, mods, code: code as u16 },
            )) ==> m.macro_released(binding) == m,
        binding matches Binding::Consumer(usage) && (forall|i: int|
            24 <= i < 28 ==> #[trigger] m.held[i] != Some(
                Slot { kind: SlotKind::Consumer, mods: 0, code: usage },
            )) ==> m.macro_released(binding) == m,
        !(binding is Key || binding is Consumer) ==> m.macro_pressed(binding) == m.acted(
            binding,
            true,
            24,
        ) && m.macro_released(binding) == m.acted(binding, false, 24),
{
    if let Some(slot) = bound_slot(binding) {
        let free = |entry: Option<Slot>| entry is None;
        let same = |entry: Option<Slot>|
            entry matches Some(s) && s.kind == slot.kind && s.mods == slot.mods && s.code
                == slot.code;
        lemma_first_entry(m.held, SLOT_COUNT as int, free);
        lemma_first_entry(m.held, SLOT_COUNT as int, same);
        let f = free_macro_entry(m.held);
        let h = macro_entry_of(m.held, slot);
        if m.held[e] is None && forall|i: int| 24 <= i < e ==> #[trigger] m.held[i] is Some {
            assert(f <= e) by {
                if f > e {
                    assert(!free(m.held[e]));
                }
            }
            if f < e {
                assert(free(m.held[f]));
            }
        }
        if f < 28 {
            assert(free(m.held[f]));
        }
        if m.held[e] == Some(slot) && forall|i: int|
            24 <= i < e ==> #[trigger] m.held[i] != m.held[e] {
            assert(h <= e) by {
                if h > e {
                    assert(!same(m.held[e]));
                }
            }
            if h < e {
                assert(same(m.held[h]));
            }
        }
        if h < 28 {
            assert(same(m.held[h]));
            assert(m.held[h] == Some(slot));
        }
    }
}

} // verus!
