//! The pad's input state and what every change of it sends to the host.

use vstd::prelude::*;

use crate::keymap::{Keymap, Slot, SlotKind, MODE_CODEX, SLOT_COUNT};
use crate::queues::{
    forced, ConsumerQueue, EventQueue, InputEvent, KeyboardQueue, MediaKeyboardReport, MouseFrame,
    MouseQueue, CONSUMER_QUEUE, EVENT_QUEUE, KEYBOARD_QUEUE, MOUSE_QUEUE,
};
use crate::report::{
    keyboard_report, keyboard_transition, report_of, transition_of, KeyboardReport,
    KeyboardTransition, ReportModel, TransitionModel, HELD_LEN,
};

verus! {

/// Everything the input tasks share.
pub struct Pad {
    /// The configuration in RAM.
    pub keymap: Keymap,
    /// What is held, each entry with the slot as it was at press time. A
    /// release retracts exactly what its press emitted, whatever the keymap
    /// says by then.
    pub held: [Option<Slot>; HELD_LEN],
    /// Keyboard transitions for the host.
    pub kbd: KeyboardQueue,
    /// Consumer reports for the host.
    pub consumer: ConsumerQueue,
    /// Mouse frames for the host.
    pub mouse: MouseQueue,
    /// Input events for the host application.
    pub events: EventQueue,
    /// Mouse buttons asserted by the joystick's push switch.
    pub push_buttons: u8,
    /// Whether grade mode holds the left button down.
    pub grade_drag: bool,
    /// Bit `i` is set while key position `i` is pressed.
    pub keystate: u16,
    /// The device mode of this power cycle.
    pub device_mode: u8,
}

/// What the input tasks share.
#[verifier::ext_equal]
pub ghost struct PadModel {
    pub keymap: Keymap,
    pub held: Seq<Option<Slot>>,
    pub kbd: Seq<TransitionModel>,
    pub consumer: Seq<MediaKeyboardReport>,
    pub mouse: Seq<MouseFrame>,
    pub events: Seq<InputEvent>,
    pub push_buttons: u8,
    pub grade_drag: bool,
    pub keystate: u16,
    pub device_mode: u8,
}

impl View for Pad {
    type V = PadModel;

    open spec fn view(&self) -> PadModel {
        PadModel {
            keymap: self.keymap,
            held: self.held@,
            kbd: self.kbd@,
            consumer: self.consumer@,
            mouse: self.mouse@,
            events: self.events@,
            push_buttons: self.push_buttons,
            grade_drag: self.grade_drag,
            keystate: self.keystate,
            device_mode: self.device_mode,
        }
    }
}

impl PadModel {
    /// No queue holds more than it can.
    pub open spec fn wf(self) -> bool {
        &&& self.held.len() == HELD_LEN
        &&& self.kbd.len() <= KEYBOARD_QUEUE
        &&& self.consumer.len() <= CONSUMER_QUEUE
        &&& self.mouse.len() <= MOUSE_QUEUE
        &&& self.events.len() <= EVENT_QUEUE
    }

    /// The full button truth: push switch or auto-drag.
    pub open spec fn buttons(self) -> u8 {
        self.push_buttons | (if self.grade_drag {
            1u8
        } else {
            0u8
        })
    }

    /// The pad after `frame` was queued, newest first to stay.
    pub open spec fn sent_mouse(self, frame: MouseFrame) -> PadModel {
        PadModel { mouse: forced(self.mouse, frame, MOUSE_QUEUE as nat), ..self }
    }

    /// The pad after a frame without motion told the host the buttons.
    pub open spec fn sent_buttons(self) -> PadModel {
        self.sent_mouse(MouseFrame { buttons: self.buttons(), dx: 0, dy: 0 })
    }

    /// The pad after an event was posted; a full queue drops it.
    pub open spec fn posted(self, src: u8, a: u8, b: u8) -> PadModel {
        if self.events.len() < EVENT_QUEUE {
            PadModel { events: self.events.push(InputEvent { src, a, b }), ..self }
        } else {
            self
        }
    }

    /// The pad after a consumer usage was queued.
    pub open spec fn sent_consumer(self, usage: u16) -> PadModel {
        PadModel {
            consumer: forced(
                self.consumer,
                MediaKeyboardReport { usage_id: usage },
                CONSUMER_QUEUE as nat,
            ),
            ..self
        }
    }

    /// The pad after the change from `before` to `after` was queued.
    pub open spec fn sent_keyboard(
        self,
        before: ReportModel,
        after: ReportModel,
        pressed: bool,
    ) -> PadModel {
        match transition_of(before, after, pressed) {
            Some(t) => PadModel { kbd: forced(self.kbd, t, KEYBOARD_QUEUE as nat), ..self },
            None => self,
        }
    }

    /// The pad after entry `idx` of the held set went from empty to `slot`
    /// (`pressed`) or from `slot` to empty, and the host was told.
    pub open spec fn switched(self, idx: int, slot: Slot, pressed: bool) -> PadModel {
        let next = PadModel {
            held: self.held.update(
                idx,
                if pressed {
                    Some(slot)
                } else {
                    None
                },
            ),
            ..self
        };
        if slot.kind == SlotKind::Consumer {
            next.sent_consumer(
                if pressed {
                    slot.code
                } else {
                    first_usage(next.held)
                },
            )
        } else {
            next.sent_keyboard(report_of(self.held), report_of(next.held), pressed)
        }
    }

    /// The pad after entry `idx` was pressed with an explicit slot or
    /// released. Pressing an entry that is held already only replaces the slot
    /// it remembers.
    pub open spec fn applied(self, idx: int, press: Option<Slot>) -> PadModel {
        match (self.held[idx], press) {
            (None, Some(slot)) => self.switched(idx, slot, true),
            (Some(_), Some(slot)) => PadModel { held: self.held.update(idx, press), ..self },
            (Some(slot), None) => self.switched(idx, slot, false),
            (None, None) => self,
        }
    }

    /// The pad after input `idx` went down or up.
    pub open spec fn held_set(self, idx: int, down: bool) -> PadModel {
        self.applied(
            idx,
            if down {
                Some(self.keymap.slots@[idx])
            } else {
                None
            },
        )
    }

    /// The pad after input `idx` was tapped.
    pub open spec fn tapped(self, idx: int) -> PadModel {
        self.held_set(idx, true).held_set(idx, false)
    }
}

/// An entry that holds a consumer usage.
pub open spec fn is_consumer(entry: Option<Slot>) -> bool {
    entry matches Some(slot) && slot.kind == SlotKind::Consumer
}

/// The usage of the first entry that holds one, or 0.
pub open spec fn first_usage(held: Seq<Option<Slot>>) -> u16
    decreases held.len(),
{
    if held.len() == 0 {
        0
    } else if is_consumer(held[0]) {
        held[0]->0.code
    } else {
        first_usage(held.drop_first())
    }
}

impl Pad {
    /// A pad at rest, with `keymap` loaded, in device mode `device_mode`.
    pub fn new(keymap: Keymap, device_mode: u8) -> (pad: Pad)
        ensures
            pad@.wf(),
            pad@ == (PadModel {
                keymap,
                held: Seq::new(HELD_LEN as nat, |i: int| None::<Slot>),
                kbd: Seq::empty(),
                consumer: Seq::empty(),
                mouse: Seq::empty(),
                events: Seq::empty(),
                push_buttons: 0,
                grade_drag: false,
                keystate: 0,
                device_mode,
            }),
    {
        Pad {
            keymap,
            held: [None; HELD_LEN],
            kbd: KeyboardQueue::new(),
            consumer: ConsumerQueue::new(),
            mouse: MouseQueue::new(),
            events: EventQueue::new(),
            push_buttons: 0,
            grade_drag: false,
            keystate: 0,
            device_mode,
        }
    }
}

/// Whether the pad runs in Codex Micro compatibility mode.
pub fn codex_mode(pad: &Pad) -> (codex: bool)
    ensures
        codex == (pad@.device_mode == MODE_CODEX),
{
    pad.device_mode == MODE_CODEX
}

/// The full button truth for an outgoing frame: push switch or auto-drag.
pub fn mouse_buttons(pad: &Pad) -> (buttons: u8)
    ensures
        buttons == pad@.buttons(),
{
    pad.push_buttons | (if pad.grade_drag {
        1u8
    } else {
        0u8
    })
}

/// Queues a mouse frame; a full queue gives up its oldest frame.
pub fn force_send_mouse(pad: &mut Pad, frame: MouseFrame)
    requires
        old(pad)@.wf(),
    ensures
        final(pad)@ == old(pad)@.sent_mouse(frame),
        final(pad)@.wf(),
{
    if !pad.mouse.try_send(frame) {
        let _ = pad.mouse.try_receive();
        let _ = pad.mouse.try_send(frame);
    }
}

/// Posts an input event for the host application. Press feedback is best
/// effort: a full queue drops the event.
pub fn post_event(pad: &mut Pad, src: u8, a: u8, b: u8)
    requires
        old(pad)@.wf(),
    ensures
        final(pad)@ == old(pad)@.posted(src, a, b),
        final(pad)@.wf(),
{
    let _ = pad.events.try_send(InputEvent { src, a, b });
}

/// Queues a keyboard transition; a full queue gives up its oldest one. Every
/// transition ends in the full keyboard state, so newest-wins strands no
/// release.
pub fn force_send_kbd(pad: &mut Pad, transition: KeyboardTransition)
    requires
        old(pad)@.wf(),
    ensures
        final(pad)@ == (PadModel {
            kbd: forced(old(pad)@.kbd, transition@, KEYBOARD_QUEUE as nat),
            ..old(pad)@
        }),
        final(pad)@.wf(),
{
    if !pad.kbd.try_send(transition) {
        let _ = pad.kbd.try_receive();
        let _ = pad.kbd.try_send(transition);
    }
}

/// Queues a consumer usage; a full queue gives up its oldest report.
pub fn force_send_consumer(pad: &mut Pad, usage: u16)
    requires
        old(pad)@.wf(),
    ensures
        final(pad)@ == old(pad)@.sent_consumer(usage),
        final(pad)@.wf(),
{
    let report = MediaKeyboardReport { usage_id: usage };
    if !pad.consumer.try_send(report) {
        let _ = pad.consumer.try_receive();
        let _ = pad.consumer.try_send(report);
    }
}

/// Queues what tells the host of the change from `before` to `after`.
pub fn send_keyboard_transition(
    pad: &mut Pad,
    before: KeyboardReport,
    after: KeyboardReport,
    pressed: bool,
)
    requires
        old(pad)@.wf(),
    ensures
        final(pad)@ == old(pad)@.sent_keyboard(before@, after@, pressed),
        final(pad)@.wf(),
{
    if let Some(transition) = keyboard_transition(before, after, pressed) {
        force_send_kbd(pad, transition);
    }
}

/// The usage of the first entry that holds one, or 0.
fn held_usage(held: &[Option<Slot>; HELD_LEN]) -> (usage: u16)
    ensures
        usage == first_usage(held@),
{
    let mut i: usize = 0;
    assert(held@.skip(0) == held@);
    while i < HELD_LEN
        invariant
            i <= HELD_LEN,
            held@.len() == HELD_LEN,
            first_usage(held@.skip(i as int)) == first_usage(held@),
        decreases HELD_LEN - i,
    {
        assert(held@.skip(i as int).drop_first() == held@.skip(i + 1));
        if let Some(slot) = held[i] {
            if slot.kind == SlotKind::Consumer {
                return slot.code;
            }
        }
        i += 1;
    }
    0
}

/// Presses (`Some`) or releases (`None`) entry `slot_idx` of the held set with
/// an explicit slot, and tells the host: keyboard slots rebuild the composite
/// report, consumer slots send their usage and, on release, fall back to
/// another one still held. A release goes by the slot remembered at press
/// time.
pub fn apply_slot(pad: &mut Pad, slot_idx: usize, press: Option<Slot>)
    requires
        old(pad)@.wf(),
        slot_idx < HELD_LEN,
    ensures
        final(pad)@ == old(pad)@.applied(slot_idx as int, press),
        final(pad)@.wf(),
{
    let before = keyboard_report(&pad.held);
    let (slot, held): (Slot, bool) = match (pad.held[slot_idx], press) {
        (None, Some(slot)) => (slot, true),
        (Some(_), Some(_)) => {
            pad.held[slot_idx] = press;
            return;
        },
        (Some(slot), None) => (slot, false),
        (None, None) => {
            return;
        },
    };
    pad.held[slot_idx] = press;
    let after = keyboard_report(&pad.held);
    match slot.kind {
        SlotKind::Consumer => {
            let usage: u16 = if held {
                slot.code
            } else {
                held_usage(&pad.held)
            };
            force_send_consumer(pad, usage);
        },
        _ => {
            // An empty slot comes here too: rebuilding the report from what is
            // held is cheap and always correct.
            send_keyboard_transition(pad, before, after, held);
        },
    }
}

/// Marks input `slot_idx` held or released, with the meaning that the keymap
/// gives it at press time.
pub fn set_held(pad: &mut Pad, slot_idx: usize, held: bool)
    requires
        old(pad)@.wf(),
        slot_idx < HELD_LEN,
        held ==> slot_idx < SLOT_COUNT,
    ensures
        final(pad)@ == old(pad)@.held_set(slot_idx as int, held),
        final(pad)@.wf(),
{
    let press: Option<Slot> = if held {
        Some(pad.keymap.slot(slot_idx))
    } else {
        None
    };
    apply_slot(pad, slot_idx, press);
}

/// Momentary tap of an input (encoder detents, touch): press, then release.
pub fn tap_slot(pad: &mut Pad, slot_idx: usize)
    requires
        old(pad)@.wf(),
        slot_idx < SLOT_COUNT,
    ensures
        final(pad)@ == old(pad)@.tapped(slot_idx as int),
        final(pad)@.wf(),
{
    set_held(pad, slot_idx, true);
    set_held(pad, slot_idx, false);
}

} // verus!
