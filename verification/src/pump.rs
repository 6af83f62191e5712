//! Handing queued reports to the USB endpoints, and coming back after the host
//! has gone.

use vstd::prelude::*;

use crate::guarantees::{host_buttons, host_report, host_usage, keyboard_settles};
use crate::pad::{Pad, PadModel};
use crate::queues::{InputEvent, MediaKeyboardReport, MouseFrame};
use crate::report::{
    empty_keyboard_report, empty_report, keyboard_report, keyboard_transition,
    law_chord_press_takes_two_reports, report_of, transition_of, KeyboardReport, KeyboardTransition, ReportModel, TransitionModel,
};

verus! {

/// A pointer input report.
#[derive(Clone, Copy, Debug, PartialEq, Eq, Structural)]
pub struct MouseReport {
    pub buttons: u8,
    pub x: i8,
    pub y: i8,
    pub wheel: i8,
    pub pan: i8,
}

/// What goes out next.
#[derive(Clone, Copy, Debug, PartialEq, Eq)]
pub enum Outgoing {
    Keyboard(KeyboardTransition),
    Consumer(MediaKeyboardReport),
    Mouse(MouseReport),
}

/// What goes out next.
#[verifier::ext_equal]
pub ghost enum OutgoingModel {
    Keyboard(TransitionModel),
    Consumer(MediaKeyboardReport),
    Mouse(MouseReport),
}

impl View for Outgoing {
    type V = OutgoingModel;

    open spec fn view(&self) -> OutgoingModel {
        match *self {
            Outgoing::Keyboard(transition) => OutgoingModel::Keyboard(transition@),
            Outgoing::Consumer(report) => OutgoingModel::Consumer(report),
            Outgoing::Mouse(report) => OutgoingModel::Mouse(report),
        }
    }
}

/// The report of a mouse frame.
pub open spec fn report_of_frame(frame: MouseFrame) -> MouseReport {
    MouseReport { buttons: frame.buttons, x: frame.dx, y: frame.dy, wheel: 0, pan: 0 }
}

/// What goes out next: keyboard before consumer before mouse, each in order.
pub open spec fn next_of(m: PadModel) -> Option<OutgoingModel> {
    if m.kbd.len() > 0 {
        Some(OutgoingModel::Keyboard(m.kbd[0]))
    } else if m.consumer.len() > 0 {
        Some(OutgoingModel::Consumer(m.consumer[0]))
    } else if m.mouse.len() > 0 {
        Some(OutgoingModel::Mouse(report_of_frame(m.mouse[0])))
    } else {
        None
    }
}

/// The pad once that was taken out.
pub open spec fn pumped(m: PadModel) -> PadModel {
    if m.kbd.len() > 0 {
        PadModel { kbd: m.kbd.drop_first(), ..m }
    } else if m.consumer.len() > 0 {
        PadModel { consumer: m.consumer.drop_first(), ..m }
    } else if m.mouse.len() > 0 {
        PadModel { mouse: m.mouse.drop_first(), ..m }
    } else {
        m
    }
}

/// Takes out what goes to the host next, if anything waits.
pub fn next_outgoing(pad: &mut Pad) -> (next: Option<Outgoing>)
    requires
        old(pad)@.wf(),
    ensures
        next is Some == next_of(old(pad)@) is Some,
        next matches Some(outgoing) ==> next_of(old(pad)@) == Some(outgoing@),
        final(pad)@ == pumped(old(pad)@),
        final(pad)@.wf(),
{
    if let Some(transition) = pad.kbd.try_receive() {
        return Some(Outgoing::Keyboard(transition));
    }
    if let Some(report) = pad.consumer.try_receive() {
        return Some(Outgoing::Consumer(report));
    }
    if let Some(frame) = pad.mouse.try_receive() {
        return Some(
            Outgoing::Mouse(
                MouseReport {
                    buttons: frame.buttons,
                    x: frame.dx,
                    y: frame.dy,
                    wheel: 0,
                    pan: 0,
                },
            ),
        );
    }
    None
}

/// Takes out the next input event for the host application, if one waits.
pub fn next_event(pad: &mut Pad) -> (event: Option<InputEvent>)
    requires
        old(pad)@.wf(),
    ensures
        event == (if old(pad)@.events.len() > 0 {
            Some(old(pad)@.events[0])
        } else {
            None
        }),
        final(pad)@ == (PadModel {
            events: if old(pad)@.events.len() > 0 {
                old(pad)@.events.drop_first()
            } else {
                old(pad)@.events
            },
            ..old(pad)@
        }),
        final(pad)@.wf(),
{
    pad.events.try_receive()
}

/// How writing a report ended.
#[derive(Clone, Copy, Debug, PartialEq, Eq, Structural)]
pub enum Written {
    /// The host took it.
    Sent,
    /// The endpoint is disabled: the host has reset or is gone.
    Disabled,
    /// The report did not fit.
    Overflow,
}

/// What tells a host that knows nothing the keyboard state that is held.
pub open spec fn resync_of(m: PadModel) -> TransitionModel {
    match transition_of(empty_report(), report_of(m.held), true) {
        Some(t) => t,
        None => TransitionModel { first: report_of(m.held), second: None },
    }
}

/// The keyboard pump's memory.
#[derive(Clone, Copy, Debug, PartialEq, Eq, Structural)]
pub struct Pump {
    /// The host's picture of the keyboard is not known.
    pub needs_resync: bool,
}

impl Pump {
    /// A pump that has not lost the host.
    pub fn new() -> (pump: Pump)
        ensures
            pump == (Pump { needs_resync: false }),
    {
        Pump { needs_resync: false }
    }

    /// Notes how writing a keyboard transition ended. A disabled endpoint means
    /// that the host starts from nothing when it comes back.
    pub fn keyboard_written(&mut self, written: Written)
        ensures
            final(self).needs_resync == (written == Written::Disabled),
    {
        self.needs_resync = match written {
            Written::Sent => false,
            Written::Disabled => true,
            Written::Overflow => false,
        };
    }
}

/// Discards stale transitions and gives the one that reasserts what is held,
/// from a clean baseline on the host's side.
pub fn resync(pad: &mut Pad) -> (transition: KeyboardTransition)
    requires
        old(pad)@.wf(),
    ensures
        transition@ == resync_of(old(pad)@),
        final(pad)@ == (PadModel { kbd: Seq::empty(), ..old(pad)@ }),
        final(pad)@.wf(),
{
    let mut stale = true;
    while stale
        invariant
            pad@.wf(),
            pad@ == (PadModel { kbd: pad@.kbd, ..old(pad)@ }),
            !stale ==> pad@.kbd.len() == 0,
        decreases
                pad@.kbd.len() + if stale {
                    1nat
                } else {
                    0nat
                },
    {
        stale = pad.kbd.try_receive().is_some();
    }
    assert(pad@.kbd == Seq::<TransitionModel>::empty());
    let current = keyboard_report(&pad.held);
    match keyboard_transition(empty_keyboard_report(), current, true) {
        Some(transition) => transition,
        None => KeyboardTransition::single(current),
    }
}

/// After the host was lost, a resync brings it to the keyboard state that is
/// held, whatever was queued before.
pub proof fn law_resync_reasserts_held(m: PadModel)
    ensures
        resync_of(m).last() == report_of(m.held),
        keyboard_settles(resync_of(m).last(), PadModel { kbd: Seq::empty(), ..m }),
{
}

/// Taking reports out, in order, leads the host to the same end as before:
/// only producers decide what it ends in.
pub proof fn law_pump_keeps_end_state(m: PadModel, shown: ReportModel, usage: u16, buttons: u8)
    ensures
        m.kbd.len() > 0 ==> host_report(m.kbd[0].last(), m.kbd.drop_first()) == host_report(
            shown,
            m.kbd,
        ),
        m.consumer.len() > 0 ==> host_usage(m.consumer[0].usage_id, m.consumer.drop_first())
            == host_usage(usage, m.consumer),
        m.mouse.len() > 0 ==> host_buttons(m.mouse[0].buttons, m.mouse.drop_first())
            == host_buttons(buttons, m.mouse),
{
}

/// The report that is still to be written once the first of a transition was
/// written with this result.
pub open spec fn following(t: TransitionModel, written: Written) -> Option<ReportModel> {
    if written == Written::Sent {
        t.second
    } else {
        None
    }
}

/// The report that is still to be written once the first of a transition was
/// written: a failed write ends the transition.
pub fn following_report(transition: &KeyboardTransition, written: Written) -> (report: Option<
    KeyboardReport,
>)
    ensures
        report is Some == following(transition@, written) is Some,
        report matches Some(r) ==> following(transition@, written) == Some(r@),
{
    match written {
        Written::Sent => transition.second,
        _ => None,
    }
}

/// What goes out next is the oldest of the first queue that is not empty, keyboard
/// before consumer before mouse; it leaves its queue, and nothing else changes.
/// A mouse frame goes out with its buttons and its motion, and neither wheel nor
/// pan.
pub proof fn law_pump_takes_the_oldest(m: PadModel)
    ensures
        m.kbd.len() > 0 ==> next_of(m) == Some(OutgoingModel::Keyboard(m.kbd[0])) && pumped(m) == (
        PadModel { kbd: m.kbd.subrange(1, m.kbd.len() as int), ..m }),
        m.kbd.len() == 0 && m.consumer.len() > 0 ==> next_of(m) == Some(
            OutgoingModel::Consumer(m.consumer[0]),
        ) && pumped(m) == (PadModel {
            consumer: m.consumer.subrange(1, m.consumer.len() as int),
            ..m
        }),
        m.kbd.len() == 0 && m.consumer.len() == 0 && m.mouse.len() > 0 ==> (
        next_of(m) matches Some(OutgoingModel::Mouse(r)) && r.buttons == m.mouse[0].buttons && r.x
            == m.mouse[0].dx && r.y == m.mouse[0].dy && r.wheel == 0 && r.pan == 0) && pumped(m)
            == (PadModel { mouse: m.mouse.subrange(1, m.mouse.len() as int), ..m }),
        m.kbd.len() == 0 && m.consumer.len() == 0 && m.mouse.len() == 0 ==> next_of(m) is None
            && pumped(m) == m,
{
    if m.kbd.len() > 0 {
        assert(m.kbd.drop_first() =~= m.kbd.subrange(1, m.kbd.len() as int));
    } else if m.consumer.len() > 0 {
        assert(m.consumer.drop_first() =~= m.consumer.subrange(1, m.consumer.len() as int));
    } else if m.mouse.len() > 0 {
        assert(m.mouse.drop_first() =~= m.mouse.subrange(1, m.mouse.len() as int));
    }
}

/// A returning host, which shows nothing pressed, is told what is held as any press
/// is: modifiers one report before keys where there are both, else one report. It
/// is told even when nothing is held.
pub proof fn law_resync_is_a_press(m: PadModel)
    ensures
        ({
            let held = report_of(m.held);
            let t = resync_of(m);
            &&& held.modifier != 0 && (exists|code: u8|
                code != 0 && #[trigger] held.keycodes.contains(code)) ==> {
                &&& t.second == Some(held)
                &&& t.first.modifier == held.modifier
                &&& forall|i: int| 0 <= i < 6 ==> #[trigger] t.first.keycodes[i] == 0
            }
            &&& held.modifier == 0 || (forall|code: u8|
                code != 0 ==> !(#[trigger] held.keycodes.contains(code))) ==> t.first == held
                && t.second is None
        }),
{
    let held = report_of(m.held);
    assert forall|code: u8| code != 0 implies !(#[trigger] empty_report().keycodes.contains(code)) by {
    }
    if held.modifier != 0 && exists|code: u8|
        code != 0 && #[trigger] held.keycodes.contains(code) {
        let code = choose|code: u8| code != 0 && #[trigger] held.keycodes.contains(code);
        law_chord_press_takes_two_reports(empty_report(), held, code);
    }
}

/// The second report of a transition follows a first one that the host took, and
/// nothing follows one that it did not.
pub proof fn law_second_follows_sent_first(t: TransitionModel)
    ensures
        following(t, Written::Sent) == t.second,
        following(t, Written::Disabled) is None,
        following(t, Written::Overflow) is None,
{
}

} // verus!
