//! What holds of the held set and of the queues across any series of inputs.

use vstd::prelude::*;

use crate::keymap::{Keymap, Slot, SlotKind};
use crate::pad::{first_usage, is_consumer, PadModel};
use crate::queues::{law_newest_wins, InputEvent, MediaKeyboardReport, MouseFrame};
use crate::report::{
    empty_report, held_codes, held_mods, law_equal_states_tell_nothing,
    law_report_carries_modifiers, law_report_shows_held, law_transition_ends_in_new_state, presses,
    report_of, same_report, transition_of, ReportModel, TransitionModel,
};

verus! {

/// The keyboard state that the host ends in once it has read the queue, if it
/// shows `shown` now.
pub open spec fn host_report(shown: ReportModel, queue: Seq<TransitionModel>) -> ReportModel {
    if queue.len() == 0 {
        shown
    } else {
        queue.last().last()
    }
}

/// The consumer usage that the host ends in once it has read the queue, if
/// `shown` is active now.
pub open spec fn host_usage(shown: u16, queue: Seq<MediaKeyboardReport>) -> u16 {
    if queue.len() == 0 {
        shown
    } else {
        queue.last().usage_id
    }
}

/// The mouse buttons that the host ends in once it has read the queue, if it
/// shows `shown` now.
pub open spec fn host_buttons(shown: u8, queue: Seq<MouseFrame>) -> u8 {
    if queue.len() == 0 {
        shown
    } else {
        queue.last().buttons
    }
}

/// The host will end in the keyboard state that is held.
pub open spec fn keyboard_settles(shown: ReportModel, m: PadModel) -> bool {
    same_report(host_report(shown, m.kbd), report_of(m.held))
}

/// The host will end with a usage that some entry holds, or with none if no
/// entry holds one.
pub open spec fn consumer_settles(shown: u16, m: PadModel) -> bool {
    let usage = host_usage(shown, m.consumer);
    ||| usage == 0 && forall|i: int| 0 <= i < m.held.len() ==> !is_consumer(#[trigger] m.held[i])
    ||| exists|i: int|
        0 <= i < m.held.len() && is_consumer(#[trigger] m.held[i]) && m.held[i]->0.code == usage
}

/// The host will end with the buttons that are down.
pub open spec fn buttons_settle(shown: u8, m: PadModel) -> bool {
    host_buttons(shown, m.mouse) == m.buttons()
}

/// An entry that the keyboard report does not draw on.
pub open spec fn no_keyboard(entry: Option<Slot>) -> bool {
    entry matches Some(slot) ==> slot.kind != SlotKind::Keyboard
}

/// Entries that hold no keyboard slot do not show in the report.
proof fn lemma_report_ignores(held: Seq<Option<Slot>>, idx: int, entry: Option<Slot>)
    requires
        0 <= idx < held.len(),
        no_keyboard(held[idx]),
        no_keyboard(entry),
    ensures
        held_mods(held.update(idx, entry)) == held_mods(held),
        held_codes(held.update(idx, entry)) == held_codes(held),
    decreases held.len(),
{
    let updated = held.update(idx, entry);
    if idx == held.len() - 1 {
        assert(updated.drop_last() == held.drop_last());
    } else {
        assert(updated.drop_last() == held.drop_last().update(idx, entry));
        lemma_report_ignores(held.drop_last(), idx, entry);
    }
}

/// The usage that a release falls back to is one that is still held, and is 0
/// exactly as no entry holds one.
proof fn lemma_first_usage(held: Seq<Option<Slot>>)
    ensures
        (first_usage(held) == 0 && forall|i: int|
            0 <= i < held.len() ==> !is_consumer(#[trigger] held[i])) || exists|i: int|
            0 <= i < held.len() && is_consumer(#[trigger] held[i]) && held[i]->0.code
                == first_usage(held),
    decreases held.len(),
{
    if held.len() > 0 {
        if !is_consumer(held[0]) {
            let rest = held.drop_first();
            lemma_first_usage(rest);
            if exists|i: int|
                0 <= i < rest.len() && is_consumer(#[trigger] rest[i]) && rest[i]->0.code
                    == first_usage(rest) {
                let i = choose|i: int|
                    0 <= i < rest.len() && is_consumer(#[trigger] rest[i]) && rest[i]->0.code
                        == first_usage(rest);
                assert(held[i + 1] == rest[i]);
            } else {
                assert forall|i: int| 0 <= i < held.len() implies !is_consumer(
                    #[trigger] held[i],
                ) by {
                    if i > 0 {
                        assert(held[i] == rest[i - 1]);
                    }
                }
            }
        }
    }
}

/// A press of an empty entry, and any release, leaves the host on its way to
/// the keyboard state that is held, even where a full queue drops what is
/// older.
pub proof fn law_keyboard_settles(
    m: PadModel,
    idx: int,
    press: Option<Slot>,
    shown: ReportModel,
)
    requires
        m.wf(),
        0 <= idx < m.held.len(),
        m.held[idx] is None || press is None,
        keyboard_settles(shown, m),
    ensures
        keyboard_settles(shown, m.applied(idx, press)),
{
    if is_consumer(press) || is_consumer(m.held[idx]) {
        lemma_report_ignores(m.held, idx, press);
    }
}

/// A press of an empty entry, and any release, leaves the host on its way to a
/// usage that is still held, or to none when none is: overlapping holds do not
/// strand each other.
pub proof fn law_consumer_settles(m: PadModel, idx: int, press: Option<Slot>, shown: u16)
    requires
        m.wf(),
        0 <= idx < m.held.len(),
        m.held[idx] is None || press is None,
        consumer_settles(shown, m),
    ensures
        consumer_settles(shown, m.applied(idx, press)),
{
    let next = m.applied(idx, press);
    if is_consumer(press) {
        assert(is_consumer(next.held[idx]) && next.held[idx]->0.code == host_usage(
            shown,
            next.consumer,
        ));
    } else if is_consumer(m.held[idx]) {
        lemma_first_usage(next.held);
    } else {
        assert(next.consumer == m.consumer);
        assert forall|i: int| 0 <= i < m.held.len() implies is_consumer(#[trigger] next.held[i])
            == is_consumer(m.held[i]) by {}
        let usage = host_usage(shown, m.consumer);
        if exists|i: int|
            0 <= i < m.held.len() && is_consumer(#[trigger] m.held[i]) && m.held[i]->0.code
                == usage {
            let i = choose|i: int|
                0 <= i < m.held.len() && is_consumer(#[trigger] m.held[i]) && m.held[i]->0.code
                    == usage;
            assert(i != idx);
            assert(next.held[i] == m.held[i]);
        }
    }
}

/// Whatever changes the held set leaves the pointer alone.
pub proof fn law_held_set_leaves_pointer(m: PadModel, idx: int, press: Option<Slot>)
    ensures
        m.applied(idx, press).mouse == m.mouse,
        m.applied(idx, press).buttons() == m.buttons(),
{
}

/// A frame that carries the full button truth makes it what the host ends in,
/// even where a full queue drops what is older.
pub proof fn law_buttons_settle(m: PadModel, shown: u8, dx: i8, dy: i8)
    requires
        m.wf(),
    ensures
        buttons_settle(shown, m.sent_mouse(MouseFrame { buttons: m.buttons(), dx, dy })),
{
}

/// A release retracts exactly what its press emitted: it goes by the slot that
/// the press remembered, whatever the keymap has become since, and it leaves
/// the held set as it was before the press.
pub proof fn law_release_retracts_press(m: PadModel, idx: int, slot: Slot, keymap: Keymap)
    requires
        m.wf(),
        0 <= idx < m.held.len(),
        m.held[idx] is None,
    ensures
        ({
            let pressed = m.applied(idx, Some(slot));
            let rewritten = PadModel { keymap, ..pressed };
            &&& pressed.held[idx] == Some(slot)
            &&& rewritten.applied(idx, None) == rewritten.switched(idx, slot, false)
            &&& rewritten.applied(idx, None).held == m.held
            &&& rewritten.applied(idx, None) == (PadModel {
                keymap,
                ..pressed.applied(idx, None)
            })
        }),
{
    assert(m.held.update(idx, Some(slot)).update(idx, None) == m.held);
}

/// Operations on one entry of the held set leave every other entry alone, so
/// what a press remembered stays until that entry is released.
pub proof fn law_entries_are_independent(m: PadModel, idx: int, other: int, press: Option<Slot>)
    requires
        m.wf(),
        0 <= idx < m.held.len(),
        0 <= other < m.held.len(),
        other != idx,
    ensures
        m.applied(idx, press).held[other] == m.held[other],
{
}

/// A tap of an input that is not held leaves nothing held.
pub proof fn law_tap_holds_nothing(m: PadModel, idx: int)
    requires
        m.wf(),
        0 <= idx < m.held.len(),
        m.held[idx] is None,
    ensures
        m.tapped(idx).held == m.held,
{
    assert(m.held.update(idx, Some(m.keymap.slots@[idx])).update(idx, None) == m.held);
}

/// A press and the release after it tell the host the same change both ways:
/// the states they lead to are each other's starting points.
pub proof fn law_press_and_release_mirror(m: PadModel, idx: int, slot: Slot)
    requires
        m.wf(),
        0 <= idx < m.held.len(),
        m.held[idx] is None,
        slot.kind != SlotKind::Consumer,
    ensures
        ({
            let pressed = m.applied(idx, Some(slot));
            let released = pressed.applied(idx, None);
            &&& pressed == (PadModel { held: m.held.update(idx, Some(slot)), ..m }).sent_keyboard(
                report_of(m.held),
                report_of(pressed.held),
                true,
            )
            &&& released == (PadModel { held: m.held, ..pressed }).sent_keyboard(
                report_of(pressed.held),
                report_of(m.held),
                false,
            )
        }),
{
    assert(m.held.update(idx, Some(slot)).update(idx, None) == m.held);
}

/// The two ways to hold the left button do not lift each other: it is down
/// while either the push switch or the auto-drag holds it.
pub proof fn law_button_holds_combine(m: PadModel)
    ensures
        m.grade_drag ==> m.buttons() & 1 == 1,
        m.push_buttons & 1 == 1 ==> m.buttons() & 1 == 1,
        !m.grade_drag ==> m.buttons() == m.push_buttons,
{
    let push = m.push_buttons;
    assert((push | 1u8) & 1 == 1 && push | 0u8 == push) by (bit_vector);
}

/// One press or release of an entry of the held set.
pub ghost struct HeldOp {
    pub idx: int,
    pub press: Option<Slot>,
}

/// The pad after a series of presses and releases.
pub open spec fn applied_all(m: PadModel, ops: Seq<HeldOp>) -> PadModel
    decreases ops.len(),
{
    if ops.len() == 0 {
        m
    } else {
        applied_all(m, ops.drop_last()).applied(ops.last().idx, ops.last().press)
    }
}

/// Every press in the series finds its entry empty.
pub open spec fn alternating(m: PadModel, ops: Seq<HeldOp>) -> bool
    decreases ops.len(),
{
    if ops.len() == 0 {
        true
    } else {
        let rest = ops.drop_last();
        &&& alternating(m, rest)
        &&& 0 <= ops.last().idx < m.held.len()
        &&& applied_all(m, rest).held[ops.last().idx] is None || ops.last().press is None
    }
}

/// However many presses and releases overlap, and however often a full queue
/// drops what is older, the host is always on its way to the keyboard state
/// and to a consumer usage that are held.
pub proof fn law_any_series_settles(
    m: PadModel,
    ops: Seq<HeldOp>,
    shown: ReportModel,
    usage: u16,
)
    requires
        m.wf(),
        keyboard_settles(shown, m),
        consumer_settles(usage, m),
        alternating(m, ops),
    ensures
        applied_all(m, ops).wf(),
        keyboard_settles(shown, applied_all(m, ops)),
        consumer_settles(usage, applied_all(m, ops)),
    decreases ops.len(),
{
    if ops.len() > 0 {
        law_any_series_settles(m, ops.drop_last(), shown, usage);
        let before = applied_all(m, ops.drop_last());
        law_keyboard_settles(before, ops.last().idx, ops.last().press, shown);
        law_consumer_settles(before, ops.last().idx, ops.last().press, usage);
    }
}

/// A pad at rest starts settled: a host that shows nothing pressed is where the
/// pad wants it.
pub proof fn law_fresh_pad_settles(m: PadModel)
    requires
        forall|i: int| 0 <= i < m.held.len() ==> #[trigger] m.held[i] is None,
        m.kbd.len() == 0,
        m.consumer.len() == 0,
        m.mouse.len() == 0,
        m.push_buttons == 0,
        !m.grade_drag,
    ensures
        keyboard_settles(empty_report(), m),
        consumer_settles(0, m),
        buttons_settle(0, m),
{
    lemma_nothing_held(m.held);
    law_button_holds_combine(m);
    assert(report_of(m.held).keycodes =~= empty_report().keycodes);
}

/// With nothing held there is neither modifier nor key.
proof fn lemma_nothing_held(held: Seq<Option<Slot>>)
    requires
        forall|i: int| 0 <= i < held.len() ==> #[trigger] held[i] is None,
    ensures
        held_mods(held) == 0,
        held_codes(held) == Seq::<u8>::empty(),
    decreases held.len(),
{
    if held.len() > 0 {
        let rest = held.drop_last();
        assert forall|i: int| 0 <= i < rest.len() implies #[trigger] rest[i] is None by {
            assert(held[i] is None);
        }
        assert(held[held.len() - 1] is None);
        lemma_nothing_held(rest);
    }
}

/// What a press emits. The entry of an input that was not held becomes exactly
/// the slot, and stands for it until the release. A consumer slot puts its usage
/// last in line; a keyboard slot leads the host to a report with every modifier
/// bit of the slot set and its key down, or six earlier keys; an empty slot says
/// nothing.
pub proof fn law_press_emits_slot(
    m: PadModel,
    idx: int,
    slot: Slot,
    shown: ReportModel,
    mask: u8,
)
    requires
        m.wf(),
        0 <= idx < 28,
        m.held[idx] is None,
        keyboard_settles(shown, m),
    ensures
        ({
            let next = m.applied(idx, Some(slot));
            let host = host_report(shown, next.kbd);
            &&& next.held[idx] == Some(slot)
            &&& slot.kind == SlotKind::Consumer ==> {
                &&& next.consumer.len() > 0
                &&& next.consumer.last().usage_id == slot.code
                &&& next.kbd == m.kbd
            }
            &&& slot.kind == SlotKind::Keyboard ==> {
                &&& slot.mods & mask != 0 ==> host.modifier & mask != 0
                &&& slot.code as u8 != 0 && !host.keycodes.contains(slot.code as u8)
                    ==> forall|a: int| 0 <= a < 6 ==> #[trigger] host.keycodes[a] != 0
                &&& next.consumer == m.consumer
            }
            &&& slot.kind == SlotKind::Empty ==> next.kbd == m.kbd && next.consumer == m.consumer
        }),
{
    let next = m.applied(idx, Some(slot));
    law_keyboard_settles(m, idx, Some(slot), shown);
    if slot.kind == SlotKind::Keyboard {
        law_report_carries_modifiers(next.held, mask);
        law_report_shows_held(next.held);
        assert(next.held[idx] == Some(slot));
        assert(presses(next.held[idx], slot.code as u8));
        let host = host_report(shown, next.kbd);
        assert(host.keycodes == report_of(next.held).keycodes);
    } else if slot.kind == SlotKind::Empty {
        lemma_report_ignores(m.held, idx, Some(slot));
    }
}

/// In the pad's own mode an input goes by its slot in the keymap, whole: kind,
/// modifiers and code. Going up goes by what the press remembered.
pub proof fn law_inputs_go_by_keymap(m: PadModel, idx: int)
    requires
        m.wf(),
        0 <= idx < 24,
    ensures
        m.held[idx] is None ==> m.held_set(idx, true).held[idx] == Some(m.keymap.slots@[idx]),
        m.held_set(idx, true) == m.applied(idx, Some(m.keymap.slots@[idx])),
        m.held_set(idx, false) == m.applied(idx, None),
        m.held_set(idx, false).held[idx] is None,
        m.tapped(idx) == m.applied(idx, Some(m.keymap.slots@[idx])).applied(idx, None),
{
}

/// What a release retracts. Its entry is empty afterwards. Releasing a consumer
/// slot leads the host to the usage of the lowest entry that still holds one, or
/// to none; releasing anything else leaves the usages alone. Releasing what is
/// not held changes nothing.
pub proof fn law_release_falls_back(m: PadModel, idx: int, low: int)
    requires
        m.wf(),
        0 <= idx < 28,
    ensures
        ({
            let next = m.applied(idx, None);
            &&& next.held[idx] is None
            &&& m.held[idx] is None ==> next == m
            &&& !is_consumer(m.held[idx]) ==> next.consumer == m.consumer
            &&& is_consumer(m.held[idx]) ==> next.consumer.len() > 0 && next.kbd == m.kbd
            &&& is_consumer(m.held[idx]) && 0 <= low < 28 && low != idx && is_consumer(m.held[low])
                && (forall|i: int|
                0 <= i < low && i != idx ==> !is_consumer(#[trigger] m.held[i]))
                ==> next.consumer.last().usage_id == m.held[low]->0.code
            &&& is_consumer(m.held[idx]) && (forall|i: int|
                0 <= i < 28 && i != idx ==> !is_consumer(#[trigger] m.held[i]))
                ==> next.consumer.last().usage_id == 0
        }),
{
    let next = m.applied(idx, None);
    if is_consumer(m.held[idx]) {
        if 0 <= low < 28 && low != idx && is_consumer(m.held[low]) && (forall|i: int|
            0 <= i < low && i != idx ==> !is_consumer(#[trigger] m.held[i])) {
            assert forall|i: int| 0 <= i < low implies !is_consumer(#[trigger] next.held[i]) by {
                if i != idx {
                    assert(!is_consumer(m.held[i]));
                }
            }
            assert(next.held[low] == m.held[low]);
            lemma_lowest_usage(next.held, low);
        }
        if forall|i: int| 0 <= i < 28 && i != idx ==> !is_consumer(#[trigger] m.held[i]) {
            assert forall|i: int| 0 <= i < 28 implies !is_consumer(#[trigger] next.held[i]) by {
                if i != idx {
                    assert(!is_consumer(m.held[i]));
                }
            }
            lemma_first_usage(next.held);
        }
    }
}

/// The fallback is the usage of the lowest entry.
proof fn lemma_lowest_usage(held: Seq<Option<Slot>>, low: int)
    requires
        0 <= low < held.len(),
        is_consumer(held[low]),
        forall|i: int| 0 <= i < low ==> !is_consumer(#[trigger] held[i]),
    ensures
        first_usage(held) == held[low]->0.code,
    decreases held.len(),
{
    if low > 0 {
        let rest = held.drop_first();
        assert(!is_consumer(held[0]));
        assert forall|i: int| 0 <= i < low - 1 implies !is_consumer(#[trigger] rest[i]) by {
            assert(rest[i] == held[i + 1]);
        }
        assert(rest[low - 1] == held[low]);
        lemma_lowest_usage(rest, low - 1);
    }
}

/// A press or release touches the held set and the keyboard and consumer queues
/// alone. Pressing an entry that is held already only replaces what it
/// remembers.
pub proof fn law_held_set_stands_apart(m: PadModel, idx: int, press: Option<Slot>)
    requires
        m.wf(),
        0 <= idx < 28,
    ensures
        ({
            let next = m.applied(idx, press);
            &&& next.wf()
            &&& next.keymap == m.keymap
            &&& next.mouse == m.mouse
            &&& next.events == m.events
            &&& next.push_buttons == m.push_buttons
            &&& next.grade_drag == m.grade_drag
            &&& next.keystate == m.keystate
            &&& next.device_mode == m.device_mode
            &&& next.held[idx] == press
            &&& m.held[idx] is Some && press is Some ==> next.kbd == m.kbd && next.consumer
                == m.consumer
        }),
{
}

/// With room in the queues, a press that shows queues one transition behind the
/// others, one that does not show queues none, and a consumer press queues one
/// usage behind the others.
pub proof fn law_press_queues_behind(m: PadModel, idx: int, slot: Slot)
    requires
        m.wf(),
        0 <= idx < 28,
        m.held[idx] is None,
    ensures
        ({
            let next = m.applied(idx, Some(slot));
            let held = m.held.update(idx, Some(slot));
            let shows = report_of(held).modifier != report_of(m.held).modifier || report_of(
                held,
            ).keycodes != report_of(m.held).keycodes;
            &&& next.held == held
            &&& slot.kind != SlotKind::Consumer && !shows ==> next.kbd == m.kbd
            &&& slot.kind != SlotKind::Consumer && shows && m.kbd.len() < 16 ==> next.kbd.len()
                == m.kbd.len() + 1 && next.kbd.drop_last() == m.kbd && next.kbd.last().last()
                == report_of(held)
            &&& slot.kind == SlotKind::Consumer && m.consumer.len() < 8 ==> next.consumer.len()
                == m.consumer.len() + 1 && next.consumer.drop_last() == m.consumer
        }),
{
    let next = m.applied(idx, Some(slot));
    assert(m.kbd.len() < 16 ==> (next.kbd == m.kbd || next.kbd.drop_last() == m.kbd));
    assert(m.consumer.len() < 8 ==> (next.consumer == m.consumer || next.consumer.drop_last()
        == m.consumer));
}

/// A tap of an input that is not held tells the host the press and the release,
/// in this order, behind whatever is queued: for a keyboard slot that shows, a
/// transition that ends with the slot held and one that ends without it; for a
/// consumer slot, its usage and then what is left of the others.
pub proof fn law_tap_tells_press_and_release(m: PadModel, idx: int)
    requires
        m.wf(),
        0 <= idx < 24,
        m.held[idx] is None,
    ensures
        ({
            let slot = m.keymap.slots@[idx];
            let held = m.held.update(idx, Some(slot));
            let next = m.tapped(idx);
            let shows = report_of(held).modifier != report_of(m.held).modifier || report_of(
                held,
            ).keycodes != report_of(m.held).keycodes;
            let k = m.kbd.len() as int;
            let c = m.consumer.len() as int;
            &&& next.held == m.held
            &&& slot.kind == SlotKind::Keyboard && shows && k + 2 <= 16 ==> {
                &&& next.kbd.len() == k + 2
                &&& next.kbd.take(k) == m.kbd
                &&& next.kbd[k].last() == report_of(held)
                &&& next.kbd[k + 1].last() == report_of(m.held)
            }
            &&& slot.kind == SlotKind::Consumer && c + 2 <= 8 ==> {
                &&& next.consumer.len() == c + 2
                &&& next.consumer.take(c) == m.consumer
                &&& next.consumer[c].usage_id == slot.code
                &&& (forall|i: int| 0 <= i < 28 ==> !is_consumer(#[trigger] m.held[i]))
                    ==> next.consumer[c + 1].usage_id == 0
            }
            &&& slot.kind == SlotKind::Consumer ==> next.kbd == m.kbd
            &&& slot.kind != SlotKind::Consumer ==> next.consumer == m.consumer
            &&& next.events == m.events && next.mouse == m.mouse && next.keymap == m.keymap
        }),
{
    let slot = m.keymap.slots@[idx];
    let pressed = m.held_set(idx, true);
    let next = m.tapped(idx);
    law_tap_holds_nothing(m, idx);
    assert(pressed.held.update(idx, None) == m.held);
    law_press_queues_behind(m, idx, slot);
    law_release_falls_back(pressed, idx, -1);
    assert(pressed.held == m.held.update(idx, Some(slot)));
    if slot.kind == SlotKind::Keyboard && m.kbd.len() + 2 <= 16 {
        assert(next.kbd.take(m.kbd.len() as int) =~= m.kbd || next.kbd.len() < m.kbd.len() + 2);
    }
    if slot.kind == SlotKind::Consumer && m.consumer.len() + 2 <= 8 {
        assert(next.consumer.take(m.consumer.len() as int) =~= m.consumer);
        if forall|i: int| 0 <= i < 28 ==> !is_consumer(#[trigger] m.held[i]) {
            assert forall|i: int| 0 <= i < 28 && i != idx implies !is_consumer(
                #[trigger] pressed.held[i],
            ) by {
                assert(!is_consumer(m.held[i]));
            }
        }
    }
}

/// An event goes to the end of its queue as it is, or is dropped whole where
/// sixteen wait already; nothing else changes.
pub proof fn law_event_is_posted_whole(m: PadModel, src: u8, a: u8, b: u8)
    requires
        m.wf(),
    ensures
        ({
            let next = m.posted(src, a, b);
            &&& m.events.len() < 16 ==> next.events.len() == m.events.len() + 1
                && next.events.drop_last() == m.events && next.events.last().src == src
                && next.events.last().a == a && next.events.last().b == b
            &&& m.events.len() == 16 ==> next.events == m.events
            &&& next == (PadModel { events: next.events, ..m })
        }),
{
    assert(m.events.push(InputEvent { src, a, b }).drop_last() == m.events);
}

/// A frame, a usage or a transition that is sent goes to the end of its queue as
/// it is. Only a full queue gives up something for it, the oldest; nothing else
/// changes.
pub proof fn law_sent_goes_last(m: PadModel, frame: MouseFrame, usage: u16)
    requires
        m.wf(),
    ensures
        ({
            let moved = m.sent_mouse(frame);
            let told = m.sent_consumer(usage);
            &&& moved.mouse.last() == frame
            &&& m.mouse.len() < 8 ==> moved.mouse.drop_last() == m.mouse
            &&& m.mouse.len() == 8 ==> moved.mouse.drop_last() == m.mouse.drop_first()
            &&& moved == (PadModel { mouse: moved.mouse, ..m })
            &&& told.consumer.last().usage_id == usage
            &&& m.consumer.len() < 8 ==> told.consumer.drop_last() == m.consumer
            &&& m.consumer.len() == 8 ==> told.consumer.drop_last() == m.consumer.drop_first()
            &&& told == (PadModel { consumer: told.consumer, ..m })
            &&& m.sent_buttons().mouse.last() == (MouseFrame {
                buttons: if m.grade_drag {
                    m.push_buttons | 1
                } else {
                    m.push_buttons
                },
                dx: 0,
                dy: 0,
            })
        }),
{
    law_newest_wins(m.mouse, frame, 8);
    law_newest_wins(m.consumer, MediaKeyboardReport { usage_id: usage }, 8);
    law_button_holds_combine(m);
}

/// A change of the keyboard is queued as it is told, behind what waits: a full
/// queue of sixteen gives up the oldest.
pub proof fn law_transition_goes_last(
    m: PadModel,
    before: ReportModel,
    after: ReportModel,
    pressed: bool,
)
    requires
        m.wf(),
    ensures
        ({
            let next = m.sent_keyboard(before, after, pressed);
            &&& before.modifier == after.modifier && before.keycodes == after.keycodes ==> next == m
            &&& before.modifier != after.modifier || before.keycodes != after.keycodes ==> {
                &&& next.kbd.last().last() == after
                &&& Some(next.kbd.last()) == transition_of(before, after, pressed)
                &&& m.kbd.len() < 16 ==> next.kbd.drop_last() == m.kbd
                &&& m.kbd.len() == 16 ==> next.kbd.drop_last() == m.kbd.drop_first()
            }
            &&& next == (PadModel { kbd: next.kbd, ..m })
        }),
{
    law_transition_ends_in_new_state(before, after, pressed);
    law_equal_states_tell_nothing(before, after, pressed);
    if let Some(t) = transition_of(before, after, pressed) {
        law_newest_wins(m.kbd, t, 16);
    }
}

/// The left button is down exactly while the push switch or the auto-drag holds
/// it; the other buttons are the push switch's.
pub proof fn law_buttons_are_exact(m: PadModel)
    ensures
        m.grade_drag ==> m.buttons() == m.push_buttons | 1,
        !m.grade_drag ==> m.buttons() == m.push_buttons,
{
    law_button_holds_combine(m);
}

/// However full the queues are, a press or a release that shows puts behind what
/// waits just the transition between the two composite reports, told as a press or
/// as a release; one that does not show puts nothing. A consumer slot puts one
/// usage behind what waits. A full queue gives up its oldest for it.
pub proof fn law_changes_queue_their_transition(m: PadModel, idx: int, slot: Slot, pressed: bool)
    requires
        m.wf(),
        0 <= idx < 28,
        pressed ==> m.held[idx] is None,
        !pressed ==> m.held[idx] == Some(slot),
    ensures
        ({
            let press = if pressed {
                Some(slot)
            } else {
                None
            };
            let next = m.applied(idx, press);
            let before = report_of(m.held);
            let after = report_of(m.held.update(idx, press));
            let shows = before.modifier != after.modifier || before.keycodes != after.keycodes;
            &&& next.held == m.held.update(idx, press)
            &&& slot.kind == SlotKind::Consumer || !shows ==> next.kbd == m.kbd
            &&& slot.kind != SlotKind::Consumer && shows ==> {
                &&& Some(next.kbd.last()) == transition_of(before, after, pressed)
                &&& m.kbd.len() < 16 ==> next.kbd.drop_last() == m.kbd
                &&& m.kbd.len() == 16 ==> next.kbd.drop_last() == m.kbd.drop_first()
            }
            &&& slot.kind != SlotKind::Consumer ==> next.consumer == m.consumer
            &&& slot.kind == SlotKind::Consumer ==> {
                &&& m.consumer.len() < 8 ==> next.consumer.drop_last() == m.consumer
                &&& m.consumer.len() == 8 ==> next.consumer.drop_last() == m.consumer.drop_first()
            }
        }),
{
    let press = if pressed {
        Some(slot)
    } else {
        None
    };
    let before = report_of(m.held);
    let after = report_of(m.held.update(idx, press));
    let changed = PadModel { held: m.held.update(idx, press), ..m };
    law_transition_goes_last(changed, before, after, pressed);
    let usage = if pressed {
        slot.code
    } else {
        first_usage(changed.held)
    };
    law_newest_wins(m.consumer, MediaKeyboardReport { usage_id: usage }, 8);
    if slot.kind == SlotKind::Consumer {
        lemma_report_ignores(m.held, idx, press);
    }
}

} // verus!
