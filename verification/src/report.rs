//! Keyboard reports and the order in which a change of them reaches the host.

use vstd::prelude::*;

use crate::keymap::{Slot, SlotKind};

verus! {

/// Extra held entries for macro playback.
pub const MACRO_SLOTS: usize = 4;

/// Length of the held set: one entry per input, then the macro entries.
pub const HELD_LEN: usize = 28;

/// Key codes that fit in one report.
pub const ROLLOVER: usize = 6;

/// A boot-keyboard input report.
#[derive(Clone, Copy, Debug, PartialEq, Eq)]
pub struct KeyboardReport {
    pub modifier: u8,
    pub reserved: u8,
    pub leds: u8,
    pub keycodes: [u8; 6],
}

/// What a keyboard report says.
#[verifier::ext_equal]
pub ghost struct ReportModel {
    pub modifier: u8,
    pub reserved: u8,
    pub leds: u8,
    pub keycodes: Seq<u8>,
}

impl View for KeyboardReport {
    type V = ReportModel;

    open spec fn view(&self) -> ReportModel {
        ReportModel {
            modifier: self.modifier,
            reserved: self.reserved,
            leds: self.leds,
            keycodes: self.keycodes@,
        }
    }
}

/// One change of the keyboard state: the report that tells it, or the two
/// reports, to be sent in order.
#[derive(Clone, Copy, Debug, PartialEq, Eq)]
pub struct KeyboardTransition {
    pub first: KeyboardReport,
    pub second: Option<KeyboardReport>,
}

/// What a transition says.
#[verifier::ext_equal]
pub ghost struct TransitionModel {
    pub first: ReportModel,
    pub second: Option<ReportModel>,
}

impl View for KeyboardTransition {
    type V = TransitionModel;

    open spec fn view(&self) -> TransitionModel {
        TransitionModel {
            first: self.first@,
            second: match self.second {
                Some(report) => Some(report@),
                None => None,
            },
        }
    }
}

impl TransitionModel {
    /// The state the host is left in once the whole transition is sent.
    pub open spec fn last(self) -> ReportModel {
        match self.second {
            Some(report) => report,
            None => self.first,
        }
    }
}

impl KeyboardTransition {
    /// A change told by one report.
    pub fn single(report: KeyboardReport) -> (transition: Self)
        ensures
            transition@ == (TransitionModel { first: report@, second: None }),
    {
        Self { first: report, second: None }
    }

    /// A change told by two reports.
    pub fn pair(first: KeyboardReport, second: KeyboardReport) -> (transition: Self)
        ensures
            transition@ == (TransitionModel { first: first@, second: Some(second@) }),
    {
        Self { first, second: Some(second) }
    }
}

/// The report of a keyboard with nothing pressed.
pub open spec fn empty_report() -> ReportModel {
    ReportModel {
        modifier: 0,
        reserved: 0,
        leds: 0,
        keycodes: Seq::new(ROLLOVER as nat, |i: int| 0u8),
    }
}

/// The first six of `codes`, with zeros behind them.
pub open spec fn padded(codes: Seq<u8>) -> Seq<u8> {
    Seq::new(
        ROLLOVER as nat,
        |i: int|
            if i < codes.len() {
                codes[i]
            } else {
                0u8
            },
    )
}

/// The modifiers of every held keyboard slot, together.
pub open spec fn held_mods(held: Seq<Option<Slot>>) -> u8
    decreases held.len(),
{
    if held.len() == 0 {
        0
    } else {
        match held.last() {
            Some(slot) => if slot.kind == SlotKind::Keyboard {
                held_mods(held.drop_last()) | slot.mods
            } else {
                held_mods(held.drop_last())
            },
            None => held_mods(held.drop_last()),
        }
    }
}

/// The key codes of the held keyboard slots, each once, in the order of the
/// entries that hold them first. Code 0 is no key.
pub open spec fn held_codes(held: Seq<Option<Slot>>) -> Seq<u8>
    decreases held.len(),
{
    if held.len() == 0 {
        Seq::empty()
    } else {
        let codes = held_codes(held.drop_last());
        match held.last() {
            Some(slot) => if slot.kind == SlotKind::Keyboard && slot.code as u8 != 0
                && !codes.contains(slot.code as u8) {
                codes.push(slot.code as u8)
            } else {
                codes
            },
            None => codes,
        }
    }
}

/// The composite report of everything held.
pub open spec fn report_of(held: Seq<Option<Slot>>) -> ReportModel {
    ReportModel {
        modifier: held_mods(held),
        reserved: 0,
        leds: 0,
        keycodes: padded(held_codes(held)),
    }
}

/// The report of a keyboard with nothing pressed.
pub fn empty_keyboard_report() -> (report: KeyboardReport)
    ensures
        report@ == empty_report(),
{
    KeyboardReport { modifier: 0, reserved: 0, leds: 0, keycodes: [0; 6] }
}

/// Whether `code` is among the first `n` of `codes`.
fn has_code(codes: &[u8; 6], n: usize, code: u8) -> (found: bool)
    requires
        n <= 6,
    ensures
        found == codes@.take(n as int).contains(code),
{
    let mut i: usize = 0;
    while i < n
        invariant
            i <= n <= 6,
            forall|j: int| 0 <= j < i ==> codes@[j] != code,
        decreases n - i,
    {
        if codes[i] == code {
            assert(codes@.take(n as int)[i as int] == code);
            return true;
        }
        i += 1;
    }
    false
}

/// Builds the composite report of everything held: modifiers OR-ed across
/// every held keyboard slot, and the first six distinct codes.
pub fn keyboard_report(held: &[Option<Slot>; HELD_LEN]) -> (report: KeyboardReport)
    ensures
        report@ == report_of(held@),
{
    let mut modifier: u8 = 0;
    let mut keycodes: [u8; 6] = [0; 6];
    let mut n: usize = 0;
    let mut i: usize = 0;
    while i < HELD_LEN
        invariant
            i <= HELD_LEN,
            held@.len() == HELD_LEN,
            modifier == held_mods(held@.take(i as int)),
            keycodes@ == padded(held_codes(held@.take(i as int))),
            n == if held_codes(held@.take(i as int)).len() < 6 {
                held_codes(held@.take(i as int)).len() as int
            } else {
                6
            },
        decreases HELD_LEN - i,
    {
        let ghost codes = held_codes(held@.take(i as int));
        assert(held@.take(i + 1).drop_last() == held@.take(i as int));
        assert(held@.take(i + 1).last() == held@[i as int]);
        if let Some(slot) = held[i] {
            if slot.kind == SlotKind::Keyboard {
                modifier = modifier | slot.mods;
                let code: u8 = slot.code as u8;
                if n < 6 {
                    assert(keycodes@.take(n as int) == codes);
                }
                if code != 0 && n < 6 && !has_code(&keycodes, n, code) {
                    keycodes[n] = code;
                    n += 1;
                }
            }
        }
        i += 1;
    }
    assert(held@.take(HELD_LEN as int) == held@);
    KeyboardReport { modifier, reserved: 0, leds: 0, keycodes }
}

/// Two reports say the same to the host.
pub open spec fn same_report(a: ReportModel, b: ReportModel) -> bool {
    a.modifier == b.modifier && a.keycodes == b.keycodes
}

/// Some key is down in `after` that is not in `before`.
pub open spec fn adds_key(before: ReportModel, after: ReportModel) -> bool {
    exists|code: u8|
        code != 0 && #[trigger] after.keycodes.contains(code) && !before.keycodes.contains(code)
}

/// The keys of `before` that stay down in `after`, in the order of `before`.
pub open spec fn retained(before: ReportModel, after: ReportModel) -> Seq<u8> {
    before.keycodes.filter(|code: u8| code != 0 && after.keycodes.contains(code))
}

/// How the change from `before` to `after` is told. Where modifiers and keys
/// change together, a press settles the modifiers one report before the keys
/// and a release retires the keys one report before the modifiers.
pub open spec fn transition_of(before: ReportModel, after: ReportModel, pressed: bool) -> Option<
    TransitionModel,
> {
    if same_report(before, after) {
        None
    } else if before.modifier != after.modifier && pressed && adds_key(before, after) {
        Some(
            TransitionModel {
                first: ReportModel {
                    modifier: after.modifier,
                    reserved: 0,
                    leds: 0,
                    keycodes: before.keycodes,
                },
                second: Some(after),
            },
        )
    } else if before.modifier != after.modifier && !pressed && adds_key(after, before) {
        Some(
            TransitionModel {
                first: ReportModel {
                    modifier: before.modifier,
                    reserved: 0,
                    leds: 0,
                    keycodes: padded(retained(before, after)),
                },
                second: Some(after),
            },
        )
    } else {
        Some(TransitionModel { first: after, second: None })
    }
}

/// Whether two reports say the same to the host.
pub fn same_keyboard_report(a: &KeyboardReport, b: &KeyboardReport) -> (same: bool)
    ensures
        same == same_report(a@, b@),
{
    if a.modifier != b.modifier {
        return false;
    }
    let mut i: usize = 0;
    while i < 6
        invariant
            i <= 6,
            forall|j: int| 0 <= j < i ==> a.keycodes@[j] == b.keycodes@[j],
        decreases 6 - i,
    {
        if a.keycodes[i] != b.keycodes[i] {
            return false;
        }
        i += 1;
    }
    assert(a.keycodes@ == b.keycodes@);
    true
}

/// Whether some key is down in `after` that is not in `before`.
pub fn has_added_key(before: &KeyboardReport, after: &KeyboardReport) -> (added: bool)
    ensures
        added == adds_key(before@, after@),
{
    assert(before.keycodes@.take(6) == before.keycodes@);
    let mut i: usize = 0;
    while i < 6
        invariant
            i <= 6,
            before.keycodes@.take(6) == before.keycodes@,
            forall|j: int|
                0 <= j < i ==> after.keycodes@[j] == 0 || before.keycodes@.contains(
                    #[trigger] after.keycodes@[j],
                ),
        decreases 6 - i,
    {
        let code: u8 = after.keycodes[i];
        if code != 0 && !has_code(&before.keycodes, 6, code) {
            assert(after@.keycodes.contains(code));
            return true;
        }
        i += 1;
    }
    false
}

/// Whether some key is down in `before` that is not in `after`.
pub fn has_removed_key(before: &KeyboardReport, after: &KeyboardReport) -> (removed: bool)
    ensures
        removed == adds_key(after@, before@),
{
    has_added_key(after, before)
}

/// The keys visible in both reports, in the order of `before`.
pub fn retained_keycodes(before: &KeyboardReport, after: &KeyboardReport) -> (keycodes: [u8; 6])
    ensures
        keycodes@ == padded(retained(before@, after@)),
{
    let ghost keep = |code: u8| code != 0 && after.keycodes@.contains(code);
    let mut keycodes: [u8; 6] = [0; 6];
    let mut n: usize = 0;
    let mut i: usize = 0;
    assert(after.keycodes@.take(6) == after.keycodes@);
    proof {
        reveal(Seq::filter);
    }
    assert(before.keycodes@.take(0) == Seq::<u8>::empty());
    while i < 6
        invariant
            n <= i <= 6,
            after.keycodes@.take(6) == after.keycodes@,
            keep == (|code: u8| code != 0 && after.keycodes@.contains(code)),
            n == before.keycodes@.take(i as int).filter(keep).len(),
            keycodes@ == padded(before.keycodes@.take(i as int).filter(keep)),
        decreases 6 - i,
    {
        let code: u8 = before.keycodes[i];
        proof {
            reveal(Seq::filter);
            assert(before.keycodes@.take(i + 1).drop_last() == before.keycodes@.take(i as int));
            assert(before.keycodes@.take(i + 1).last() == code);
        }
        if code != 0 && has_code(&after.keycodes, 6, code) {
            keycodes[n] = code;
            n += 1;
        }
        i += 1;
    }
    assert(before.keycodes@.take(6) == before.keycodes@);
    keycodes
}

/// How the change from `before` to `after` is told to the host; `None` when
/// there is nothing to tell.
pub fn keyboard_transition(
    before: KeyboardReport,
    after: KeyboardReport,
    pressed: bool,
) -> (transition: Option<KeyboardTransition>)
    ensures
        transition is Some == transition_of(before@, after@, pressed) is Some,
        transition matches Some(t) ==> transition_of(before@, after@, pressed) == Some(t@),
{
    if same_keyboard_report(&before, &after) {
        return None;
    }
    let intermediate: Option<KeyboardReport> = if before.modifier != after.modifier {
        if pressed && has_added_key(&before, &after) {
            Some(
                KeyboardReport {
                    modifier: after.modifier,
                    reserved: 0,
                    leds: 0,
                    keycodes: before.keycodes,
                },
            )
        } else if !pressed && has_removed_key(&before, &after) {
            // At the rollover limit, releasing one key can expose another that
            // was truncated before. Keep only keys visible in both states, so
            // that the newly exposed one is never pressed under the modifiers
            // that are being retired.
            proof {
                lemma_retained(before@, after@);
            }
            Some(
                KeyboardReport {
                    modifier: before.modifier,
                    reserved: 0,
                    leds: 0,
                    keycodes: retained_keycodes(&before, &after),
                },
            )
        } else {
            None
        }
    } else {
        None
    };
    match intermediate {
        Some(first) => if !same_keyboard_report(&before, &first) && !same_keyboard_report(
            &first,
            &after,
        ) {
            Some(KeyboardTransition::pair(first, after))
        } else {
            Some(KeyboardTransition::single(after))
        },
        None => Some(KeyboardTransition::single(after)),
    }
}

/// The retained keys are exactly the keys that are down in both reports.
proof fn lemma_retained(before: ReportModel, after: ReportModel)
    requires
        before.keycodes.len() == ROLLOVER,
    ensures
        retained(before, after).len() <= ROLLOVER,
        forall|code: u8|
            code != 0 ==> (padded(retained(before, after)).contains(code) <==> (
            before.keycodes.contains(code) && after.keycodes.contains(code))),
{
    let keep = |code: u8| code != 0 && after.keycodes.contains(code);
    let kept = before.keycodes.filter(keep);
    before.keycodes.lemma_filter_len(keep);
    assert forall|code: u8| code != 0 implies (padded(kept).contains(code) <==> (
    before.keycodes.contains(code) && after.keycodes.contains(code))) by {
        if padded(kept).contains(code) {
            let i = choose|i: int| 0 <= i < ROLLOVER && padded(kept)[i] == code;
            assert(kept[i] == code && keep(kept[i]));
            before.keycodes.lemma_filter_contains_rev(keep, kept[i]);
        }
        if before.keycodes.contains(code) && after.keycodes.contains(code) {
            let j = choose|j: int| 0 <= j < before.keycodes.len() && before.keycodes[j] == code;
            assert(keep(before.keycodes[j]));
            assert(kept.contains(before.keycodes[j]));
            let i = choose|i: int| 0 <= i < kept.len() && kept[i] == code;
            assert(padded(kept)[i] == code);
        }
    }
}

/// Every transition leaves the host in the new state, whole; there is none
/// exactly when the two states say the same.
pub proof fn law_transition_ends_in_new_state(
    before: ReportModel,
    after: ReportModel,
    pressed: bool,
)
    ensures
        transition_of(before, after, pressed) is None <==> same_report(before, after),
        transition_of(before, after, pressed) matches Some(t) ==> t.last() == after,
{
}

/// A press that brings both new modifiers and a new key shows the modifiers
/// first, over the keys that were down already, and the new key after them.
pub proof fn law_press_settles_modifiers_first(before: ReportModel, after: ReportModel)
    requires
        before.modifier != after.modifier,
        adds_key(before, after),
    ensures
        transition_of(before, after, true) matches Some(t) && {
            &&& t.second == Some(after)
            &&& t.first.modifier == after.modifier
            &&& t.first.keycodes == before.keycodes
            &&& !same_report(before, t.first)
            &&& !same_report(t.first, after)
        },
{
}

/// A release that takes both modifiers and a key away shows the key gone
/// first, under the old modifiers. That first report holds exactly the keys
/// that are down before and after: no key appears under modifiers that are
/// being retired.
pub proof fn law_release_retires_keys_first(before: ReportModel, after: ReportModel)
    requires
        before.keycodes.len() == ROLLOVER,
        before.modifier != after.modifier,
        adds_key(after, before),
    ensures
        transition_of(before, after, false) matches Some(t) && {
            &&& t.second == Some(after)
            &&& t.first.modifier == before.modifier
            &&& forall|code: u8|
                code != 0 ==> (#[trigger] t.first.keycodes.contains(code) <==> (
                before.keycodes.contains(code) && after.keycodes.contains(code)))
            &&& !adds_key(before, t.first)
            &&& !same_report(before, t.first)
            &&& !same_report(t.first, after)
        },
{
    lemma_retained(before, after);
    let code = choose|code: u8|
        code != 0 && #[trigger] before.keycodes.contains(code) && !after.keycodes.contains(code);
    assert(!padded(retained(before, after)).contains(code));
}

/// A modifier bit is set in the composite report exactly when some held
/// keyboard slot carries it.
pub proof fn law_report_modifiers(held: Seq<Option<Slot>>, mask: u8)
    ensures
        held_mods(held) & mask != 0 <==> exists|i: int|
            0 <= i < held.len() && (#[trigger] held[i] matches Some(slot) && slot.kind
                == SlotKind::Keyboard && slot.mods & mask != 0),
    decreases held.len(),
{
    if held.len() == 0 {
        assert(0u8 & mask == 0) by (bit_vector);
    } else {
        let rest = held.drop_last();
        law_report_modifiers(rest, mask);
        assert forall|i: int| 0 <= i < rest.len() implies rest[i] == held[i] by {}
        let last = held[held.len() - 1];
        if let Some(slot) = last {
            let m = held_mods(rest);
            let b = slot.mods;
            assert((m | b) & mask != 0 <==> (m & mask != 0 || b & mask != 0)) by (bit_vector);
        }
        if held_mods(rest) & mask != 0 {
            let i = choose|i: int|
                0 <= i < rest.len() && (#[trigger] rest[i] matches Some(slot) && slot.kind
                    == SlotKind::Keyboard && slot.mods & mask != 0);
            assert(held[i] == rest[i]);
        }
        if exists|i: int|
            0 <= i < held.len() && (#[trigger] held[i] matches Some(slot) && slot.kind
                == SlotKind::Keyboard && slot.mods & mask != 0) {
            let i = choose|i: int|
                0 <= i < held.len() && (#[trigger] held[i] matches Some(slot) && slot.kind
                    == SlotKind::Keyboard && slot.mods & mask != 0);
            if i < rest.len() {
                assert(rest[i] == held[i]);
            }
        }
    }
}

/// A slot that presses the key `code`.
pub open spec fn presses(entry: Option<Slot>, code: u8) -> bool {
    entry matches Some(slot) && slot.kind == SlotKind::Keyboard && slot.code as u8 == code
}

/// The codes that the composite report draws on are those of the held
/// keyboard slots, each once.
pub proof fn law_report_codes(held: Seq<Option<Slot>>)
    ensures
        held_codes(held).no_duplicates(),
        forall|code: u8|
            #[trigger] held_codes(held).contains(code) <==> code != 0 && exists|i: int|
                0 <= i < held.len() && presses(#[trigger] held[i], code),
    decreases held.len(),
{
    if held.len() > 0 {
        let rest = held.drop_last();
        let codes = held_codes(rest);
        law_report_codes(rest);
        let last = held.len() - 1;
        assert forall|code: u8| #[trigger]
            held_codes(held).contains(code) <==> code != 0 && exists|i: int|
                0 <= i < held.len() && presses(#[trigger] held[i], code) by {
            if held_codes(held).contains(code) {
                let k = choose|k: int|
                    0 <= k < held_codes(held).len() && held_codes(held)[k] == code;
                if k < codes.len() {
                    assert(codes.contains(code));
                    let i = choose|i: int| 0 <= i < rest.len() && presses(#[trigger] rest[i], code);
                    assert(held[i] == rest[i]);
                } else {
                    assert(presses(held[last], code));
                }
            }
            if code != 0 && exists|i: int|
                0 <= i < held.len() && presses(#[trigger] held[i], code) {
                let i = choose|i: int| 0 <= i < held.len() && presses(#[trigger] held[i], code);
                if i < last {
                    assert(rest[i] == held[i]);
                    assert(codes.contains(code));
                    let k = choose|k: int| 0 <= k < codes.len() && codes[k] == code;
                    assert(held_codes(held)[k] == code);
                } else if !codes.contains(code) {
                    assert(held_codes(held)[codes.len() as int] == code);
                } else {
                    assert(held_codes(held) == codes);
                }
            }
        }
    }
}

/// Earlier codes were held by earlier entries.
proof fn lemma_codes_in_order(held: Seq<Option<Slot>>, a: int, b: int, j: int)
    requires
        0 <= a < b < held_codes(held).len(),
        0 <= j < held.len(),
        presses(held[j], held_codes(held)[b]),
    ensures
        exists|i: int| 0 <= i < j && presses(#[trigger] held[i], held_codes(held)[a]),
    decreases held.len(),
{
    let rest = held.drop_last();
    let codes = held_codes(rest);
    let last = held.len() - 1;
    law_report_codes(rest);
    law_report_codes(held);
    if j < last {
        assert(rest[j] == held[j]);
        if b < codes.len() {
            lemma_codes_in_order(rest, a, b, j);
            let i = choose|i: int| 0 <= i < j && presses(#[trigger] rest[i], codes[a]);
            assert(held[i] == rest[i]);
        } else {
            assert(held_codes(held).contains(held_codes(held)[b]));
            assert(codes.contains(held_codes(held)[b]));
        }
    } else {
        assert(a < codes.len());
        assert(codes.contains(codes[a]));
        let i = choose|i: int| 0 <= i < rest.len() && presses(#[trigger] rest[i], codes[a]);
        assert(held[i] == rest[i]);
    }
}

/// The composite report holds six codes, packed to the front and each once, and
/// nothing in its reserved bytes. A code is shown only if some entry presses it;
/// a pressed code is missing only where six others are shown that earlier
/// entries press; and codes are shown in the order of the entries.
pub proof fn law_report_shows_held(held: Seq<Option<Slot>>)
    ensures
        report_of(held).keycodes.len() == 6,
        report_of(held).reserved == 0,
        report_of(held).leds == 0,
        forall|a: int, b: int|
            #![trigger report_of(held).keycodes[a], report_of(held).keycodes[b]]
            0 <= a < b < 6 && report_of(held).keycodes[b] != 0 ==> report_of(held).keycodes[a] != 0
                && report_of(held).keycodes[a] != report_of(held).keycodes[b],
        forall|a: int|
            0 <= a < 6 && (#[trigger] report_of(held).keycodes[a]) != 0 ==> exists|i: int|
                0 <= i < held.len() && presses(#[trigger] held[i], report_of(held).keycodes[a]),
        forall|j: int, code: u8, a: int|
            #![trigger presses(held[j], code), report_of(held).keycodes[a]]
            0 <= j < held.len() && code != 0 && presses(held[j], code) && 0 <= a < 6
                && !report_of(held).keycodes.contains(code) ==> report_of(held).keycodes[a] != 0
                && exists|i: int|
                0 <= i < j && presses(#[trigger] held[i], report_of(held).keycodes[a]),
        forall|a: int, b: int, j: int|
            #![trigger report_of(held).keycodes[a], presses(held[j], report_of(held).keycodes[b])]
            0 <= a < b < 6 && report_of(held).keycodes[b] != 0 && 0 <= j < held.len() && presses(
                held[j],
                report_of(held).keycodes[b],
            ) ==> report_of(held).keycodes[a] != 0 && exists|i: int|
                0 <= i < j && presses(#[trigger] held[i], report_of(held).keycodes[a]),
{
    law_report_codes(held);
    let codes = held_codes(held);
    let shown = report_of(held).keycodes;
    assert forall|k: int| 0 <= k < codes.len() implies #[trigger] codes[k] != 0 by {
        assert(codes.contains(codes[k]));
    }
    assert forall|a: int| 0 <= a < 6 && (#[trigger] shown[a]) != 0 implies exists|i: int|
        0 <= i < held.len() && presses(#[trigger] held[i], shown[a]) by {
        assert(codes.contains(codes[a]));
    }
    assert forall|j: int, code: u8, a: int|
        #![trigger presses(held[j], code), shown[a]]
        0 <= j < held.len() && code != 0 && presses(held[j], code) && 0 <= a < 6
            && !shown.contains(code) implies shown[a] != 0 && exists|i: int|
        0 <= i < j && presses(#[trigger] held[i], shown[a]) by {
        assert(codes.contains(code));
        let k = choose|k: int| 0 <= k < codes.len() && codes[k] == code;
        if k < 6 {
            assert(shown[k] == code);
        }
        lemma_codes_in_order(held, a, k, j);
    }
    assert forall|a: int, b: int, j: int|
        #![trigger shown[a], presses(held[j], shown[b])]
        0 <= a < b < 6 && shown[b] != 0 && 0 <= j < held.len() && presses(
            held[j],
            shown[b],
        ) implies shown[a] != 0 && exists|i: int|
        0 <= i < j && presses(#[trigger] held[i], shown[a]) by {
        lemma_codes_in_order(held, a, b, j);
    }
}

/// A modifier bit is set in the composite report exactly when some held
/// keyboard slot carries it.
pub proof fn law_report_carries_modifiers(held: Seq<Option<Slot>>, mask: u8)
    ensures
        report_of(held).modifier & mask != 0 <==> exists|i: int|
            0 <= i < held.len() && (#[trigger] held[i] matches Some(slot) && slot.kind
                == SlotKind::Keyboard && slot.mods & mask != 0),
{
    law_report_modifiers(held, mask);
}

/// Every report of a transition keeps down the keys that are down before and
/// after, shows no key that is down in neither, and carries the modifiers of
/// one of the two states. The last one is the new state.
pub proof fn law_transition_keeps_held_keys(
    before: ReportModel,
    after: ReportModel,
    pressed: bool,
    code: u8,
)
    requires
        before.keycodes.len() == 6,
        code != 0,
    ensures
        transition_of(before, after, pressed) matches Some(t) ==> {
            &&& before.keycodes.contains(code) && after.keycodes.contains(code)
                ==> t.first.keycodes.contains(code)
            &&& t.first.keycodes.contains(code) ==> before.keycodes.contains(code)
                || after.keycodes.contains(code)
            &&& t.first.modifier == before.modifier || t.first.modifier == after.modifier
            &&& t.second is None ==> t.first == after
            &&& t.second is Some ==> t.second == Some(after) && t.first.reserved == 0
                && t.first.leds == 0
        },
{
    lemma_retained(before, after);
}

/// Nothing is told exactly when modifiers and keys are the same.
pub proof fn law_equal_states_tell_nothing(
    before: ReportModel,
    after: ReportModel,
    pressed: bool,
)
    ensures
        transition_of(before, after, pressed) is None <==> before.modifier == after.modifier
            && before.keycodes == after.keycodes,
{
}

/// A change is told by one report, the new state, unless modifiers and keys
/// change together: where the modifiers stay, where a press brings no new key,
/// and where a release takes none away.
pub proof fn law_plain_change_is_one_report(
    before: ReportModel,
    after: ReportModel,
    pressed: bool,
)
    requires
        before.modifier != after.modifier || before.keycodes != after.keycodes,
        before.modifier == after.modifier || (pressed && forall|code: u8|
            code != 0 && #[trigger] after.keycodes.contains(code) ==> before.keycodes.contains(
                code,
            )) || (!pressed && forall|code: u8|
            code != 0 && #[trigger] before.keycodes.contains(code) ==> after.keycodes.contains(
                code,
            )),
    ensures
        transition_of(before, after, pressed) == Some(
            TransitionModel { first: after, second: None },
        ),
{
}

/// A press that brings new modifiers and the new key `code` takes two reports:
/// the new modifiers over the old keys, then the new state.
pub proof fn law_chord_press_takes_two_reports(
    before: ReportModel,
    after: ReportModel,
    code: u8,
)
    requires
        before.modifier != after.modifier,
        code != 0,
        after.keycodes.contains(code),
        !before.keycodes.contains(code),
    ensures
        transition_of(before, after, true) == Some(
            TransitionModel {
                first: ReportModel {
                    modifier: after.modifier,
                    reserved: 0,
                    leds: 0,
                    keycodes: before.keycodes,
                },
                second: Some(after),
            },
        ),
{
}

/// Filtering keeps the order.
proof fn lemma_filter_order(s: Seq<u8>, keep: spec_fn(u8) -> bool, a: int, b: int)
    requires
        0 <= a < b < s.filter(keep).len(),
    ensures
        exists|p: int, q: int|
            0 <= p < q < s.len() && #[trigger] s[p] == s.filter(keep)[a] && #[trigger] s[q]
                == s.filter(keep)[b],
    decreases s.len(),
{
    reveal(Seq::filter);
    let rest = s.drop_last();
    let kept = rest.filter(keep);
    if b < kept.len() {
        lemma_filter_order(rest, keep, a, b);
        let (p, q) = choose|p: int, q: int|
            0 <= p < q < rest.len() && #[trigger] rest[p] == kept[a] && #[trigger] rest[q]
                == kept[b];
        assert(s[p] == rest[p] && s[q] == rest[q]);
    } else {
        assert(kept.contains(kept[a]));
        rest.lemma_filter_contains_rev(keep, kept[a]);
        let p = choose|p: int| 0 <= p < rest.len() && rest[p] == kept[a];
        assert(s[p] == kept[a] && s[s.len() - 1] == s.filter(keep)[b]);
    }
}

/// A release that takes modifiers and the key `code` away takes two reports:
/// the keys that stay, packed in their old order under the old modifiers and
/// without `code`, then the new state.
pub proof fn law_chord_release_takes_two_reports(
    before: ReportModel,
    after: ReportModel,
    code: u8,
)
    requires
        before.keycodes.len() == 6,
        before.modifier != after.modifier,
        code != 0,
        before.keycodes.contains(code),
        !after.keycodes.contains(code),
    ensures
        transition_of(before, after, false) matches Some(t) && {
            &&& t.second == Some(after)
            &&& t.first.modifier == before.modifier
            &&& t.first.keycodes.len() == 6
            &&& !t.first.keycodes.contains(code)
            &&& forall|a: int, b: int|
                #![trigger t.first.keycodes[a], t.first.keycodes[b]]
                0 <= a < b < 6 && t.first.keycodes[b] != 0 ==> t.first.keycodes[a] != 0
                    && exists|p: int, q: int|
                    0 <= p < q < 6 && #[trigger] before.keycodes[p] == t.first.keycodes[a]
                        && #[trigger] before.keycodes[q] == t.first.keycodes[b]
        },
{
    lemma_retained(before, after);
    let keep = |c: u8| c != 0 && after.keycodes.contains(c);
    let kept = before.keycodes.filter(keep);
    let t = transition_of(before, after, false)->0;
    assert(adds_key(after, before));
    assert(!padded(kept).contains(code));
    assert forall|a: int, b: int|
        #![trigger t.first.keycodes[a], t.first.keycodes[b]]
        0 <= a < b < 6 && t.first.keycodes[b] != 0 implies t.first.keycodes[a] != 0 && exists|
        p: int,
        q: int,
    |
        0 <= p < q < 6 && #[trigger] before.keycodes[p] == t.first.keycodes[a]
            && #[trigger] before.keycodes[q] == t.first.keycodes[b] by {
        lemma_filter_order(before.keycodes, keep, a, b);
        assert(kept.contains(kept[a]));
        before.keycodes.lemma_filter_contains_rev(keep, kept[a]);
        before.keycodes.lemma_filter_pred(keep, a);
    }
}

/// Comparing reports goes by modifiers and by each of the six codes.
pub proof fn law_report_comparisons(a: ReportModel, b: ReportModel, code: u8)
    requires
        a.keycodes.len() == 6,
        b.keycodes.len() == 6,
    ensures
        same_report(a, b) <==> a.modifier == b.modifier && forall|i: int|
            0 <= i < 6 ==> #[trigger] a.keycodes[i] == b.keycodes[i],
        code != 0 && b.keycodes.contains(code) && !a.keycodes.contains(code) ==> adds_key(a, b),
        (forall|c: u8| c != 0 && #[trigger] b.keycodes.contains(c) ==> a.keycodes.contains(c))
            ==> !adds_key(a, b),
        code != 0 ==> (padded(retained(a, b)).contains(code) <==> a.keycodes.contains(code)
            && b.keycodes.contains(code)),
        empty_report().modifier == 0,
        empty_report().reserved == 0,
        empty_report().leds == 0,
        empty_report().keycodes.len() == 6,
        code != 0 ==> !empty_report().keycodes.contains(code),
{
    lemma_retained(a, b);
    if a.modifier == b.modifier && forall|i: int|
        0 <= i < 6 ==> #[trigger] a.keycodes[i] == b.keycodes[i] {
        assert(a.keycodes =~= b.keycodes);
    }
}

} // verus!
