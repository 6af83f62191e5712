//! The touch pad: a charge time against a floating baseline.

use vstd::prelude::*;

use crate::codex::{route_tap, CodexCall, CodexSource, CodexStatus};
use crate::encoder::law_tapped_leaves_rest;
use crate::guarantees::law_event_is_posted_whole;
use crate::keymap::SLOT_TOUCH_TAP;
use crate::pad::{post_event, Pad, PadModel};

verus! {

/// Charge cycles summed per reading.
pub const TOUCH_CYCLES: usize = 64;

/// Polls after which one charge cycle is given up.
pub const TOUCH_MAX_COUNT: u32 = 2_000;

/// Largest reading.
pub const TOUCH_MAX: u32 = 128_000;

/// The sum of the charge times.
pub open spec fn total(counts: Seq<u32>) -> int
    decreases counts.len(),
{
    if counts.len() == 0 {
        0
    } else {
        total(counts.drop_last()) + counts.last()
    }
}

/// Sums the charge cycles of one reading. One cycle tells touched from
/// untouched by a handful of counts only; the sum gives the threshold
/// something to bite on.
pub fn charge_time(counts: &[u32; TOUCH_CYCLES]) -> (t: u32)
    requires
        forall|i: int| 0 <= i < TOUCH_CYCLES ==> #[trigger] counts@[i] <= TOUCH_MAX_COUNT,
    ensures
        t == total(counts@),
        t <= TOUCH_MAX,
{
    let mut t: u32 = 0;
    let mut i: usize = 0;
    while i < TOUCH_CYCLES
        invariant
            i <= TOUCH_CYCLES,
            t == total(counts@.take(i as int)),
            t <= i * TOUCH_MAX_COUNT,
            forall|j: int| 0 <= j < TOUCH_CYCLES ==> #[trigger] counts@[j] <= TOUCH_MAX_COUNT,
        decreases TOUCH_CYCLES - i,
    {
        assert(counts@.take(i + 1).drop_last() == counts@.take(i as int));
        t = t + counts[i];
        i += 1;
    }
    assert(counts@.take(TOUCH_CYCLES as int) == counts@);
    t
}

/// What the touch task remembers.
#[derive(Clone, Copy, Debug, PartialEq, Eq, Structural)]
pub struct Touch {
    /// Running average of the untouched pad; 0 before the first reading.
    pub baseline: u32,
    /// Whether the next touch is a tap.
    pub armed: bool,
}

impl Touch {
    /// The baseline is one that readings can make.
    pub open spec fn wf(self) -> bool {
        self.baseline <= TOUCH_MAX
    }

    /// The baseline that a reading is held against: the first reading makes it.
    pub open spec fn reference(self, t: u32) -> u32 {
        if self.baseline == 0 {
            t
        } else {
            self.baseline
        }
    }

    /// The reading is more than a quarter over the baseline.
    pub open spec fn touched(self, t: u32) -> bool {
        t > self.reference(t) + self.reference(t) / 4
    }

    /// Whether the reading is a tap.
    pub open spec fn taps(self, t: u32) -> bool {
        self.touched(t) && self.armed
    }

    /// What is remembered after the reading: the baseline follows the
    /// untouched pad only, and a touch disarms until the pad is let go.
    pub open spec fn next(self, t: u32) -> Touch {
        if self.touched(t) {
            Touch { baseline: self.reference(t), armed: false }
        } else {
            Touch { baseline: ((self.reference(t) * 15 + t) / 16) as u32, armed: true }
        }
    }

    /// A pad that has not been read yet.
    pub fn new() -> (touch: Touch)
        ensures
            touch == (Touch { baseline: 0, armed: true }),
            touch.wf(),
    {
        Touch { baseline: 0, armed: true }
    }

    /// Takes one reading, the summed charge time; tells a tap.
    pub fn read(&mut self, t: u32) -> (tap: bool)
        requires
            old(self).wf(),
            t <= TOUCH_MAX,
        ensures
            *final(self) == old(self).next(t),
            final(self).wf(),
            tap == old(self).taps(t),
    {
        if self.baseline == 0 {
            self.baseline = t;
        }
        let touched = t > self.baseline + self.baseline / 4;
        if !touched {
            self.baseline = (self.baseline * 15 + t) / 16;
        }
        if touched && self.armed {
            self.armed = false;
            true
        } else {
            if !touched {
                self.armed = true;
            }
            false
        }
    }
}

impl PadModel {
    /// The pad after the touch pad was tapped.
    pub open spec fn touch_tapped(self, source: CodexSource) -> PadModel {
        self.route_tapped(SLOT_TOUCH_TAP as int, source).posted(4, 1, 0)
    }
}

/// Performs a tap of the touch pad. The two calls are for the press and the
/// release.
pub fn touch_tap(pad: &mut Pad, source: CodexSource, status: CodexStatus) -> (calls: (
    CodexCall,
    CodexCall,
))
    requires
        old(pad)@.wf(),
    ensures
        final(pad)@ == old(pad)@.touch_tapped(source),
        final(pad)@.wf(),
        calls.0 == old(pad)@.route_call(true, source, status),
        calls.1 == old(pad)@.route_call(false, source, status),
{
    let calls = route_tap(pad, SLOT_TOUCH_TAP, source, status);
    post_event(pad, 4, 1, 0);
    calls
}

/// A touch is one tap, however long it lasts: after a touched reading the next
/// touched reading is none, and the baseline stands still meanwhile.
pub proof fn law_one_tap_per_touch(touch: Touch, t: u32, u: u32)
    requires
        touch.touched(t),
    ensures
        !touch.next(t).taps(u),
        touch.baseline != 0 ==> touch.next(t).baseline == touch.baseline,
{
}

/// Letting go arms the pad: the next touched reading is a tap.
pub proof fn law_release_rearms(touch: Touch, t: u32, u: u32)
    requires
        !touch.touched(t),
    ensures
        touch.next(t).taps(u) == touch.next(t).touched(u),
{
}

/// The first reading is never a touch, and makes the baseline.
pub proof fn law_first_reading_calibrates(touch: Touch, t: u32)
    requires
        touch.baseline == 0,
    ensures
        !touch.touched(t),
        touch.next(t).baseline == t,
{
}

/// The baseline never leaves the range between itself and the readings it
/// follows, so a steady pad keeps it.
pub proof fn law_baseline_follows(touch: Touch, t: u32)
    requires
        touch.wf(),
        touch.baseline != 0,
        !touch.touched(t),
    ensures
        t <= touch.baseline ==> t <= touch.next(t).baseline <= touch.baseline,
        t >= touch.baseline ==> touch.baseline <= touch.next(t).baseline <= t,
{
}

/// A reading is the sum of its charge cycles: each adds itself.
pub proof fn law_cycles_add_up(counts: Seq<u32>, count: u32)
    ensures
        total(Seq::empty()) == 0,
        total(counts.push(count)) == total(counts) + count,
{
    assert(counts.push(count).drop_last() == counts);
}

/// A reading is a touch exactly if it is more than a quarter over the baseline, and
/// a tap exactly if it is a touch of an armed pad.
pub proof fn law_touch_is_a_quarter_over(touch: Touch, t: u32)
    requires
        touch.baseline != 0,
    ensures
        touch.touched(t) <==> 4 * t > 5 * touch.baseline,
        touch.taps(t) <==> 4 * t > 5 * touch.baseline && touch.armed,
        touch.next(t).armed <==> 4 * t <= 5 * touch.baseline,
{
}

/// The baseline follows the untouched pad by a sixteenth of each reading, rounded
/// down, and stands still while the pad is touched.
pub proof fn law_baseline_moves_by_a_sixteenth(touch: Touch, t: u32)
    requires
        touch.baseline != 0,
        touch.baseline <= 128_000,
        t <= 128_000,
    ensures
        4 * t > 5 * touch.baseline ==> touch.next(t).baseline == touch.baseline,
        4 * t <= 5 * touch.baseline ==> 16 * touch.next(t).baseline <= 15 * touch.baseline + t < 16
            * touch.next(t).baseline + 16,
{
}

/// A tap of the touch pad taps its input and posts it.
pub proof fn law_touch_taps_and_posts(m: PadModel, source: CodexSource)
    requires
        m.wf(),
    ensures
        ({
            let next = m.touch_tapped(source);
            let tapped = m.route_tapped(21, source);
            &&& next == (PadModel { events: next.events, ..tapped })
            &&& m.events.len() < 16 ==> next.events.len() == m.events.len() + 1
                && next.events.drop_last() == m.events && next.events.last().src == 4
                && next.events.last().a == 1 && next.events.last().b == 0
        }),
{
    law_tapped_leaves_rest(m, 21, source);
    law_event_is_posted_whole(m.route_tapped(21, source), 4, 1, 0);
}

} // verus!
