//! The rotary encoder: quadrature decoding, detents and what a detent does.

use vstd::prelude::*;

use crate::codex::{route_tap, CodexCall, CodexSource, CodexStatus};
use crate::guarantees::law_event_is_posted_whole;
use crate::keymap::{SLOT_ENC_CCW, SLOT_ENC_CW};
use crate::pad::{post_event, Pad, PadModel};

verus! {

/// Quadrature counts per detent: this encoder makes two.
pub const ENC_COUNTS_PER_DETENT: i8 = 2;

/// Where a state `(A << 1) | B` stands in the Gray-code cycle 0, 1, 3, 2.
pub open spec fn gray_index(state: u8) -> int {
    if state == 0 {
        0
    } else if state == 1 {
        1
    } else if state == 3 {
        2
    } else {
        3
    }
}

/// The steps along the cycle from one state to another: 1 or -1 for
/// neighbours, 0 for no change and for a jump over two states, which only
/// contact bounce makes.
pub open spec fn gray_steps(from: u8, to: u8) -> int {
    let steps = (gray_index(to) - gray_index(from)) % 4;
    if steps == 1 {
        1
    } else if steps == 3 {
        -1
    } else {
        0
    }
}

/// Quadrature transition table, indexed by `(prev << 2) | now`.
fn quadrature(from: u8, to: u8) -> (steps: i8)
    requires
        from < 4,
        to < 4,
    ensures
        steps == gray_steps(from, to),
{
    let table: [i8; 16] = [0, 1, -1, 0, -1, 0, 0, 1, 1, 0, 0, -1, 0, -1, 1, 0];
    let index: u8 = from * 4 + to;
    table[index as usize]
}

/// A detent of the encoder.
#[derive(Clone, Copy, Debug, PartialEq, Eq, Structural)]
pub enum Detent {
    /// None was completed.
    Still,
    /// One clockwise.
    Cw,
    /// One counter-clockwise.
    Ccw,
}

/// The detents that one decoded edge completed, clockwise counted positive.
pub open spec fn detents(detent: Detent) -> int {
    match detent {
        Detent::Still => 0,
        Detent::Cw => 1,
        Detent::Ccw => -1,
    }
}

/// The encoder's decoder.
#[derive(Clone, Copy, Debug, PartialEq, Eq, Structural)]
pub struct Encoder {
    /// The state read last, `(A << 1) | B`.
    pub state: u8,
    /// Counts that have not made a detent yet, clockwise positive.
    pub accum: i8,
}

/// The state that the two lines make.
pub open spec fn line_state(a: bool, b: bool) -> u8 {
    match (a, b) {
        (false, false) => 0,
        (false, true) => 1,
        (true, false) => 2,
        (true, true) => 3,
    }
}

/// The state that the two lines make.
fn read_lines(a: bool, b: bool) -> (state: u8)
    ensures
        state == line_state(a, b),
{
    match (a, b) {
        (false, false) => 0,
        (false, true) => 1,
        (true, false) => 2,
        (true, true) => 3,
    }
}

impl Encoder {
    /// The state is one of the four, and no whole detent is outstanding.
    pub open spec fn wf(self) -> bool {
        self.state < 4 && -ENC_COUNTS_PER_DETENT < self.accum < ENC_COUNTS_PER_DETENT
    }

    /// The counts once the lines read `to`. The board's lines run against the
    /// cycle: clockwise is backwards along it.
    pub open spec fn counts(self, to: u8) -> int {
        self.accum - gray_steps(self.state, to)
    }

    /// The detent that the lines reading `to` complete.
    pub open spec fn turned(self, to: u8) -> Detent {
        if self.counts(to) >= ENC_COUNTS_PER_DETENT {
            Detent::Cw
        } else if self.counts(to) <= -ENC_COUNTS_PER_DETENT {
            Detent::Ccw
        } else {
            Detent::Still
        }
    }

    /// The decoder after the lines read `to`.
    pub open spec fn next(self, to: u8) -> Encoder {
        Encoder {
            state: to,
            accum: (self.counts(to) - detents(self.turned(to)) * ENC_COUNTS_PER_DETENT) as i8,
        }
    }

    /// The decoder after a run of readings.
    pub open spec fn after(self, reads: Seq<u8>) -> Encoder
        decreases reads.len(),
    {
        if reads.len() == 0 {
            self
        } else {
            self.after(reads.drop_last()).next(reads.last())
        }
    }

    /// The net detents of a run of readings, clockwise positive.
    pub open spec fn net_detents(self, reads: Seq<u8>) -> int
        decreases reads.len(),
    {
        if reads.len() == 0 {
            0
        } else {
            self.net_detents(reads.drop_last()) + detents(
                self.after(reads.drop_last()).turned(reads.last()),
            )
        }
    }

    /// A decoder that starts from the lines as they are.
    pub fn new(a: bool, b: bool) -> (encoder: Encoder)
        ensures
            encoder == (Encoder { state: line_state(a, b), accum: 0 }),
            encoder.wf(),
    {
        Encoder { state: read_lines(a, b), accum: 0 }
    }

    /// Takes the lines after an edge; a completed detent comes back.
    pub fn edge(&mut self, a: bool, b: bool) -> (detent: Detent)
        requires
            old(self).wf(),
        ensures
            *final(self) == old(self).next(line_state(a, b)),
            final(self).wf(),
            detent == old(self).turned(line_state(a, b)),
    {
        let s: u8 = read_lines(a, b);
        if s == self.state {
            return Detent::Still;
        }
        let delta: i8 = -quadrature(self.state, s);
        self.state = s;
        self.accum = self.accum + delta;
        if self.accum >= ENC_COUNTS_PER_DETENT {
            self.accum = self.accum - ENC_COUNTS_PER_DETENT;
            Detent::Cw
        } else if self.accum <= -ENC_COUNTS_PER_DETENT {
            self.accum = self.accum + ENC_COUNTS_PER_DETENT;
            Detent::Ccw
        } else {
            Detent::Still
        }
    }
}

impl PadModel {
    /// The pad after the encoder turned by one detent.
    pub open spec fn encoder_turned(self, cw: bool, source: CodexSource) -> PadModel {
        if cw {
            self.route_tapped(SLOT_ENC_CW as int, source).posted(1, 1, 0)
        } else {
            self.route_tapped(SLOT_ENC_CCW as int, source).posted(1, 0, 0)
        }
    }
}

/// Performs one detent of the encoder: taps the slot of that direction and
/// posts the live event. The two calls are for the press and the release.
pub fn encoder_detent(
    pad: &mut Pad,
    cw: bool,
    source: CodexSource,
    status: CodexStatus,
) -> (calls: (CodexCall, CodexCall))
    requires
        old(pad)@.wf(),
    ensures
        final(pad)@ == old(pad)@.encoder_turned(cw, source),
        final(pad)@.wf(),
        calls.0 == old(pad)@.route_call(true, source, status),
        calls.1 == old(pad)@.route_call(false, source, status),
{
    if cw {
        let calls = route_tap(pad, SLOT_ENC_CW, source, status);
        post_event(pad, 1, 1, 0);
        calls
    } else {
        let calls = route_tap(pad, SLOT_ENC_CCW, source, status);
        post_event(pad, 1, 0, 0);
        calls
    }
}

/// The steps of a run of readings along the cycle.
pub open spec fn net_steps(from: u8, reads: Seq<u8>) -> int
    decreases reads.len(),
{
    if reads.len() == 0 {
        0
    } else {
        let rest = reads.drop_last();
        net_steps(from, rest) + gray_steps(
            if rest.len() == 0 {
                from
            } else {
                rest.last()
            },
            reads.last(),
        )
    }
}

/// No count is lost: over any run of readings, the detents emitted and the
/// counts left over make up the net steps taken.
pub proof fn law_no_count_is_lost(encoder: Encoder, reads: Seq<u8>)
    requires
        encoder.wf(),
        forall|i: int| 0 <= i < reads.len() ==> #[trigger] reads[i] < 4,
    ensures
        encoder.after(reads).wf(),
        encoder.net_detents(reads) * ENC_COUNTS_PER_DETENT + encoder.after(reads).accum
            == encoder.accum - net_steps(encoder.state, reads),
        reads.len() > 0 ==> encoder.after(reads).state == reads.last(),
        reads.len() == 0 ==> encoder.after(reads).state == encoder.state,
    decreases reads.len(),
{
    if reads.len() > 0 {
        let rest = reads.drop_last();
        assert forall|i: int| 0 <= i < rest.len() implies #[trigger] rest[i] < 4 by {
            assert(rest[i] == reads[i]);
        }
        law_no_count_is_lost(encoder, rest);
        assert(reads[reads.len() - 1] < 4);
    }
}

/// Contact bounce to another state and back loses no count. From a position
/// with no count outstanding it leaves the decoder as it was and emits nothing.
pub proof fn law_bounce_cancels(encoder: Encoder, to: u8)
    requires
        encoder.wf(),
        to < 4,
    ensures
        encoder.next(to).next(encoder.state).accum + ENC_COUNTS_PER_DETENT * (detents(
            encoder.turned(to),
        ) + detents(encoder.next(to).turned(encoder.state))) == encoder.accum,
        encoder.accum == 0 ==> encoder.next(to).next(encoder.state) == encoder && encoder.turned(to)
            == Detent::Still && encoder.next(to).turned(encoder.state) == Detent::Still,
{
}

/// An illegal jump of both lines at once counts nothing.
pub proof fn law_illegal_jump_counts_nothing(encoder: Encoder)
    requires
        encoder.wf(),
    ensures
        ({
            let to = (3 - encoder.state) as u8;
            encoder.next(to) == (Encoder { state: to, ..encoder }) && encoder.turned(to)
                == Detent::Still
        }),
{
}

/// Two clockwise steps from rest make exactly one clockwise detent, and two
/// counter-clockwise steps one counter-clockwise detent.
pub proof fn law_two_steps_make_a_detent(encoder: Encoder, mid: u8, end: u8)
    requires
        encoder.state < 4,
        encoder.accum == 0,
        mid < 4,
        end < 4,
        gray_steps(encoder.state, mid) == gray_steps(mid, end),
        gray_steps(mid, end) != 0,
    ensures
        encoder.turned(mid) == Detent::Still,
        encoder.next(mid).turned(end) == (if gray_steps(mid, end) == -1 {
            Detent::Cw
        } else {
            Detent::Ccw
        }),
        encoder.next(mid).next(end) == (Encoder { state: end, accum: 0 }),
{
}

/// The state that comes next when the knob turns clockwise: 0, 2, 3, 1 and round.
pub open spec fn clockwise_of(state: u8) -> u8 {
    if state == 0 {
        2
    } else if state == 2 {
        3
    } else if state == 3 {
        1
    } else {
        0
    }
}

/// The lines make the state, the first line the high bit.
pub proof fn law_lines_make_state(a: bool, b: bool)
    ensures
        line_state(a, b) == (if a {
            2int
        } else {
            0
        }) + (if b {
            1int
        } else {
            0
        }),
{
}

/// Every reading, from every state. A clockwise neighbour counts one up and makes
/// a clockwise detent of the second count; a counter-clockwise neighbour the other
/// way round; no change and the opposite state count nothing.
pub proof fn law_readings_count_by_neighbour(encoder: Encoder, to: u8)
    requires
        encoder.state < 4,
        -1 <= encoder.accum <= 1,
        to < 4,
    ensures
        ({
            let next = encoder.next(to);
            let detent = encoder.turned(to);
            &&& next.state == to
            &&& to == clockwise_of(encoder.state) ==> {
                &&& encoder.accum < 1 ==> detent == Detent::Still && next.accum == encoder.accum + 1
                &&& encoder.accum == 1 ==> detent == Detent::Cw && next.accum == 0
            }
            &&& encoder.state == clockwise_of(to) ==> {
                &&& encoder.accum > -1 ==> detent == Detent::Still && next.accum == encoder.accum
                    - 1
                &&& encoder.accum == -1 ==> detent == Detent::Ccw && next.accum == 0
            }
            &&& to == encoder.state || to == 3 - encoder.state ==> detent == Detent::Still
                && next.accum == encoder.accum
        }),
{
}

/// A detent taps the input of its direction and posts it.
pub proof fn law_detent_taps_and_posts(m: PadModel, cw: bool, source: CodexSource)
    requires
        m.wf(),
    ensures
        ({
            let next = m.encoder_turned(cw, source);
            let tapped = m.route_tapped(
                if cw {
                    13
                } else {
                    14
                },
                source,
            );
            &&& next == (PadModel { events: next.events, ..tapped })
            &&& m.events.len() < 16 ==> next.events.len() == m.events.len() + 1
                && next.events.drop_last() == m.events && next.events.last().src == 1
                && next.events.last().a == (if cw {
                1u8
            } else {
                0u8
            }) && next.events.last().b == 0
        }),
{
    law_tapped_leaves_rest(m, 13, source);
    law_tapped_leaves_rest(m, 14, source);
    if cw {
        law_event_is_posted_whole(m.route_tapped(13, source), 1, 1, 0);
    } else {
        law_event_is_posted_whole(m.route_tapped(14, source), 1, 0, 0);
    }
}

/// Tapping an input leaves events, pointer, key state and device mode alone, and
/// every entry of the held set but its own.
pub proof fn law_tapped_leaves_rest(m: PadModel, idx: int, source: CodexSource)
    requires
        m.wf(),
        0 <= idx < 24,
    ensures
        ({
            let next = m.route_tapped(idx, source);
            &&& next.wf()
            &&& next.events == m.events && next.mouse == m.mouse && next.keystate == m.keystate
            &&& next.push_buttons == m.push_buttons && next.grade_drag == m.grade_drag
            &&& next.device_mode == m.device_mode && next.keymap.slots == m.keymap.slots
            &&& forall|i: int|
                0 <= i < 28 && i != idx ==> #[trigger] next.held[i] == m.held[i]
        }),
{
}

} // verus!
