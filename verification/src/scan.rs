//! The switch matrix and the two push switches: debouncing, boot suppression
//! and what an edge does.

use vstd::prelude::*;

use crate::codex::{route, CodexCall, CodexSource, CodexStatus};
use crate::guarantees::{buttons_settle, law_event_is_posted_whole};
use crate::keymap::{
    JOY_MODE_GRADE, JOY_MODE_MOUSE, KEY_COUNT, MODE_CODEX, SLOT_ENC_PRESS, SLOT_JOY_PRESS,
};
use crate::pad::{
    codex_mode, force_send_mouse, mouse_buttons, post_event, set_held, Pad, PadModel,
};
use crate::queues::MouseFrame;

verus! {

/// Rows and columns of the switch matrix.
pub const MATRIX: usize = 4;

/// Scans, one per millisecond, for which a new level must last.
pub const DEBOUNCE: u8 = 5;

/// The key position at a place in the matrix, if there is a switch.
pub open spec fn position_at(row: int, col: int) -> Option<int> {
    if row == 0 {
        if col == 1 || col == 2 {
            Some(col - 1)
        } else {
            None
        }
    } else if row == 1 {
        Some(2 + col)
    } else if row == 2 {
        Some(6 + col)
    } else if col >= 1 {
        Some(9 + col)
    } else {
        None
    }
}

/// The key position at a place in the matrix, if there is a switch.
pub fn position(row: usize, col: usize) -> (pos: Option<usize>)
    requires
        row < MATRIX,
        col < MATRIX,
    ensures
        pos is Some == position_at(row as int, col as int) is Some,
        pos matches Some(p) ==> position_at(row as int, col as int) == Some(p as int) && p
            < KEY_COUNT,
{
    if row == 0 {
        if col == 1 || col == 2 {
            Some(col - 1)
        } else {
            None
        }
    } else if row == 1 {
        Some(2 + col)
    } else if row == 2 {
        Some(6 + col)
    } else if col >= 1 {
        Some(9 + col)
    } else {
        None
    }
}

/// Every key position has one place in the matrix, and no two share one.
pub proof fn law_positions_are_independent(pos: int)
    ensures
        0 <= pos < KEY_COUNT ==> exists|row: int, col: int|
            0 <= row < MATRIX && 0 <= col < MATRIX && #[trigger] position_at(row, col) == Some(pos),
        forall|r1: int, c1: int, r2: int, c2: int|
            0 <= r1 < MATRIX && 0 <= c1 < MATRIX && 0 <= r2 < MATRIX && 0 <= c2 < MATRIX && (
            #[trigger] position_at(r1, c1)) is Some && position_at(r1, c1) == (
            #[trigger] position_at(r2, c2)) ==> r1 == r2 && c1 == c2,
{
    if 0 <= pos < 2 {
        assert(position_at(0, pos + 1) == Some(pos));
    } else if 2 <= pos < 6 {
        assert(position_at(1, pos - 2) == Some(pos));
    } else if 6 <= pos < 10 {
        assert(position_at(2, pos - 6) == Some(pos));
    } else if 10 <= pos < 13 {
        assert(position_at(3, pos - 9) == Some(pos));
    }
}

/// The debouncer of one place in the matrix.
#[derive(Clone, Copy, Debug, PartialEq, Eq, Structural)]
pub struct KeyCell {
    /// Scans in a row that disagreed with `pressed`.
    pub debounce: u8,
    /// The debounced level.
    pub pressed: bool,
    /// Whether the next edge is to be swallowed.
    pub suppress: bool,
}

impl KeyCell {
    /// The count of disagreeing scans has not run out.
    pub open spec fn wf(self) -> bool {
        self.debounce < DEBOUNCE
    }

    /// The cell after one scan read `raw`.
    pub open spec fn next(self, raw: bool) -> KeyCell {
        if raw == self.pressed {
            KeyCell { debounce: 0, ..self }
        } else if self.debounce + 1 < DEBOUNCE {
            KeyCell { debounce: (self.debounce + 1) as u8, ..self }
        } else {
            KeyCell { debounce: 0, pressed: raw, suppress: false }
        }
    }

    /// Whether the scan that reads `raw` makes an edge that counts as input.
    pub open spec fn edges(self, raw: bool) -> bool {
        raw != self.pressed && self.debounce + 1 >= DEBOUNCE && !self.suppress
    }

    /// The cell after a run of scans.
    pub open spec fn after(self, scans: Seq<bool>) -> KeyCell
        decreases scans.len(),
    {
        if scans.len() == 0 {
            self
        } else {
            self.after(scans.drop_last()).next(scans.last())
        }
    }

    /// The levels of the edges that a run of scans makes, in order.
    pub open spec fn edges_of(self, scans: Seq<bool>) -> Seq<bool>
        decreases scans.len(),
    {
        if scans.len() == 0 {
            Seq::empty()
        } else {
            let rest = scans.drop_last();
            if self.after(rest).edges(scans.last()) {
                self.edges_of(rest).push(scans.last())
            } else {
                self.edges_of(rest)
            }
        }
    }

    /// A cell whose switch reads `level` at boot. A key that is down then must
    /// emit neither a press nor the release when it comes up.
    pub open spec fn booted(level: bool) -> KeyCell {
        KeyCell { debounce: 0, pressed: level, suppress: level }
    }

    /// Takes one scan; `Some(level)` is an edge that counts as input.
    pub fn sample(&mut self, raw: bool) -> (edge: Option<bool>)
        requires
            old(self).wf(),
        ensures
            *final(self) == old(self).next(raw),
            final(self).wf(),
            edge == (if old(self).edges(raw) {
                Some(raw)
            } else {
                None
            }),
    {
        if raw == self.pressed {
            self.debounce = 0;
            return None;
        }
        self.debounce = self.debounce + 1;
        if self.debounce < DEBOUNCE {
            return None;
        }
        self.pressed = raw;
        self.debounce = 0;
        if self.suppress {
            // The key that was down at boot lets go: not an input.
            self.suppress = false;
            return None;
        }
        Some(raw)
    }
}

/// The count of disagreeing scans is a run at the end of the scans taken.
proof fn lemma_debounce_run(cell: KeyCell, scans: Seq<bool>)
    requires
        cell.wf(),
        cell.debounce == 0,
    ensures
        cell.after(scans).wf(),
        cell.after(scans).debounce <= scans.len(),
        forall|i: int|
            scans.len() - cell.after(scans).debounce <= i < scans.len() ==> #[trigger] scans[i]
                != cell.after(scans).pressed,
    decreases scans.len(),
{
    if scans.len() > 0 {
        let rest = scans.drop_last();
        lemma_debounce_run(cell, rest);
        assert forall|i: int|
            scans.len() - cell.after(scans).debounce <= i < scans.len() implies #[trigger] scans[i]
            != cell.after(scans).pressed by {
            if i < rest.len() {
                assert(scans[i] == rest[i]);
            }
        }
    }
}

/// An edge is only made by five scans in a row that read its level: a shorter
/// glitch is never an input.
pub proof fn law_edges_are_debounced(cell: KeyCell, scans: Seq<bool>, raw: bool)
    requires
        cell.wf(),
        cell.debounce == 0,
        cell.after(scans).edges(raw),
    ensures
        scans.len() + 1 >= DEBOUNCE,
        forall|i: int|
            scans.len() + 1 - DEBOUNCE <= i < scans.len() ==> #[trigger] scans[i] == raw,
{
    lemma_debounce_run(cell, scans);
}

/// A new level that lasts for five scans does make an edge, on the fifth,
/// unless it is the swallowed one.
pub proof fn law_steady_level_makes_edge(cell: KeyCell, raw: bool)
    requires
        cell.debounce == 0,
        raw != cell.pressed,
    ensures
        ({
            let scans = seq![raw, raw, raw, raw];
            let fourth = cell.after(scans);
            &&& cell.edges_of(scans) == Seq::<bool>::empty()
            &&& fourth.edges(raw) == !cell.suppress
            &&& fourth.next(raw) == (KeyCell { debounce: 0, pressed: raw, suppress: false })
        }),
{
    let s1 = seq![raw];
    let s2 = seq![raw, raw];
    let s3 = seq![raw, raw, raw];
    let s4 = seq![raw, raw, raw, raw];
    assert(s1.drop_last() == Seq::<bool>::empty());
    assert(s2.drop_last() == s1);
    assert(s3.drop_last() == s2);
    assert(s4.drop_last() == s3);
    assert(cell.after(Seq::empty()) == cell);
    assert(cell.after(s1).debounce == 1);
    assert(cell.after(s2).debounce == 2);
    assert(cell.after(s3).debounce == 3);
    assert(cell.after(s4).debounce == 4);
    assert(cell.edges_of(Seq::empty()) == Seq::<bool>::empty());
    assert(cell.edges_of(s1) == Seq::<bool>::empty());
    assert(cell.edges_of(s2) == Seq::<bool>::empty());
    assert(cell.edges_of(s3) == Seq::<bool>::empty());
}

/// From boot on, the edges that count as input are presses and releases in
/// turn, starting with a press. A key that was down at boot shows neither that
/// press nor its release.
pub proof fn law_edges_alternate(level: bool, scans: Seq<bool>)
    ensures
        ({
            let cell = KeyCell::booted(level).after(scans);
            let edges = KeyCell::booted(level).edges_of(scans);
            &&& forall|i: int| 0 <= i < edges.len() ==> #[trigger] edges[i] == (i % 2 == 0)
            &&& cell.suppress ==> level && cell.pressed && edges.len() == 0
            &&& !cell.suppress ==> cell.pressed == (edges.len() % 2 == 1)
        }),
    decreases scans.len(),
{
    if scans.len() > 0 {
        law_edges_alternate(level, scans.drop_last());
    }
}

/// A push switch of the encoder or the joystick, active low.
#[derive(Clone, Copy, Debug, PartialEq, Eq, Structural)]
pub struct PushSwitch {
    /// The level read last.
    pub last: bool,
    /// Whether the next edge is to be swallowed.
    pub suppress: bool,
}

impl PushSwitch {
    /// A switch that reads `level` at boot; down then means that its first
    /// release is no input.
    pub open spec fn booted(level: bool) -> PushSwitch {
        PushSwitch { last: level, suppress: !level }
    }

    /// The switch after it read `level`.
    pub open spec fn next(self, level: bool) -> PushSwitch {
        PushSwitch { last: level, suppress: self.suppress && level == self.last }
    }

    /// Whether reading `level` is an edge that counts as input.
    pub open spec fn edges(self, level: bool) -> bool {
        level != self.last && !self.suppress
    }

    /// Takes one reading; `Some(down)` is an edge that counts as input.
    pub fn sample(&mut self, level: bool) -> (edge: Option<bool>)
        ensures
            *final(self) == old(self).next(level),
            edge == (if old(self).edges(level) {
                Some(!level)
            } else {
                None
            }),
    {
        let changed = level != self.last;
        self.last = level;
        if !changed {
            return None;
        }
        if self.suppress {
            self.suppress = false;
            return None;
        }
        Some(!level)
    }
}

/// A push switch that is down at boot emits nothing until it was up once.
pub proof fn law_boot_push_is_swallowed(level: bool)
    ensures
        !PushSwitch::booted(false).edges(level),
        PushSwitch::booted(false).next(true) == PushSwitch::booted(true),
        PushSwitch::booted(true).edges(false),
{
}

/// The joystick's push switch and what it has asserted, so that a mode switch
/// in mid-hold retracts exactly that.
#[derive(Clone, Copy, Debug, PartialEq, Eq, Structural)]
pub struct StickPush {
    pub switch: PushSwitch,
    /// The push is held as a key.
    pub key_held: bool,
    /// The push is held as a mouse button.
    pub click_held: bool,
}

/// Everything the scan task remembers.
#[derive(Clone, Copy, Debug)]
pub struct Scanner {
    pub cells: [[KeyCell; 4]; 4],
    pub encoder: PushSwitch,
    pub stick: StickPush,
}

/// An edge of a key that counts as input.
#[derive(Clone, Copy, Debug, PartialEq, Eq, Structural)]
pub struct KeyEdge {
    pub pos: usize,
    pub down: bool,
}

impl Scanner {
    /// The debouncer of one place in the matrix.
    pub open spec fn cell(self, row: int, col: int) -> KeyCell {
        self.cells@[row]@[col]
    }

    /// Every debouncer is in order.
    pub open spec fn wf(self) -> bool {
        forall|row: int, col: int|
            0 <= row < MATRIX && 0 <= col < MATRIX ==> #[trigger] self.cell(row, col).wf()
    }

    /// A scanner seeded from the levels at boot: the matrix, and the encoder
    /// and joystick push switches.
    pub fn new(levels: [[bool; 4]; 4], enc_sw: bool, joy_sw: bool) -> (scanner: Scanner)
        ensures
            scanner.wf(),
            forall|row: int, col: int|
                0 <= row < MATRIX && 0 <= col < MATRIX ==> #[trigger] scanner.cell(row, col)
                    == KeyCell::booted(levels@[row]@[col]),
            scanner.encoder == PushSwitch::booted(enc_sw),
            scanner.stick == (StickPush {
                switch: PushSwitch::booted(joy_sw),
                key_held: false,
                click_held: false,
            }),
    {
        let idle = KeyCell { debounce: 0, pressed: false, suppress: false };
        let mut cells: [[KeyCell; 4]; 4] = [[idle; 4]; 4];
        let mut row: usize = 0;
        while row < MATRIX
            invariant
                row <= MATRIX,
                forall|r: int, c: int|
                    #![trigger cells@[r]@[c]]
                    0 <= r < row && 0 <= c < MATRIX ==> cells@[r]@[c] == KeyCell::booted(
                        levels@[r]@[c],
                    ),
            decreases MATRIX - row,
        {
            let line = levels[row];
            let mut seeded: [KeyCell; 4] = [idle; 4];
            let mut col: usize = 0;
            while col < MATRIX
                invariant
                    col <= MATRIX,
                    forall|c: int|
                        0 <= c < col ==> #[trigger] seeded@[c] == KeyCell::booted(line@[c]),
                decreases MATRIX - col,
            {
                let level = line[col];
                seeded[col] = KeyCell { debounce: 0, pressed: level, suppress: level };
                col += 1;
            }
            cells[row] = seeded;
            row += 1;
        }
        Scanner {
            cells,
            encoder: PushSwitch { last: enc_sw, suppress: !enc_sw },
            stick: StickPush {
                switch: PushSwitch { last: joy_sw, suppress: !joy_sw },
                key_held: false,
                click_held: false,
            },
        }
    }

    /// Takes the level of one place in the matrix; an edge of a key comes back
    /// once it is debounced.
    pub fn sample(&mut self, row: usize, col: usize, raw: bool) -> (edge: Option<KeyEdge>)
        requires
            old(self).wf(),
            row < MATRIX,
            col < MATRIX,
        ensures
            final(self).wf(),
            final(self).encoder == old(self).encoder,
            final(self).stick == old(self).stick,
            final(self).cell(row as int, col as int) == old(self).cell(
                row as int,
                col as int,
            ).next(raw),
            forall|r: int, c: int|
                0 <= r < MATRIX && 0 <= c < MATRIX && (r != row || c != col)
                    ==> #[trigger] final(self).cell(r, c) == old(self).cell(r, c),
            edge is Some == (old(self).cell(row as int, col as int).edges(raw) && position_at(
                row as int,
                col as int,
            ) is Some),
            edge matches Some(e) ==> e.down == raw && position_at(row as int, col as int) == Some(
                e.pos as int,
            ) && e.pos < KEY_COUNT,
    {
        assert(self.cell(row as int, col as int).wf());
        let mut line = self.cells[row];
        let mut cell = line[col];
        let edge = cell.sample(raw);
        line[col] = cell;
        self.cells[row] = line;
        assert forall|r: int, c: int| 0 <= r < MATRIX && 0 <= c < MATRIX implies #[trigger] self.cell(
            r,
            c,
        ).wf() by {
            assert(old(self).cell(r, c).wf());
        }
        match (edge, position(row, col)) {
            (Some(down), Some(pos)) => Some(KeyEdge { pos, down }),
            _ => None,
        }
    }
}

/// `state` with bit `pos` set or cleared.
pub open spec fn with_bit(state: u16, pos: int, on: bool) -> u16 {
    if on {
        state | (1u16 << pos)
    } else {
        state & !(1u16 << pos)
    }
}

/// Whether bit `pos` of `state` is set.
pub open spec fn bit_set(state: u16, pos: int) -> bool {
    state & (1u16 << pos) != 0
}

/// Setting or clearing one bit does that, and leaves the other bits alone.
pub proof fn law_with_bit(state: u16, pos: u16, other: u16, on: bool)
    requires
        pos < 16,
        other < 16,
    ensures
        bit_set(with_bit(state, pos as int, on), pos as int) == on,
        other != pos ==> bit_set(with_bit(state, pos as int, on), other as int) == bit_set(
            state,
            other as int,
        ),
{
    assert((state | (1u16 << pos)) & (1u16 << pos) != 0 && (state & !(1u16 << pos)) & (1u16 << pos)
        == 0) by (bit_vector)
        requires
            pos < 16,
    ;
    if other != pos {
        assert((state | (1u16 << pos)) & (1u16 << other) == state & (1u16 << other) && (state & !(
        1u16 << pos)) & (1u16 << other) == state & (1u16 << other)) by (bit_vector)
            requires
                pos < 16,
                other < 16,
                pos != other,
        ;
    }
}

impl PadModel {
    /// The pad after key `pos` went down or up.
    pub open spec fn keyed(self, pos: int, down: bool, source: CodexSource) -> PadModel {
        let routed = self.routed(pos, down, source).posted(
            0,
            pos as u8,
            if down {
                1
            } else {
                0
            },
        );
        PadModel { keystate: with_bit(routed.keystate, pos, down), ..routed }
    }

    /// The pad after the encoder's push switch went down or up.
    pub open spec fn encoder_pushed(self, down: bool, source: CodexSource) -> PadModel {
        self.routed(SLOT_ENC_PRESS as int, down, source).posted(
            2,
            if down {
                1
            } else {
                0
            },
            0,
        )
    }

    /// The joystick drives the pointer.
    pub open spec fn pointer_mode(self) -> bool {
        self.device_mode != MODE_CODEX && (self.keymap.joy_mode == JOY_MODE_MOUSE
            || self.keymap.joy_mode == JOY_MODE_GRADE)
    }

    /// The pad after the push switch asserted these mouse buttons.
    pub open spec fn clicked(self, buttons: u8) -> PadModel {
        (PadModel { push_buttons: buttons, ..self }).sent_buttons()
    }
}

/// What a change of the joystick's mode in mid-push retracts.
pub open spec fn push_handed_over(m: PadModel, push: StickPush) -> (PadModel, StickPush) {
    if m.pointer_mode() && push.key_held {
        (m.held_set(SLOT_JOY_PRESS as int, false), StickPush { key_held: false, ..push })
    } else if !m.pointer_mode() && push.click_held {
        (m.clicked(0), StickPush { click_held: false, ..push })
    } else {
        (m, push)
    }
}

/// What the joystick's push switch going down or up does: a held key in keys
/// mode, mouse button 1 in the pointer modes, and only an event in Codex mode.
pub open spec fn push_switched(m: PadModel, push: StickPush, down: bool) -> (PadModel, StickPush) {
    let (next, after) = if m.device_mode == MODE_CODEX {
        (m, push)
    } else if m.pointer_mode() {
        (
            m.clicked(
                if down {
                    1
                } else {
                    0
                },
            ),
            StickPush { click_held: down, ..push },
        )
    } else {
        (m.held_set(SLOT_JOY_PRESS as int, down), StickPush { key_held: down, ..push })
    };
    (
        next.posted(
            3,
            4,
            if down {
                1
            } else {
                0
            },
        ),
        after,
    )
}

/// One reading of the joystick's push switch.
pub open spec fn push_scanned(m: PadModel, push: StickPush, level: bool) -> (PadModel, StickPush) {
    let (next, handed) = push_handed_over(m, push);
    let read = StickPush { switch: handed.switch.next(level), ..handed };
    if handed.switch.edges(level) {
        push_switched(next, read, !level)
    } else {
        (next, read)
    }
}

/// Performs an edge of a key: the key's meaning, the live event and the bit
/// that lights the key.
pub fn key_edge(
    pad: &mut Pad,
    edge: KeyEdge,
    source: CodexSource,
    status: CodexStatus,
) -> (call: CodexCall)
    requires
        old(pad)@.wf(),
        edge.pos < KEY_COUNT,
    ensures
        final(pad)@ == old(pad)@.keyed(edge.pos as int, edge.down, source),
        final(pad)@.wf(),
        call == old(pad)@.route_call(edge.down, source, status),
{
    let call = route(pad, edge.pos, edge.down, source, status);
    post_event(
        pad,
        0,
        edge.pos as u8,
        if edge.down {
            1
        } else {
            0
        },
    );
    // The light follows the physical press, whatever the slot emits.
    if edge.down {
        pad.keystate = pad.keystate | (1u16 << edge.pos);
    } else {
        pad.keystate = pad.keystate & !(1u16 << edge.pos);
    }
    call
}

/// Takes one reading of the encoder's push switch.
pub fn encoder_switch(
    pad: &mut Pad,
    scanner: &mut Scanner,
    level: bool,
    source: CodexSource,
    status: CodexStatus,
) -> (call: CodexCall)
    requires
        old(pad)@.wf(),
    ensures
        final(scanner).cells == old(scanner).cells,
        final(scanner).stick == old(scanner).stick,
        final(scanner).encoder == old(scanner).encoder.next(level),
        final(pad)@ == (if old(scanner).encoder.edges(level) {
            old(pad)@.encoder_pushed(!level, source)
        } else {
            old(pad)@
        }),
        final(pad)@.wf(),
        call == (if old(scanner).encoder.edges(level) {
            old(pad)@.route_call(!level, source, status)
        } else {
            CodexCall::Quiet
        }),
{
    match scanner.encoder.sample(level) {
        Some(down) => {
            let call = route(pad, SLOT_ENC_PRESS, down, source, status);
            post_event(
                pad,
                2,
                if down {
                    1
                } else {
                    0
                },
                0,
            );
            call
        },
        None => CodexCall::Quiet,
    }
}

/// Tells the host which mouse buttons are down.
pub(crate) fn send_buttons(pad: &mut Pad)
    requires
        old(pad)@.wf(),
    ensures
        final(pad)@ == old(pad)@.sent_buttons(),
        final(pad)@.wf(),
{
    let frame = MouseFrame { buttons: mouse_buttons(pad), dx: 0, dy: 0 };
    force_send_mouse(pad, frame);
}

/// Takes one reading of the joystick's push switch. The mode can change while
/// the switch is down, so a stale assertion is retracted before the new mode
/// is honoured.
pub fn joystick_switch(pad: &mut Pad, scanner: &mut Scanner, level: bool)
    requires
        old(pad)@.wf(),
    ensures
        final(scanner).cells == old(scanner).cells,
        final(scanner).encoder == old(scanner).encoder,
        (final(pad)@, final(scanner).stick) == push_scanned(old(pad)@, old(scanner).stick, level),
        final(pad)@.wf(),
{
    let codex = codex_mode(pad);
    let pointer = !codex && (pad.keymap.joy_mode == JOY_MODE_MOUSE || pad.keymap.joy_mode
        == JOY_MODE_GRADE);
    if pointer && scanner.stick.key_held {
        set_held(pad, SLOT_JOY_PRESS, false);
        scanner.stick.key_held = false;
    }
    if !pointer && scanner.stick.click_held {
        scanner.stick.click_held = false;
        pad.push_buttons = 0;
        send_buttons(pad);
    }
    if let Some(down) = scanner.stick.switch.sample(level) {
        let bit: u8 = if down {
            1
        } else {
            0
        };
        if codex {
            // The event below is all.
        } else if pointer {
            scanner.stick.click_held = down;
            pad.push_buttons = bit;
            send_buttons(pad);
        } else {
            set_held(pad, SLOT_JOY_PRESS, down);
            scanner.stick.key_held = down;
        }
        post_event(pad, 3, 4, bit);
    }
}

/// What the joystick's push switch has asserted is what the pad shows.
pub open spec fn push_consistent(m: PadModel, push: StickPush) -> bool {
    &&& push.key_held == (m.held[SLOT_JOY_PRESS as int] is Some)
    &&& m.push_buttons == (if push.click_held {
        1u8
    } else {
        0u8
    })
}

/// However the joystick's mode changes in mid-push, the push is never stranded:
/// after each reading it is held only in the form that the mode asks for, and
/// the host is on its way to the buttons that are down.
pub proof fn law_push_is_never_stranded(m: PadModel, push: StickPush, level: bool, shown: u8)
    requires
        m.wf(),
        push_consistent(m, push),
        buttons_settle(shown, m),
    ensures
        ({
            let (next, after) = push_scanned(m, push, level);
            &&& push_consistent(next, after)
            &&& buttons_settle(shown, next)
            &&& m.pointer_mode() ==> next.held[SLOT_JOY_PRESS as int] is None
            &&& !m.pointer_mode() ==> next.push_buttons == 0
        }),
{
}

/// The light of a key follows its physical press, whatever the key emits, and
/// no key touches the light of another.
pub proof fn law_keystate_follows_press(
    m: PadModel,
    pos: u16,
    other: u16,
    down: bool,
    source: CodexSource,
)
    requires
        pos < KEY_COUNT,
        other < KEY_COUNT,
    ensures
        bit_set(m.keyed(pos as int, down, source).keystate, pos as int) == down,
        other != pos ==> bit_set(m.keyed(pos as int, down, source).keystate, other as int)
            == bit_set(m.keystate, other as int),
{
    law_with_bit(m.keystate, pos, other, down);
}

/// Key positions count through the matrix row by row, from left to right. The two
/// outer places of the first row and the first place of the last row have no
/// switch.
pub proof fn law_positions_count_through(r1: int, c1: int, r2: int, c2: int)
    requires
        0 <= r1 < 4,
        0 <= c1 < 4,
        0 <= r2 < 4,
        0 <= c2 < 4,
    ensures
        position_at(r1, c1) is None <==> (r1 == 0 && c1 == 0) || (r1 == 0 && c1 == 3) || (r1 == 3
            && c1 == 0),
        position_at(r1, c1) matches Some(p) ==> 0 <= p < 13,
        position_at(r1, c1) matches Some(p) ==> (position_at(r2, c2) matches Some(q) ==> (r1 < r2
            || (r1 == r2 && c1 < c2) ==> p < q)),
        c1 + 1 == c2 && r1 == r2 ==> (position_at(r1, c1) matches Some(p) ==> (position_at(
            r2,
            c2,
        ) matches Some(q) ==> q == p + 1)),
        position_at(0, 1) == Some(0int),
        position_at(1, 0) == Some(2int),
        position_at(2, 0) == Some(6int),
        position_at(3, 1) == Some(10int),
{
}

/// A debouncer's count restarts whenever the level agrees; five disagreeing scans
/// in a row turn the level, and fewer leave it as it was. The edge that is to be
/// swallowed is the only one that does not count.
pub proof fn law_debounce_counts_to_five(cell: KeyCell, raw: bool)
    requires
        cell.debounce < 5,
    ensures
        raw == cell.pressed ==> cell.next(raw).debounce == 0 && cell.next(raw).pressed
            == cell.pressed && cell.next(raw).suppress == cell.suppress && !cell.edges(raw),
        raw != cell.pressed && cell.debounce < 4 ==> cell.next(raw).debounce == cell.debounce + 1
            && cell.next(raw).pressed == cell.pressed && cell.next(raw).suppress == cell.suppress
            && !cell.edges(raw),
        raw != cell.pressed && cell.debounce == 4 ==> cell.next(raw).debounce == 0 && cell.next(
            raw,
        ).pressed == raw && !cell.next(raw).suppress && cell.edges(raw) == !cell.suppress,
{
}

/// A cell starts from the level at boot; it swallows its first edge exactly if the
/// key is down then.
pub proof fn law_boot_seeds_cells(level: bool)
    ensures
        KeyCell::booted(level).debounce == 0,
        KeyCell::booted(level).pressed == level,
        KeyCell::booted(level).suppress == level,
        PushSwitch::booted(level).last == level,
        PushSwitch::booted(level).suppress == !level,
{
}

/// A push switch makes an edge exactly when its level turns, but for the one that
/// is swallowed, and remembers the level it read.
pub proof fn law_push_edges_follow_level(switch: PushSwitch, level: bool)
    ensures
        switch.edges(level) <==> level != switch.last && !switch.suppress,
        switch.next(level).last == level,
        switch.next(level).suppress <==> switch.suppress && level == switch.last,
{
}

/// A bit of the key state, and of the masks over the keys.
pub proof fn law_bits_are_places(state: u16, pos: u16)
    requires
        pos < 16,
    ensures
        bit_set(state, pos as int) <==> (state >> pos) & 1 == 1,
        with_bit(state, pos as int, true) == state | (1u16 << pos),
        with_bit(state, pos as int, false) == state & !(1u16 << pos),
{
    assert((state & (1u16 << pos) != 0) <==> (state >> pos) & 1 == 1) by (bit_vector)
        requires
            pos < 16,
    ;
}

/// What a key does: it goes where its input goes, posts one event with its
/// position and edge, and turns its own bit of the key state and no other.
pub proof fn law_key_acts_posts_and_lights(
    m: PadModel,
    pos: u16,
    other: u16,
    down: bool,
    source: CodexSource,
)
    requires
        m.wf(),
        pos < 13,
        other < 13,
    ensures
        ({
            let next = m.keyed(pos as int, down, source);
            let routed = m.routed(pos as int, down, source);
            &&& next.held == routed.held && next.kbd == routed.kbd && next.consumer
                == routed.consumer && next.keymap == routed.keymap
            &&& next.mouse == m.mouse && next.buttons() == m.buttons() && next.device_mode
                == m.device_mode
            &&& m.events.len() < 16 ==> next.events.len() == m.events.len() + 1
                && next.events.drop_last() == m.events && next.events.last().src == 0
                && next.events.last().a == pos && next.events.last().b == (if down {
                1u8
            } else {
                0u8
            })
            &&& (next.keystate >> pos) & 1 == (if down {
                1u16
            } else {
                0u16
            })
            &&& other != pos ==> (next.keystate >> other) & 1 == (m.keystate >> other) & 1
        }),
{
    let state = m.keystate;
    law_event_is_posted_whole(
        m.routed(pos as int, down, source),
        0,
        pos as u8,
        if down {
            1
        } else {
            0
        },
    );
    law_routed_leaves_rest(m, pos as int, down, source);
    assert(((state | (1u16 << pos)) >> pos) & 1 == 1 && ((state & !(1u16 << pos)) >> pos) & 1 == 0)
        by (bit_vector)
        requires
            pos < 13,
    ;
    if other != pos {
        assert(((state | (1u16 << pos)) >> other) & 1 == (state >> other) & 1 && ((state & !(1u16
            << pos)) >> other) & 1 == (state >> other) & 1) by (bit_vector)
            requires
                pos < 13,
                other < 13,
                pos != other,
        ;
    }
}

/// Routing an input leaves events, pointer, key state and device mode alone, and
/// every entry of the held set but its own.
pub proof fn law_routed_leaves_rest(m: PadModel, idx: int, down: bool, source: CodexSource)
    requires
        m.wf(),
        0 <= idx < 24,
    ensures
        ({
            let next = m.routed(idx, down, source);
            &&& next.wf()
            &&& next.events == m.events && next.mouse == m.mouse && next.keystate == m.keystate
            &&& next.push_buttons == m.push_buttons && next.grade_drag == m.grade_drag
            &&& next.device_mode == m.device_mode && next.keymap.slots == m.keymap.slots
            &&& forall|i: int|
                0 <= i < 28 && i != idx ==> #[trigger] next.held[i] == m.held[i]
        }),
{
}

/// The encoder's push switch goes where its input goes and posts its edge.
pub proof fn law_encoder_push_acts_and_posts(m: PadModel, down: bool, source: CodexSource)
    requires
        m.wf(),
    ensures
        ({
            let next = m.encoder_pushed(down, source);
            let routed = m.routed(15, down, source);
            &&& next == (PadModel { events: next.events, ..routed })
            &&& m.events.len() < 16 ==> next.events.len() == m.events.len() + 1
                && next.events.drop_last() == m.events && next.events.last().src == 2
                && next.events.last().a == (if down {
                1u8
            } else {
                0u8
            }) && next.events.last().b == 0
        }),
{
    law_routed_leaves_rest(m, 15, down, source);
    law_event_is_posted_whole(
        m.routed(15, down, source),
        2,
        if down {
            1
        } else {
            0
        },
        0,
    );
}

/// What an edge of the joystick's push switch does, with no mode change
/// outstanding. In keys mode it holds or releases the slot of its input; in the
/// pointer modes it turns mouse button 1 and a frame without motion says so; in
/// Codex mode it does neither. It always posts its edge, and without an edge
/// nothing happens.
pub proof fn law_push_edge_acts(m: PadModel, push: StickPush, level: bool)
    requires
        m.wf(),
        m.device_mode == 1 || !(1 <= m.keymap.joy_mode <= 2) ==> !push.click_held,
        m.device_mode != 1 && 1 <= m.keymap.joy_mode <= 2 ==> !push.key_held,
    ensures
        ({
            let (next, after) = push_scanned(m, push, level);
            let edge = level != push.switch.last && !push.switch.suppress;
            let down = !level;
            let bit = if down {
                1u8
            } else {
                0u8
            };
            &&& after.switch == push.switch.next(level)
            &&& !edge ==> next == m && after.key_held == push.key_held && after.click_held
                == push.click_held
            &&& edge && m.events.len() < 16 ==> next.events.len() == m.events.len() + 1
                && next.events.drop_last() == m.events && next.events.last().src == 3
                && next.events.last().a == 4 && next.events.last().b == bit
            &&& edge && m.device_mode == 1 ==> next.held == m.held && next.mouse == m.mouse
                && next.kbd == m.kbd && next.consumer == m.consumer && next.push_buttons
                == m.push_buttons
            &&& edge && m.device_mode != 1 && !(1 <= m.keymap.joy_mode <= 2) ==> {
                &&& down ==> next.held == m.applied(20, Some(m.keymap.slots@[20])).held && next.kbd
                    == m.applied(20, Some(m.keymap.slots@[20])).kbd && next.consumer == m.applied(
                    20,
                    Some(m.keymap.slots@[20]),
                ).consumer
                &&& !down ==> next.held == m.applied(20, None).held && next.kbd == m.applied(
                    20,
                    None,
                ).kbd && next.consumer == m.applied(20, None).consumer
                &&& next.mouse == m.mouse && next.push_buttons == m.push_buttons
                &&& after.key_held == down
            }
            &&& edge && m.device_mode != 1 && 1 <= m.keymap.joy_mode <= 2 ==> {
                &&& next.push_buttons == bit
                &&& next.mouse.len() > 0
                &&& next.mouse.last().dx == 0 && next.mouse.last().dy == 0
                &&& next.mouse.last().buttons == (if m.grade_drag {
                    bit | 1
                } else {
                    bit
                })
                &&& next.held == m.held && next.kbd == m.kbd && next.consumer == m.consumer
                &&& after.click_held == down
            }
            &&& next.keymap == m.keymap && next.grade_drag == m.grade_drag && next.keystate
                == m.keystate && next.device_mode == m.device_mode
        }),
{
    let bit = if !level {
        1u8
    } else {
        0u8
    };
    assert(bit | 0u8 == bit) by (bit_vector);
    law_event_is_posted_whole(m, 3, 4, bit);
    law_event_is_posted_whole(m.clicked(bit), 3, 4, bit);
    law_event_is_posted_whole(m.held_set(20, !level), 3, 4, bit);
}

/// A change of the joystick's mode in mid-push retracts what the push had asserted
/// in the old form: the held slot where the pointer takes over, the mouse button,
/// with a frame that says so, where it lets go.
pub proof fn law_mode_change_retracts_push(m: PadModel, push: StickPush)
    requires
        m.wf(),
    ensures
        ({
            let (next, after) = push_scanned(m, push, push.switch.last);
            let pointer = m.device_mode != 1 && 1 <= m.keymap.joy_mode <= 2;
            &&& pointer && push.key_held ==> next == m.applied(20, None) && !after.key_held
                && after.click_held == push.click_held
            &&& !pointer && push.click_held ==> {
                &&& next.push_buttons == 0
                &&& next.mouse.len() > 0
                &&& next.mouse.last().buttons == (if m.grade_drag {
                    1u8
                } else {
                    0u8
                })
                &&& next.mouse.last().dx == 0 && next.mouse.last().dy == 0
                &&& !after.click_held && after.key_held == push.key_held
                &&& next.held == m.held && next.kbd == m.kbd && next.events == m.events
            }
            &&& !(pointer && push.key_held) && !(!pointer && push.click_held) ==> next == m
                && after == push
        }),
{
    assert(0u8 | 1u8 == 1u8 && 0u8 | 0u8 == 0u8) by (bit_vector);
}

/// A reading that finds both a change of mode and an edge does what a reading
/// without an edge, and then one with it, would do.
pub proof fn law_mode_change_goes_before_edge(m: PadModel, push: StickPush, level: bool)
    requires
        m.wf(),
    ensures
        ({
            let (handed, kept) = push_scanned(m, push, push.switch.last);
            push_scanned(m, push, level) == push_scanned(handed, kept, level)
        }),
{
}

} // verus!
