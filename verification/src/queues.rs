//! The bounded queues between the inputs and the USB endpoints.
//!
//! Each queue is an `embassy_sync` channel. The channels are only ever touched
//! through exclusive borrows, so nothing else can send or receive in between.

use embassy_sync::blocking_mutex::raw::NoopRawMutex;
use embassy_sync::channel::Channel;
use vstd::prelude::*;

use crate::report::{KeyboardTransition, TransitionModel};

verus! {

/// Keyboard transitions that can wait for the host.
pub const KEYBOARD_QUEUE: usize = 16;

/// Consumer reports that can wait for the host.
pub const CONSUMER_QUEUE: usize = 8;

/// Mouse frames that can wait for the host.
pub const MOUSE_QUEUE: usize = 8;

/// Input events that can wait for the host.
pub const EVENT_QUEUE: usize = 16;

/// A consumer-control input report.
#[derive(Clone, Copy, Debug, PartialEq, Eq, Structural)]
pub struct MediaKeyboardReport {
    pub usage_id: u16,
}

/// One pointer frame. Every frame carries the full button state.
#[derive(Clone, Copy, Debug, PartialEq, Eq, Structural)]
pub struct MouseFrame {
    pub buttons: u8,
    pub dx: i8,
    pub dy: i8,
}

/// One live input event for the host application.
#[derive(Clone, Copy, Debug, PartialEq, Eq, Structural)]
pub struct InputEvent {
    pub src: u8,
    pub a: u8,
    pub b: u8,
}

/// Keyboard transitions on their way to the host.
#[verifier::external_body]
pub struct KeyboardQueue {
    channel: Channel<NoopRawMutex, KeyboardTransition, KEYBOARD_QUEUE>,
}

/// Consumer reports on their way to the host.
#[verifier::external_body]
pub struct ConsumerQueue {
    channel: Channel<NoopRawMutex, MediaKeyboardReport, CONSUMER_QUEUE>,
}

/// Mouse frames on their way to the host.
#[verifier::external_body]
pub struct MouseQueue {
    channel: Channel<NoopRawMutex, MouseFrame, MOUSE_QUEUE>,
}

/// Input events on their way to the host.
#[verifier::external_body]
pub struct EventQueue {
    channel: Channel<NoopRawMutex, InputEvent, EVENT_QUEUE>,
}

/// What waits in a keyboard queue, oldest first.
pub uninterp spec fn keyboard_queued(queue: KeyboardQueue) -> Seq<TransitionModel>;

/// What waits in a consumer queue, oldest first.
pub uninterp spec fn consumer_queued(queue: ConsumerQueue) -> Seq<MediaKeyboardReport>;

/// What waits in a mouse queue, oldest first.
pub uninterp spec fn mouse_queued(queue: MouseQueue) -> Seq<MouseFrame>;

/// What waits in an event queue, oldest first.
pub uninterp spec fn events_queued(queue: EventQueue) -> Seq<InputEvent>;

impl View for KeyboardQueue {
    type V = Seq<TransitionModel>;

    open spec fn view(&self) -> Seq<TransitionModel> {
        keyboard_queued(*self)
    }
}

impl View for ConsumerQueue {
    type V = Seq<MediaKeyboardReport>;

    open spec fn view(&self) -> Seq<MediaKeyboardReport> {
        consumer_queued(*self)
    }
}

impl View for MouseQueue {
    type V = Seq<MouseFrame>;

    open spec fn view(&self) -> Seq<MouseFrame> {
        mouse_queued(*self)
    }
}

impl View for EventQueue {
    type V = Seq<InputEvent>;

    open spec fn view(&self) -> Seq<InputEvent> {
        events_queued(*self)
    }
}

impl KeyboardQueue {
    /// `embassy_sync::channel::Channel::new`: a new channel holds nothing.
    #[verifier::external_body]
    pub(crate) fn new() -> (queue: KeyboardQueue)
        ensures
            keyboard_queued(queue) == Seq::<TransitionModel>::empty(),
    {
        KeyboardQueue { channel: Channel::new() }
    }

    /// `embassy_sync::channel::Channel::try_send`: appends the item unless the
    /// channel holds as many as it can; then nothing changes.
    #[verifier::external_body]
    pub(crate) fn try_send(&mut self, item: KeyboardTransition) -> (sent: bool)
        ensures
            sent == (keyboard_queued(*old(self)).len() < KEYBOARD_QUEUE),
            keyboard_queued(*final(self)) == (if sent {
                keyboard_queued(*old(self)).push(item@)
            } else {
                keyboard_queued(*old(self))
            }),
    {
        self.channel.try_send(item).is_ok()
    }

    /// `embassy_sync::channel::Channel::try_receive`: takes the oldest item
    /// out, if there is any.
    #[verifier::external_body]
    pub(crate) fn try_receive(&mut self) -> (item: Option<KeyboardTransition>)
        ensures
            item is Some == (keyboard_queued(*old(self)).len() > 0),
            item matches Some(t) ==> t@ == keyboard_queued(*old(self))[0],
            keyboard_queued(*final(self)) == (if item is Some {
                keyboard_queued(*old(self)).drop_first()
            } else {
                keyboard_queued(*old(self))
            }),
    {
        self.channel.try_receive().ok()
    }
}

impl ConsumerQueue {
    /// `embassy_sync::channel::Channel::new`: a new channel holds nothing.
    #[verifier::external_body]
    pub(crate) fn new() -> (queue: ConsumerQueue)
        ensures
            consumer_queued(queue) == Seq::<MediaKeyboardReport>::empty(),
    {
        ConsumerQueue { channel: Channel::new() }
    }

    /// `embassy_sync::channel::Channel::try_send`: appends the item unless the
    /// channel holds as many as it can; then nothing changes.
    #[verifier::external_body]
    pub(crate) fn try_send(&mut self, item: MediaKeyboardReport) -> (sent: bool)
        ensures
            sent == (consumer_queued(*old(self)).len() < CONSUMER_QUEUE),
            consumer_queued(*final(self)) == (if sent {
                consumer_queued(*old(self)).push(item)
            } else {
                consumer_queued(*old(self))
            }),
    {
        self.channel.try_send(item).is_ok()
    }

    /// `embassy_sync::channel::Channel::try_receive`: takes the oldest item
    /// out, if there is any.
    #[verifier::external_body]
    pub(crate) fn try_receive(&mut self) -> (item: Option<MediaKeyboardReport>)
        ensures
            item is Some == (consumer_queued(*old(self)).len() > 0),
            item matches Some(report) ==> report == consumer_queued(*old(self))[0],
            consumer_queued(*final(self)) == (if item is Some {
                consumer_queued(*old(self)).drop_first()
            } else {
                consumer_queued(*old(self))
            }),
    {
        self.channel.try_receive().ok()
    }
}

impl MouseQueue {
    /// `embassy_sync::channel::Channel::new`: a new channel holds nothing.
    #[verifier::external_body]
    pub(crate) fn new() -> (queue: MouseQueue)
        ensures
            mouse_queued(queue) == Seq::<MouseFrame>::empty(),
    {
        MouseQueue { channel: Channel::new() }
    }

    /// `embassy_sync::channel::Channel::try_send`: appends the item unless the
    /// channel holds as many as it can; then nothing changes.
    #[verifier::external_body]
    pub(crate) fn try_send(&mut self, item: MouseFrame) -> (sent: bool)
        ensures
            sent == (mouse_queued(*old(self)).len() < MOUSE_QUEUE),
            mouse_queued(*final(self)) == (if sent {
                mouse_queued(*old(self)).push(item)
            } else {
                mouse_queued(*old(self))
            }),
    {
        self.channel.try_send(item).is_ok()
    }

    /// `embassy_sync::channel::Channel::try_receive`: takes the oldest item
    /// out, if there is any.
    #[verifier::external_body]
    pub(crate) fn try_receive(&mut self) -> (item: Option<MouseFrame>)
        ensures
            item is Some == (mouse_queued(*old(self)).len() > 0),
            item matches Some(frame) ==> frame == mouse_queued(*old(self))[0],
            mouse_queued(*final(self)) == (if item is Some {
                mouse_queued(*old(self)).drop_first()
            } else {
                mouse_queued(*old(self))
            }),
    {
        self.channel.try_receive().ok()
    }
}

impl EventQueue {
    /// `embassy_sync::channel::Channel::new`: a new channel holds nothing.
    #[verifier::external_body]
    pub(crate) fn new() -> (queue: EventQueue)
        ensures
            events_queued(queue) == Seq::<InputEvent>::empty(),
    {
        EventQueue { channel: Channel::new() }
    }

    /// `embassy_sync::channel::Channel::try_send`: appends the item unless the
    /// channel holds as many as it can; then nothing changes.
    #[verifier::external_body]
    pub(crate) fn try_send(&mut self, item: InputEvent) -> (sent: bool)
        ensures
            sent == (events_queued(*old(self)).len() < EVENT_QUEUE),
            events_queued(*final(self)) == (if sent {
                events_queued(*old(self)).push(item)
            } else {
                events_queued(*old(self))
            }),
    {
        self.channel.try_send(item).is_ok()
    }

    /// `embassy_sync::channel::Channel::try_receive`: takes the oldest item
    /// out, if there is any.
    #[verifier::external_body]
    pub(crate) fn try_receive(&mut self) -> (item: Option<InputEvent>)
        ensures
            item is Some == (events_queued(*old(self)).len() > 0),
            item matches Some(event) ==> event == events_queued(*old(self))[0],
            events_queued(*final(self)) == (if item is Some {
                events_queued(*old(self)).drop_first()
            } else {
                events_queued(*old(self))
            }),
    {
        self.channel.try_receive().ok()
    }
}

/// A queue of at most `capacity` items after `item` was forced into it: a full
/// queue gives up its oldest item first.
pub open spec fn forced<T>(queue: Seq<T>, item: T, capacity: nat) -> Seq<T> {
    if queue.len() < capacity {
        queue.push(item)
    } else {
        queue.drop_first().push(item)
    }
}

/// Forcing an item into a queue never drops that item and never overfills the
/// queue. At most the oldest item is lost; the others keep their order.
pub proof fn law_newest_wins<T>(queue: Seq<T>, item: T, capacity: nat)
    requires
        0 < capacity,
        queue.len() <= capacity,
    ensures
        forced(queue, item, capacity).last() == item,
        forced(queue, item, capacity).len() <= capacity,
        forced(queue, item, capacity).drop_last() == queue || (queue.len() == capacity && forced(
            queue,
            item,
            capacity,
        ).drop_last() == queue.drop_first()),
{
    assert(queue.push(item).drop_last() == queue);
    assert(queue.drop_first().push(item).drop_last() == queue.drop_first());
}

} // verus!
