//! A one-way queue of events from the producer thread to the consumer's
//! per-frame pump.

use vstd::prelude::*;

verus! {

/// What a channel holds: the events that were sent and not yet drained, in
/// the order in which they were sent, and whether the receiving side is still
/// there.
pub struct ChannelState<E> {
    pub pending: Seq<E>,
    pub connected: bool,
}

/// A channel on which nothing was sent yet.
pub open spec fn fresh_channel<E>() -> ChannelState<E> {
    ChannelState { pending: Seq::empty(), connected: true }
}

/// The channel after the producer has sent `event`: the event is queued
/// behind the others, unless the receiving side is gone, in which case it is
/// dropped.
pub open spec fn sent<E>(state: ChannelState<E>, event: E) -> ChannelState<E> {
    if state.connected {
        ChannelState { pending: state.pending.push(event), connected: true }
    } else {
        state
    }
}

/// The channel after the consumer has taken all that was queued.
pub open spec fn drained<E>(state: ChannelState<E>) -> ChannelState<E> {
    ChannelState { pending: Seq::empty(), connected: state.connected }
}

/// The channel after the receiving side has gone: what was queued is lost
/// with it.
pub open spec fn disconnected<E>() -> ChannelState<E> {
    ChannelState { pending: Seq::empty(), connected: false }
}

/// A first-in, first-out channel of events of one type.
pub struct EventChannel<E> {
    pending: Vec<E>,
    connected: bool,
}

impl<E> View for EventChannel<E> {
    type V = ChannelState<E>;

    closed spec fn view(&self) -> ChannelState<E> {
        ChannelState { pending: self.pending@, connected: self.connected }
    }
}

impl<E> EventChannel<E> {
    /// Opens a channel with nothing queued.
    pub fn new() -> (channel: Self)
        ensures
            channel@ == fresh_channel::<E>(),
    {
        EventChannel { pending: Vec::new(), connected: true }
    }

    /// Sends `event` without blocking. Returns whether it was queued; an
    /// event sent after the receiving side has gone is dropped, and the
    /// producer goes on.
    pub fn send(&mut self, event: E) -> (delivered: bool)
        ensures
            delivered == old(self)@.connected,
            final(self)@ == sent(old(self)@, event),
    {
        if self.connected {
            self.pending.push(event);
            true
        } else {
            false
        }
    }

    /// Takes all queued events, oldest first.
    pub fn drain(&mut self) -> (events: Vec<E>)
        ensures
            events@ == old(self)@.pending,
            final(self)@ == drained(old(self)@),
    {
        let mut events: Vec<E> = Vec::new();
        std::mem::swap(&mut self.pending, &mut events);
        events
    }

    /// Drops the receiving side, and with it what was queued.
    pub fn disconnect(&mut self)
        ensures
            final(self)@ == disconnected::<E>(),
    {
        self.pending.clear();
        self.connected = false;
    }

    /// Whether the receiving side is still there.
    pub fn is_connected(&self) -> (connected: bool)
        ensures
            connected == self@.connected,
    {
        self.connected
    }

    /// How many events are queued.
    pub fn len(&self) -> (len: usize)
        ensures
            len == self@.pending.len(),
    {
        self.pending.len()
    }
}

} // verus!
