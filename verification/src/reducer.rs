//! The reducer adapter: from a reducer's completion callback to result
//! events on the channel of the reducer's result type.
//!
//! The channel is filed under the result type, not under the reducer's name.
//! The completion callback is attached by the request that opens the channel
//! and by no other, so however often a result type is registered, one
//! completed call gives one event.

use crate::event::{BridgeEvent, EventTypeId, ReducerResultEvent};
use crate::registry::{
    after_send, after_send_to, channels_opened, lemma_one_channel_per_event_type,
    lemma_slot_unique, queues, requested, requested_all, ChannelRegistry, Registration,
    RegistryView, SenderHandle, TypeCollision,
};
use vstd::prelude::*;

verus! {

/// The event that reports `result`.
pub open spec fn result_event<R, T>(result: T) -> BridgeEvent<R, T> {
    BridgeEvent::Reducer(ReducerResultEvent { result })
}

/// The registry after a call of `reducer` has completed with `result`, where
/// the registry holds the channel of the reducer's result type.
pub open spec fn completed<R, T>(
    view: RegistryView<R, T>,
    reducer: u32,
    result: T,
) -> RegistryView<R, T> {
    after_send_to(view, EventTypeId::of_reducer(reducer), result_event::<R, T>(result))
}

/// Registers the result type of `reducer`, whose fingerprint is
/// `result_type`: gives the sender of its channel, and opens the channel if
/// this is the first registration. The completion callback is to be
/// attached if and only if the channel was opened now.
///
/// Where the channel was opened for another result type, the registration
/// is refused and nothing changes.
pub fn register_reducer<R, T>(
    registry: &mut ChannelRegistry<R, T>,
    reducer: u32,
    result_type: u64,
) -> (outcome: Result<Registration, TypeCollision>)
    requires
        old(registry).wf(),
    ensures
        final(registry).wf(),
        final(registry)@ == requested(
            old(registry)@,
            EventTypeId::of_reducer(reducer),
            result_type,
        ),
        match outcome {
            Ok(registration) => old(registry)@.collision(
                EventTypeId::of_reducer(reducer),
                result_type,
            ) is None && registration.created == !old(registry)@.ids.contains(
                EventTypeId::of_reducer(reducer),
            ) && registration.sender.id == EventTypeId::of_reducer(reducer)
                && registration.sender.slot == final(registry)@.slot_of(
                EventTypeId::of_reducer(reducer),
            ) && final(registry)@.knows(registration.sender),
            Err(collision) => old(registry)@.collision(
                EventTypeId::of_reducer(reducer),
                result_type,
            ) == Some(collision),
        },
{
    registry.get_or_create_sender(EventTypeId::for_reducer(reducer), result_type)
}

/// The body of a completion callback: wraps `result`, the call's metadata
/// with a copy of its arguments, into one result event and sends it through
/// `sender`.
///
/// Returns whether the event was queued; an event for a consumer that has
/// gone is dropped.
pub fn on_reducer_completed<R, T>(
    registry: &mut ChannelRegistry<R, T>,
    sender: SenderHandle,
    result: T,
) -> (delivered: bool)
    requires
        old(registry).wf(),
    ensures
        final(registry).wf(),
        final(registry)@ == after_send(old(registry)@, sender, result_event::<R, T>(result)),
        delivered == queues(old(registry)@, sender, result_event::<R, T>(result)),
{
    match registry.send(sender, BridgeEvent::Reducer(ReducerResultEvent::new(result))) {
        Ok(delivered) => delivered,
        Err(_) => false,
    }
}

/// One completed call gives one result event, however often the result type
/// was registered before: among any registrations that name the reducer,
/// exactly one opens the channel and so attaches the callback, and the call
/// that then completes leaves exactly its own event on the new channel.
pub proof fn lemma_one_result_event_per_call<R, T>(
    view: RegistryView<R, T>,
    requests: Seq<EventTypeId>,
    types: spec_fn(EventTypeId) -> u64,
    reducer: u32,
    result: T,
)
    requires
        view.wf(),
        !view.ids.contains(EventTypeId::of_reducer(reducer)),
        requests.contains(EventTypeId::of_reducer(reducer)),
    ensures
        channels_opened(view, requests, types, EventTypeId::of_reducer(reducer)) == 1,
        completed(requested_all(view, requests, types), reducer, result).channel(
            EventTypeId::of_reducer(reducer),
        ).pending == seq![result_event::<R, T>(result)],
{
    let id = EventTypeId::of_reducer(reducer);
    lemma_one_channel_per_event_type(view, requests, types, id);
    lemma_fresh_until_sent(view, requests, types, id);
    let after = requested_all(view, requests, types);
    let slot = after.slot_of(id);
    assert(0 <= slot < after.ids.len() && after.ids[slot] == id);
    let done = completed(after, reducer, result);
    assert(done.ids == after.ids);
    assert(done.channel(id).pending =~= seq![result_event::<R, T>(result)]);
}

/// A channel that requests have opened holds nothing and is connected.
proof fn lemma_fresh_until_sent<R, T>(
    view: RegistryView<R, T>,
    requests: Seq<EventTypeId>,
    types: spec_fn(EventTypeId) -> u64,
    id: EventTypeId,
)
    requires
        view.wf(),
        !view.ids.contains(id),
        requests.contains(id),
    ensures
        requested_all(view, requests, types).wf(),
        requested_all(view, requests, types).ids.contains(id),
        requested_all(view, requests, types).channel(id).pending.len() == 0,
        requested_all(view, requests, types).channel(id).connected,
    decreases requests.len(),
{
    lemma_one_channel_per_event_type(view, requests, types, id);
    let earlier = requests.drop_last();
    let before = requested_all(view, earlier, types);
    let after = requested_all(view, requests, types);
    lemma_one_channel_per_event_type(view, earlier, types, id);
    if before.ids.contains(id) {
        lemma_fresh_until_sent(view, earlier, types, id);
        let slot = before.slot_of(id);
        assert(0 <= slot < before.ids.len() && before.ids[slot] == id);
        if !before.ids.contains(requests.last()) {
            assert(after.ids[slot] == id);
            lemma_slot_unique(after.ids, slot);
            assert(after.channels[slot] == before.channels[slot]);
        }
    } else {
        assert(requests.last() == id) by {
            let at = choose|at: int| 0 <= at < requests.len() && requests[at] == id;
            if at < earlier.len() {
                assert(earlier[at] == id);
            }
        }
        let slot = before.ids.len() as int;
        assert(after.ids[slot] == id);
        lemma_slot_unique(after.ids, slot);
    }
}

} // verus!
