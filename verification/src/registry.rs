//! The registry of channels: one channel per event type, opened on first use.
//!
//! Each channel is opened for one payload type, known by its fingerprint. A
//! request that brings another payload type under the same identifier is
//! refused when it is made, before any event could be mixed up.
//!
//! Callers reach the registry through `&mut`, so requests are served one at a
//! time; an application that shares it between threads keeps it behind a lock.

use crate::channel::{drained, disconnected, fresh_channel, sent, ChannelState, EventChannel};
use crate::event::{lemma_key_injective, BridgeEvent, EventTypeId};
use crate::index::{index_get, index_insert, index_new, slots};
use bevy::platform::collections::HashMap;
use bevy::platform::hash::FixedHasher;
use vstd::prelude::*;

verus! {

/// The sending side of one channel, as handed to a callback. It can be copied
/// freely; every copy sends on the same channel.
#[derive(Clone, Copy, Debug, PartialEq, Eq, Structural)]
pub struct SenderHandle {
    /// The event type the channel carries.
    pub id: EventTypeId,
    /// The channel's place in the registry, in order of opening.
    pub slot: usize,
}

/// What a request for a sender gave.
#[derive(Clone, Copy, Debug, PartialEq, Eq, Structural)]
pub struct Registration {
    /// The sending side of the channel for the requested event type.
    pub sender: SenderHandle,
    /// Whether this request opened the channel, so that its receiving side
    /// has to be handed to the consumer now.
    pub created: bool,
}

/// Why an event was not sent.
#[derive(Clone, Copy, Debug, PartialEq, Eq, Structural)]
pub enum SendError {
    /// The registry has no such channel for the sender's event type.
    UnknownSender,
    /// The event's shape is not the one the sender's channel carries.
    TypeMismatch,
}

/// A request for an event type whose channel carries payloads of another
/// type than the request brings: two payload types were given one
/// identifier.
#[derive(Clone, Copy, Debug, PartialEq, Eq, Structural)]
pub struct TypeCollision {
    /// The event type that was requested.
    pub id: EventTypeId,
    /// The fingerprint of the payload type the channel was opened for.
    pub held: u64,
    /// The fingerprint of the payload type the request brought.
    pub brought: u64,
}

/// What a registry holds: the event types in the order in which their
/// channels were opened, and for each the fingerprint of the payload type
/// its channel was opened for and the state of the channel.
pub struct RegistryView<R, T> {
    pub ids: Seq<EventTypeId>,
    pub types: Seq<u64>,
    pub channels: Seq<ChannelState<BridgeEvent<R, T>>>,
}

impl<R, T> RegistryView<R, T> {
    /// Every event type has one channel and no more, and every queued event
    /// has the shape of its channel's event type.
    pub open spec fn wf(self) -> bool {
        &&& self.ids.len() == self.channels.len()
        &&& self.ids.len() == self.types.len()
        &&& self.ids.no_duplicates()
        &&& forall|slot: int, at: int|
            0 <= slot < self.channels.len() && 0 <= at < self.channels[slot].pending.len()
                ==> (#[trigger] self.channels[slot].pending[at]).spec_shape()
                == self.ids[slot].shape
    }

    /// The place of the channel for `id`.
    pub open spec fn slot_of(self, id: EventTypeId) -> int {
        self.ids.index_of(id)
    }

    /// The fingerprint of the payload type the channel for `id` was opened
    /// for.
    pub open spec fn payload_type(self, id: EventTypeId) -> u64 {
        self.types[self.slot_of(id)]
    }

    /// The collision that a request for `id` meets when it brings the
    /// payload type `payload_type`: there is one if and only if the channel
    /// for `id` was opened for another payload type.
    pub open spec fn collision(self, id: EventTypeId, payload_type: u64) -> Option<TypeCollision> {
        if self.ids.contains(id) && self.payload_type(id) != payload_type {
            Some(TypeCollision { id, held: self.payload_type(id), brought: payload_type })
        } else {
            None
        }
    }

    /// The state of the channel for `id`.
    pub open spec fn channel(self, id: EventTypeId) -> ChannelState<BridgeEvent<R, T>> {
        self.channels[self.slot_of(id)]
    }

    /// Whether `sender` is the sending side of one of the channels.
    pub open spec fn knows(self, sender: SenderHandle) -> bool {
        sender.slot < self.ids.len() && self.ids[sender.slot as int] == sender.id
    }

    /// The registry with the channel at `slot` in state `state`.
    pub open spec fn with_channel(self, slot: int, state: ChannelState<BridgeEvent<R, T>>) -> Self {
        RegistryView { channels: self.channels.update(slot, state), ..self }
    }
}

/// A registry without channels.
pub open spec fn empty_registry<R, T>() -> RegistryView<R, T> {
    RegistryView { ids: Seq::empty(), types: Seq::empty(), channels: Seq::empty() }
}

/// The registry after a sender for `id` was requested with the payload type
/// `payload_type`: a channel for that payload type is opened if there was
/// none for `id`, and nothing changes if there was one, whether the request
/// was served or refused.
pub open spec fn requested<R, T>(
    view: RegistryView<R, T>,
    id: EventTypeId,
    payload_type: u64,
) -> RegistryView<R, T> {
    if view.ids.contains(id) {
        view
    } else {
        RegistryView {
            ids: view.ids.push(id),
            types: view.types.push(payload_type),
            channels: view.channels.push(fresh_channel()),
        }
    }
}

/// What sending `event` through `sender` gives: whether the event was queued,
/// or why it was refused.
pub open spec fn send_outcome<R, T>(
    view: RegistryView<R, T>,
    sender: SenderHandle,
    event: BridgeEvent<R, T>,
) -> Result<bool, SendError> {
    if !view.knows(sender) {
        Err(SendError::UnknownSender)
    } else if event.spec_shape() != sender.id.shape {
        Err(SendError::TypeMismatch)
    } else {
        Ok(view.channels[sender.slot as int].connected)
    }
}

/// Whether `event`, sent through `sender`, is queued for the consumer.
pub open spec fn queues<R, T>(
    view: RegistryView<R, T>,
    sender: SenderHandle,
    event: BridgeEvent<R, T>,
) -> bool {
    send_outcome(view, sender, event) == Ok::<bool, SendError>(true)
}

/// The registry after `event` was sent through `sender`: the sender's
/// channel has taken the event, unless the event was refused.
pub open spec fn after_send<R, T>(
    view: RegistryView<R, T>,
    sender: SenderHandle,
    event: BridgeEvent<R, T>,
) -> RegistryView<R, T> {
    if send_outcome(view, sender, event) is Ok {
        view.with_channel(sender.slot as int, sent(view.channels[sender.slot as int], event))
    } else {
        view
    }
}

/// The registry after `event` was sent on the channel for `id`: the channel
/// has taken the event if it carries events of that shape; where there is no
/// such channel nothing changes.
pub open spec fn after_send_to<R, T>(
    view: RegistryView<R, T>,
    id: EventTypeId,
    event: BridgeEvent<R, T>,
) -> RegistryView<R, T> {
    if view.ids.contains(id) && event.spec_shape() == id.shape {
        view.with_channel(view.slot_of(id), sent(view.channel(id), event))
    } else {
        view
    }
}

/// Sending through a sender the registry knows is sending on the channel
/// for the sender's event type.
pub proof fn lemma_send_by_id<R, T>(
    view: RegistryView<R, T>,
    sender: SenderHandle,
    event: BridgeEvent<R, T>,
)
    requires
        view.wf(),
        view.knows(sender),
    ensures
        view.ids.contains(sender.id),
        view.slot_of(sender.id) == sender.slot,
        after_send(view, sender, event) == after_send_to(view, sender.id, event),
        queues(view, sender, event) == (event.spec_shape() == sender.id.shape && view.channel(
            sender.id,
        ).connected),
{
    lemma_slot_unique(view.ids, sender.slot as int);
}

/// The registry after the events for `id` were taken.
pub open spec fn after_drain<R, T>(view: RegistryView<R, T>, id: EventTypeId) -> RegistryView<
    R,
    T,
> {
    if view.ids.contains(id) {
        view.with_channel(view.slot_of(id), drained(view.channel(id)))
    } else {
        view
    }
}

/// The registry after the receiving side for `id` has gone.
pub open spec fn after_disconnect<R, T>(
    view: RegistryView<R, T>,
    id: EventTypeId,
) -> RegistryView<R, T> {
    if view.ids.contains(id) {
        view.with_channel(view.slot_of(id), disconnected())
    } else {
        view
    }
}

/// In a sequence without duplicates an element's place is the only place
/// where it stands.
pub proof fn lemma_slot_unique(ids: Seq<EventTypeId>, slot: int)
    requires
        ids.no_duplicates(),
        0 <= slot < ids.len(),
    ensures
        ids.contains(ids[slot]),
        ids.index_of(ids[slot]) == slot,
{
    let found = ids.index_of(ids[slot]);
    assert(0 <= found < ids.len() && ids[found] == ids[slot]);
}

/// The registry after each of `requests` was made, in their order, where a
/// request for an event type brings the payload type that `types` gives it.
pub open spec fn requested_all<R, T>(
    view: RegistryView<R, T>,
    requests: Seq<EventTypeId>,
    types: spec_fn(EventTypeId) -> u64,
) -> RegistryView<R, T>
    decreases requests.len(),
{
    if requests.len() == 0 {
        view
    } else {
        requested(
            requested_all(view, requests.drop_last(), types),
            requests.last(),
            types(requests.last()),
        )
    }
}

/// How many of `requests`, made in their order, opened a channel for `id`.
pub open spec fn channels_opened<R, T>(
    view: RegistryView<R, T>,
    requests: Seq<EventTypeId>,
    types: spec_fn(EventTypeId) -> u64,
    id: EventTypeId,
) -> nat
    decreases requests.len(),
{
    if requests.len() == 0 {
        0
    } else {
        let before = requested_all(view, requests.drop_last(), types);
        let opened: nat = if requests.last() == id && !before.ids.contains(id) {
            1
        } else {
            0
        };
        channels_opened(view, requests.drop_last(), types, id) + opened
    }
}

/// Whether `later` holds every channel of `earlier` in the same place and
/// state, and for the same payload type.
pub open spec fn keeps_channels<R, T>(
    later: RegistryView<R, T>,
    earlier: RegistryView<R, T>,
) -> bool {
    &&& earlier.ids.len() <= later.ids.len()
    &&& forall|slot: int|
        0 <= slot < earlier.ids.len() ==> #[trigger] later.ids[slot] == earlier.ids[slot]
    &&& forall|slot: int|
        0 <= slot < earlier.ids.len() ==> #[trigger] later.types[slot] == earlier.types[slot]
    &&& forall|slot: int|
        0 <= slot < earlier.ids.len() ==> #[trigger] later.channels[slot]
            == earlier.channels[slot]
}

/// A request keeps the registry well formed and every channel in its place.
/// It changes nothing for any other event type: neither whether that type
/// has a channel, nor what a request for it would collide with.
pub proof fn lemma_requested_keeps<R, T>(
    view: RegistryView<R, T>,
    id: EventTypeId,
    payload_type: u64,
)
    requires
        view.wf(),
    ensures
        requested(view, id, payload_type).wf(),
        keeps_channels(requested(view, id, payload_type), view),
        requested(view, id, payload_type).ids.contains(id),
        forall|other: EventTypeId|
            other != id ==> (requested(view, id, payload_type).ids.contains(other)
                <==> view.ids.contains(other)),
        forall|other: EventTypeId, brought: u64|
            other != id ==> #[trigger] requested(view, id, payload_type).collision(other, brought)
                == view.collision(other, brought),
{
    let after = requested(view, id, payload_type);
    assert forall|other: EventTypeId, brought: u64| other != id implies #[trigger] after.collision(
        other,
        brought,
    ) == view.collision(other, brought) by {
        if view.ids.contains(other) {
            let slot = view.slot_of(other);
            assert(0 <= slot < view.ids.len() && view.ids[slot] == other);
            if !view.ids.contains(id) {
                assert(after.ids[slot] == other);
                assert forall|i: int, j: int|
                    0 <= i < after.ids.len() && 0 <= j < after.ids.len() && i != j implies after.ids[i]
                    != after.ids[j] by {
                    if i < view.ids.len() {
                        assert(view.ids[i] == after.ids[i]);
                    }
                    if j < view.ids.len() {
                        assert(view.ids[j] == after.ids[j]);
                    }
                }
                lemma_slot_unique(after.ids, slot);
            }
        } else if after.ids.contains(other) {
            let at = choose|at: int| 0 <= at < after.ids.len() && after.ids[at] == other;
            assert(view.ids[at] == other);
        }
    }
    if !view.ids.contains(id) {
        let last = view.ids.len() as int;
        assert(after.ids[last] == id);
        assert forall|i: int, j: int|
            0 <= i < after.ids.len() && 0 <= j < after.ids.len() && i != j implies after.ids[i]
            != after.ids[j] by {
            if i < last {
                assert(view.ids[i] == after.ids[i]);
            }
            if j < last {
                assert(view.ids[j] == after.ids[j]);
            }
        }
        assert forall|slot: int, at: int|
            0 <= slot < after.channels.len() && 0 <= at < after.channels[slot].pending.len()
            implies (#[trigger] after.channels[slot].pending[at]).spec_shape()
            == after.ids[slot].shape by {
            if slot < last {
                assert(after.channels[slot] == view.channels[slot]);
            }
        }
        assert forall|other: EventTypeId| other != id implies (after.ids.contains(other)
            <==> view.ids.contains(other)) by {
            if after.ids.contains(other) {
                let at = choose|at: int| 0 <= at < after.ids.len() && after.ids[at] == other;
                assert(view.ids[at] == other);
            }
            if view.ids.contains(other) {
                let at = choose|at: int| 0 <= at < view.ids.len() && view.ids[at] == other;
                assert(after.ids[at] == other);
            }
        }
    }
}

/// However many requests are served, the registry stays well formed and
/// every channel stays in its place and state.
pub proof fn lemma_requests_keep_channels<R, T>(
    view: RegistryView<R, T>,
    requests: Seq<EventTypeId>,
    types: spec_fn(EventTypeId) -> u64,
)
    requires
        view.wf(),
    ensures
        requested_all(view, requests, types).wf(),
        keeps_channels(requested_all(view, requests, types), view),
    decreases requests.len(),
{
    if requests.len() > 0 {
        lemma_requests_keep_channels(view, requests.drop_last(), types);
        lemma_requested_keeps(
            requested_all(view, requests.drop_last(), types),
            requests.last(),
            types(requests.last()),
        );
    }
}

/// Among any requests, served in any order, exactly one opens the channel of
/// an event type that had none, and none opens a second one: after them the
/// registry holds a channel for `id` if and only if it held one before or
/// `id` was requested, and the requests opened one channel for `id` in the
/// first case of the two and none otherwise.
pub proof fn lemma_one_channel_per_event_type<R, T>(
    view: RegistryView<R, T>,
    requests: Seq<EventTypeId>,
    types: spec_fn(EventTypeId) -> u64,
    id: EventTypeId,
)
    requires
        view.wf(),
    ensures
        requested_all(view, requests, types).wf(),
        requested_all(view, requests, types).ids.contains(id) <==> view.ids.contains(id)
            || requests.contains(id),
        channels_opened(view, requests, types, id) == if !view.ids.contains(id)
            && requests.contains(id) {
            1nat
        } else {
            0nat
        },
    decreases requests.len(),
{
    if requests.len() > 0 {
        let earlier = requests.drop_last();
        let before = requested_all(view, earlier, types);
        lemma_one_channel_per_event_type(view, earlier, types, id);
        lemma_requested_keeps(before, requests.last(), types(requests.last()));
        assert(requests.contains(id) <==> earlier.contains(id) || requests.last() == id) by {
            if earlier.contains(id) {
                let at = choose|at: int| 0 <= at < earlier.len() && earlier[at] == id;
                assert(requests[at] == id);
            }
            if requests.last() == id {
                assert(requests[requests.len() - 1] == id);
            }
            if requests.contains(id) {
                let at = choose|at: int| 0 <= at < requests.len() && requests[at] == id;
                if at < earlier.len() {
                    assert(earlier[at] == id);
                }
            }
        }
    }
}

/// Every caller that requests `id` is given the same sender, whenever it
/// asks: the sender handed out by the request at place `at` is the one the
/// registry holds for `id` after all requests, and it is known there.
pub proof fn lemma_same_sender_for_every_caller<R, T>(
    view: RegistryView<R, T>,
    requests: Seq<EventTypeId>,
    types: spec_fn(EventTypeId) -> u64,
    at: int,
)
    requires
        view.wf(),
        0 <= at < requests.len(),
    ensures
        requested_all(view, requests.take(at + 1), types).slot_of(requests[at])
            == requested_all(view, requests, types).slot_of(requests[at]),
        0 <= requested_all(view, requests, types).slot_of(requests[at]) < requested_all(
            view,
            requests,
            types,
        ).ids.len(),
        requested_all(view, requests, types).ids[requested_all(view, requests, types).slot_of(
            requests[at],
        )] == requests[at],
    decreases requests.len(),
{
    let id = requests[at];
    let all = requested_all(view, requests, types);
    lemma_requests_keep_channels(view, requests, types);
    if at + 1 == requests.len() {
        assert(requests.take(at + 1) =~= requests);
        lemma_requests_keep_channels(view, requests.drop_last(), types);
        lemma_requested_keeps(requested_all(view, requests.drop_last(), types), id, types(id));
    } else {
        let earlier = requests.drop_last();
        let before = requested_all(view, earlier, types);
        assert(earlier.take(at + 1) =~= requests.take(at + 1));
        assert(earlier[at] == id);
        lemma_same_sender_for_every_caller(view, earlier, types, at);
        lemma_requests_keep_channels(view, earlier, types);
        lemma_requested_keeps(before, requests.last(), types(requests.last()));
        let slot = before.slot_of(id);
        assert(all.ids[slot] == before.ids[slot]);
        lemma_slot_unique(all.ids, slot);
    }
}

/// Callers that bring one payload type for an event type are all served:
/// if a request for `id` with the payload type that `types` gives it meets
/// no collision before the requests, it meets none after them, whatever was
/// requested in between.
pub proof fn lemma_requests_of_one_type_are_served<R, T>(
    view: RegistryView<R, T>,
    requests: Seq<EventTypeId>,
    types: spec_fn(EventTypeId) -> u64,
    id: EventTypeId,
)
    requires
        view.wf(),
        view.collision(id, types(id)) is None,
    ensures
        requested_all(view, requests, types).collision(id, types(id)) is None,
    decreases requests.len(),
{
    if requests.len() > 0 {
        let before = requested_all(view, requests.drop_last(), types);
        lemma_requests_of_one_type_are_served(view, requests.drop_last(), types, id);
        lemma_requests_keep_channels(view, requests.drop_last(), types);
        lemma_requested_keeps(before, requests.last(), types(requests.last()));
        if requests.last() == id && !before.ids.contains(id) {
            let after = requested(before, id, types(id));
            let slot = before.ids.len() as int;
            assert(after.ids[slot] == id);
            lemma_slot_unique(after.ids, slot);
        }
    }
}

/// A request that brings another payload type than the channel for its
/// event type was opened for is refused, and leaves the registry as it was.
pub proof fn lemma_collision_changes_nothing<R, T>(
    view: RegistryView<R, T>,
    id: EventTypeId,
    payload_type: u64,
)
    requires
        view.collision(id, payload_type) is Some,
    ensures
        requested(view, id, payload_type) == view,
        view.collision(id, payload_type)->0.held != payload_type,
{
}

/// The registry after every receiving side has gone: every channel is
/// disconnected and empty, and nothing else has changed.
pub open spec fn after_teardown<R, T>(view: RegistryView<R, T>) -> RegistryView<R, T> {
    RegistryView {
        channels: Seq::new(
            view.channels.len(),
            |slot: int| disconnected::<BridgeEvent<R, T>>(),
        ),
        ..view
    }
}

/// The registry of channels, one per event type.
pub struct ChannelRegistry<R, T> {
    index: HashMap<u64, usize, FixedHasher>,
    ids: Vec<EventTypeId>,
    types: Vec<u64>,
    channels: Vec<EventChannel<BridgeEvent<R, T>>>,
}

impl<R, T> View for ChannelRegistry<R, T> {
    type V = RegistryView<R, T>;

    closed spec fn view(&self) -> RegistryView<R, T> {
        RegistryView {
            ids: self.ids@,
            types: self.types@,
            channels: self.channels@.map_values(
                |channel: EventChannel<BridgeEvent<R, T>>| channel@,
            ),
        }
    }
}

impl<R, T> ChannelRegistry<R, T> {
    /// The index files every channel under the key of its event type and
    /// nothing else, and what the registry holds is well formed.
    pub closed spec fn wf(&self) -> bool {
        &&& self@.wf()
        &&& forall|slot: int|
            0 <= slot < self.ids@.len() ==> slots(self.index).contains_key(
                #[trigger] self.ids@[slot].spec_key(),
            ) && slots(self.index)[self.ids@[slot].spec_key()] == slot
        &&& forall|key: u64| #[trigger]
            slots(self.index).contains_key(key) ==> slots(self.index)[key] < self.ids@.len()
                && self.ids@[slots(self.index)[key] as int].spec_key() == key
    }

    /// What a well-formed registry holds is well formed.
    pub proof fn lemma_view_wf(&self)
        requires
            self.wf(),
        ensures
            self@.wf(),
    {
    }

    /// Makes a registry without channels.
    pub fn new() -> (registry: Self)
        ensures
            registry.wf(),
            registry@ == empty_registry::<R, T>(),
    {
        let registry = ChannelRegistry {
            index: index_new(),
            ids: Vec::new(),
            types: Vec::new(),
            channels: Vec::new(),
        };
        assert(registry@.channels =~= Seq::empty());
        assert(registry@.ids =~= Seq::empty());
        assert(forall|key: u64| !slots(registry.index).dom().contains(key));
        registry
    }

    /// How many channels were opened.
    pub fn len(&self) -> (len: usize)
        requires
            self.wf(),
        ensures
            len == self@.ids.len(),
    {
        self.ids.len()
    }

    /// Looks up the sender for `id` without opening a channel.
    pub fn sender(&self, id: EventTypeId) -> (found: Option<SenderHandle>)
        requires
            self.wf(),
        ensures
            found is Some <==> self@.ids.contains(id),
            found matches Some(sender) ==> sender.id == id && sender.slot == self@.slot_of(id)
                && self@.knows(sender),
    {
        match index_get(&self.index, id.key()) {
            Some(slot) => {
                proof {
                    lemma_key_injective(self.ids@[slot as int], id);
                    lemma_slot_unique(self.ids@, slot as int);
                }
                Some(SenderHandle { id, slot })
            },
            None => {
                assert(!self@.ids.contains(id)) by {
                    if self@.ids.contains(id) {
                        let slot = self@.ids.index_of(id);
                        assert(self.ids@[slot].spec_key() == id.spec_key());
                    }
                }
                None
            },
        }
    }

    /// The collision that a request for `id` would meet if it brought the
    /// payload type `payload_type`.
    pub fn collision(&self, id: EventTypeId, payload_type: u64) -> (found: Option<TypeCollision>)
        requires
            self.wf(),
        ensures
            found == self@.collision(id, payload_type),
    {
        match self.sender(id) {
            Some(sender) => {
                let held = self.types[sender.slot];
                if held != payload_type {
                    Some(TypeCollision { id, held, brought: payload_type })
                } else {
                    None
                }
            },
            None => None,
        }
    }

    /// Gives the sender for `id`, whose payloads are of the type with the
    /// fingerprint `payload_type`, opening the channel if this is the first
    /// request for `id`. Every request for one event type gives the same
    /// sender; only the first reports `created`.
    ///
    /// A request that brings another payload type than the channel for `id`
    /// was opened for is refused, and changes nothing: the two payload types
    /// were given one identifier, and no sender is handed out that would
    /// mix them.
    pub fn get_or_create_sender(&mut self, id: EventTypeId, payload_type: u64) -> (outcome: Result<
        Registration,
        TypeCollision,
    >)
        requires
            old(self).wf(),
        ensures
            final(self).wf(),
            final(self)@ == requested(old(self)@, id, payload_type),
            match outcome {
                Ok(registration) => old(self)@.collision(id, payload_type) is None
                    && registration.created == !old(self)@.ids.contains(id)
                    && registration.sender.id == id
                    && registration.sender.slot == final(self)@.slot_of(id)
                    && final(self)@.knows(registration.sender),
                Err(collision) => old(self)@.collision(id, payload_type) == Some(collision),
            },
    {
        match self.collision(id, payload_type) {
            Some(collision) => Err(collision),
            None => Ok(self.open(id, payload_type)),
        }
    }

    /// Gives the sender for `id` where the request meets no collision.
    pub(crate) fn open(&mut self, id: EventTypeId, payload_type: u64) -> (registration:
        Registration)
        requires
            old(self).wf(),
            old(self)@.collision(id, payload_type) is None,
        ensures
            final(self).wf(),
            final(self)@ == requested(old(self)@, id, payload_type),
            registration.created == !old(self)@.ids.contains(id),
            registration.sender.id == id,
            registration.sender.slot == final(self)@.slot_of(id),
            final(self)@.knows(registration.sender),
    {
        match self.sender(id) {
            Some(sender) => Registration { sender, created: false },
            None => {
                let slot = self.ids.len();
                let ghost before = *self;
                self.ids.push(id);
                self.types.push(payload_type);
                self.channels.push(EventChannel::new());
                let _ = index_insert(&mut self.index, id.key(), slot);
                proof {
                    assert(self@.ids =~= before@.ids.push(id));
                    assert(self@.types =~= before@.types.push(payload_type));
                    assert(self@.channels =~= before@.channels.push(fresh_channel()));
                    assert(self@.ids.no_duplicates()) by {
                        assert forall|i: int, j: int|
                            0 <= i < self@.ids.len() && 0 <= j < self@.ids.len() && i != j
                            implies self@.ids[i] != self@.ids[j] by {
                            if i < slot {
                                assert(before@.ids[i] == self@.ids[i]);
                                assert(before@.ids.contains(self@.ids[i]));
                            }
                            if j < slot {
                                assert(before@.ids[j] == self@.ids[j]);
                                assert(before@.ids.contains(self@.ids[j]));
                            }
                        }
                    }
                    assert forall|at: int| 0 <= at < self.ids@.len() implies slots(
                        self.index,
                    ).contains_key(#[trigger] self.ids@[at].spec_key()) && slots(
                        self.index,
                    )[self.ids@[at].spec_key()] == at by {
                        if at < slot {
                            assert(before.ids@[at] == self.ids@[at]);
                            assert(before@.ids.contains(before.ids@[at]));
                            if self.ids@[at].spec_key() == id.spec_key() {
                                lemma_key_injective(self.ids@[at], id);
                            }
                        }
                    }
                    assert forall|key: u64| #[trigger]
                        slots(self.index).contains_key(key) implies slots(self.index)[key]
                        < self.ids@.len() && self.ids@[slots(self.index)[key] as int].spec_key()
                        == key by {
                        if key != id.spec_key() {
                            assert(slots(before.index).contains_key(key));
                        }
                    }
                    lemma_slot_unique(self@.ids, slot as int);
                }
                Registration { sender: SenderHandle { id, slot }, created: true }
            },
        }
    }

    /// Sends `event` on `sender`'s channel without blocking.
    ///
    /// Returns whether the event was queued: an event for a channel whose
    /// receiving side has gone is dropped, which is no error. An event whose
    /// shape is not that of the sender's event type is refused, and so is a
    /// sender this registry did not hand out; neither changes the registry.
    pub fn send(&mut self, sender: SenderHandle, event: BridgeEvent<R, T>) -> (outcome: Result<
        bool,
        SendError,
    >)
        requires
            old(self).wf(),
        ensures
            final(self).wf(),
            outcome == send_outcome(old(self)@, sender, event),
            final(self)@ == after_send(old(self)@, sender, event),
    {
        if sender.slot >= self.ids.len() || self.ids[sender.slot] != sender.id {
            return Err(SendError::UnknownSender);
        }
        if event.shape() != sender.id.shape {
            return Err(SendError::TypeMismatch);
        }
        let ghost before = *self;
        let delivered = self.channels[sender.slot].send(event);
        proof {
            let slot = sender.slot as int;
            assert(self@.channels =~= before@.channels.update(
                slot,
                sent(before@.channels[slot], event),
            ));
            assert forall|other: int, at: int|
                0 <= other < self@.channels.len() && 0 <= at < self@.channels[other].pending.len()
                implies (#[trigger] self@.channels[other].pending[at]).spec_shape()
                == self@.ids[other].shape by {
                if other == slot {
                    if at < before@.channels[slot].pending.len() {
                        assert(self@.channels[slot].pending[at]
                            == before@.channels[slot].pending[at]);
                    }
                } else {
                    assert(self@.channels[other] == before@.channels[other]);
                }
            }
        }
        Ok(delivered)
    }

    /// Takes the events queued for `id`, oldest first. Gives nothing where
    /// no channel was opened for `id`.
    pub fn drain(&mut self, id: EventTypeId) -> (events: Vec<BridgeEvent<R, T>>)
        requires
            old(self).wf(),
        ensures
            final(self).wf(),
            final(self)@ == after_drain(old(self)@, id),
            events@ == if old(self)@.ids.contains(id) {
                old(self)@.channel(id).pending
            } else {
                Seq::empty()
            },
    {
        match self.sender(id) {
            Some(sender) => {
                let ghost before = *self;
                let events = self.channels[sender.slot].drain();
                proof {
                    let slot = sender.slot as int;
                    assert(self@.channels =~= before@.channels.update(
                        slot,
                        drained(before@.channels[slot]),
                    ));
                    assert forall|other: int, at: int|
                        0 <= other < self@.channels.len() && 0 <= at
                            < self@.channels[other].pending.len() implies (
                    #[trigger] self@.channels[other].pending[at]).spec_shape()
                        == self@.ids[other].shape by {
                        if other != slot {
                            assert(self@.channels[other] == before@.channels[other]);
                        }
                    }
                }
                events
            },
            None => Vec::new(),
        }
    }

    /// Drops the receiving side of every channel, and with it what was
    /// queued: the consumer has gone. Senders stay valid, and what is sent
    /// through them from now on is dropped.
    pub fn disconnect_all(&mut self)
        requires
            old(self).wf(),
        ensures
            final(self).wf(),
            final(self)@ == after_teardown(old(self)@),
    {
        let ghost before = *self;
        let mut slot: usize = 0;
        while slot < self.channels.len()
            invariant
                slot <= self.channels.len(),
                before.wf(),
                self.index == before.index,
                self.ids == before.ids,
                self.types == before.types,
                self.channels@.len() == before.channels@.len(),
                forall|at: int| 0 <= at < slot ==> (#[trigger] self.channels@[at])@ == disconnected::<
                    BridgeEvent<R, T>,
                >(),
                forall|at: int|
                    slot <= at < self.channels@.len() ==> #[trigger] self.channels@[at]
                        == before.channels@[at],
            decreases self.channels.len() - slot,
        {
            self.channels[slot].disconnect();
            slot += 1;
        }
        assert(self@.channels =~= after_teardown(before@).channels);
    }

    /// Drops the receiving side of the channel for `id`, and with it what
    /// was queued there. Returns whether there was such a channel.
    pub fn disconnect(&mut self, id: EventTypeId) -> (found: bool)
        requires
            old(self).wf(),
        ensures
            final(self).wf(),
            found == old(self)@.ids.contains(id),
            final(self)@ == after_disconnect(old(self)@, id),
    {
        match self.sender(id) {
            Some(sender) => {
                let ghost before = *self;
                self.channels[sender.slot].disconnect();
                proof {
                    let slot = sender.slot as int;
                    assert(self@.channels =~= before@.channels.update(
                        slot,
                        disconnected(),
                    ));
                    assert forall|other: int, at: int|
                        0 <= other < self@.channels.len() && 0 <= at
                            < self@.channels[other].pending.len() implies (
                    #[trigger] self@.channels[other].pending[at]).spec_shape()
                        == self@.ids[other].shape by {
                        if other != slot {
                            assert(self@.channels[other] == before@.channels[other]);
                        }
                    }
                }
                true
            },
            None => false,
        }
    }
}

} // verus!
