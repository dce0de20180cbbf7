//! The table adapter: from a table's row notifications to events on the
//! channels of the activated streams.

use crate::config::{StdbEvents, StreamKind};
use crate::event::{
    stream_shape, BridgeEvent, DeleteEvent, EventTypeId, InsertEvent, InsertUpdateEvent,
    UpdateEvent,
};
use crate::registry::{
    after_send, after_send_to, keeps_channels, lemma_requested_keeps, lemma_send_by_id,
    lemma_slot_unique, queues, requested, ChannelRegistry, Registration, RegistryView,
    SenderHandle, TypeCollision,
};
use vstd::prelude::*;

verus! {

/// A point at which a remote table accepts a callback.
#[derive(Clone, Copy, Debug, PartialEq, Eq, Structural)]
pub enum Notification {
    /// Called with each inserted row.
    Insert,
    /// Called with each deleted row.
    Delete,
    /// Called with the old and the new value of each updated row.
    Update,
}

/// One callback to attach: `stream` listens at `on`.
#[derive(Clone, Copy, Debug, PartialEq, Eq, Structural)]
pub struct CallbackBinding {
    pub stream: StreamKind,
    pub on: Notification,
}

/// One row notification, with the row values it came with.
#[derive(Clone, Debug, PartialEq, Eq)]
pub enum RowChange<R> {
    /// The row after the insert.
    Inserted(R),
    /// The row before the delete.
    Deleted(R),
    /// The row before and after the update.
    Updated(R, R),
}

/// Whether `stream` listens at `on`. The insert-or-update stream listens at
/// two points; each other stream at its own.
pub open spec fn listens(stream: StreamKind, on: Notification) -> bool {
    match stream {
        StreamKind::Insert => on == Notification::Insert,
        StreamKind::Delete => on == Notification::Delete,
        StreamKind::Update => on == Notification::Update,
        StreamKind::InsertUpdate => on == Notification::Insert || on == Notification::Update,
    }
}

/// The callbacks that `stream` attaches, in the order in which it attaches
/// them.
pub open spec fn stream_callbacks(stream: StreamKind) -> Seq<CallbackBinding> {
    match stream {
        StreamKind::Insert => seq![CallbackBinding { stream, on: Notification::Insert }],
        StreamKind::Delete => seq![CallbackBinding { stream, on: Notification::Delete }],
        StreamKind::Update => seq![CallbackBinding { stream, on: Notification::Update }],
        StreamKind::InsertUpdate => seq![
            CallbackBinding { stream, on: Notification::Update },
            CallbackBinding { stream, on: Notification::Insert },
        ],
    }
}

/// The callbacks of `stream` if it is among `streams`, and none otherwise.
pub open spec fn callbacks_if(streams: Set<StreamKind>, stream: StreamKind) -> Seq<
    CallbackBinding,
> {
    if streams.contains(stream) {
        stream_callbacks(stream)
    } else {
        Seq::empty()
    }
}

/// The callbacks that a table with the activated `streams` attaches: those
/// of the insert stream, then of the delete, update and insert-or-update
/// streams.
pub open spec fn callback_plan(streams: Set<StreamKind>) -> Seq<CallbackBinding> {
    callbacks_if(streams, StreamKind::Insert) + callbacks_if(streams, StreamKind::Delete)
        + callbacks_if(streams, StreamKind::Update) + callbacks_if(
        streams,
        StreamKind::InsertUpdate,
    )
}

/// The event that `stream` makes of `change`, if it listens for it.
pub open spec fn stream_event<R, T>(stream: StreamKind, change: RowChange<R>) -> Option<
    BridgeEvent<R, T>,
> {
    match (stream, change) {
        (StreamKind::Insert, RowChange::Inserted(row)) => Some(
            BridgeEvent::Insert(InsertEvent { row }),
        ),
        (StreamKind::Delete, RowChange::Deleted(row)) => Some(
            BridgeEvent::Delete(DeleteEvent { row }),
        ),
        (StreamKind::Update, RowChange::Updated(old_row, new_row)) => Some(
            BridgeEvent::Update(UpdateEvent { old: old_row, new: new_row }),
        ),
        (StreamKind::InsertUpdate, RowChange::Inserted(row)) => Some(
            BridgeEvent::InsertUpdate(InsertUpdateEvent { old: None, new: row }),
        ),
        (StreamKind::InsertUpdate, RowChange::Updated(old_row, new_row)) => Some(
            BridgeEvent::InsertUpdate(InsertUpdateEvent { old: Some(old_row), new: new_row }),
        ),
        _ => None,
    }
}

/// The registry after `stream` of `table`, whose rows are of the type with
/// the fingerprint `row_type`, was opened, if it is among `streams`.
pub open spec fn opened_if<R, T>(
    view: RegistryView<R, T>,
    table: u32,
    row_type: u64,
    streams: Set<StreamKind>,
    stream: StreamKind,
) -> RegistryView<R, T> {
    if streams.contains(stream) {
        requested(view, EventTypeId::of_stream(table, stream), row_type)
    } else {
        view
    }
}

/// The collision that opening `stream` of `table` meets, if it is among
/// `streams`.
pub open spec fn stream_collision<R, T>(
    view: RegistryView<R, T>,
    table: u32,
    row_type: u64,
    streams: Set<StreamKind>,
    stream: StreamKind,
) -> Option<TypeCollision> {
    if streams.contains(stream) {
        view.collision(EventTypeId::of_stream(table, stream), row_type)
    } else {
        None
    }
}

/// The first collision that registering `table` meets, taking the activated
/// streams in the order insert, delete, update, insert-or-update: there is
/// one if and only if the channel of an activated stream was opened for
/// rows of another type.
pub open spec fn table_collision<R, T>(
    view: RegistryView<R, T>,
    table: u32,
    row_type: u64,
    streams: Set<StreamKind>,
) -> Option<TypeCollision> {
    if stream_collision(view, table, row_type, streams, StreamKind::Insert) is Some {
        stream_collision(view, table, row_type, streams, StreamKind::Insert)
    } else if stream_collision(view, table, row_type, streams, StreamKind::Delete) is Some {
        stream_collision(view, table, row_type, streams, StreamKind::Delete)
    } else if stream_collision(view, table, row_type, streams, StreamKind::Update) is Some {
        stream_collision(view, table, row_type, streams, StreamKind::Update)
    } else {
        stream_collision(view, table, row_type, streams, StreamKind::InsertUpdate)
    }
}

/// The registry after `table` was registered with the activated `streams`:
/// each activated stream has its channel, and nothing else has changed.
pub open spec fn registered<R, T>(
    view: RegistryView<R, T>,
    table: u32,
    row_type: u64,
    streams: Set<StreamKind>,
) -> RegistryView<R, T> {
    opened_if(
        opened_if(
            opened_if(
                opened_if(view, table, row_type, streams, StreamKind::Insert),
                table,
                row_type,
                streams,
                StreamKind::Delete,
            ),
            table,
            row_type,
            streams,
            StreamKind::Update,
        ),
        table,
        row_type,
        streams,
        StreamKind::InsertUpdate,
    )
}

/// The registry after the callback of `stream` was called with `change`, on
/// a table whose activated streams are `streams`.
///
/// A stream that is not activated sends nothing; neither does a stream that
/// does not listen for `change`, or one whose channel was never opened.
pub open spec fn notified<R, T>(
    view: RegistryView<R, T>,
    table: u32,
    streams: Set<StreamKind>,
    stream: StreamKind,
    change: RowChange<R>,
) -> RegistryView<R, T> {
    let id = EventTypeId::of_stream(table, stream);
    if streams.contains(stream) {
        match stream_event::<R, T>(stream, change) {
            Some(event) => after_send_to(view, id, event),
            None => view,
        }
    } else {
        view
    }
}

/// Whether the callback of `stream`, called with `change`, queues an event.
pub open spec fn notification_delivered<R, T>(
    view: RegistryView<R, T>,
    table: u32,
    streams: Set<StreamKind>,
    stream: StreamKind,
    change: RowChange<R>,
) -> bool {
    let id = EventTypeId::of_stream(table, stream);
    &&& streams.contains(stream)
    &&& view.ids.contains(id)
    &&& stream_event::<R, T>(stream, change) is Some
    &&& view.channel(id).connected
}

/// The point at which `change` is notified.
pub open spec fn notification_of<R>(change: RowChange<R>) -> Notification {
    match change {
        RowChange::Inserted(_) => Notification::Insert,
        RowChange::Deleted(_) => Notification::Delete,
        RowChange::Updated(_, _) => Notification::Update,
    }
}

/// A stream makes an event of exactly the changes that are notified at a
/// point where it listens.
pub proof fn lemma_event_iff_listens<R, T>(stream: StreamKind, change: RowChange<R>)
    ensures
        stream_event::<R, T>(stream, change) is Some <==> listens(stream, notification_of(change)),
{
}

/// The event that a stream makes has the shape of the stream's channel.
pub proof fn lemma_stream_event_shape<R, T>(stream: StreamKind, change: RowChange<R>)
    ensures
        stream_event::<R, T>(stream, change) matches Some(event) ==> event.spec_shape()
            == stream_shape(stream),
{
}

/// The event that `stream` makes of `change`, if it listens for it.
pub fn event_for<R, T>(stream: StreamKind, change: RowChange<R>) -> (event: Option<
    BridgeEvent<R, T>,
>)
    ensures
        event == stream_event::<R, T>(stream, change),
{
    match stream {
        StreamKind::Insert => match change {
            RowChange::Inserted(row) => Some(BridgeEvent::Insert(InsertEvent { row })),
            _ => None,
        },
        StreamKind::Delete => match change {
            RowChange::Deleted(row) => Some(BridgeEvent::Delete(DeleteEvent { row })),
            _ => None,
        },
        StreamKind::Update => match change {
            RowChange::Updated(old_row, new_row) => Some(
                BridgeEvent::Update(UpdateEvent { old: old_row, new: new_row }),
            ),
            _ => None,
        },
        StreamKind::InsertUpdate => match change {
            RowChange::Inserted(row) => Some(
                BridgeEvent::InsertUpdate(InsertUpdateEvent { old: None, new: row }),
            ),
            RowChange::Updated(old_row, new_row) => Some(
                BridgeEvent::InsertUpdate(
                    InsertUpdateEvent { old: Some(old_row), new: new_row },
                ),
            ),
            RowChange::Deleted(_) => None,
        },
    }
}

/// The callbacks that `stream` attaches, in the order in which it attaches
/// them.
pub fn callbacks_of(stream: StreamKind) -> (callbacks: Vec<CallbackBinding>)
    ensures
        callbacks@ == stream_callbacks(stream),
{
    let mut callbacks: Vec<CallbackBinding> = Vec::new();
    match stream {
        StreamKind::Insert => {
            callbacks.push(CallbackBinding { stream, on: Notification::Insert });
        },
        StreamKind::Delete => {
            callbacks.push(CallbackBinding { stream, on: Notification::Delete });
        },
        StreamKind::Update => {
            callbacks.push(CallbackBinding { stream, on: Notification::Update });
        },
        StreamKind::InsertUpdate => {
            callbacks.push(CallbackBinding { stream, on: Notification::Update });
            callbacks.push(CallbackBinding { stream, on: Notification::Insert });
        },
    }
    assert(callbacks@ =~= stream_callbacks(stream));
    callbacks
}

/// What opening one stream gave: the sender for the stream's channel,
/// whether the channel is new, and the callbacks to attach.
#[derive(Clone, Debug)]
pub struct StreamRegistration {
    pub stream: StreamKind,
    pub registration: Registration,
    pub callbacks: Vec<CallbackBinding>,
}

/// Whether `opened` is what opening `stream` of `table` gives, where the
/// registry held `before` when the opening began and holds `after` now: the
/// sender is that of the stream's channel, the channel is reported as new if
/// and only if there was none before, and the callbacks are the stream's.
pub open spec fn opens<R, T>(
    opened: StreamRegistration,
    table: u32,
    stream: StreamKind,
    before: RegistryView<R, T>,
    after: RegistryView<R, T>,
) -> bool {
    let id = EventTypeId::of_stream(table, stream);
    &&& opened.stream == stream
    &&& opened.registration.sender.id == id
    &&& opened.registration.sender.slot == after.slot_of(id)
    &&& after.knows(opened.registration.sender)
    &&& opened.registration.created == !before.ids.contains(id)
    &&& opened.callbacks@ == stream_callbacks(stream)
}

/// Whether `opened` holds, for each stream of `order` in turn, what opening
/// it gives.
pub open spec fn all_open<R, T>(
    opened: Seq<StreamRegistration>,
    table: u32,
    order: Seq<StreamKind>,
    before: RegistryView<R, T>,
    after: RegistryView<R, T>,
) -> bool {
    &&& opened.len() == order.len()
    &&& forall|at: int|
        0 <= at < order.len() ==> opens(#[trigger] opened[at], table, order[at], before, after)
}

/// `stream` alone if it is among `streams`, and nothing otherwise.
pub open spec fn stream_if(streams: Set<StreamKind>, stream: StreamKind) -> Seq<StreamKind> {
    if streams.contains(stream) {
        seq![stream]
    } else {
        Seq::empty()
    }
}

/// The activated streams in the order in which a table opens them: insert,
/// delete, update, insert-or-update.
pub open spec fn activated_in_order(streams: Set<StreamKind>) -> Seq<StreamKind> {
    stream_if(streams, StreamKind::Insert) + stream_if(streams, StreamKind::Delete) + stream_if(
        streams,
        StreamKind::Update,
    ) + stream_if(streams, StreamKind::InsertUpdate)
}

/// What was opened stays opened while the registry keeps its channels.
pub proof fn lemma_all_open_survives<R, T>(
    opened: Seq<StreamRegistration>,
    table: u32,
    order: Seq<StreamKind>,
    before: RegistryView<R, T>,
    then: RegistryView<R, T>,
    later: RegistryView<R, T>,
)
    requires
        then.wf(),
        later.wf(),
        keeps_channels(later, then),
        all_open(opened, table, order, before, then),
    ensures
        all_open(opened, table, order, before, later),
{
    assert forall|at: int| 0 <= at < order.len() implies opens(
        #[trigger] opened[at],
        table,
        order[at],
        before,
        later,
    ) by {
        let sender = opened[at].registration.sender;
        assert(opens(opened[at], table, order[at], before, then));
        assert(later.ids[sender.slot as int] == then.ids[sender.slot as int]);
        lemma_slot_unique(later.ids, sender.slot as int);
    }
}

/// Opening one more stream of a table extends what was opened by that
/// stream's entry.
proof fn lemma_open_next<R, T>(
    opened: Seq<StreamRegistration>,
    entry: StreamRegistration,
    table: u32,
    order: Seq<StreamKind>,
    stream: StreamKind,
    row_type: u64,
    start: RegistryView<R, T>,
    then: RegistryView<R, T>,
)
    requires
        then.wf(),
        all_open(opened, table, order, start, then),
        opens(
            entry,
            table,
            stream,
            then,
            requested(then, EventTypeId::of_stream(table, stream), row_type),
        ),
        then.ids.contains(EventTypeId::of_stream(table, stream)) == start.ids.contains(
            EventTypeId::of_stream(table, stream),
        ),
    ensures
        all_open(
            opened.push(entry),
            table,
            order.push(stream),
            start,
            requested(then, EventTypeId::of_stream(table, stream), row_type),
        ),
{
    let later = requested(then, EventTypeId::of_stream(table, stream), row_type);
    lemma_requested_keeps(then, EventTypeId::of_stream(table, stream), row_type);
    lemma_all_open_survives(opened, table, order, start, then, later);
    assert forall|at: int| 0 <= at < order.push(stream).len() implies opens(
        #[trigger] opened.push(entry)[at],
        table,
        order.push(stream)[at],
        start,
        later,
    ) by {
        if at < order.len() {
            assert(opened.push(entry)[at] == opened[at]);
        }
    }
}

/// Opens `stream` of `table`, whose rows are of the type with the
/// fingerprint `row_type`: gives the sender of the stream's channel, opening
/// the channel on the first request, and the callbacks that carry the
/// table's notifications to it.
///
/// Where the stream's channel was opened for rows of another type, the
/// opening is refused and nothing changes.
pub fn open_stream<R, T>(
    registry: &mut ChannelRegistry<R, T>,
    table: u32,
    row_type: u64,
    stream: StreamKind,
) -> (outcome: Result<StreamRegistration, TypeCollision>)
    requires
        old(registry).wf(),
    ensures
        final(registry).wf(),
        final(registry)@ == requested(
            old(registry)@,
            EventTypeId::of_stream(table, stream),
            row_type,
        ),
        match outcome {
            Ok(opened) => old(registry)@.collision(EventTypeId::of_stream(table, stream), row_type)
                is None && opens(opened, table, stream, old(registry)@, final(registry)@),
            Err(collision) => old(registry)@.collision(
                EventTypeId::of_stream(table, stream),
                row_type,
            ) == Some(collision),
        },
{
    match registry.collision(EventTypeId::for_stream(table, stream), row_type) {
        Some(collision) => Err(collision),
        None => Ok(open_free_stream(registry, table, row_type, stream)),
    }
}

/// Opens `stream` of `table` where the opening meets no collision.
fn open_free_stream<R, T>(
    registry: &mut ChannelRegistry<R, T>,
    table: u32,
    row_type: u64,
    stream: StreamKind,
) -> (opened: StreamRegistration)
    requires
        old(registry).wf(),
        old(registry)@.collision(EventTypeId::of_stream(table, stream), row_type) is None,
    ensures
        final(registry).wf(),
        final(registry)@ == requested(
            old(registry)@,
            EventTypeId::of_stream(table, stream),
            row_type,
        ),
        opens(opened, table, stream, old(registry)@, final(registry)@),
{
    let registration = registry.open(EventTypeId::for_stream(table, stream), row_type);
    StreamRegistration { stream, registration, callbacks: callbacks_of(stream) }
}

/// The body of a stream's callback: makes the stream's event of `change`
/// and sends it through `sender`.
///
/// Returns whether an event was queued. A change the stream does not listen
/// for makes no event; an event for a consumer that has gone is dropped, and
/// so is one for a sender the registry does not know. None of these stops
/// the producer.
pub fn deliver<R, T>(
    registry: &mut ChannelRegistry<R, T>,
    sender: SenderHandle,
    stream: StreamKind,
    change: RowChange<R>,
) -> (delivered: bool)
    requires
        old(registry).wf(),
    ensures
        final(registry).wf(),
        final(registry)@ == match stream_event::<R, T>(stream, change) {
            Some(event) => after_send(old(registry)@, sender, event),
            None => old(registry)@,
        },
        delivered == match stream_event::<R, T>(stream, change) {
            Some(event) => queues(old(registry)@, sender, event),
            None => false,
        },
{
    match event_for(stream, change) {
        Some(event) => match registry.send(sender, event) {
            Ok(delivered) => delivered,
            Err(_) => false,
        },
        None => false,
    }
}

/// The adapter of one table: the table's number and its activated streams.
#[derive(Clone, Copy, Debug)]
pub struct TableAdapter {
    /// The table, as numbered by the application.
    pub table: u32,
    /// The fingerprint of the type of the table's rows.
    pub row_type: u64,
    /// The activated streams.
    pub events: StdbEvents,
}

impl TableAdapter {
    /// The adapter of `table`, whose rows are of the type with the
    /// fingerprint `row_type`, with the activated streams `events`.
    pub fn new(table: u32, row_type: u64, events: StdbEvents) -> (adapter: Self)
        ensures
            adapter == (TableAdapter { table, row_type, events }),
    {
        TableAdapter { table, row_type, events }
    }

    /// The first collision that registering the table would meet.
    pub fn collision<R, T>(&self, registry: &ChannelRegistry<R, T>) -> (found: Option<
        TypeCollision,
    >)
        requires
            registry.wf(),
        ensures
            found == table_collision(registry@, self.table, self.row_type, self.events@),
    {
        if self.events.contains(StreamKind::Insert) {
            let found = registry.collision(
                EventTypeId::for_stream(self.table, StreamKind::Insert),
                self.row_type,
            );
            if found.is_some() {
                return found;
            }
        }
        if self.events.contains(StreamKind::Delete) {
            let found = registry.collision(
                EventTypeId::for_stream(self.table, StreamKind::Delete),
                self.row_type,
            );
            if found.is_some() {
                return found;
            }
        }
        if self.events.contains(StreamKind::Update) {
            let found = registry.collision(
                EventTypeId::for_stream(self.table, StreamKind::Update),
                self.row_type,
            );
            if found.is_some() {
                return found;
            }
        }
        if self.events.contains(StreamKind::InsertUpdate) {
            return registry.collision(
                EventTypeId::for_stream(self.table, StreamKind::InsertUpdate),
                self.row_type,
            );
        }
        None
    }

    /// The callbacks to attach to the table: exactly those of the activated
    /// streams.
    pub fn callbacks(&self) -> (callbacks: Vec<CallbackBinding>)
        ensures
            callbacks@ == callback_plan(self.events@),
    {
        let mut callbacks: Vec<CallbackBinding> = Vec::new();
        if self.events.contains(StreamKind::Insert) {
            callbacks.push(
                CallbackBinding { stream: StreamKind::Insert, on: Notification::Insert },
            );
        }
        if self.events.contains(StreamKind::Delete) {
            callbacks.push(
                CallbackBinding { stream: StreamKind::Delete, on: Notification::Delete },
            );
        }
        if self.events.contains(StreamKind::Update) {
            callbacks.push(
                CallbackBinding { stream: StreamKind::Update, on: Notification::Update },
            );
        }
        if self.events.contains(StreamKind::InsertUpdate) {
            callbacks.push(
                CallbackBinding { stream: StreamKind::InsertUpdate, on: Notification::Update },
            );
            callbacks.push(
                CallbackBinding { stream: StreamKind::InsertUpdate, on: Notification::Insert },
            );
        }
        assert(callbacks@ =~= callback_plan(self.events@));
        callbacks
    }

    /// Opens the channel of each activated stream, and of no other. Gives,
    /// for each activated stream in turn, the sender of its channel, whether
    /// this registration opened the channel, and the callbacks to attach.
    ///
    /// Where the channel of an activated stream was opened for rows of
    /// another type, the registration is refused with the first such
    /// collision, and no channel is opened.
    pub fn register<R, T>(&self, registry: &mut ChannelRegistry<R, T>) -> (outcome: Result<
        Vec<StreamRegistration>,
        TypeCollision,
    >)
        requires
            old(registry).wf(),
        ensures
            final(registry).wf(),
            match outcome {
                Ok(opened) => table_collision(
                    old(registry)@,
                    self.table,
                    self.row_type,
                    self.events@,
                ) is None && final(registry)@ == registered(
                    old(registry)@,
                    self.table,
                    self.row_type,
                    self.events@,
                ) && all_open(
                    opened@,
                    self.table,
                    activated_in_order(self.events@),
                    old(registry)@,
                    final(registry)@,
                ),
                Err(collision) => table_collision(
                    old(registry)@,
                    self.table,
                    self.row_type,
                    self.events@,
                ) == Some(collision) && final(registry)@ == old(registry)@,
            },
    {
        match self.collision(registry) {
            Some(collision) => {
                return Err(collision);
            },
            None => {},
        }
        let ghost start = registry@;
        let ghost streams = self.events@;
        let ghost mut order: Seq<StreamKind> = Seq::empty();
        let mut opened: Vec<StreamRegistration> = Vec::new();
        proof {
            registry.lemma_view_wf();
        }
        if self.events.contains(StreamKind::Insert) {
            let ghost then = registry@;
            let ghost so_far = opened@;
            let entry = open_free_stream(registry, self.table, self.row_type, StreamKind::Insert);
            opened.push(entry);
            proof {
                lemma_open_next(
                    so_far,
                    entry,
                    self.table,
                    order,
                    StreamKind::Insert,
                    self.row_type,
                    start,
                    then,
                );
                order = order.push(StreamKind::Insert);
            }
        }
        let ghost first = opened_if(start, self.table, self.row_type, streams, StreamKind::Insert);
        proof {
            registry.lemma_view_wf();
            assert(order =~= stream_if(streams, StreamKind::Insert));
            lemma_requested_keeps(
                start,
                EventTypeId::of_stream(self.table, StreamKind::Insert),
                self.row_type,
            );
        }
        if self.events.contains(StreamKind::Delete) {
            let ghost then = registry@;
            let ghost so_far = opened@;
            let entry = open_free_stream(registry, self.table, self.row_type, StreamKind::Delete);
            opened.push(entry);
            proof {
                lemma_open_next(
                    so_far,
                    entry,
                    self.table,
                    order,
                    StreamKind::Delete,
                    self.row_type,
                    start,
                    then,
                );
                order = order.push(StreamKind::Delete);
            }
        }
        let ghost second = opened_if(first, self.table, self.row_type, streams, StreamKind::Delete);
        proof {
            registry.lemma_view_wf();
            assert(order =~= stream_if(streams, StreamKind::Insert) + stream_if(
                streams,
                StreamKind::Delete,
            ));
            lemma_requested_keeps(
                first,
                EventTypeId::of_stream(self.table, StreamKind::Delete),
                self.row_type,
            );
        }
        if self.events.contains(StreamKind::Update) {
            let ghost then = registry@;
            let ghost so_far = opened@;
            let entry = open_free_stream(registry, self.table, self.row_type, StreamKind::Update);
            opened.push(entry);
            proof {
                lemma_open_next(
                    so_far,
                    entry,
                    self.table,
                    order,
                    StreamKind::Update,
                    self.row_type,
                    start,
                    then,
                );
                order = order.push(StreamKind::Update);
            }
        }
        let ghost third = opened_if(second, self.table, self.row_type, streams, StreamKind::Update);
        proof {
            registry.lemma_view_wf();
            assert(order =~= stream_if(streams, StreamKind::Insert) + stream_if(
                streams,
                StreamKind::Delete,
            ) + stream_if(streams, StreamKind::Update));
            lemma_requested_keeps(
                second,
                EventTypeId::of_stream(self.table, StreamKind::Update),
                self.row_type,
            );
        }
        if self.events.contains(StreamKind::InsertUpdate) {
            let ghost then = registry@;
            let ghost so_far = opened@;
            let entry = open_free_stream(
                registry,
                self.table,
                self.row_type,
                StreamKind::InsertUpdate,
            );
            opened.push(entry);
            proof {
                lemma_open_next(
                    so_far,
                    entry,
                    self.table,
                    order,
                    StreamKind::InsertUpdate,
                    self.row_type,
                    start,
                    then,
                );
                order = order.push(StreamKind::InsertUpdate);
            }
        }
        proof {
            assert(order =~= activated_in_order(streams));
        }
        Ok(opened)
    }

    /// Handles the call of `stream`'s callback with `change`.
    ///
    /// Returns whether an event was queued. A stream that is not activated
    /// sends nothing, whatever arrives.
    pub fn on_row_change<R, T>(
        &self,
        registry: &mut ChannelRegistry<R, T>,
        stream: StreamKind,
        change: RowChange<R>,
    ) -> (delivered: bool)
        requires
            old(registry).wf(),
        ensures
            final(registry).wf(),
            final(registry)@ == notified(
                old(registry)@,
                self.table,
                self.events@,
                stream,
                change,
            ),
            delivered == notification_delivered::<R, T>(
                old(registry)@,
                self.table,
                self.events@,
                stream,
                change,
            ),
    {
        if !self.events.contains(stream) {
            return false;
        }
        match registry.sender(EventTypeId::for_stream(self.table, stream)) {
            Some(sender) => {
                proof {
                    lemma_stream_event_shape::<R, T>(stream, change);
                    registry.lemma_view_wf();
                    match stream_event::<R, T>(stream, change) {
                        Some(event) => {
                            lemma_send_by_id(registry@, sender, event);
                        },
                        None => {},
                    }
                }
                deliver(registry, sender, stream, change)
            },
            None => false,
        }
    }
}

/// The callbacks of a table are exactly those of its activated streams: a
/// callback is attached if and only if its stream is activated and listens
/// at that point.
pub proof fn lemma_callbacks_exactly_for_activated(
    streams: Set<StreamKind>,
    binding: CallbackBinding,
)
    ensures
        callback_plan(streams).contains(binding) <==> streams.contains(binding.stream) && listens(
            binding.stream,
            binding.on,
        ),
        callback_plan(streams).no_duplicates(),
{
    let plan = callback_plan(streams);
    let a = callbacks_if(streams, StreamKind::Insert);
    let b = callbacks_if(streams, StreamKind::Delete);
    let c = callbacks_if(streams, StreamKind::Update);
    let d = callbacks_if(streams, StreamKind::InsertUpdate);
    assert(plan == a + b + c + d);
    if streams.contains(binding.stream) && listens(binding.stream, binding.on) {
        match binding.stream {
            StreamKind::Insert => {
                assert(a[0] == binding);
                assert(plan[0] == binding);
            },
            StreamKind::Delete => {
                assert(b[0] == binding);
                assert(plan[a.len() as int] == binding);
            },
            StreamKind::Update => {
                assert(c[0] == binding);
                assert(plan[(a.len() + b.len()) as int] == binding);
            },
            StreamKind::InsertUpdate => {
                if binding.on == Notification::Update {
                    assert(d[0] == binding);
                    assert(plan[(a.len() + b.len() + c.len()) as int] == binding);
                } else {
                    assert(d[1] == binding);
                    assert(plan[(a.len() + b.len() + c.len() + 1) as int] == binding);
                }
            },
        }
    }
    if plan.contains(binding) {
        let at = choose|at: int| 0 <= at < plan.len() && plan[at] == binding;
        if at < a.len() {
            assert(plan[at] == a[at]);
        } else if at < a.len() + b.len() {
            assert(plan[at] == b[at - a.len()]);
        } else if at < a.len() + b.len() + c.len() {
            assert(plan[at] == c[at - a.len() - b.len()]);
        } else {
            assert(plan[at] == d[at - a.len() - b.len() - c.len()]);
        }
    }
    assert forall|i: int, j: int| 0 <= i < plan.len() && 0 <= j < plan.len() && i != j implies plan[i]
        != plan[j] by {
        lemma_plan_entry(streams, i);
        lemma_plan_entry(streams, j);
    }
}

/// The rank of a callback in the fixed order in which callbacks are attached.
spec fn binding_rank(binding: CallbackBinding) -> int {
    match binding.stream {
        StreamKind::Insert => 0,
        StreamKind::Delete => 1,
        StreamKind::Update => 2,
        StreamKind::InsertUpdate => if binding.on == Notification::Update {
            3
        } else {
            4
        },
    }
}

/// The callbacks of a table stand in the order of their ranks.
proof fn lemma_plan_entry(streams: Set<StreamKind>, at: int)
    requires
        0 <= at < callback_plan(streams).len(),
    ensures
        forall|other: int|
            at < other < callback_plan(streams).len() ==> binding_rank(callback_plan(streams)[at])
                < binding_rank(#[trigger] callback_plan(streams)[other]),
{
    let plan = callback_plan(streams);
    let a = callbacks_if(streams, StreamKind::Insert);
    let b = callbacks_if(streams, StreamKind::Delete);
    let c = callbacks_if(streams, StreamKind::Update);
    let d = callbacks_if(streams, StreamKind::InsertUpdate);
    assert forall|i: int| 0 <= i < plan.len() implies binding_rank(#[trigger] plan[i]) == (if i
        < a.len() {
        0int
    } else if i < a.len() + b.len() {
        1int
    } else if i < a.len() + b.len() + c.len() {
        2int
    } else {
        3 + (i - a.len() - b.len() - c.len())
    }) by {
        if i < a.len() {
            assert(plan[i] == a[i]);
        } else if i < a.len() + b.len() {
            assert(plan[i] == b[i - a.len()]);
        } else if i < a.len() + b.len() + c.len() {
            assert(plan[i] == c[i - a.len() - b.len()]);
        } else {
            assert(plan[i] == d[i - a.len() - b.len() - c.len()]);
        }
    }
}

/// A notification for a stream that is not activated produces no event: the
/// registry is as it was.
pub proof fn lemma_inactive_stream_is_silent<R, T>(
    view: RegistryView<R, T>,
    table: u32,
    streams: Set<StreamKind>,
    stream: StreamKind,
    change: RowChange<R>,
)
    requires
        !streams.contains(stream),
    ensures
        notified(view, table, streams, stream, change) == view,
        !notification_delivered::<R, T>(view, table, streams, stream, change),
{
}

/// Registering a table keeps the registry well formed, and every channel
/// that was there in its place and state.
pub proof fn lemma_registered_keeps<R, T>(
    view: RegistryView<R, T>,
    table: u32,
    row_type: u64,
    streams: Set<StreamKind>,
)
    requires
        view.wf(),
    ensures
        registered(view, table, row_type, streams).wf(),
        keeps_channels(registered(view, table, row_type, streams), view),
{
    let first = opened_if(view, table, row_type, streams, StreamKind::Insert);
    let second = opened_if(first, table, row_type, streams, StreamKind::Delete);
    let third = opened_if(second, table, row_type, streams, StreamKind::Update);
    lemma_requested_keeps(view, EventTypeId::of_stream(table, StreamKind::Insert), row_type);
    lemma_requested_keeps(first, EventTypeId::of_stream(table, StreamKind::Delete), row_type);
    lemma_requested_keeps(second, EventTypeId::of_stream(table, StreamKind::Update), row_type);
    lemma_requested_keeps(third, EventTypeId::of_stream(table, StreamKind::InsertUpdate), row_type);
}

/// Registering a table opens the channels of its activated streams and no
/// other: afterwards the registry holds a channel for an event type if and
/// only if it held one before or the type is that of an activated stream of
/// the table.
pub proof fn lemma_registered_opens_exactly_activated<R, T>(
    view: RegistryView<R, T>,
    table: u32,
    row_type: u64,
    streams: Set<StreamKind>,
    id: EventTypeId,
)
    requires
        view.wf(),
    ensures
        registered(view, table, row_type, streams).ids.contains(id) <==> view.ids.contains(id) || exists|
            stream: StreamKind,
        |
            streams.contains(stream) && id == #[trigger] EventTypeId::of_stream(table, stream),
{
    let first = opened_if(view, table, row_type, streams, StreamKind::Insert);
    let second = opened_if(first, table, row_type, streams, StreamKind::Delete);
    let third = opened_if(second, table, row_type, streams, StreamKind::Update);
    let fourth = opened_if(third, table, row_type, streams, StreamKind::InsertUpdate);
    lemma_requested_keeps(view, EventTypeId::of_stream(table, StreamKind::Insert), row_type);
    lemma_requested_keeps(first, EventTypeId::of_stream(table, StreamKind::Delete), row_type);
    lemma_requested_keeps(second, EventTypeId::of_stream(table, StreamKind::Update), row_type);
    lemma_requested_keeps(third, EventTypeId::of_stream(table, StreamKind::InsertUpdate), row_type);
    assert(fourth == registered(view, table, row_type, streams));
    if fourth.ids.contains(id) && !view.ids.contains(id) {
        if id == EventTypeId::of_stream(table, StreamKind::Insert) {
            assert(streams.contains(StreamKind::Insert));
        } else if id == EventTypeId::of_stream(table, StreamKind::Delete) {
            assert(streams.contains(StreamKind::Delete));
        } else if id == EventTypeId::of_stream(table, StreamKind::Update) {
            assert(streams.contains(StreamKind::Update));
        } else {
            assert(id == EventTypeId::of_stream(table, StreamKind::InsertUpdate));
            assert(streams.contains(StreamKind::InsertUpdate));
        }
    }
    if exists|stream: StreamKind|
        streams.contains(stream) && id == #[trigger] EventTypeId::of_stream(table, stream) {
        let stream = choose|stream: StreamKind|
            streams.contains(stream) && id == #[trigger] EventTypeId::of_stream(table, stream);
        match stream {
            StreamKind::Insert => {
                assert(first.ids.contains(id));
            },
            StreamKind::Delete => {
                assert(second.ids.contains(id));
            },
            StreamKind::Update => {
                assert(third.ids.contains(id));
            },
            StreamKind::InsertUpdate => {
                assert(fourth.ids.contains(id));
            },
        }
    }
}

/// On its own channel the insert-or-update stream reports an insert of
/// `first` and then an update of `first` to `second` as two events in that
/// order: the first without an old row, the second with `first` as the old
/// row.
pub proof fn lemma_insert_then_update<R, T>(
    view: RegistryView<R, T>,
    table: u32,
    streams: Set<StreamKind>,
    first: R,
    second: R,
)
    requires
        view.wf(),
        streams.contains(StreamKind::InsertUpdate),
        view.ids.contains(EventTypeId::of_stream(table, StreamKind::InsertUpdate)),
        view.channel(EventTypeId::of_stream(table, StreamKind::InsertUpdate)).connected,
    ensures
        notified(
            notified(view, table, streams, StreamKind::InsertUpdate, RowChange::Inserted(first)),
            table,
            streams,
            StreamKind::InsertUpdate,
            RowChange::Updated(first, second),
        ).channel(EventTypeId::of_stream(table, StreamKind::InsertUpdate)).pending
            == view.channel(EventTypeId::of_stream(table, StreamKind::InsertUpdate)).pending
            + seq![
            BridgeEvent::<R, T>::InsertUpdate(InsertUpdateEvent { old: None, new: first }),
            BridgeEvent::<R, T>::InsertUpdate(
                InsertUpdateEvent { old: Some(first), new: second },
            ),
        ],
{
    let id = EventTypeId::of_stream(table, StreamKind::InsertUpdate);
    let slot = view.slot_of(id);
    assert(0 <= slot < view.ids.len() && view.ids[slot] == id);
    let once = notified(
        view,
        table,
        streams,
        StreamKind::InsertUpdate,
        RowChange::Inserted(first),
    );
    assert(once.ids == view.ids);
    let twice = notified(
        once,
        table,
        streams,
        StreamKind::InsertUpdate,
        RowChange::Updated(first, second),
    );
    assert(twice.channel(id).pending =~= view.channel(id).pending + seq![
        BridgeEvent::<R, T>::InsertUpdate(InsertUpdateEvent { old: None, new: first }),
        BridgeEvent::<R, T>::InsertUpdate(InsertUpdateEvent { old: Some(first), new: second }),
    ]);
}

/// A notification that arrives after the consumer of its channel has gone
/// changes nothing and is reported as not delivered; the producer goes on.
pub proof fn lemma_late_notification_is_dropped<R, T>(
    view: RegistryView<R, T>,
    table: u32,
    streams: Set<StreamKind>,
    stream: StreamKind,
    change: RowChange<R>,
)
    requires
        view.wf(),
        view.ids.contains(EventTypeId::of_stream(table, stream)),
        !view.channel(EventTypeId::of_stream(table, stream)).connected,
    ensures
        notified(view, table, streams, stream, change) == view,
        !notification_delivered::<R, T>(view, table, streams, stream, change),
{
    let id = EventTypeId::of_stream(table, stream);
    let slot = view.slot_of(id);
    assert(0 <= slot < view.ids.len() && view.ids[slot] == id);
    let after = notified(view, table, streams, stream, change);
    assert(after.channels =~= view.channels);
}

} // verus!
