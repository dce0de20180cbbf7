//! The events the bridge carries, and the identifier of each event type.

use crate::config::StreamKind;
use vstd::prelude::*;

verus! {

/// The shape of an event's payload.
#[derive(Clone, Copy, Debug, PartialEq, Eq, Structural)]
pub enum EventShape {
    /// One inserted row.
    Insert,
    /// One deleted row.
    Delete,
    /// The old and the new value of one updated row.
    Update,
    /// The new value of a row, and the old one where there was one.
    InsertUpdate,
    /// The outcome of one reducer call.
    ReducerResult,
}

/// The identifier of an event type: what the payload belongs to (a table, or
/// a reducer result struct) and the shape it has.
///
/// Two event types have the same identifier only if they agree in both. The
/// registry keeps, beside each identifier, the fingerprint of the payload
/// type its channel was opened for, and refuses a request that brings one
/// identifier for a second payload type.
#[derive(Clone, Copy, Debug, PartialEq, Eq, Structural)]
pub struct EventTypeId {
    /// The table or reducer result struct, as numbered by the application.
    pub payload: u32,
    /// The shape of the payload.
    pub shape: EventShape,
}

/// The number that stands for a shape inside a key.
pub open spec fn shape_index(shape: EventShape) -> int {
    match shape {
        EventShape::Insert => 0,
        EventShape::Delete => 1,
        EventShape::Update => 2,
        EventShape::InsertUpdate => 3,
        EventShape::ReducerResult => 4,
    }
}

/// The shape of the events on a table's stream.
pub open spec fn stream_shape(kind: StreamKind) -> EventShape {
    match kind {
        StreamKind::Insert => EventShape::Insert,
        StreamKind::Delete => EventShape::Delete,
        StreamKind::Update => EventShape::Update,
        StreamKind::InsertUpdate => EventShape::InsertUpdate,
    }
}

impl EventTypeId {
    /// The key under which the identifier is filed: eight times the payload's
    /// number, plus the number of the shape.
    pub open spec fn spec_key(self) -> u64 {
        (self.payload * 8 + shape_index(self.shape)) as u64
    }

    /// The identifier of the events on `table`'s stream `kind`.
    pub open spec fn of_stream(table: u32, kind: StreamKind) -> EventTypeId {
        EventTypeId { payload: table, shape: stream_shape(kind) }
    }

    /// The identifier of the result events of `reducer`.
    pub open spec fn of_reducer(reducer: u32) -> EventTypeId {
        EventTypeId { payload: reducer, shape: EventShape::ReducerResult }
    }

    /// The key under which the identifier is filed.
    pub fn key(&self) -> (key: u64)
        ensures
            key == self.spec_key(),
    {
        let index: u64 = match self.shape {
            EventShape::Insert => 0,
            EventShape::Delete => 1,
            EventShape::Update => 2,
            EventShape::InsertUpdate => 3,
            EventShape::ReducerResult => 4,
        };
        self.payload as u64 * 8 + index
    }

    /// The identifier of the events on `table`'s stream `kind`.
    pub fn for_stream(table: u32, kind: StreamKind) -> (id: EventTypeId)
        ensures
            id == EventTypeId::of_stream(table, kind),
    {
        let shape = match kind {
            StreamKind::Insert => EventShape::Insert,
            StreamKind::Delete => EventShape::Delete,
            StreamKind::Update => EventShape::Update,
            StreamKind::InsertUpdate => EventShape::InsertUpdate,
        };
        EventTypeId { payload: table, shape }
    }

    /// The identifier of the result events of `reducer`.
    pub fn for_reducer(reducer: u32) -> (id: EventTypeId)
        ensures
            id == EventTypeId::of_reducer(reducer),
    {
        EventTypeId { payload: reducer, shape: EventShape::ReducerResult }
    }
}

/// Distinct identifiers are filed under distinct keys.
pub proof fn lemma_key_injective(a: EventTypeId, b: EventTypeId)
    requires
        a.spec_key() == b.spec_key(),
    ensures
        a == b,
{
    assert(0 <= shape_index(a.shape) < 8);
    assert(0 <= shape_index(b.shape) < 8);
    assert(a.payload * 8 + shape_index(a.shape) == b.payload * 8 + shape_index(b.shape));
    assert(a.payload == b.payload);
    assert(shape_index(a.shape) == shape_index(b.shape));
}

/// A row was inserted.
#[derive(Clone, Debug, PartialEq, Eq)]
pub struct InsertEvent<R> {
    /// The row after the insert.
    pub row: R,
}

/// A row was deleted.
#[derive(Clone, Debug, PartialEq, Eq)]
pub struct DeleteEvent<R> {
    /// The row before the delete.
    pub row: R,
}

/// A row was updated.
#[derive(Clone, Debug, PartialEq, Eq)]
pub struct UpdateEvent<R> {
    /// The row before the update.
    pub old: R,
    /// The row after the update.
    pub new: R,
}

/// A row was inserted or updated.
#[derive(Clone, Debug, PartialEq, Eq)]
pub struct InsertUpdateEvent<R> {
    /// The row before the update; `None` for an insert.
    pub old: Option<R>,
    /// The row after the insert or update.
    pub new: R,
}

/// A reducer call has completed.
#[derive(Clone, Debug, PartialEq, Eq)]
pub struct ReducerResultEvent<T> {
    /// The call's metadata together with a copy of its arguments.
    pub result: T,
}

impl<T> ReducerResultEvent<T> {
    /// Wraps the outcome of one reducer call.
    pub fn new(result: T) -> (event: Self)
        ensures
            event.result == result,
    {
        ReducerResultEvent { result }
    }
}

/// Any event the bridge carries: `R` is the type of a row, `T` the type of a
/// reducer's outcome.
#[derive(Clone, Debug, PartialEq, Eq)]
pub enum BridgeEvent<R, T> {
    Insert(InsertEvent<R>),
    Delete(DeleteEvent<R>),
    Update(UpdateEvent<R>),
    InsertUpdate(InsertUpdateEvent<R>),
    Reducer(ReducerResultEvent<T>),
}

impl<R, T> BridgeEvent<R, T> {
    /// The shape of the event's payload.
    pub open spec fn spec_shape(&self) -> EventShape {
        match self {
            BridgeEvent::Insert(_) => EventShape::Insert,
            BridgeEvent::Delete(_) => EventShape::Delete,
            BridgeEvent::Update(_) => EventShape::Update,
            BridgeEvent::InsertUpdate(_) => EventShape::InsertUpdate,
            BridgeEvent::Reducer(_) => EventShape::ReducerResult,
        }
    }

    /// The shape of the event's payload.
    pub fn shape(&self) -> (shape: EventShape)
        ensures
            shape == self.spec_shape(),
    {
        match self {
            BridgeEvent::Insert(_) => EventShape::Insert,
            BridgeEvent::Delete(_) => EventShape::Delete,
            BridgeEvent::Update(_) => EventShape::Update,
            BridgeEvent::InsertUpdate(_) => EventShape::InsertUpdate,
            BridgeEvent::Reducer(_) => EventShape::ReducerResult,
        }
    }
}

} // verus!
