//! Which event streams a table feeds.

use vstd::prelude::*;

verus! {

/// One of the four event streams a table can feed.
#[derive(Clone, Copy, Debug, PartialEq, Eq, Structural)]
pub enum StreamKind {
    /// One event per inserted row.
    Insert,
    /// One event per deleted row.
    Delete,
    /// One event per updated row, carrying the old and the new value.
    Update,
    /// One event per inserted or updated row, for consumers that do not care which.
    InsertUpdate,
}

/// The streams that are activated for one table.
///
/// Its view is the set of activated streams.
#[derive(Debug, Clone, Copy)]
pub struct StdbEvents {
    insert: bool,
    delete: bool,
    update: bool,
    insert_update: bool,
}

impl View for StdbEvents {
    type V = Set<StreamKind>;

    closed spec fn view(&self) -> Set<StreamKind> {
        Set::new(
            |kind: StreamKind|
                match kind {
                    StreamKind::Insert => self.insert,
                    StreamKind::Delete => self.delete,
                    StreamKind::Update => self.update,
                    StreamKind::InsertUpdate => self.insert_update,
                },
        )
    }
}

/// The set of all four streams.
pub open spec fn all_streams() -> Set<StreamKind> {
    Set::new(|kind: StreamKind| true)
}

/// The two streams that need no update notification.
pub open spec fn insert_delete_streams() -> Set<StreamKind> {
    Set::new(|kind: StreamKind| kind == StreamKind::Insert || kind == StreamKind::Delete)
}

/// The set that holds each stream whose flag is raised.
pub open spec fn streams_of(
    insert: bool,
    delete: bool,
    update: bool,
    insert_update: bool,
) -> Set<StreamKind> {
    Set::new(
        |kind: StreamKind|
            match kind {
                StreamKind::Insert => insert,
                StreamKind::Delete => delete,
                StreamKind::Update => update,
                StreamKind::InsertUpdate => insert_update,
            },
    )
}

impl StdbEvents {
    /// Activates all four streams.
    pub fn all() -> (events: Self)
        ensures
            events@ == all_streams(),
    {
        let events = Self { insert: true, delete: true, update: true, insert_update: true };
        assert(events@ =~= all_streams());
        events
    }

    /// Activates the insert and delete streams and suppresses the two that
    /// listen for updates.
    pub fn no_update() -> (events: Self)
        ensures
            events@ == insert_delete_streams(),
    {
        let events = Self { insert: true, delete: true, update: false, insert_update: false };
        assert(events@ =~= insert_delete_streams());
        events
    }

    /// Activates exactly the streams whose flag is raised.
    pub fn new(insert: bool, delete: bool, update: bool, insert_update: bool) -> (events: Self)
        ensures
            events@ == streams_of(insert, delete, update, insert_update),
    {
        let events = Self { insert, delete, update, insert_update };
        assert(events@ =~= streams_of(insert, delete, update, insert_update));
        events
    }

    /// Whether `kind` is activated.
    pub fn contains(&self, kind: StreamKind) -> (active: bool)
        ensures
            active == self@.contains(kind),
    {
        match kind {
            StreamKind::Insert => self.insert,
            StreamKind::Delete => self.delete,
            StreamKind::Update => self.update,
            StreamKind::InsertUpdate => self.insert_update,
        }
    }
}

impl Default for StdbEvents {
    /// Activates all four streams: a table for which nothing is chosen feeds
    /// every stream.
    fn default() -> (events: Self)
        ensures
            events@ == all_streams(),
    {
        StdbEvents::all()
    }
}

} // verus!
