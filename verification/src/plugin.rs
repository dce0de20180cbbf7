//! The plugin: what to connect to, which tables to bridge, and the assembly
//! of the bridge when the host initializes it.

use crate::config::StdbEvents;
use crate::lifecycle::{connecting, ConnectionLifecycle};
use crate::registry::{empty_registry, ChannelRegistry, RegistryView, TypeCollision};
use crate::table::{
    activated_in_order, all_open, lemma_all_open_survives, lemma_registered_keeps, registered,
    table_collision, StreamRegistration, TableAdapter,
};
use vstd::prelude::*;
use vstd::string::StringExecFns;

verus! {

/// The description of one bridged connection. `F` is the type of the
/// function that drives the connection's network loop.
pub struct StdbPlugin<F> {
    name: String,
    uri: String,
    run_fn: Option<F>,
    tables: Vec<TableAdapter>,
}

/// What a plugin holds.
pub struct PluginView<F> {
    /// The name of the remote module.
    pub name: Seq<char>,
    /// The address of the remote database.
    pub uri: Seq<char>,
    /// The function that drives the connection, once given.
    pub run_fn: Option<F>,
    /// The tables to bridge, in the order in which they were added.
    pub tables: Seq<TableAdapter>,
}

impl<F> View for StdbPlugin<F> {
    type V = PluginView<F>;

    closed spec fn view(&self) -> PluginView<F> {
        PluginView {
            name: self.name@,
            uri: self.uri@,
            run_fn: self.run_fn,
            tables: self.tables@,
        }
    }
}

/// A plugin of which nothing is known yet.
pub open spec fn empty_plugin<F>() -> PluginView<F> {
    PluginView { name: Seq::empty(), uri: Seq::empty(), run_fn: None, tables: Seq::empty() }
}

/// What registering one table gave: for each activated stream, its sender,
/// whether its channel is new, and the callbacks to attach.
#[derive(Clone, Debug)]
pub struct TableRegistration {
    pub table: u32,
    pub streams: Vec<StreamRegistration>,
}

/// The registry after each of `tables` was registered, in their order.
pub open spec fn registered_tables<R, T>(
    view: RegistryView<R, T>,
    tables: Seq<TableAdapter>,
) -> RegistryView<R, T>
    decreases tables.len(),
{
    if tables.len() == 0 {
        view
    } else {
        registered(
            registered_tables(view, tables.drop_last()),
            tables.last().table,
            tables.last().row_type,
            tables.last().events@,
        )
    }
}

/// The first collision that registering `tables` in their order meets,
/// starting from a registry without channels: there is one if and only if
/// two of the tables were given one number and rows of different types, and
/// share an activated stream.
pub open spec fn tables_collision<R, T>(tables: Seq<TableAdapter>) -> Option<TypeCollision>
    decreases tables.len(),
{
    if tables.len() == 0 {
        None
    } else if tables_collision::<R, T>(tables.drop_last()) is Some {
        tables_collision::<R, T>(tables.drop_last())
    } else {
        table_collision(
            registered_tables(empty_registry::<R, T>(), tables.drop_last()),
            tables.last().table,
            tables.last().row_type,
            tables.last().events@,
        )
    }
}

/// A collision among the first `count` tables is the first collision among
/// all of them.
pub proof fn lemma_first_collision_stays<R, T>(tables: Seq<TableAdapter>, count: int)
    requires
        0 <= count <= tables.len(),
        tables_collision::<R, T>(tables.take(count)) is Some,
    ensures
        tables_collision::<R, T>(tables) == tables_collision::<R, T>(tables.take(count)),
    decreases tables.len(),
{
    if count == tables.len() {
        assert(tables.take(count) =~= tables);
    } else {
        assert(tables.drop_last().take(count) =~= tables.take(count));
        lemma_first_collision_stays::<R, T>(tables.drop_last(), count);
    }
}

/// Whether `registrations` holds, for each of `tables` in their order, what
/// registering the table gave, where `after` is what the registry holds now:
/// a stream's channel is reported as new if and only if no table registered
/// earlier had opened it.
pub open spec fn tables_registered<R, T>(
    registrations: Seq<TableRegistration>,
    tables: Seq<TableAdapter>,
    after: RegistryView<R, T>,
) -> bool {
    &&& registrations.len() == tables.len()
    &&& forall|at: int|
        0 <= at < tables.len() ==> (#[trigger] registrations[at]).table == tables[at].table
            && all_open(
            registrations[at].streams@,
            tables[at].table,
            activated_in_order(tables[at].events@),
            registered_tables(empty_registry::<R, T>(), tables.take(at)),
            after,
        )
}

/// However many tables are registered, the registry stays well formed.
pub proof fn lemma_registered_tables_wf<R, T>(tables: Seq<TableAdapter>)
    ensures
        registered_tables(empty_registry::<R, T>(), tables).wf(),
    decreases tables.len(),
{
    if tables.len() > 0 {
        lemma_registered_tables_wf::<R, T>(tables.drop_last());
        lemma_registered_keeps(
            registered_tables(empty_registry::<R, T>(), tables.drop_last()),
            tables.last().table,
            tables.last().row_type,
            tables.last().events@,
        );
    }
}

/// Why a plugin's connection is not started.
#[derive(Clone, Copy, Debug, PartialEq, Eq, Structural)]
pub enum StartError {
    /// The remote connection could not be constructed.
    ConnectionFailed,
    /// No function was given to drive the connection.
    NoRunFn,
}

impl StartError {
    /// The words that describe the failure.
    pub fn message(&self) -> (text: String)
        ensures
            text@ == match *self {
                StartError::ConnectionFailed => "SpacetimeDB connection failed"@,
                StartError::NoRunFn => "No run function specified!"@,
            },
    {
        match self {
            StartError::ConnectionFailed => String::from_str("SpacetimeDB connection failed"),
            StartError::NoRunFn => String::from_str("No run function specified!"),
        }
    }
}

/// The bridge of one plugin, assembled and ready for the connection attempt.
pub struct Assembly<R, T, I, X> {
    /// The lifecycle adapter, its channels open and the attempt begun.
    pub lifecycle: ConnectionLifecycle<I, X>,
    /// The registry, holding the channel of every activated stream.
    pub registry: ChannelRegistry<R, T>,
    /// What registering each table gave, in the order of the tables.
    pub tables: Vec<TableRegistration>,
}

impl<F> Default for StdbPlugin<F> {
    /// A plugin of which nothing is known yet.
    fn default() -> (plugin: Self)
        ensures
            plugin@ == empty_plugin::<F>(),
    {
        StdbPlugin { name: String::new(), uri: String::new(), run_fn: None, tables: Vec::new() }
    }
}

impl<F> StdbPlugin<F> {
    /// Sets the function that drives the connection's network loop.
    pub fn with_run_fn(self, run_fn: F) -> (plugin: Self)
        ensures
            plugin@ == (PluginView { run_fn: Some(run_fn), ..self@ }),
    {
        let mut plugin = self;
        plugin.run_fn = Some(run_fn);
        plugin
    }

    /// Sets the name of the remote module.
    pub fn with_name(self, name: String) -> (plugin: Self)
        ensures
            plugin@ == (PluginView { name: name@, ..self@ }),
    {
        let mut plugin = self;
        plugin.name = name;
        plugin
    }

    /// Sets the address of the remote database.
    pub fn with_uri(self, uri: String) -> (plugin: Self)
        ensures
            plugin@ == (PluginView { uri: uri@, ..self@ }),
    {
        let mut plugin = self;
        plugin.uri = uri;
        plugin
    }

    /// Adds `table`, whose rows are of the type with the fingerprint
    /// `row_type`, to the tables to bridge, with the activated streams
    /// `events`.
    pub fn add_table(self, table: u32, row_type: u64, events: StdbEvents) -> (plugin: Self)
        ensures
            plugin@ == (PluginView {
                tables: self@.tables.push(TableAdapter { table, row_type, events }),
                ..self@
            }),
    {
        let mut plugin = self;
        plugin.tables.push(TableAdapter::new(table, row_type, events));
        plugin
    }

    /// The name of the remote module.
    pub fn name(&self) -> (name: &str)
        ensures
            name@ == self@.name,
    {
        self.name.as_str()
    }

    /// The address of the remote database.
    pub fn uri(&self) -> (uri: &str)
        ensures
            uri@ == self@.uri,
    {
        self.uri.as_str()
    }

    /// The function that drives the connection, if one was given.
    pub fn run_fn(&self) -> (run_fn: Option<&F>)
        ensures
            run_fn is Some == self@.run_fn is Some,
            run_fn matches Some(given) ==> self@.run_fn == Some(*given),
    {
        self.run_fn.as_ref()
    }

    /// Decides whether the connection is started, once the attempt to
    /// construct it has ended: it is started with the plugin's run function
    /// if it was constructed and a run function was given. A connection that
    /// was not constructed is reported first; a plugin without a run
    /// function is refused only after its connection was constructed.
    pub fn start(&self, constructed: bool) -> (outcome: Result<&F, StartError>)
        ensures
            match outcome {
                Ok(run_fn) => constructed && self@.run_fn == Some(*run_fn),
                Err(StartError::ConnectionFailed) => !constructed,
                Err(StartError::NoRunFn) => constructed && self@.run_fn is None,
            },
    {
        if !constructed {
            return Err(StartError::ConnectionFailed);
        }
        match self.run_fn.as_ref() {
            Some(run_fn) => Ok(run_fn),
            None => Err(StartError::NoRunFn),
        }
    }

    /// The tables to bridge, in the order in which they were added.
    pub fn tables(&self) -> (tables: &Vec<TableAdapter>)
        ensures
            tables@ == self@.tables,
    {
        &self.tables
    }

    /// Assembles the bridge: opens the three lifecycle channels and begins
    /// the connection attempt, then registers every table, which opens the
    /// channel of each activated stream, and gives the callbacks to attach.
    ///
    /// Everything stands before the remote connection is made, so that no
    /// signal and no notification can come before its channel is there.
    ///
    /// Where two tables were given one number and rows of different types,
    /// the assembly is refused with the first such collision.
    pub fn build<R, T, I, X>(&self) -> (outcome: Result<Assembly<R, T, I, X>, TypeCollision>)
        ensures
            match outcome {
                Ok(assembly) => tables_collision::<R, T>(self@.tables) is None
                    && assembly.lifecycle@ == connecting::<I, X>() && assembly.registry.wf()
                    && assembly.registry@ == registered_tables(
                    empty_registry::<R, T>(),
                    self@.tables,
                ) && tables_registered(assembly.tables@, self@.tables, assembly.registry@),
                Err(collision) => tables_collision::<R, T>(self@.tables) == Some(collision),
            },
    {
        let mut lifecycle: ConnectionLifecycle<I, X> = ConnectionLifecycle::new();
        lifecycle.configure();
        lifecycle.begin_connect();
        let mut registry: ChannelRegistry<R, T> = ChannelRegistry::new();
        let mut tables: Vec<TableRegistration> = Vec::new();
        let mut at: usize = 0;
        while at < self.tables.len()
            invariant
                at <= self.tables.len(),
                registry.wf(),
                registry@ == registered_tables(
                    empty_registry::<R, T>(),
                    self.tables@.take(at as int),
                ),
                tables_registered(tables@, self.tables@.take(at as int), registry@),
                tables_collision::<R, T>(self.tables@.take(at as int)) is None,
                lifecycle@ == connecting::<I, X>(),
            decreases self.tables.len() - at,
        {
            let adapter = self.tables[at];
            let ghost before = registry@;
            let ghost so_far = tables@;
            proof {
                let longer = self.tables@.take(at as int + 1);
                assert(longer.drop_last() =~= self.tables@.take(at as int));
                assert(longer.last() == adapter);
            }
            let streams = match adapter.register(&mut registry) {
                Ok(streams) => streams,
                Err(collision) => {
                    proof {
                        lemma_first_collision_stays::<R, T>(self.tables@, at as int + 1);
                    }
                    return Err(collision);
                },
            };
            tables.push(TableRegistration { table: adapter.table, streams });
            proof {
                let shorter = self.tables@.take(at as int);
                let longer = self.tables@.take(at as int + 1);
                assert(longer.drop_last() =~= shorter);
                assert(longer.last() == adapter);
                lemma_registered_tables_wf::<R, T>(shorter);
                lemma_registered_keeps(before, adapter.table, adapter.row_type, adapter.events@);
                assert forall|k: int| 0 <= k < longer.len() implies (#[trigger] tables@[k]).table
                    == longer[k].table && all_open(
                    tables@[k].streams@,
                    longer[k].table,
                    activated_in_order(longer[k].events@),
                    registered_tables(empty_registry::<R, T>(), longer.take(k)),
                    registry@,
                ) by {
                    assert(longer.take(k) =~= shorter.take(k));
                    if k < at {
                        assert(tables@[k] == so_far[k]);
                        assert(longer[k] == shorter[k]);
                        lemma_all_open_survives(
                            so_far[k].streams@,
                            shorter[k].table,
                            activated_in_order(shorter[k].events@),
                            registered_tables(empty_registry::<R, T>(), shorter.take(k)),
                            before,
                            registry@,
                        );
                    } else {
                        assert(longer.take(k) =~= shorter);
                    }
                }
            }
            at += 1;
        }
        assert(self.tables@.take(at as int) =~= self.tables@);
        Ok(Assembly { lifecycle, registry, tables })
    }
}

} // verus!
