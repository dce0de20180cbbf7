use bevy_spacetimedb::config::{StdbEvents, StreamKind};
use bevy_spacetimedb::event::EventTypeId;
use bevy_spacetimedb::lifecycle::{ConnectionSignal, ConnectionState};
use bevy_spacetimedb::plugin::{Assembly, StartError, StdbPlugin};
use bevy_spacetimedb::registry::TypeCollision;
use bevy_spacetimedb::table::{callbacks_of, RowChange};

fn drive(connection: &u8) -> u8 {
    *connection + 1
}

type Plugin = StdbPlugin<fn(&u8) -> u8>;

const ROWS: u64 = 0x5eed;

#[test]
fn a_default_plugin_knows_nothing() {
    let plugin = Plugin::default();
    assert_eq!(plugin.name(), "");
    assert_eq!(plugin.uri(), "");
    assert!(plugin.run_fn().is_none());
    assert!(plugin.tables().is_empty());
}

#[test]
fn the_builder_keeps_what_it_is_given() {
    let plugin = Plugin::default()
        .with_name("chat".to_string())
        .with_uri("http://localhost:3000".to_string())
        .with_run_fn(drive)
        .add_table(1, ROWS, StdbEvents::all())
        .add_table(2, ROWS, StdbEvents::no_update());
    assert_eq!(plugin.name(), "chat");
    assert_eq!(plugin.uri(), "http://localhost:3000");
    assert_eq!(plugin.run_fn().map(|run| run(&1)), Some(2));
    let tables = plugin.tables();
    assert_eq!(tables.len(), 2);
    assert_eq!(tables[0].table, 1);
    assert!(tables[0].events.contains(StreamKind::Update));
    assert_eq!(tables[1].table, 2);
    assert!(!tables[1].events.contains(StreamKind::Update));
    assert!(tables[1].events.contains(StreamKind::Delete));
}

#[test]
fn a_later_setting_replaces_an_earlier_one() {
    let plugin = Plugin::default()
        .with_name("first".to_string())
        .with_uri("a".to_string())
        .with_name("second".to_string());
    assert_eq!(plugin.name(), "second");
    assert_eq!(plugin.uri(), "a");
    assert!(plugin.run_fn().is_none());
}

#[test]
fn build_opens_every_channel_before_the_attempt() {
    let plugin = Plugin::default()
        .with_name("chat".to_string())
        .with_run_fn(drive)
        .add_table(1, ROWS, StdbEvents::all())
        .add_table(2, ROWS, StdbEvents::no_update());
    let mut assembly: Assembly<String, u8, u64, String> = plugin.build().unwrap();
    assert_eq!(assembly.lifecycle.state(), ConnectionState::Connecting);
    assert_eq!(assembly.registry.len(), 6);
    assert_eq!(assembly.tables.len(), 2);
    assert_eq!(assembly.tables[0].table, 1);
    assert_eq!(assembly.tables[0].streams.len(), 4);
    assert_eq!(assembly.tables[1].table, 2);
    assert_eq!(assembly.tables[1].streams.len(), 2);
    assert_eq!(assembly.tables[1].streams[0].stream, StreamKind::Insert);
    assert_eq!(assembly.tables[1].streams[0].callbacks, callbacks_of(StreamKind::Insert));
    assert_eq!(assembly.tables[1].streams[1].stream, StreamKind::Delete);
    assert_eq!(assembly.tables[1].streams[1].callbacks, callbacks_of(StreamKind::Delete));
    for table in &assembly.tables {
        for entry in &table.streams {
            assert!(entry.registration.created);
            assert_eq!(entry.registration.sender.id, EventTypeId::for_stream(table.table, entry.stream));
            assert_eq!(
                assembly.registry.sender(entry.registration.sender.id),
                Some(entry.registration.sender)
            );
        }
    }
    assert!(assembly.lifecycle.on_signal(ConnectionSignal::Connected {
        identity: 9,
        token: "t".to_string()
    }));
    assert_eq!(assembly.lifecycle.drain_connected().len(), 1);
    let tables = plugin.tables();
    assert!(tables[1].on_row_change(
        &mut assembly.registry,
        StreamKind::Insert,
        RowChange::Inserted("p".to_string())
    ));
    assert!(!tables[1].on_row_change(
        &mut assembly.registry,
        StreamKind::Update,
        RowChange::Updated("p".to_string(), "q".to_string())
    ));
    assert_eq!(assembly.registry.drain(EventTypeId::for_stream(2, StreamKind::Insert)).len(), 1);
    assert!(assembly.registry.sender(EventTypeId::for_stream(2, StreamKind::Update)).is_none());
}

#[test]
fn build_without_tables_opens_only_the_lifecycle_channels() {
    let plugin = Plugin::default();
    let mut assembly: Assembly<String, u8, u64, String> = plugin.build().unwrap();
    assert_eq!(assembly.lifecycle.state(), ConnectionState::Connecting);
    assert_eq!(assembly.registry.len(), 0);
    assert!(assembly.tables.is_empty());
    assert!(assembly.lifecycle.on_signal(ConnectionSignal::ConnectError {
        reason: "no route".to_string()
    }));
    assert_eq!(assembly.lifecycle.drain_connect_error().len(), 1);
}

#[test]
fn a_table_added_twice_shares_its_channels() {
    let plugin = Plugin::default().add_table(1, ROWS, StdbEvents::all()).add_table(1, ROWS, StdbEvents::all());
    let assembly: Assembly<String, u8, u64, String> = plugin.build().unwrap();
    assert_eq!(assembly.registry.len(), 4);
    assert_eq!(assembly.tables.len(), 2);
    assert!(assembly.tables[0].streams.iter().all(|entry| entry.registration.created));
    assert!(assembly.tables[1].streams.iter().all(|entry| !entry.registration.created));
    for (one, other) in assembly.tables[0].streams.iter().zip(assembly.tables[1].streams.iter()) {
        assert_eq!(one.registration.sender, other.registration.sender);
    }
}

#[test]
fn a_table_added_with_the_default_config_feeds_all_four_streams() {
    let by_default = Plugin::default().add_table(1, ROWS, StdbEvents::default());
    let by_name = Plugin::default().add_table(1, ROWS, StdbEvents::all());
    let left: Assembly<String, u8, u64, String> = by_default.build().unwrap();
    let right: Assembly<String, u8, u64, String> = by_name.build().unwrap();
    assert_eq!(left.registry.len(), 4);
    assert_eq!(left.tables[0].streams.len(), 4);
    for (one, other) in left.tables[0].streams.iter().zip(right.tables[0].streams.iter()) {
        assert_eq!(one.stream, other.stream);
        assert_eq!(one.registration, other.registration);
        assert_eq!(one.callbacks, other.callbacks);
    }
}

#[test]
fn build_refuses_two_row_types_under_one_table_number() {
    let plugin = Plugin::default()
        .add_table(1, 100, StdbEvents::no_update())
        .add_table(2, 100, StdbEvents::all())
        .add_table(1, 200, StdbEvents::new(false, true, true, false))
        .add_table(2, 300, StdbEvents::all());
    let outcome: Result<Assembly<String, u8, u64, String>, TypeCollision> = plugin.build();
    assert_eq!(
        outcome.err(),
        Some(TypeCollision {
            id: EventTypeId::for_stream(1, StreamKind::Delete),
            held: 100,
            brought: 200
        })
    );
    let disjoint = Plugin::default()
        .add_table(1, 100, StdbEvents::no_update())
        .add_table(1, 200, StdbEvents::new(false, false, true, true));
    let assembly: Assembly<String, u8, u64, String> = disjoint.build().unwrap();
    assert_eq!(assembly.registry.len(), 4);
}

#[test]
fn a_connection_is_started_with_the_run_function() {
    let plugin = Plugin::default().with_run_fn(drive);
    assert_eq!(plugin.start(true).map(|run| run(&1)), Ok(2));
    assert_eq!(plugin.start(false).map(|run| run(&1)), Err(StartError::ConnectionFailed));
}

#[test]
fn a_plugin_without_a_run_function_is_refused_after_its_connection() {
    let plugin = Plugin::default().with_name("chat".to_string());
    assert_eq!(plugin.start(false).map(|run| run(&1)), Err(StartError::ConnectionFailed));
    assert_eq!(plugin.start(true).map(|run| run(&1)), Err(StartError::NoRunFn));
    assert_eq!(StartError::NoRunFn.message(), "No run function specified!");
    assert_eq!(StartError::ConnectionFailed.message(), "SpacetimeDB connection failed");
}
