use bevy_spacetimedb::lifecycle::{
    ConnectionLifecycle, ConnectionSignal, ConnectionState, SignalKind, StdbConnectedEvent,
    StdbConnectionErrorEvent, StdbDisconnectedEvent,
};

type Lifecycle = ConnectionLifecycle<u64, String>;
type Signal = ConnectionSignal<u64, String>;

fn connected(identity: u64) -> Signal {
    ConnectionSignal::Connected { identity, token: "token".to_string() }
}

fn disconnected() -> Signal {
    ConnectionSignal::Disconnected { err: None }
}

fn failed(reason: &str) -> Signal {
    ConnectionSignal::ConnectError { reason: reason.to_string() }
}

fn connecting() -> Lifecycle {
    let mut lifecycle = Lifecycle::new();
    assert!(lifecycle.configure());
    assert!(lifecycle.begin_connect());
    lifecycle
}

#[test]
fn a_failed_attempt_gives_one_connection_error_and_no_connected_event() {
    let mut lifecycle = connecting();
    assert!(lifecycle.on_signal(failed("refused")));
    assert_eq!(lifecycle.state(), ConnectionState::FailedToConnect);
    assert!(!lifecycle.on_signal(failed("again")));
    assert!(!lifecycle.on_signal(connected(1)));
    assert!(!lifecycle.on_signal(disconnected()));
    assert_eq!(
        lifecycle.drain_connect_error(),
        vec![StdbConnectionErrorEvent { err: "refused".to_string() }]
    );
    assert_eq!(lifecycle.drain_connected(), vec![]);
    assert_eq!(lifecycle.drain_disconnected(), vec![]);
    assert_eq!(lifecycle.state(), ConnectionState::FailedToConnect);
}

#[test]
fn a_connection_that_ends_gives_one_connected_then_one_disconnected_event() {
    let mut lifecycle = connecting();
    assert!(lifecycle.on_signal(connected(42)));
    assert_eq!(lifecycle.state(), ConnectionState::Running);
    assert!(!lifecycle.on_signal(connected(43)));
    assert!(!lifecycle.on_signal(failed("late")));
    assert_eq!(lifecycle.drain_disconnected(), vec![]);
    assert!(lifecycle.on_signal(ConnectionSignal::Disconnected { err: Some("reset".to_string()) }));
    assert_eq!(lifecycle.state(), ConnectionState::Disconnected);
    assert!(!lifecycle.on_signal(disconnected()));
    assert!(!lifecycle.on_signal(connected(44)));
    assert_eq!(
        lifecycle.drain_connected(),
        vec![StdbConnectedEvent { identity: 42, access_token: "token".to_string() }]
    );
    assert_eq!(
        lifecycle.drain_disconnected(),
        vec![StdbDisconnectedEvent { err: Some("reset".to_string()) }]
    );
    assert_eq!(lifecycle.drain_connect_error(), vec![]);
}

#[test]
fn a_clean_disconnect_carries_no_error() {
    let mut lifecycle = connecting();
    assert!(lifecycle.on_signal(connected(1)));
    assert!(lifecycle.on_signal(disconnected()));
    assert_eq!(lifecycle.drain_disconnected(), vec![StdbDisconnectedEvent { err: None }]);
}

#[test]
fn signals_before_the_attempt_are_ignored() {
    let mut lifecycle = Lifecycle::new();
    assert_eq!(lifecycle.state(), ConnectionState::Unconfigured);
    for signal in [connected(1), disconnected(), failed("x")] {
        assert!(!lifecycle.on_signal(signal));
    }
    assert!(lifecycle.configure());
    assert_eq!(lifecycle.state(), ConnectionState::Configured);
    for signal in [connected(1), disconnected(), failed("x")] {
        assert!(!lifecycle.on_signal(signal));
    }
    assert_eq!(lifecycle.drain_connected(), vec![]);
    assert_eq!(lifecycle.drain_disconnected(), vec![]);
    assert_eq!(lifecycle.drain_connect_error(), vec![]);
    assert_eq!(lifecycle.state(), ConnectionState::Configured);
}

#[test]
fn a_disconnect_while_connecting_ends_the_attempt() {
    let mut lifecycle = connecting();
    assert!(lifecycle.on_signal(ConnectionSignal::Disconnected { err: Some("closed".to_string()) }));
    assert_eq!(lifecycle.state(), ConnectionState::Disconnected);
    assert!(!lifecycle.on_signal(connected(1)));
    assert!(!lifecycle.on_signal(failed("late")));
    assert_eq!(
        lifecycle.drain_disconnected(),
        vec![StdbDisconnectedEvent { err: Some("closed".to_string()) }]
    );
    assert_eq!(lifecycle.drain_connected(), vec![]);
    assert_eq!(lifecycle.drain_connect_error(), vec![]);
}

#[test]
fn the_attempt_begins_once() {
    let mut lifecycle = Lifecycle::new();
    assert!(!lifecycle.begin_connect());
    assert_eq!(lifecycle.state(), ConnectionState::Unconfigured);
    assert!(lifecycle.configure());
    assert!(!lifecycle.configure());
    assert!(lifecycle.begin_connect());
    assert_eq!(lifecycle.state(), ConnectionState::Connecting);
    assert!(!lifecycle.begin_connect());
    assert!(!lifecycle.configure());
    assert_eq!(lifecycle.state(), ConnectionState::Connecting);
    assert!(lifecycle.on_signal(connected(1)));
    assert!(!lifecycle.begin_connect());
    assert_eq!(lifecycle.state(), ConnectionState::Running);
}

#[test]
fn a_signal_knows_its_kind() {
    assert_eq!(connected(1).kind(), SignalKind::Connected);
    assert_eq!(disconnected().kind(), SignalKind::Disconnected);
    assert_eq!(failed("x").kind(), SignalKind::ConnectError);
}

#[test]
fn signals_after_teardown_queue_nothing_and_stop_nothing() {
    let mut lifecycle = connecting();
    lifecycle.disconnect();
    assert_eq!(lifecycle.state(), ConnectionState::Connecting);
    assert!(lifecycle.on_signal(connected(1)));
    assert_eq!(lifecycle.state(), ConnectionState::Running);
    assert!(lifecycle.on_signal(disconnected()));
    assert_eq!(lifecycle.state(), ConnectionState::Disconnected);
    assert_eq!(lifecycle.drain_connected(), vec![]);
    assert_eq!(lifecycle.drain_disconnected(), vec![]);
    assert_eq!(lifecycle.drain_connect_error(), vec![]);
}

#[test]
fn teardown_loses_what_was_queued() {
    let mut lifecycle = connecting();
    assert!(lifecycle.on_signal(failed("refused")));
    lifecycle.disconnect();
    assert_eq!(lifecycle.state(), ConnectionState::FailedToConnect);
    assert_eq!(lifecycle.drain_connect_error(), vec![]);
    lifecycle.disconnect();
    assert_eq!(lifecycle.drain_connect_error(), vec![]);
}
