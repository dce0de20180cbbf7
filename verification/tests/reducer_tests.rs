use bevy_spacetimedb::config::StreamKind;
use bevy_spacetimedb::event::{BridgeEvent, EventTypeId, ReducerResultEvent};
use bevy_spacetimedb::reducer::{on_reducer_completed, register_reducer};
use bevy_spacetimedb::registry::{ChannelRegistry, TypeCollision};

#[derive(Clone, Debug, PartialEq, Eq)]
struct GsRegister {
    event: &'static str,
    ip: String,
    port: u16,
}

type Registry = ChannelRegistry<u64, GsRegister>;

const RESULTS: u64 = 0xfeed;

fn call(ip: &str, port: u16) -> GsRegister {
    GsRegister { event: "committed", ip: ip.to_string(), port }
}

#[test]
fn one_completed_call_gives_one_event_with_its_arguments() {
    let mut registry = Registry::new();
    let registration = register_reducer(&mut registry, 5, RESULTS).unwrap();
    assert!(registration.created);
    assert!(on_reducer_completed(&mut registry, registration.sender, call("10.0.0.1", 3000)));
    assert_eq!(
        registry.drain(EventTypeId::for_reducer(5)),
        vec![BridgeEvent::Reducer(ReducerResultEvent { result: call("10.0.0.1", 3000) })]
    );
}

#[test]
fn registering_again_attaches_no_second_callback() {
    let mut registry = Registry::new();
    let mut attached = Vec::new();
    for _ in 0..4 {
        let registration = register_reducer(&mut registry, 5, RESULTS).unwrap();
        if registration.created {
            attached.push(registration.sender);
        }
    }
    assert_eq!(attached.len(), 1);
    assert_eq!(registry.len(), 1);
    for sender in attached {
        assert!(on_reducer_completed(&mut registry, sender, call("a", 1)));
    }
    assert_eq!(
        registry.drain(EventTypeId::for_reducer(5)),
        vec![BridgeEvent::Reducer(ReducerResultEvent::new(call("a", 1)))]
    );
}

#[test]
fn results_arrive_in_the_order_of_completion() {
    let mut registry = Registry::new();
    let sender = register_reducer(&mut registry, 1, RESULTS).unwrap().sender;
    assert!(on_reducer_completed(&mut registry, sender, call("a", 1)));
    assert!(on_reducer_completed(&mut registry, sender, call("b", 2)));
    let results: Vec<GsRegister> = registry
        .drain(EventTypeId::for_reducer(1))
        .into_iter()
        .map(|event| match event {
            BridgeEvent::Reducer(result) => result.result,
            other => panic!("unexpected event {:?}", other),
        })
        .collect();
    assert_eq!(results, vec![call("a", 1), call("b", 2)]);
}

#[test]
fn a_reducer_and_a_table_of_the_same_number_have_their_own_channels() {
    let mut registry = Registry::new();
    let reducer = register_reducer(&mut registry, 5, RESULTS).unwrap();
    let table = registry.get_or_create_sender(EventTypeId::for_stream(5, StreamKind::Insert), 1).unwrap();
    assert!(table.created);
    assert_ne!(reducer.sender, table.sender);
    assert!(on_reducer_completed(&mut registry, reducer.sender, call("a", 1)));
    assert!(!on_reducer_completed(&mut registry, table.sender, call("b", 2)));
    assert_eq!(registry.drain(EventTypeId::for_stream(5, StreamKind::Insert)), vec![]);
    assert_eq!(registry.drain(EventTypeId::for_reducer(5)).len(), 1);
}

#[test]
fn a_result_for_a_consumer_that_has_gone_is_dropped() {
    let mut registry = Registry::new();
    let sender = register_reducer(&mut registry, 5, RESULTS).unwrap().sender;
    assert!(registry.disconnect(EventTypeId::for_reducer(5)));
    assert!(!on_reducer_completed(&mut registry, sender, call("a", 1)));
    assert_eq!(registry.drain(EventTypeId::for_reducer(5)), vec![]);
}

#[test]
fn a_reducer_number_shared_by_two_result_types_is_refused() {
    let mut registry = Registry::new();
    let first = register_reducer(&mut registry, 5, 1).unwrap();
    assert!(first.created);
    assert_eq!(
        register_reducer(&mut registry, 5, 2),
        Err(TypeCollision { id: EventTypeId::for_reducer(5), held: 1, brought: 2 })
    );
    assert_eq!(registry.len(), 1);
    assert!(on_reducer_completed(&mut registry, first.sender, call("a", 1)));
    assert_eq!(registry.drain(EventTypeId::for_reducer(5)).len(), 1);
}
