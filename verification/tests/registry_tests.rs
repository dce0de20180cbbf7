use bevy_spacetimedb::channel::EventChannel;
use bevy_spacetimedb::config::StreamKind;
use bevy_spacetimedb::event::{
    BridgeEvent, DeleteEvent, EventShape, EventTypeId, InsertEvent, ReducerResultEvent,
};
use bevy_spacetimedb::registry::{ChannelRegistry, SendError, TypeCollision};

type Registry = ChannelRegistry<String, u32>;

const ROWS: u64 = 0x5eed;

fn insert(row: &str) -> BridgeEvent<String, u32> {
    BridgeEvent::Insert(InsertEvent { row: row.to_string() })
}

#[test]
fn key_is_eight_times_the_payload_plus_the_shape() {
    assert_eq!(EventTypeId { payload: 0, shape: EventShape::Insert }.key(), 0);
    assert_eq!(EventTypeId { payload: 1, shape: EventShape::Insert }.key(), 8);
    assert_eq!(EventTypeId { payload: 1, shape: EventShape::Delete }.key(), 9);
    assert_eq!(EventTypeId { payload: 1, shape: EventShape::Update }.key(), 10);
    assert_eq!(EventTypeId { payload: 1, shape: EventShape::InsertUpdate }.key(), 11);
    assert_eq!(EventTypeId { payload: 1, shape: EventShape::ReducerResult }.key(), 12);
    assert_eq!(
        EventTypeId { payload: u32::MAX, shape: EventShape::ReducerResult }.key(),
        34_359_738_364
    );
}

#[test]
fn identifiers_of_streams_and_reducers() {
    assert_eq!(
        EventTypeId::for_stream(7, StreamKind::InsertUpdate),
        EventTypeId { payload: 7, shape: EventShape::InsertUpdate }
    );
    assert_eq!(
        EventTypeId::for_stream(7, StreamKind::Insert),
        EventTypeId { payload: 7, shape: EventShape::Insert }
    );
    assert_eq!(
        EventTypeId::for_stream(7, StreamKind::Delete),
        EventTypeId { payload: 7, shape: EventShape::Delete }
    );
    assert_eq!(
        EventTypeId::for_stream(7, StreamKind::Update),
        EventTypeId { payload: 7, shape: EventShape::Update }
    );
    assert_eq!(
        EventTypeId::for_reducer(7),
        EventTypeId { payload: 7, shape: EventShape::ReducerResult }
    );
}

#[test]
fn first_request_opens_the_channel_and_later_ones_find_it() {
    let mut registry = Registry::new();
    assert_eq!(registry.len(), 0);
    let id = EventTypeId::for_stream(3, StreamKind::Insert);
    assert_eq!(registry.sender(id), None);
    let first = registry.get_or_create_sender(id, ROWS).unwrap();
    assert!(first.created);
    assert_eq!(first.sender.id, id);
    assert_eq!(first.sender.slot, 0);
    let second = registry.get_or_create_sender(id, ROWS).unwrap();
    assert!(!second.created);
    assert_eq!(second.sender, first.sender);
    assert_eq!(registry.len(), 1);
    assert_eq!(registry.sender(id), Some(first.sender));
}

#[test]
fn interleaved_first_use_requests_open_one_channel_per_type() {
    let mut registry = Registry::new();
    let a = EventTypeId::for_stream(1, StreamKind::Insert);
    let b = EventTypeId::for_stream(1, StreamKind::Delete);
    let c = EventTypeId::for_stream(2, StreamKind::Insert);
    let requests = [a, b, a, c, b, a, c, c, a, b];
    let mut opened = 0;
    let mut senders = Vec::new();
    for id in requests {
        let registration = registry.get_or_create_sender(id, ROWS).unwrap();
        if registration.created {
            opened += 1;
        }
        senders.push(registration.sender);
    }
    assert_eq!(opened, 3);
    assert_eq!(registry.len(), 3);
    for (id, sender) in requests.iter().zip(senders.iter()) {
        assert_eq!(registry.sender(*id), Some(*sender));
        assert_eq!(registry.send(*sender, match id.shape {
            EventShape::Insert => insert("x"),
            _ => BridgeEvent::Delete(DeleteEvent { row: "x".to_string() }),
        }), Ok(true));
    }
    assert_eq!(registry.drain(a).len(), 4);
    assert_eq!(registry.drain(b).len(), 3);
    assert_eq!(registry.drain(c).len(), 3);
}

#[test]
fn channels_are_numbered_in_order_of_opening() {
    let mut registry = Registry::new();
    let ids = [
        EventTypeId::for_reducer(9),
        EventTypeId::for_stream(9, StreamKind::Update),
        EventTypeId::for_stream(0, StreamKind::Insert),
    ];
    for (slot, id) in ids.iter().enumerate() {
        assert_eq!(registry.get_or_create_sender(*id, ROWS).unwrap().sender.slot, slot);
    }
    for (slot, id) in ids.iter().enumerate() {
        assert_eq!(registry.get_or_create_sender(*id, ROWS).unwrap().sender.slot, slot);
    }
}

#[test]
fn events_are_drained_in_the_order_sent() {
    let mut registry = Registry::new();
    let id = EventTypeId::for_stream(1, StreamKind::Insert);
    let sender = registry.get_or_create_sender(id, ROWS).unwrap().sender;
    assert_eq!(registry.send(sender, insert("a")), Ok(true));
    assert_eq!(registry.send(sender, insert("b")), Ok(true));
    assert_eq!(registry.send(sender, insert("c")), Ok(true));
    assert_eq!(registry.drain(id), vec![insert("a"), insert("b"), insert("c")]);
    assert_eq!(registry.drain(id), vec![]);
    assert_eq!(registry.send(sender, insert("d")), Ok(true));
    assert_eq!(registry.drain(id), vec![insert("d")]);
}

#[test]
fn each_channel_keeps_its_own_events() {
    let mut registry = Registry::new();
    let players = EventTypeId::for_stream(1, StreamKind::Insert);
    let planets = EventTypeId::for_stream(2, StreamKind::Insert);
    let to_players = registry.get_or_create_sender(players, ROWS).unwrap().sender;
    let to_planets = registry.get_or_create_sender(planets, ROWS).unwrap().sender;
    assert_eq!(registry.send(to_planets, insert("mars")), Ok(true));
    assert_eq!(registry.send(to_players, insert("ann")), Ok(true));
    assert_eq!(registry.drain(players), vec![insert("ann")]);
    assert_eq!(registry.drain(planets), vec![insert("mars")]);
}

#[test]
fn an_event_of_another_shape_is_refused() {
    let mut registry = Registry::new();
    let id = EventTypeId::for_stream(1, StreamKind::Insert);
    let sender = registry.get_or_create_sender(id, ROWS).unwrap().sender;
    let wrong = BridgeEvent::Delete(DeleteEvent { row: "a".to_string() });
    assert_eq!(registry.send(sender, wrong), Err(SendError::TypeMismatch));
    let wrong = BridgeEvent::Reducer(ReducerResultEvent::new(4));
    assert_eq!(registry.send(sender, wrong), Err(SendError::TypeMismatch));
    assert_eq!(registry.drain(id), vec![]);
}

#[test]
fn a_sender_of_another_registry_is_refused() {
    let mut registry = Registry::new();
    let mut other = Registry::new();
    let id = EventTypeId::for_stream(1, StreamKind::Insert);
    let elsewhere = EventTypeId::for_stream(5, StreamKind::Insert);
    other.get_or_create_sender(elsewhere, ROWS).unwrap();
    let foreign = other.get_or_create_sender(id, ROWS).unwrap().sender;
    assert_eq!(registry.send(foreign, insert("a")), Err(SendError::UnknownSender));
    registry.get_or_create_sender(id, ROWS).unwrap();
    assert_eq!(registry.send(foreign, insert("a")), Err(SendError::UnknownSender));
    assert_eq!(registry.drain(id), vec![]);
}

#[test]
fn a_late_event_for_a_consumer_that_has_gone_is_dropped() {
    let mut registry = Registry::new();
    let id = EventTypeId::for_stream(1, StreamKind::Insert);
    let sender = registry.get_or_create_sender(id, ROWS).unwrap().sender;
    assert_eq!(registry.send(sender, insert("early")), Ok(true));
    assert!(registry.disconnect(id));
    assert_eq!(registry.send(sender, insert("late")), Ok(false));
    assert_eq!(registry.send(sender, insert("later")), Ok(false));
    assert_eq!(registry.drain(id), vec![]);
    let again = registry.get_or_create_sender(id, ROWS).unwrap();
    assert!(!again.created);
    assert_eq!(again.sender, sender);
}

#[test]
fn draining_or_disconnecting_an_unknown_type_does_nothing() {
    let mut registry = Registry::new();
    let id = EventTypeId::for_stream(1, StreamKind::Insert);
    assert_eq!(registry.drain(id), vec![]);
    assert!(!registry.disconnect(id));
    assert_eq!(registry.len(), 0);
}

#[test]
fn a_channel_queues_until_its_receiver_goes() {
    let mut channel: EventChannel<u8> = EventChannel::new();
    assert!(channel.is_connected());
    assert_eq!(channel.len(), 0);
    assert!(channel.send(1));
    assert!(channel.send(2));
    assert_eq!(channel.len(), 2);
    assert_eq!(channel.drain(), vec![1, 2]);
    assert_eq!(channel.len(), 0);
    assert!(channel.send(3));
    channel.disconnect();
    assert!(!channel.is_connected());
    assert_eq!(channel.len(), 0);
    assert!(!channel.send(4));
    assert_eq!(channel.drain(), Vec::<u8>::new());
}

#[test]
fn an_event_knows_its_shape() {
    assert_eq!(insert("a").shape(), EventShape::Insert);
    let event: BridgeEvent<String, u32> = BridgeEvent::Reducer(ReducerResultEvent::new(1));
    assert_eq!(event.shape(), EventShape::ReducerResult);
}

#[test]
fn a_request_that_brings_another_payload_type_is_refused() {
    let mut registry = Registry::new();
    let id = EventTypeId::for_stream(1, StreamKind::Insert);
    let other = EventTypeId::for_stream(2, StreamKind::Insert);
    assert_eq!(registry.collision(id, 10), None);
    let first = registry.get_or_create_sender(id, 10).unwrap();
    assert!(first.created);
    assert_eq!(registry.collision(id, 10), None);
    let collision = TypeCollision { id, held: 10, brought: 11 };
    assert_eq!(registry.collision(id, 11), Some(collision));
    assert_eq!(registry.get_or_create_sender(id, 11), Err(collision));
    assert_eq!(registry.len(), 1);
    // The refusal has changed nothing: the first payload type is still served.
    let again = registry.get_or_create_sender(id, 10).unwrap();
    assert!(!again.created);
    assert_eq!(again.sender, first.sender);
    assert_eq!(registry.send(first.sender, insert("a")), Ok(true));
    assert_eq!(registry.drain(id), vec![insert("a")]);
    // Another event type may carry the other payload type.
    assert!(registry.get_or_create_sender(other, 11).unwrap().created);
    assert_eq!(
        registry.get_or_create_sender(other, 10),
        Err(TypeCollision { id: other, held: 11, brought: 10 })
    );
}

#[test]
fn teardown_disconnects_every_channel() {
    let mut registry = Registry::new();
    let a = EventTypeId::for_stream(1, StreamKind::Insert);
    let b = EventTypeId::for_stream(2, StreamKind::Insert);
    let to_a = registry.get_or_create_sender(a, ROWS).unwrap().sender;
    let to_b = registry.get_or_create_sender(b, ROWS).unwrap().sender;
    assert_eq!(registry.send(to_a, insert("early")), Ok(true));
    registry.disconnect_all();
    assert_eq!(registry.len(), 2);
    assert_eq!(registry.send(to_a, insert("late")), Ok(false));
    assert_eq!(registry.send(to_b, insert("late")), Ok(false));
    assert_eq!(registry.drain(a), vec![]);
    assert_eq!(registry.drain(b), vec![]);
    assert_eq!(registry.sender(a), Some(to_a));
    registry.disconnect_all();
    assert_eq!(registry.send(to_a, insert("later")), Ok(false));
}
