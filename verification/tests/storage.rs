use airmash_server::connection::{Connections, Message, MessageInfo, OutMessage};
use airmash_server::ids::{ConnectionId, Entity};
use airmash_server::storage::{EventChannel, Storage};

#[test]
fn get_gives_back_what_insert_wrote() {
    let mut s: Storage<u32> = Storage::new();
    assert_eq!(s.insert(Entity(4), 40), None);
    assert_eq!(s.insert(Entity(2), 20), None);
    assert_eq!(s.get(Entity(4)), Some(&40));
    assert_eq!(s.get(Entity(2)), Some(&20));
    assert_eq!(s.get(Entity(3)), None);
    assert!(s.contains(Entity(2)));
    assert!(!s.contains(Entity(5)));
    assert_eq!(s.len(), 2);
}

#[test]
fn insert_replaces_and_hands_back_the_old_component() {
    let mut s: Storage<u32> = Storage::new();
    s.insert(Entity(1), 10);
    assert_eq!(s.insert(Entity(1), 11), Some(10));
    assert_eq!(s.get(Entity(1)), Some(&11));
    assert_eq!(s.len(), 1);
}

#[test]
fn entries_come_in_entity_order() {
    let mut s: Storage<char> = Storage::new();
    for (i, c) in [(9, 'c'), (1, 'a'), (5, 'b'), (12, 'd')] {
        s.insert(Entity(i), c);
    }
    let order: Vec<(Entity, char)> = (0..s.len()).map(|i| {
        let (e, c) = s.entry_at(i);
        (e, *c)
    }).collect();
    assert_eq!(order, vec![(Entity(1), 'a'), (Entity(5), 'b'), (Entity(9), 'c'), (Entity(12), 'd')]);
}

#[test]
fn event_channel_keeps_the_order_of_writes() {
    let mut c: EventChannel<u8> = EventChannel::new();
    c.single_write(3);
    c.single_write(1);
    assert_eq!(c.drain(), vec![3, 1]);
    assert!(c.drain().is_empty());
}

#[test]
fn connections_record_players_and_queue_messages() {
    let mut conns = Connections::new();
    conns.add(ConnectionId(1), None);
    conns.add(ConnectionId(2), Some(Entity(8)));
    assert!(conns.is_open(ConnectionId(1)));
    assert!(!conns.is_open(ConnectionId(3)));
    assert_eq!(conns.associated_player(ConnectionId(1)), None);
    assert_eq!(conns.associated_player(ConnectionId(2)), Some(Entity(8)));
    assert_eq!(conns.associated_player(ConnectionId(3)), None);
    conns.add(ConnectionId(1), Some(Entity(9)));
    assert_eq!(conns.associated_player(ConnectionId(1)), Some(Entity(9)));

    conns.send_to(ConnectionId(2), OutMessage::Close);
    conns.send_to(ConnectionId(1), OutMessage::Close);
    assert_eq!(
        conns.take_outbox(),
        vec![
            Message { info: MessageInfo::ToConnection(ConnectionId(2)), msg: OutMessage::Close },
            Message { info: MessageInfo::ToConnection(ConnectionId(1)), msg: OutMessage::Close },
        ]
    );
    assert!(conns.take_outbox().is_empty());
    assert!(conns.is_open(ConnectionId(2)));
}
