use airmash_server::connection::{Connections, ErrorType, Message, MessageInfo, OutMessage, ServerPacket};
use airmash_server::ids::{ConnectionId, Entity, Team};
use airmash_server::poll_complete::{AssociatedConnection, PollComplete, PollCompleteData};
use airmash_server::storage::Storage;

fn world() -> PollCompleteData {
    // players 1 and 3 on team 1, player 2 on team 2, player 4 without team;
    // connection 30 is closed.
    let mut conns = Connections::new();
    let mut associated = Storage::new();
    let mut teams = Storage::new();
    for (player, conn, team) in [(1u32, 10usize, Some(1u16)), (2, 20, Some(2)), (3, 30, Some(1)), (4, 40, None)] {
        if conn != 30 {
            conns.add(ConnectionId(conn), Some(Entity(player)));
        }
        associated.insert(Entity(player), AssociatedConnection(ConnectionId(conn)));
        if let Some(t) = team {
            teams.insert(Entity(player), Team(t));
        }
    }
    PollCompleteData { conns, associated, teams }
}

const PING: OutMessage = OutMessage::Packet(ServerPacket::Error(ErrorType::Banned));

fn poll() -> PollComplete {
    let (_send, recv) = std::sync::mpsc::channel::<Message>();
    PollComplete::new(recv)
}

#[test]
fn message_to_connection_goes_there_when_open() {
    let data = world();
    let messages = [
        Message { info: MessageInfo::ToConnection(ConnectionId(20)), msg: PING },
        Message { info: MessageInfo::ToConnection(ConnectionId(30)), msg: OutMessage::Close },
    ];
    assert_eq!(poll().run(&messages, &data), vec![(ConnectionId(20), PING)]);
}

#[test]
fn message_to_team_reaches_the_team() {
    let data = world();
    let messages = [Message { info: MessageInfo::ToTeam(Entity(3)), msg: PING }];
    assert!(PollComplete::can_run(&messages, &data));
    assert_eq!(poll().run(&messages, &data), vec![(ConnectionId(10), PING)]);
    let messages = [Message { info: MessageInfo::ToTeam(Entity(2)), msg: PING }];
    assert_eq!(poll().run(&messages, &data), vec![(ConnectionId(20), PING)]);
}

#[test]
fn message_to_visible_reaches_every_open_player() {
    let data = world();
    let messages = [Message { info: MessageInfo::ToVisible(Entity(1)), msg: OutMessage::Close }];
    assert_eq!(
        poll().run(&messages, &data),
        vec![
            (ConnectionId(10), OutMessage::Close),
            (ConnectionId(20), OutMessage::Close),
            (ConnectionId(40), OutMessage::Close),
        ]
    );
}

#[test]
fn messages_are_routed_in_order() {
    let data = world();
    let messages = [
        Message { info: MessageInfo::ToConnection(ConnectionId(40)), msg: OutMessage::Close },
        Message { info: MessageInfo::ToTeam(Entity(1)), msg: PING },
    ];
    assert_eq!(
        poll().run(&messages, &data),
        vec![(ConnectionId(40), OutMessage::Close), (ConnectionId(10), PING)]
    );
}

#[test]
fn can_run_needs_a_team_for_team_messages() {
    let data = world();
    let messages = [Message { info: MessageInfo::ToTeam(Entity(4)), msg: PING }];
    assert!(!PollComplete::can_run(&messages, &data));
    assert!(PollComplete::can_run(&[], &data));
}

#[test]
fn send_to_connection_drops_closed_connections() {
    let data = world();
    let mut sent = Vec::new();
    PollComplete::send_to_connection(&data.conns, ConnectionId(30), PING, &mut sent);
    assert!(sent.is_empty());
    PollComplete::send_to_connection(&data.conns, ConnectionId(10), PING, &mut sent);
    assert_eq!(sent, vec![(ConnectionId(10), PING)]);
}

#[test]
fn the_receiver_is_the_one_given() {
    let (send, recv) = std::sync::mpsc::channel::<Message>();
    let pc = PollComplete::new(recv);
    send.send(Message { info: MessageInfo::ToConnection(ConnectionId(1)), msg: PING }).unwrap();
    assert!(pc.receiver().try_recv().is_ok());
}

#[test]
fn a_connection_gets_its_messages_in_queue_order() {
    let data = world();
    let messages = [
        Message { info: MessageInfo::ToTeam(Entity(1)), msg: PING },
        Message { info: MessageInfo::ToConnection(ConnectionId(20)), msg: PING },
        Message { info: MessageInfo::ToConnection(ConnectionId(10)), msg: OutMessage::Close },
    ];
    let to_10: Vec<OutMessage> = poll()
        .run(&messages, &data)
        .into_iter()
        .filter(|(c, _)| *c == ConnectionId(10))
        .map(|(_, m)| m)
        .collect();
    assert_eq!(to_10, vec![PING, OutMessage::Close]);
}
