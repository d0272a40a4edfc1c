use airmash_server::connection::{
    Connections, Message, MessageInfo, OutMessage, PlayerUpgradePacket, ServerPacket,
};
use airmash_server::ids::{ConnectionId, Entity};
use airmash_server::storage::{EventChannel, Storage};
use airmash_server::upgrade::{
    parse_upgrade_data, Command, IsDead, IsSpectating, PlayerUpgrade, Upgrade, UpgradeData,
    UpgradeType, Upgrades,
};

const CONN: ConnectionId = ConnectionId(7);
const PLAYER: Entity = Entity(3);

fn upgrades(speed: u8, defense: u8, energy: u8, missile: u8, unused: u16) -> Upgrades {
    Upgrades { speed, defense, energy, missile, unused }
}

fn data_with(u: Upgrades) -> UpgradeData {
    let mut conns = Connections::new();
    conns.add(CONN, Some(PLAYER));
    let mut store = Storage::new();
    store.insert(PLAYER, u);
    UpgradeData {
        conns,
        channel: EventChannel::new(),
        is_spec: Storage::new(),
        is_dead: Storage::new(),
        upgrades: store,
    }
}

fn command(com: &str, data: &str) -> (ConnectionId, Command) {
    (CONN, Command { com: com.to_string(), data: data.to_string() })
}

fn stored(data: &UpgradeData) -> Upgrades {
    *data.upgrades.get(PLAYER).unwrap()
}

#[test]
fn parse_names_the_four_stats() {
    assert_eq!(parse_upgrade_data("1"), Ok(UpgradeType::Speed));
    assert_eq!(parse_upgrade_data("2"), Ok(UpgradeType::Defense));
    assert_eq!(parse_upgrade_data("3"), Ok(UpgradeType::Energy));
    assert_eq!(parse_upgrade_data("4"), Ok(UpgradeType::Missile));
}

#[test]
fn parse_accepts_sign_and_leading_zeros() {
    assert_eq!(parse_upgrade_data("+2"), Ok(UpgradeType::Defense));
    assert_eq!(parse_upgrade_data("003"), Ok(UpgradeType::Energy));
}

#[test]
fn parse_refuses_other_input() {
    for s in ["0", "5", "-1", "", " 1", "1 ", "one", "+", "-", "99999999999", "4.0"] {
        assert_eq!(parse_upgrade_data(s), Err(()), "input {:?}", s);
    }
}

#[test]
fn upgrade_raises_the_named_stat() {
    let mut data = data_with(upgrades(1, 2, 3, 4, 0));
    let mut handler = Upgrade::new();
    let evt = command("upgrade", "2");
    assert!(Upgrade::can_handle(&evt, &data));
    handler.on_event(&evt, &mut data);
    assert_eq!(stored(&data), upgrades(1, 3, 3, 4, 4));
    assert_eq!(
        data.channel.drain(),
        vec![PlayerUpgrade { player: PLAYER, ty: UpgradeType::Defense }]
    );
    assert_eq!(
        data.conns.take_outbox(),
        vec![Message {
            info: MessageInfo::ToConnection(CONN),
            msg: OutMessage::Packet(ServerPacket::PlayerUpgrade(PlayerUpgradePacket {
                upgrades: 4,
                ty: UpgradeType::Defense,
                speed: 1,
                defense: 3,
                energy: 3,
                missile: 4,
            })),
        }]
    );
}

#[test]
fn each_stat_can_be_upgraded() {
    let cases = [
        ("1", upgrades(1, 0, 0, 0, 4)),
        ("2", upgrades(0, 1, 0, 0, 4)),
        ("3", upgrades(0, 0, 1, 0, 4)),
        ("4", upgrades(0, 0, 0, 1, 4)),
    ];
    for (arg, expected) in cases {
        let mut data = data_with(upgrades(0, 0, 0, 0, 9));
        Upgrade::new().on_event(&command("upgrade", arg), &mut data);
        assert_eq!(stored(&data), expected);
    }
}

#[test]
fn a_maxed_stat_is_not_raised() {
    let mut data = data_with(upgrades(5, 0, 0, 0, 2));
    Upgrade::new().on_event(&command("upgrade", "1"), &mut data);
    assert_eq!(stored(&data), upgrades(5, 0, 0, 0, 2));
    assert!(data.channel.drain().is_empty());
    assert!(data.conns.take_outbox().is_empty());
}

#[test]
fn repeated_upgrades_stop_at_the_highest_level() {
    let mut data = data_with(upgrades(0, 0, 0, 0, 0));
    let mut handler = Upgrade::new();
    for _ in 0..10 {
        handler.on_event(&command("upgrade", "1"), &mut data);
    }
    assert_eq!(stored(&data).speed, 5);
    assert_eq!(data.channel.drain().len(), 5);
}

#[test]
fn other_commands_change_nothing() {
    for evt in [command("respawn", "1"), command("Upgrade", "1"), command("upgrade", "7")] {
        let mut data = data_with(upgrades(1, 1, 1, 1, 1));
        Upgrade::new().on_event(&evt, &mut data);
        assert_eq!(stored(&data), upgrades(1, 1, 1, 1, 1));
        assert!(data.channel.drain().is_empty());
        assert!(data.conns.take_outbox().is_empty());
    }
}

#[test]
fn a_connection_without_player_changes_nothing() {
    let mut data = data_with(upgrades(1, 1, 1, 1, 1));
    let evt = (ConnectionId(99), Command { com: "upgrade".to_string(), data: "1".to_string() });
    assert_eq!(Upgrade::request(&evt, &data), None);
    Upgrade::new().on_event(&evt, &mut data);
    assert_eq!(stored(&data), upgrades(1, 1, 1, 1, 1));
    data.conns.add(ConnectionId(99), None);
    assert_eq!(Upgrade::request(&evt, &data), None);
}

#[test]
fn dead_or_spectating_players_cannot_upgrade() {
    let mut dead = data_with(upgrades(0, 0, 0, 0, 0));
    dead.is_dead.insert(PLAYER, IsDead);
    Upgrade::new().on_event(&command("upgrade", "1"), &mut dead);
    assert_eq!(stored(&dead), upgrades(0, 0, 0, 0, 0));

    let mut spec = data_with(upgrades(0, 0, 0, 0, 0));
    spec.is_spec.insert(PLAYER, IsSpectating);
    assert_eq!(Upgrade::request(&command("upgrade", "1"), &spec), None);
    Upgrade::new().on_event(&command("upgrade", "1"), &mut spec);
    assert_eq!(stored(&spec), upgrades(0, 0, 0, 0, 0));
}

#[test]
fn request_names_player_and_stat() {
    let data = data_with(upgrades(0, 0, 0, 0, 0));
    assert_eq!(
        Upgrade::request(&command("upgrade", "4"), &data),
        Some((PLAYER, UpgradeType::Missile))
    );
}

#[test]
fn can_handle_needs_the_players_upgrades() {
    let mut data = data_with(upgrades(0, 0, 0, 0, 0));
    data.upgrades = Storage::new();
    assert!(!Upgrade::can_handle(&command("upgrade", "1"), &data));
    assert!(Upgrade::can_handle(&command("respawn", "1"), &data));
    let data = data_with(upgrades(255, 0, 0, 0, 0));
    assert!(!Upgrade::can_handle(&command("upgrade", "1"), &data));
}
