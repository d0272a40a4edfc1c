use airmash_server::ids::{Entity, Live};
use airmash_server::killed_cleanup::{PlayerKilled, PlayerKilledCleanup, PlayerKilledCleanupData};

fn alive(ids: &[u32]) -> Storage<Live> {
    let mut s = Storage::new();
    for &i in ids {
        s.insert(Entity(i), Live);
    }
    s
}
use airmash_server::storage::Storage;
use airmash_server::upgrade::IsSpectating;

fn spectators(s: &Storage<IsSpectating>) -> Vec<Entity> {
    (0..s.len()).map(|i| s.entry_at(i).0).collect()
}

#[test]
fn killed_players_become_spectators() {
    let mut isspec = Storage::new();
    isspec.insert(Entity(1), IsSpectating);
    let mut data = PlayerKilledCleanupData {
        entities: alive(&[1, 2, 4]),
        channel: vec![PlayerKilled { player: Entity(4) }, PlayerKilled { player: Entity(2) }],
        isspec,
    };
    PlayerKilledCleanup::new().run(&mut data);
    assert_eq!(spectators(&data.isspec), vec![Entity(1), Entity(2), Entity(4)]);
}

#[test]
fn cleanup_twice_is_cleanup_once() {
    let mut data = PlayerKilledCleanupData {
        entities: alive(&[3]),
        channel: vec![PlayerKilled { player: Entity(3) }, PlayerKilled { player: Entity(3) }],
        isspec: Storage::new(),
    };
    let mut system = PlayerKilledCleanup::new();
    system.run(&mut data);
    let once = spectators(&data.isspec);
    system.run(&mut data);
    assert_eq!(spectators(&data.isspec), once);
    assert_eq!(once, vec![Entity(3)]);
}

#[test]
fn no_kill_changes_nothing() {
    let mut data = PlayerKilledCleanupData { entities: alive(&[]), channel: vec![], isspec: Storage::new() };
    PlayerKilledCleanup::new().run(&mut data);
    assert_eq!(data.isspec.len(), 0);
}

#[test]
fn a_kill_of_a_gone_entity_cannot_be_handled() {
    let data = PlayerKilledCleanupData {
        entities: alive(&[1]),
        channel: vec![PlayerKilled { player: Entity(1) }, PlayerKilled { player: Entity(6) }],
        isspec: Storage::new(),
    };
    assert!(!PlayerKilledCleanup::can_run(&data));
    let data = PlayerKilledCleanupData {
        entities: alive(&[1, 6]),
        channel: vec![PlayerKilled { player: Entity(1) }, PlayerKilled { player: Entity(6) }],
        isspec: Storage::new(),
    };
    assert!(PlayerKilledCleanup::can_run(&data));
}
