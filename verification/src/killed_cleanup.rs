use vstd::prelude::*;
use crate::ids::{Entity, Live};
use crate::storage::Storage;
use crate::upgrade::IsSpectating;

verus! {

/// The event that a player was killed.
#[derive(Clone, Copy, PartialEq, Eq, Structural, Debug)]
pub struct PlayerKilled {
    pub player: Entity,
}

/// What the clean-up after a kill reads and writes: the entities that exist,
/// the kill events read in this run, oldest first, and the players that are
/// spectating.
pub struct PlayerKilledCleanupData {
    pub entities: Storage<Live>,
    pub channel: Vec<PlayerKilled>,
    pub isspec: Storage<IsSpectating>,
}

/// The clean-up after a kill: a killed player becomes a spectator.
#[derive(Clone, Copy, PartialEq, Eq, Structural, Debug)]
pub struct PlayerKilledCleanup;

/// The players killed in `events`.
pub open spec fn killed_players(events: Seq<PlayerKilled>) -> Set<Entity> {
    Set::new(|e: Entity| exists|i: int| 0 <= i < events.len() && events[i].player == e)
}

/// Whether every killed player of `events` still exists.
pub open spec fn killed_players_live(events: Seq<PlayerKilled>, entities: Map<Entity, Live>) -> bool {
    forall|i: int| 0 <= i < events.len() ==> entities.contains_key(#[trigger] events[i].player)
}

impl PlayerKilledCleanup {
    /// The clean-up.
    pub fn new() -> (s: Self)
        ensures
            s == PlayerKilledCleanup,
    {
        PlayerKilledCleanup
    }

    /// Whether `run` can handle `data` without failing: every killed player
    /// still exists.
    pub fn can_run(data: &PlayerKilledCleanupData) -> (b: bool)
        ensures
            b == killed_players_live(data.channel@, data.entities@),
    {
        let mut i: usize = 0;
        while i < data.channel.len()
            invariant
                0 <= i <= data.channel@.len(),
                forall|j: int|
                    0 <= j < i ==> data.entities@.contains_key(#[trigger] data.channel@[j].player),
            decreases data.channel@.len() - i,
        {
            if !data.entities.contains(data.channel[i].player) {
                return false;
            }
            i = i + 1;
        }
        true
    }

    /// Marks every player killed in `data.channel` as spectating; the other
    /// players keep their marks. Every killed player must still exist.
    pub fn run(&mut self, data: &mut PlayerKilledCleanupData)
        requires
            killed_players_live(old(data).channel@, old(data).entities@),
        ensures
            final(data).entities@ == old(data).entities@,
            final(data).channel@ == old(data).channel@,
            final(data).isspec@.dom() == old(data).isspec@.dom().union(
                killed_players(old(data).channel@),
            ),
    {
        let ghost before = data.isspec@;
        let ghost events = data.channel@;
        let mut i: usize = 0;
        while i < data.channel.len()
            invariant
                0 <= i <= data.channel@.len(),
                data.channel@ == events,
                data.entities@ == old(data).entities@,
                data.isspec@.dom() == before.dom().union(killed_players(events.take(i as int))),
            decreases data.channel@.len() - i,
        {
            let evt = data.channel[i];
            data.isspec.insert(evt.player, IsSpectating);
            proof {
                assert(killed_players(events.take(i + 1)) =~= killed_players(
                    events.take(i as int),
                ).insert(evt.player)) by {
                    assert(events.take(i + 1)[i as int] == evt);
                    assert forall|e: Entity| #[trigger]
                        killed_players(events.take(i + 1)).contains(e) implies killed_players(
                        events.take(i as int),
                    ).insert(evt.player).contains(e) by {
                        let j = choose|j: int|
                            0 <= j < events.take(i + 1).len() && #[trigger] events.take(i + 1)[j].player == e;
                        if j < i {
                            assert(events.take(i as int)[j].player == e);
                        }
                    }
                    assert forall|e: Entity| #[trigger]
                        killed_players(events.take(i as int)).contains(e) implies killed_players(
                        events.take(i + 1),
                    ).contains(e) by {
                        let j = choose|j: int|
                            0 <= j < events.take(i as int).len() && #[trigger] events.take(
                                i as int,
                            )[j].player == e;
                        assert(events.take(i + 1)[j].player == e);
                    }
                }
                assert(data.isspec@.dom() =~= before.dom().union(
                    killed_players(events.take(i + 1)),
                ));
            }
            i = i + 1;
        }
        proof {
            assert(events.take(events.len() as int) =~= events);
        }
    }
}

} // verus!
