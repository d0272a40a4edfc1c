//! Properties of the library that span several calls or hold of every input.

use vstd::prelude::*;
use crate::connection::{Message, MessageInfo};
use crate::ids::Entity;
use crate::killed_cleanup::killed_players;
use crate::login_fail::{failed_login_connection, login_failed_messages, TimerEvent};
use crate::poll_complete::{deliveries, deliveries_of, fan_out, PollCompleteData};
use crate::upgrade::{
    max_level, spec_apply_upgrade, spec_parse_i32, spec_parse_upgrade_data, stat, Upgrade,
    UpgradeData, UpgradeType, Upgrades,
};
use crate::ids::{ConnectionId, Team};
use crate::connection::OutMessage;
use crate::poll_complete::AssociatedConnection;

verus! {

/// Every stat of `u` is at most the highest level.
pub open spec fn levels_bounded(u: Upgrades) -> bool {
    &&& u.speed <= max_level()
    &&& u.defense <= max_level()
    &&& u.energy <= max_level()
    &&& u.missile <= max_level()
}

/// Every player's stats are at most the highest level.
pub open spec fn all_levels_bounded(m: Map<Entity, Upgrades>) -> bool {
    forall|p: Entity| #[trigger] m.contains_key(p) ==> levels_bounded(m[p])
}

/// An upgrade raises the named stat by exactly one and leaves the other
/// stats as they were; a stat at the highest level is never raised.
pub proof fn law_upgrade_raises_one_stat(u: Upgrades, ty: UpgradeType)
    requires
        stat(u, ty) < 255,
    ensures
        match spec_apply_upgrade(u, ty) {
            None => stat(u, ty) == max_level(),
            Some(n) => {
                &&& stat(n, ty) == stat(u, ty) + 1
                &&& forall|other: UpgradeType| other != ty ==> #[trigger] stat(n, other) == stat(u, other)
            },
        },
{
    if let Some(n) = spec_apply_upgrade(u, ty) {
        assert forall|other: UpgradeType| other != ty implies #[trigger] stat(n, other) == stat(
            u,
            other,
        ) by {
            match other {
                UpgradeType::Speed => {},
                UpgradeType::Defense => {},
                UpgradeType::Energy => {},
                UpgradeType::Missile => {},
            }
        }
    }
}

/// An upgrade keeps every stat within the highest level.
pub proof fn law_upgrade_keeps_levels_bounded(u: Upgrades, ty: UpgradeType)
    requires
        levels_bounded(u),
    ensures
        spec_apply_upgrade(u, ty) matches Some(n) ==> levels_bounded(n),
{
}

/// Handling any command keeps every player's stats within the highest level.
pub proof fn law_handler_keeps_levels_bounded(
    evt: crate::upgrade::CommandEvent,
    before: UpgradeData,
    after: Map<Entity, Upgrades>,
)
    requires
        Upgrade::spec_can_handle(evt, before),
        all_levels_bounded(before.upgrades@),
        match Upgrade::spec_outcome(evt, before) {
            None => after == before.upgrades@,
            Some((player, _, u)) => after == before.upgrades@.insert(player, u),
        },
    ensures
        all_levels_bounded(after),
{
    match Upgrade::spec_outcome(evt, before) {
        None => {},
        Some((player, ty, u)) => {
            assert(before.upgrades@.contains_key(player));
            law_upgrade_keeps_levels_bounded(before.upgrades@[player], ty);
            assert forall|q: Entity| #[trigger] after.contains_key(q) implies levels_bounded(
                after[q],
            ) by {
                if q != player {
                    assert(before.upgrades@.contains_key(q));
                }
            }
        },
    }
}

/// A dead or spectating player cannot upgrade, whatever it asks.
pub proof fn law_dead_or_spectating_cannot_upgrade(
    evt: crate::upgrade::CommandEvent,
    data: UpgradeData,
    player: Entity,
)
    requires
        data.conns.spec_associated_player(evt.0) == Some(player),
        data.is_dead@.contains_key(player) || data.is_spec@.contains_key(player),
    ensures
        Upgrade::spec_request(evt, data) is None,
{
}

/// The argument of an upgrade command names a stat exactly when it is one
/// of the numbers 1 to 4.
pub proof fn law_parse_names_one_to_four(s: Seq<char>)
    ensures
        spec_parse_upgrade_data(s) is Ok <==> (spec_parse_i32(s) matches Some(n) && 1 <= n <= 4),
{
}

/// After the clean-up every killed player is spectating.
pub proof fn law_killed_players_spectate(before: Set<Entity>, events: Seq<crate::killed_cleanup::PlayerKilled>, i: int)
    requires
        0 <= i < events.len(),
    ensures
        before.union(killed_players(events)).contains(events[i].player),
{
    assert(killed_players(events).contains(events[i].player));
}

/// Running the clean-up a second time over the same kills changes nothing.
pub proof fn law_cleanup_idempotent(before: Set<Entity>, events: Seq<crate::killed_cleanup::PlayerKilled>)
    ensures
        before.union(killed_players(events)).union(killed_players(events)) == before.union(
            killed_players(events),
        ),
{
    assert(before.union(killed_players(events)).union(killed_players(events)) =~= before.union(
        killed_players(events),
    ));
}

/// Handling the timer events in two runs sends what handling them in one run sends.
pub proof fn law_login_failed_runs_compose(a: Seq<TimerEvent>, b: Seq<TimerEvent>)
    ensures
        login_failed_messages(a + b) == login_failed_messages(a) + login_failed_messages(b),
    decreases b.len(),
{
    if b.len() == 0 {
        assert(a + b =~= a);
        assert(login_failed_messages(a) + login_failed_messages(b) =~= login_failed_messages(a));
    } else {
        law_login_failed_runs_compose(a, b.drop_last());
        assert((a + b).drop_last() =~= a + b.drop_last());
        assert((a + b).last() == b.last());
        match failed_login_connection(b.last()) {
            Some(_) => {
                assert(login_failed_messages(a + b) =~= login_failed_messages(a)
                    + login_failed_messages(b));
            },
            None => {},
        }
    }
}

/// Every message sent for timer events goes to the connection of a failed
/// login among them.
pub proof fn law_login_failed_messages_to_failed_logins(evs: Seq<TimerEvent>, j: int)
    requires
        0 <= j < login_failed_messages(evs).len(),
    ensures
        exists|i: int|
            0 <= i < evs.len() && login_failed_messages(evs)[j].info == MessageInfo::ToConnection(
                #[trigger] failed_login_connection(evs[i])->Some_0,
            ) && failed_login_connection(evs[i]) is Some,
    decreases evs.len(),
{
    let p = login_failed_messages(evs.drop_last());
    if j < p.len() {
        law_login_failed_messages_to_failed_logins(evs.drop_last(), j);
        let i = choose|i: int|
            0 <= i < evs.drop_last().len() && p[j].info == MessageInfo::ToConnection(
                #[trigger] failed_login_connection(evs.drop_last()[i])->Some_0,
            ) && failed_login_connection(evs.drop_last()[i]) is Some;
        assert(evs.drop_last()[i] == evs[i]);
    } else {
        let i = evs.len() - 1;
        assert(evs[i] == evs.last());
        assert(failed_login_connection(evs[i]) is Some);
    }
}

/// Routing the messages of a frame in two parts delivers what routing them
/// at once delivers.
pub proof fn law_deliveries_compose(a: Seq<Message>, b: Seq<Message>, data: PollCompleteData)
    ensures
        deliveries(a + b, data) == deliveries(a, data) + deliveries(b, data),
    decreases b.len(),
{
    if b.len() == 0 {
        assert(a + b =~= a);
        assert(deliveries(a, data) + deliveries(b, data) =~= deliveries(a, data));
    } else {
        law_deliveries_compose(a, b.drop_last(), data);
        assert((a + b).drop_last() =~= a + b.drop_last());
        assert((a + b).last() == b.last());
        assert(deliveries(a + b, data) =~= deliveries(a, data) + deliveries(b, data));
    }
}

/// A fan-out reaches only open connections of players of the storage, and,
/// for a team, only players on that team.
pub proof fn lemma_fan_out_targets(
    entries: Seq<(Entity, AssociatedConnection)>,
    teams: Map<Entity, Team>,
    team: Option<Team>,
    open: Map<ConnectionId, Option<Entity>>,
    msg: OutMessage,
    j: int,
)
    requires
        0 <= j < fan_out(entries, teams, team, open, msg).len(),
    ensures
        open.contains_key(fan_out(entries, teams, team, open, msg)[j].0),
        fan_out(entries, teams, team, open, msg)[j].1 == msg,
        exists|i: int|
            0 <= i < entries.len() && (#[trigger] entries[i]).1.0 == fan_out(
                entries,
                teams,
                team,
                open,
                msg,
            )[j].0 && (team matches Some(t) ==> teams.contains_key(entries[i].0) && teams[entries[i].0]
                == t),
    decreases entries.len(),
{
    let p = fan_out(entries.drop_last(), teams, team, open, msg);
    if j < p.len() {
        lemma_fan_out_targets(entries.drop_last(), teams, team, open, msg, j);
        let i = choose|i: int|
            0 <= i < entries.drop_last().len() && (#[trigger] entries.drop_last()[i]).1.0 == p[j].0
                && (team matches Some(t) ==> teams.contains_key(entries.drop_last()[i].0)
                && teams[entries.drop_last()[i].0] == t);
        assert(entries.drop_last()[i] == entries[i]);
    } else {
        let i = entries.len() - 1;
        assert(entries[i] == entries.last());
    }
}

/// Every delivery goes to an open connection, and carries a message that
/// was queued in the frame.
pub proof fn law_deliveries_go_to_open_connections(
    messages: Seq<Message>,
    data: PollCompleteData,
    j: int,
)
    requires
        0 <= j < deliveries(messages, data).len(),
    ensures
        data.conns@.contains_key(deliveries(messages, data)[j].0),
        exists|i: int|
            0 <= i < messages.len() && (#[trigger] messages[i]).msg == deliveries(messages, data)[j].1,
    decreases messages.len(),
{
    let p = deliveries(messages.drop_last(), data);
    if j < p.len() {
        law_deliveries_go_to_open_connections(messages.drop_last(), data, j);
        let i = choose|i: int|
            0 <= i < messages.drop_last().len() && (#[trigger] messages.drop_last()[i]).msg == p[j].1;
        assert(messages.drop_last()[i] == messages[i]);
    } else {
        let m = messages.last();
        let k = j - p.len();
        assert(messages[messages.len() - 1] == m);
        match m.info {
            MessageInfo::ToConnection(id) => {},
            MessageInfo::ToTeam(player) => {
                lemma_fan_out_targets(
                    data.associated.entries(),
                    data.teams@,
                    Some(data.teams@[player]),
                    data.conns@,
                    m.msg,
                    k,
                );
            },
            MessageInfo::ToVisible(_) => {
                lemma_fan_out_targets(
                    data.associated.entries(),
                    data.teams@,
                    None,
                    data.conns@,
                    m.msg,
                    k,
                );
            },
        }
    }
}

/// A message to a team reaches only the connections of players on the
/// sender's team.
pub proof fn law_team_message_stays_in_team(message: Message, data: PollCompleteData, j: int)
    requires
        message.info matches MessageInfo::ToTeam(sender),
        0 <= j < deliveries_of(message, data).len(),
    ensures
        exists|i: int|
            0 <= i < data.associated.entries().len() && (#[trigger] data.associated.entries()[i]).1.0
                == deliveries_of(message, data)[j].0 && data.teams@.contains_key(
                data.associated.entries()[i].0,
            ) && data.teams@[data.associated.entries()[i].0] == data.teams@[message.info->ToTeam_0],
{
    let sender = message.info->ToTeam_0;
    lemma_fan_out_targets(
        data.associated.entries(),
        data.teams@,
        Some(data.teams@[sender]),
        data.conns@,
        message.msg,
        j,
    );
}

/// The deliveries of the first `k + 1` messages are those of the first `k`
/// followed by those of message `k`.
proof fn lemma_deliveries_take_step(messages: Seq<Message>, data: PollCompleteData, k: int)
    requires
        0 <= k < messages.len(),
    ensures
        deliveries(messages.take(k + 1), data) == deliveries(messages.take(k), data)
            + deliveries_of(messages[k], data),
{
    assert(messages.take(k + 1).drop_last() =~= messages.take(k));
    assert(messages.take(k + 1).last() == messages[k]);
}

/// The deliveries of a prefix come first among the deliveries of a longer prefix.
proof fn lemma_deliveries_prefix(messages: Seq<Message>, data: PollCompleteData, i: int, j: int)
    requires
        0 <= i <= j <= messages.len(),
    ensures
        deliveries(messages.take(i), data).len() <= deliveries(messages.take(j), data).len(),
        forall|p: int|
            0 <= p < deliveries(messages.take(i), data).len() ==> deliveries(messages.take(j), data)[p]
                == #[trigger] deliveries(messages.take(i), data)[p],
    decreases j - i,
{
    if i < j {
        lemma_deliveries_prefix(messages, data, i, j - 1);
        lemma_deliveries_take_step(messages, data, j - 1);
    }
}

/// Messages reach each connection in the order in which they were queued:
/// every delivery of message `i` comes before every delivery of a later
/// message `j` in the sequence that `PollComplete::run` sends.
pub proof fn law_deliveries_keep_queue_order(
    messages: Seq<Message>,
    data: PollCompleteData,
    i: int,
    j: int,
    p: int,
    q: int,
)
    requires
        0 <= i < j < messages.len(),
        0 <= p < deliveries_of(messages[i], data).len(),
        0 <= q < deliveries_of(messages[j], data).len(),
    ensures
        ({
            let at_p = deliveries(messages.take(i), data).len() + p;
            let at_q = deliveries(messages.take(j), data).len() + q;
            &&& at_p < at_q < deliveries(messages, data).len()
            &&& deliveries(messages, data)[at_p] == deliveries_of(messages[i], data)[p]
            &&& deliveries(messages, data)[at_q] == deliveries_of(messages[j], data)[q]
        }),
{
    let n = messages.len() as int;
    assert(messages.take(n) =~= messages);
    lemma_deliveries_take_step(messages, data, i);
    lemma_deliveries_take_step(messages, data, j);
    lemma_deliveries_prefix(messages, data, i + 1, j);
    lemma_deliveries_prefix(messages, data, j + 1, n);
    let at_p = deliveries(messages.take(i), data).len() + p;
    let at_q = deliveries(messages.take(j), data).len() + q;
    let d_i1 = deliveries(messages.take(i + 1), data);
    let d_j = deliveries(messages.take(j), data);
    let d_j1 = deliveries(messages.take(j + 1), data);
    let d_n = deliveries(messages.take(n), data);
    assert(d_i1[at_p] == deliveries_of(messages[i], data)[p]);
    assert(d_j[at_p] == d_i1[at_p]);
    assert(d_j1[at_p] == d_j[at_p]);
    assert(d_n[at_p] == d_j1[at_p]);
    assert(d_j1[at_q] == deliveries_of(messages[j], data)[q]);
    assert(d_n[at_q] == d_j1[at_q]);
}

/// An upgrade changes the upgrades of the player of the connection the
/// command came from, and no other player's.
pub proof fn law_upgrade_touches_only_the_sender(
    evt: crate::upgrade::CommandEvent,
    data: UpgradeData,
)
    ensures
        Upgrade::spec_outcome(evt, data) matches Some((player, _, _)) ==> data.conns.spec_associated_player(
            evt.0,
        ) == Some(player),
{
}

/// Each entry of a storage, walked in entity order, is the component the
/// storage holds for that entity.
pub proof fn law_entries_match_view<T>(s: Seq<(Entity, T)>, i: int)
    requires
        crate::storage::sorted_by_entity(s),
        0 <= i < s.len(),
    ensures
        crate::storage::pairs_map(s).contains_key(s[i].0),
        crate::storage::pairs_map(s)[s[i].0] == s[i].1,
{
    crate::storage::lemma_sorted_unique(s);
    crate::storage::lemma_entry_in_map(s, i);
}

/// The packet that tells a player its upgrades carries each stat of those
/// upgrades in the field of the same name, the unused upgrades as
/// `upgrades`, and the stat that was raised.
pub proof fn law_upgrade_packet_reports_the_stored_upgrades(u: Upgrades, ty: UpgradeType)
    ensures
        crate::upgrade::upgrade_packet(u, ty).speed == u.speed,
        crate::upgrade::upgrade_packet(u, ty).defense == u.defense,
        crate::upgrade::upgrade_packet(u, ty).energy == u.energy,
        crate::upgrade::upgrade_packet(u, ty).missile == u.missile,
        crate::upgrade::upgrade_packet(u, ty).upgrades == u.unused,
        crate::upgrade::upgrade_packet(u, ty).ty == ty,
{
}

/// Whether the entry `x` of the associated storage is a recipient of a
/// fan-out: its connection is open and, for a team, its player is on it.
pub open spec fn is_recipient(
    x: (Entity, AssociatedConnection),
    teams: Map<Entity, Team>,
    team: Option<Team>,
    open: Map<ConnectionId, Option<Entity>>,
) -> bool {
    &&& open.contains_key(x.1.0)
    &&& (team matches Some(t) ==> teams.contains_key(x.0) && teams[x.0] == t)
}

/// A fan-out sends the message to the connection of each recipient entry of
/// the storage, in the storage's order, and to no one else.
pub proof fn law_fan_out_is_filtered_entries(
    entries: Seq<(Entity, AssociatedConnection)>,
    teams: Map<Entity, Team>,
    team: Option<Team>,
    open: Map<ConnectionId, Option<Entity>>,
    msg: OutMessage,
)
    ensures
        fan_out(entries, teams, team, open, msg) == entries.filter(
            |x: (Entity, AssociatedConnection)| is_recipient(x, teams, team, open),
        ).map_values(|x: (Entity, AssociatedConnection)| (x.1.0, msg)),
    decreases entries.len(),
{
    let pred = |x: (Entity, AssociatedConnection)| is_recipient(x, teams, team, open);
    let f = |x: (Entity, AssociatedConnection)| (x.1.0, msg);
    reveal(Seq::filter);
    if entries.len() == 0 {
        assert(entries.filter(pred) =~= entries);
        assert(entries.filter(pred).map_values(f) =~= Seq::<(ConnectionId, OutMessage)>::empty());
    } else {
        law_fan_out_is_filtered_entries(entries.drop_last(), teams, team, open, msg);
        let sub = entries.drop_last().filter(pred);
        if pred(entries.last()) {
            assert(entries.filter(pred) == sub.push(entries.last()));
            assert(sub.push(entries.last()).map_values(f) =~= sub.map_values(f).push(
                f(entries.last()),
            ));
        } else {
            assert(entries.filter(pred) == sub);
        }
    }
}

/// A fan-out reaches every recipient: each entry of the storage whose
/// connection is open and whose player is on the team (when one is given)
/// receives the message; and it makes one delivery per such entry.
pub proof fn law_fan_out_reaches_every_recipient(
    entries: Seq<(Entity, AssociatedConnection)>,
    teams: Map<Entity, Team>,
    team: Option<Team>,
    open: Map<ConnectionId, Option<Entity>>,
    msg: OutMessage,
    i: int,
)
    requires
        0 <= i < entries.len(),
        open.contains_key(entries[i].1.0),
        team matches Some(t) ==> teams.contains_key(entries[i].0) && teams[entries[i].0] == t,
    ensures
        fan_out(entries, teams, team, open, msg).contains((entries[i].1.0, msg)),
        fan_out(entries, teams, team, open, msg).len() == entries.filter(
            |x: (Entity, AssociatedConnection)| is_recipient(x, teams, team, open),
        ).len(),
    decreases entries.len(),
{
    law_fan_out_is_filtered_entries(entries, teams, team, open, msg);
    let pred = |x: (Entity, AssociatedConnection)| is_recipient(x, teams, team, open);
    let f = |x: (Entity, AssociatedConnection)| (x.1.0, msg);
    assert(pred(entries[i]));
    entries.lemma_filter_contains(pred, i);
    let k = choose|k: int|
        0 <= k < entries.filter(pred).len() && #[trigger] entries.filter(pred)[k] == entries[i];
    assert(entries.filter(pred).map_values(f)[k] == (entries[i].1.0, msg));
}

/// A message to a team reaches every open connection of a player on the
/// sender's team, one delivery per such player.
pub proof fn law_team_message_reaches_whole_team(message: Message, data: PollCompleteData, i: int)
    requires
        message.info matches MessageInfo::ToTeam(sender),
        0 <= i < data.associated.entries().len(),
        data.conns@.contains_key(data.associated.entries()[i].1.0),
        data.teams@.contains_key(data.associated.entries()[i].0),
        data.teams@[data.associated.entries()[i].0] == data.teams@[message.info->ToTeam_0],
    ensures
        deliveries_of(message, data).contains((data.associated.entries()[i].1.0, message.msg)),
        deliveries_of(message, data).len() == data.associated.entries().filter(
            |x: (Entity, AssociatedConnection)|
                is_recipient(x, data.teams@, Some(data.teams@[message.info->ToTeam_0]), data.conns@),
        ).len(),
{
    law_fan_out_reaches_every_recipient(
        data.associated.entries(),
        data.teams@,
        Some(data.teams@[message.info->ToTeam_0]),
        data.conns@,
        message.msg,
        i,
    );
}

/// A message to a connection goes to it exactly when the connection is
/// open, whether or not a player plays over it.
pub proof fn law_connection_message_reaches_open_connection(
    id: ConnectionId,
    msg: OutMessage,
    data: PollCompleteData,
)
    ensures
        data.conns@.contains_key(id) ==> deliveries_of(
            Message { info: MessageInfo::ToConnection(id), msg },
            data,
        ) == seq![(id, msg)],
        !data.conns@.contains_key(id) ==> deliveries_of(
            Message { info: MessageInfo::ToConnection(id), msg },
            data,
        ).len() == 0,
{
}

/// In the deliveries of a frame, each message to an open connection is
/// delivered to it, whether or not a player plays over it, at the place
/// fixed by the messages before it.
pub proof fn law_run_delivers_to_open_connections(
    messages: Seq<Message>,
    data: PollCompleteData,
    i: int,
)
    requires
        0 <= i < messages.len(),
        messages[i].info matches MessageInfo::ToConnection(id),
        data.conns@.contains_key(messages[i].info->ToConnection_0),
    ensures
        deliveries(messages, data)[deliveries(messages.take(i), data).len() as int] == (
            messages[i].info->ToConnection_0,
            messages[i].msg,
        ),
{
    let n = messages.len() as int;
    assert(messages.take(n) =~= messages);
    lemma_deliveries_take_step(messages, data, i);
    lemma_deliveries_prefix(messages, data, i + 1, n);
    let at = deliveries(messages.take(i), data).len() as int;
    assert(deliveries(messages.take(i + 1), data)[at] == deliveries_of(messages[i], data)[0]);
}

} // verus!
