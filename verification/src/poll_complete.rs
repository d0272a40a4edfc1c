use vstd::prelude::*;
use crate::connection::{Connections, Message, MessageInfo, OutMessage};
use crate::ids::{ConnectionId, Entity, Team};
use crate::storage::Storage;

verus! {

/// The receiving end of a channel of `std`.
#[verifier::external_type_specification]
#[verifier::external_body]
#[verifier::reject_recursive_types(T)]
pub struct ExReceiver<T>(std::sync::mpsc::Receiver<T>);

/// The connection a player plays over.
#[derive(Clone, Copy, PartialEq, Eq, Structural, Debug)]
pub struct AssociatedConnection(pub ConnectionId);

/// The sender of queued messages: once per frame it takes the messages
/// queued on its channel and sends each to the connections it is addressed to.
pub struct PollComplete {
    channel: std::sync::mpsc::Receiver<Message>,
}

/// What the sender of queued messages reads.
pub struct PollCompleteData {
    pub conns: Connections,
    pub associated: Storage<AssociatedConnection>,
    pub teams: Storage<Team>,
}

/// `msg` for each connection of `entries`, in order, whose player is on
/// `team` (when `team` is given; every one otherwise) and which is open.
pub open spec fn fan_out(
    entries: Seq<(Entity, AssociatedConnection)>,
    teams: Map<Entity, Team>,
    team: Option<Team>,
    open: Map<ConnectionId, Option<Entity>>,
    msg: OutMessage,
) -> Seq<(ConnectionId, OutMessage)>
    decreases entries.len(),
{
    if entries.len() == 0 {
        Seq::empty()
    } else {
        let prefix = fan_out(entries.drop_last(), teams, team, open, msg);
        let (player, assoc) = entries.last();
        let on_team = match team {
            Some(t) => teams.contains_key(player) && teams[player] == t,
            None => true,
        };
        if on_team && open.contains_key(assoc.0) {
            prefix.push((assoc.0, msg))
        } else {
            prefix
        }
    }
}

/// The deliveries for one message: to its connection if that is open; to
/// the open connections of the players on the sender's team; or, for a
/// message to the players that can see the sender, to every open connection
/// that has a player.
pub open spec fn deliveries_of(message: Message, data: PollCompleteData) -> Seq<
    (ConnectionId, OutMessage),
> {
    match message.info {
        MessageInfo::ToConnection(id) => if data.conns@.contains_key(id) {
            seq![(id, message.msg)]
        } else {
            Seq::empty()
        },
        MessageInfo::ToTeam(player) => fan_out(
            data.associated.entries(),
            data.teams@,
            Some(data.teams@[player]),
            data.conns@,
            message.msg,
        ),
        MessageInfo::ToVisible(_) => fan_out(
            data.associated.entries(),
            data.teams@,
            None,
            data.conns@,
            message.msg,
        ),
    }
}

/// The deliveries for `messages`, message by message.
pub open spec fn deliveries(messages: Seq<Message>, data: PollCompleteData) -> Seq<
    (ConnectionId, OutMessage),
>
    decreases messages.len(),
{
    if messages.len() == 0 {
        Seq::empty()
    } else {
        deliveries(messages.drop_last(), data) + deliveries_of(messages.last(), data)
    }
}

/// Whether every message to a team comes from a player that has a team.
pub open spec fn senders_have_teams(messages: Seq<Message>, data: PollCompleteData) -> bool {
    forall|i: int|
        0 <= i < messages.len() ==> match #[trigger] messages[i].info {
            MessageInfo::ToTeam(player) => data.teams@.contains_key(player),
            _ => true,
        }
}

impl PollComplete {
    /// The channel the sender takes its messages from.
    pub closed spec fn channel(&self) -> std::sync::mpsc::Receiver<Message> {
        self.channel
    }

    /// The sender of the messages queued on `channel`.
    pub fn new(channel: std::sync::mpsc::Receiver<Message>) -> (s: Self)
        ensures
            s.channel() == channel,
    {
        PollComplete { channel }
    }

    /// The channel the sender takes its messages from.
    pub fn receiver(&self) -> (r: &std::sync::mpsc::Receiver<Message>)
        ensures
            *r == self.channel(),
    {
        &self.channel
    }

    /// Delivers `msg` to the connection `id` if it is open; a message to a
    /// connection that has closed is dropped.
    pub fn send_to_connection(
        conns: &Connections,
        id: ConnectionId,
        msg: OutMessage,
        sent: &mut Vec<(ConnectionId, OutMessage)>,
    )
        ensures
            final(sent)@ == if conns@.contains_key(id) {
                old(sent)@.push((id, msg))
            } else {
                old(sent)@
            },
    {
        if conns.is_open(id) {
            sent.push((id, msg));
        }
    }

    /// Whether `run` can route `messages` without failing: every message
    /// to a team comes from a player that has a team.
    pub fn can_run(messages: &[Message], data: &PollCompleteData) -> (b: bool)
        ensures
            b == senders_have_teams(messages@, *data),
    {
        let mut i: usize = 0;
        while i < messages.len()
            invariant
                0 <= i <= messages@.len(),
                forall|j: int|
                    0 <= j < i ==> match #[trigger] messages@[j].info {
                        MessageInfo::ToTeam(player) => data.teams@.contains_key(player),
                        _ => true,
                    },
            decreases messages@.len() - i,
        {
            match messages[i].info {
                MessageInfo::ToTeam(player) => {
                    if !data.teams.contains(player) {
                        return false;
                    }
                },
                _ => {},
            }
            i = i + 1;
        }
        true
    }

    /// Delivers `msg` to the open connections of the players of
    /// `data.associated`, in the order of the players, keeping to the players
    /// on `team` when it is given.
    fn fan_out(
        data: &PollCompleteData,
        team: Option<Team>,
        msg: OutMessage,
        sent: &mut Vec<(ConnectionId, OutMessage)>,
    )
        ensures
            final(sent)@ == old(sent)@ + fan_out(
                data.associated.entries(),
                data.teams@,
                team,
                data.conns@,
                msg,
            ),
    {
        let ghost start = sent@;
        let ghost entries = data.associated.entries();
        let n = data.associated.len();
        let mut i: usize = 0;
        while i < n
            invariant
                0 <= i <= n,
                n == entries.len(),
                entries == data.associated.entries(),
                sent@ == start + fan_out(entries.take(i as int), data.teams@, team, data.conns@, msg),
            decreases n - i,
        {
            let (player, assoc) = data.associated.entry_at(i);
            let on_team = match team {
                Some(t) => match data.teams.get(player) {
                    Some(pt) => *pt == t,
                    None => false,
                },
                None => true,
            };
            proof {
                assert(entries.take(i + 1).drop_last() =~= entries.take(i as int));
                assert(entries.take(i + 1).last() == entries[i as int]);
            }
            if on_team {
                Self::send_to_connection(&data.conns, assoc.0, msg, sent);
            }
            proof {
                assert(sent@ =~= start + fan_out(
                    entries.take(i + 1),
                    data.teams@,
                    team,
                    data.conns@,
                    msg,
                ));
            }
            i = i + 1;
        }
        proof {
            assert(entries.take(n as int) =~= entries);
        }
    }

    /// Routes the messages taken from the channel in this frame: each goes,
    /// in order, to the open connections it is addressed to. A message to a
    /// team goes to the players with the sender's team, a message to the
    /// players that see the sender goes to every player, and a message to a
    /// connection that has closed is dropped.
    pub fn run(&mut self, messages: &[Message], data: &PollCompleteData) -> (sent: Vec<
        (ConnectionId, OutMessage),
    >)
        requires
            senders_have_teams(messages@, *data),
        ensures
            final(self).channel() == old(self).channel(),
            sent@ == deliveries(messages@, *data),
    {
        let mut sent: Vec<(ConnectionId, OutMessage)> = Vec::new();
        let mut i: usize = 0;
        while i < messages.len()
            invariant
                0 <= i <= messages@.len(),
                senders_have_teams(messages@, *data),
                sent@ == deliveries(messages@.take(i as int), *data),
            decreases messages@.len() - i,
        {
            let msg = messages[i];
            proof {
                assert(messages@.take(i + 1).drop_last() =~= messages@.take(i as int));
                assert(messages@.take(i + 1).last() == msg);
            }
            match msg.info {
                MessageInfo::ToConnection(id) => {
                    Self::send_to_connection(&data.conns, id, msg.msg, &mut sent);
                },
                MessageInfo::ToTeam(player) => {
                    assert(data.teams@.contains_key(player)) by {
                        assert(messages@[i as int] == msg);
                    }
                    let player_team = *data.teams.get(player).unwrap();
                    Self::fan_out(data, Some(player_team), msg.msg, &mut sent);
                },
                MessageInfo::ToVisible(_player) => {
                    Self::fan_out(data, None, msg.msg, &mut sent);
                },
            }
            proof {
                assert(sent@ =~= deliveries(messages@.take(i + 1), *data));
            }
            i = i + 1;
        }
        proof {
            assert(messages@.take(messages@.len() as int) =~= messages@);
        }
        sent
    }
}

} // verus!
