use vstd::prelude::*;
use crate::ids::{ConnectionId, Entity};
use crate::storage::{has_key, pairs_map, unique_keys};
use crate::upgrade::UpgradeType;

verus! {

/// The errors that the server reports to a client.
#[derive(Clone, Copy, PartialEq, Eq, Structural, Debug)]
pub enum ErrorType {
    Banned,
    NotEnoughUpgrades,
}

/// The packet that tells a client its new upgrade levels.
#[derive(Clone, Copy, PartialEq, Eq, Structural, Debug)]
pub struct PlayerUpgradePacket {
    pub upgrades: u16,
    pub ty: UpgradeType,
    pub speed: u8,
    pub defense: u8,
    pub energy: u8,
    pub missile: u8,
}

/// A packet from the server to a client.
#[derive(Clone, Copy, PartialEq, Eq, Structural, Debug)]
pub enum ServerPacket {
    Error(ErrorType),
    PlayerUpgrade(PlayerUpgradePacket),
}

/// What goes over a connection: a packet, or the request to close it.
#[derive(Clone, Copy, PartialEq, Eq, Structural, Debug)]
pub enum OutMessage {
    Packet(ServerPacket),
    Close,
}

/// Who a message is addressed to.
#[derive(Clone, Copy, PartialEq, Eq, Structural, Debug)]
pub enum MessageInfo {
    /// One connection.
    ToConnection(ConnectionId),
    /// The connections of all players on the team of this player.
    ToTeam(Entity),
    /// The connections of all players that this player can see.
    ToVisible(Entity),
}

/// A message waiting to be sent, with its addressees.
#[derive(Clone, Copy, PartialEq, Eq, Structural, Debug)]
pub struct Message {
    pub info: MessageInfo,
    pub msg: OutMessage,
}

/// The open connections, the player each one plays (once logged in), and
/// the messages queued for sending.
pub struct Connections {
    conns: Vec<(ConnectionId, Option<Entity>)>,
    outbox: Vec<Message>,
}

impl Connections {
    #[verifier::type_invariant]
    spec fn well_formed(self) -> bool {
        unique_keys(self.conns@)
    }

    /// The open connections and the player associated with each.
    pub closed spec fn view(&self) -> Map<ConnectionId, Option<Entity>> {
        pairs_map(self.conns@)
    }

    /// The messages queued for sending, oldest first.
    pub closed spec fn outbox(&self) -> Seq<Message> {
        self.outbox@
    }

    /// The player that plays over `conn`, if the connection is open and logged in.
    pub open spec fn spec_associated_player(&self, conn: ConnectionId) -> Option<Entity> {
        if self@.contains_key(conn) {
            self@[conn]
        } else {
            None
        }
    }

    /// No connection and nothing queued.
    pub fn new() -> (c: Self)
        ensures
            c@ == Map::<ConnectionId, Option<Entity>>::empty(),
            c.outbox() == Seq::<Message>::empty(),
    {
        let c = Connections { conns: Vec::new(), outbox: Vec::new() };
        assert(c@ =~= Map::<ConnectionId, Option<Entity>>::empty());
        c
    }

    /// Records `conn` as open, played by `player` (or by no one yet).
    pub fn add(&mut self, conn: ConnectionId, player: Option<Entity>)
        ensures
            final(self)@ == old(self)@.insert(conn, player),
            final(self).outbox() == old(self).outbox(),
    {
        proof {
            use_type_invariant(&*self);
        }
        let ghost before = self.conns@;
        let mut conns: Vec<(ConnectionId, Option<Entity>)> = Vec::new();
        std::mem::swap(&mut conns, &mut self.conns);
        match self.find_in(&conns, conn) {
            Some(i) => {
                proof {
                    crate::storage::lemma_update_map(before, i as int, player);
                }
                conns.set(i, (conn, player));
                assert(conns@ =~= before.update(i as int, (conn, player)));
            },
            None => {
                proof {
                    crate::storage::lemma_push_map(before, conn, player);
                }
                conns.push((conn, player));
            },
        }
        self.conns = conns;
    }

    /// The position of `conn` in `conns`.
    fn find_in(&self, conns: &Vec<(ConnectionId, Option<Entity>)>, conn: ConnectionId) -> (r: Option<usize>)
        ensures
            match r {
                Some(i) => i < conns@.len() && conns@[i as int].0 == conn,
                None => !has_key(conns@, conn),
            },
    {
        let mut i: usize = 0;
        while i < conns.len()
            invariant
                i <= conns@.len(),
                forall|j: int| 0 <= j < i ==> conns@[j].0 != conn,
            decreases conns@.len() - i,
        {
            if conns[i].0 == conn {
                return Some(i);
            }
            i = i + 1;
        }
        None
    }

    /// Whether `conn` is open.
    pub fn is_open(&self, conn: ConnectionId) -> (b: bool)
        ensures
            b == self@.contains_key(conn),
    {
        proof {
            use_type_invariant(self);
        }
        match self.find_in(&self.conns, conn) {
            Some(i) => {
                proof {
                    crate::storage::lemma_entry_in_map(self.conns@, i as int);
                }
                true
            },
            None => false,
        }
    }

    /// The player that plays over `conn`, if the connection is open and logged in.
    pub fn associated_player(&self, conn: ConnectionId) -> (r: Option<Entity>)
        ensures
            r == self.spec_associated_player(conn),
    {
        proof {
            use_type_invariant(self);
        }
        match self.find_in(&self.conns, conn) {
            Some(i) => {
                proof {
                    crate::storage::lemma_entry_in_map(self.conns@, i as int);
                }
                self.conns[i].1
            },
            None => None,
        }
    }

    /// Queues `msg` for the connection `conn`.
    pub fn send_to(&mut self, conn: ConnectionId, msg: OutMessage)
        ensures
            final(self)@ == old(self)@,
            final(self).outbox() == old(self).outbox().push(
                Message { info: MessageInfo::ToConnection(conn), msg },
            ),
    {
        proof {
            use_type_invariant(&*self);
        }
        let mut outbox: Vec<Message> = Vec::new();
        std::mem::swap(&mut outbox, &mut self.outbox);
        outbox.push(Message { info: MessageInfo::ToConnection(conn), msg });
        self.outbox = outbox;
    }

    /// Hands out the queued messages, oldest first, and empties the queue.
    pub fn take_outbox(&mut self) -> (out: Vec<Message>)
        ensures
            out@ == old(self).outbox(),
            final(self)@ == old(self)@,
            final(self).outbox() == Seq::<Message>::empty(),
    {
        proof {
            use_type_invariant(&*self);
        }
        let mut out: Vec<Message> = Vec::new();
        std::mem::swap(&mut out, &mut self.outbox);
        out
    }
}

} // verus!
