use vstd::prelude::*;
use crate::connection::{
    Connections, ErrorType, Message, MessageInfo, OutMessage, PlayerUpgradePacket, ServerPacket,
};
use crate::ids::{ConnectionId, Entity};
use crate::storage::{EventChannel, Storage};

verus! {

/// The stat that an upgrade raises.
#[derive(Clone, Copy, PartialEq, Eq, Structural, Debug)]
pub enum UpgradeType {
    Speed,
    Defense,
    Energy,
    Missile,
}

/// The upgrade levels of a player and the upgrades it has not spent yet.
#[derive(Clone, Copy, PartialEq, Eq, Structural, Debug)]
pub struct Upgrades {
    pub speed: u8,
    pub defense: u8,
    pub energy: u8,
    pub missile: u8,
    pub unused: u16,
}

/// Marks a player that is dead.
#[derive(Clone, Copy, PartialEq, Eq, Structural, Debug)]
pub struct IsDead;

/// Marks a player that is spectating.
#[derive(Clone, Copy, PartialEq, Eq, Structural, Debug)]
pub struct IsSpectating;

/// A command that a client sent: its name and its argument.
pub struct Command {
    pub com: String,
    pub data: String,
}

/// A command together with the connection it came from.
pub type CommandEvent = (ConnectionId, Command);

/// The event that a player has upgraded a stat.
#[derive(Clone, Copy, PartialEq, Eq, Structural, Debug)]
pub struct PlayerUpgrade {
    pub player: Entity,
    pub ty: UpgradeType,
}

/// What the upgrade command reads and writes.
pub struct UpgradeData {
    pub conns: Connections,
    pub channel: EventChannel<PlayerUpgrade>,
    pub is_spec: Storage<IsSpectating>,
    pub is_dead: Storage<IsDead>,
    pub upgrades: Storage<Upgrades>,
}

/// The handler of the `upgrade` command.
#[derive(Clone, Copy, PartialEq, Eq, Structural, Debug)]
pub struct Upgrade;

/// The decimal value of a string of ASCII digits.
pub open spec fn decimal_value(digits: Seq<char>) -> int
    decreases digits.len(),
{
    if digits.len() == 0 {
        0
    } else {
        decimal_value(digits.drop_last()) * 10 + (digits.last() as int - '0' as int)
    }
}

/// Whether every character is an ASCII digit.
pub open spec fn all_ascii_digits(s: Seq<char>) -> bool {
    forall|i: int| 0 <= i < s.len() ==> '0' <= #[trigger] s[i] <= '9'
}

/// What `str::parse::<i32>` gives for `s`: an optional `+` or `-`, then one or
/// more ASCII digits whose value fits in an `i32`; anything else is an error.
pub open spec fn spec_parse_i32(s: Seq<char>) -> Option<i32> {
    let signed = s.len() > 0 && (s[0] == '+' || s[0] == '-');
    let digits = if signed { s.drop_first() } else { s };
    let magnitude = decimal_value(digits);
    let value = if signed && s[0] == '-' { -magnitude } else { magnitude };
    if digits.len() > 0 && all_ascii_digits(digits) && i32::MIN <= value <= i32::MAX {
        Some(value as i32)
    } else {
        None
    }
}

/// The stat that the argument of an upgrade command names: the number 1 to 4
/// for speed, defense, energy and missile; anything else names none.
pub open spec fn spec_parse_upgrade_data(s: Seq<char>) -> Result<UpgradeType, ()> {
    let n = match spec_parse_i32(s) {
        Some(v) => v,
        None => 0,
    };
    if n == 1 {
        Ok(UpgradeType::Speed)
    } else if n == 2 {
        Ok(UpgradeType::Defense)
    } else if n == 3 {
        Ok(UpgradeType::Energy)
    } else if n == 4 {
        Ok(UpgradeType::Missile)
    } else {
        Err(())
    }
}

/// Calls `str::parse::<i32>` on `s`. Its documentation: the string is an
/// optional sign followed by decimal digits only, and a value out of range
/// is an error; the contract states exactly that.
#[verifier::external_body]
fn parse_i32(s: &str) -> (r: Option<i32>)
    ensures
        r == spec_parse_i32(s@),
{
    s.parse::<i32>().ok()
}

/// The stat named by the argument of an upgrade command.
pub fn parse_upgrade_data(s: &str) -> (r: Result<UpgradeType, ()>)
    ensures
        r == spec_parse_upgrade_data(s@),
{
    let n: i32 = match parse_i32(s) {
        Some(v) => v,
        None => 0,
    };
    match n {
        1 => Ok(UpgradeType::Speed),
        2 => Ok(UpgradeType::Defense),
        3 => Ok(UpgradeType::Energy),
        4 => Ok(UpgradeType::Missile),
        _ => Err(()),
    }
}

/// The stat `ty` of `u`.
pub open spec fn stat(u: Upgrades, ty: UpgradeType) -> u8 {
    match ty {
        UpgradeType::Speed => u.speed,
        UpgradeType::Defense => u.defense,
        UpgradeType::Energy => u.energy,
        UpgradeType::Missile => u.missile,
    }
}

/// `u` with the stat `ty` set to `v`.
pub open spec fn with_stat(u: Upgrades, ty: UpgradeType, v: u8) -> Upgrades {
    match ty {
        UpgradeType::Speed => Upgrades { speed: v, ..u },
        UpgradeType::Defense => Upgrades { defense: v, ..u },
        UpgradeType::Energy => Upgrades { energy: v, ..u },
        UpgradeType::Missile => Upgrades { missile: v, ..u },
    }
}

/// The highest level of a stat.
pub open spec fn max_level() -> u8 {
    5
}

/// The upgrades of a player after it upgrades `ty`, or `None` when the stat
/// is at its highest level already. The handler counts every player as
/// holding five unused upgrades before it spends one, so four are left after.
pub open spec fn spec_apply_upgrade(u: Upgrades, ty: UpgradeType) -> Option<Upgrades> {
    if stat(u, ty) == max_level() {
        None
    } else {
        Some(with_stat(Upgrades { unused: 4, ..u }, ty, (stat(u, ty) + 1) as u8))
    }
}

/// The packet that tells a client its upgrades `u` after it upgraded `ty`.
pub open spec fn upgrade_packet(u: Upgrades, ty: UpgradeType) -> PlayerUpgradePacket {
    PlayerUpgradePacket {
        upgrades: u.unused,
        ty,
        speed: u.speed,
        defense: u.defense,
        energy: u.energy,
        missile: u.missile,
    }
}

impl Upgrade {
    /// The player and the stat that `evt` asks to upgrade: the command is
    /// `upgrade`, it comes from a connection with a player, its argument names
    /// a stat, and the player is neither dead nor spectating.
    pub open spec fn spec_request(evt: CommandEvent, data: UpgradeData) -> Option<(Entity, UpgradeType)> {
        match data.conns.spec_associated_player(evt.0) {
            None => None,
            Some(player) => {
                if evt.1.com@ != "upgrade"@ {
                    None
                } else {
                    match spec_parse_upgrade_data(evt.1.data@) {
                        Err(_) => None,
                        Ok(ty) => {
                            if data.is_dead@.contains_key(player) || data.is_spec@.contains_key(
                                player,
                            ) {
                                None
                            } else {
                                Some((player, ty))
                            }
                        },
                    }
                }
            },
        }
    }

    /// Whether the handler runs without failing on `evt`: a player it
    /// upgrades has upgrades, and the stat it raises is below 255.
    pub open spec fn spec_can_handle(evt: CommandEvent, data: UpgradeData) -> bool {
        match Self::spec_request(evt, data) {
            None => true,
            Some((player, ty)) => data.upgrades@.contains_key(player) && stat(
                data.upgrades@[player],
                ty,
            ) < 255,
        }
    }

    /// The upgrade that `evt` makes: the player, the stat and the player's new upgrades.
    pub open spec fn spec_outcome(evt: CommandEvent, data: UpgradeData) -> Option<
        (Entity, UpgradeType, Upgrades),
    > {
        match Self::spec_request(evt, data) {
            None => None,
            Some((player, ty)) => match spec_apply_upgrade(data.upgrades@[player], ty) {
                None => None,
                Some(u) => Some((player, ty, u)),
            },
        }
    }

    /// The player and the stat that `evt` asks to upgrade, if the command
    /// is an upgrade that the player may make now.
    pub fn request(evt: &CommandEvent, data: &UpgradeData) -> (r: Option<(Entity, UpgradeType)>)
        ensures
            r == Self::spec_request(*evt, *data),
    {
        let (conn, packet) = evt;
        let player = match data.conns.associated_player(*conn) {
            Some(p) => p,
            None => return None,
        };
        let upgrade = "upgrade".to_string();
        proof {
            vstd::string::to_string_from_display_ensures_for_str("upgrade", upgrade);
        }
        if !(packet.com == upgrade) {
            return None;
        }
        let ty = match parse_upgrade_data(packet.data.as_str()) {
            Ok(ty) => ty,
            Err(_) => return None,
        };
        if data.is_dead.get(player).is_some() {
            return None;
        }
        if data.is_spec.get(player).is_some() {
            return None;
        }
        Some((player, ty))
    }

    /// Whether `on_event` can handle `evt` without failing.
    pub fn can_handle(evt: &CommandEvent, data: &UpgradeData) -> (b: bool)
        ensures
            b == Self::spec_can_handle(*evt, *data),
    {
        match Self::request(evt, data) {
            None => true,
            Some((player, ty)) => match data.upgrades.get(player) {
                None => false,
                Some(u) => {
                    let level = match ty {
                        UpgradeType::Speed => u.speed,
                        UpgradeType::Defense => u.defense,
                        UpgradeType::Energy => u.energy,
                        UpgradeType::Missile => u.missile,
                    };
                    level < 255
                },
            },
        }
    }

    /// Handles a command: an upgrade command from a player that is alive and
    /// playing raises the named stat by one unless it is at its highest
    /// level, stores the player's new upgrades, writes a `PlayerUpgrade`
    /// event and sends the player its new upgrades. Any other command
    /// changes nothing.
    pub fn on_event(&mut self, evt: &CommandEvent, data: &mut UpgradeData)
        requires
            Self::spec_can_handle(*evt, *old(data)),
        ensures
            final(data).conns@ == old(data).conns@,
            final(data).is_spec@ == old(data).is_spec@,
            final(data).is_dead@ == old(data).is_dead@,
            match Self::spec_outcome(*evt, *old(data)) {
                None => {
                    &&& final(data).upgrades@ == old(data).upgrades@
                    &&& final(data).channel@ == old(data).channel@
                    &&& final(data).conns.outbox() == old(data).conns.outbox()
                },
                Some((player, ty, u)) => {
                    &&& final(data).upgrades@ == old(data).upgrades@.insert(player, u)
                    &&& final(data).channel@ == old(data).channel@.push(PlayerUpgrade { player, ty })
                    &&& final(data).conns.outbox() == old(data).conns.outbox().push(
                        Message {
                            info: MessageInfo::ToConnection(evt.0),
                            msg: OutMessage::Packet(ServerPacket::PlayerUpgrade(upgrade_packet(u, ty))),
                        },
                    )
                    &&& final(data).conns.outbox().last().msg == OutMessage::Packet(
                        ServerPacket::PlayerUpgrade(
                            PlayerUpgradePacket {
                                upgrades: final(data).upgrades@[player].unused,
                                ty,
                                speed: final(data).upgrades@[player].speed,
                                defense: final(data).upgrades@[player].defense,
                                energy: final(data).upgrades@[player].energy,
                                missile: final(data).upgrades@[player].missile,
                            },
                        ),
                    )
                },
            },
    {
        let conn = evt.0;
        let (player, ty) = match Self::request(evt, data) {
            Some(r) => r,
            None => return,
        };
        let mut upgrades: Upgrades = *data.upgrades.get(player).unwrap();
        upgrades.unused = 5;
        if upgrades.unused == 0 {
            data.conns.send_to(
                conn,
                OutMessage::Packet(ServerPacket::Error(ErrorType::NotEnoughUpgrades)),
            );
            return;
        } else {
            let field = match ty {
                UpgradeType::Speed => &mut upgrades.speed,
                UpgradeType::Defense => &mut upgrades.defense,
                UpgradeType::Energy => &mut upgrades.energy,
                UpgradeType::Missile => &mut upgrades.missile,
            };
            if *field == 5 {
                return;
            }
            upgrades.unused -= 1;
            *field += 1;
        }
        data.upgrades.insert(player, upgrades);
        data.channel.single_write(PlayerUpgrade { player, ty });
        data.conns.send_to(
            conn,
            OutMessage::Packet(
                ServerPacket::PlayerUpgrade(
                    PlayerUpgradePacket {
                        speed: upgrades.speed,
                        defense: upgrades.defense,
                        energy: upgrades.energy,
                        missile: upgrades.missile,
                        upgrades: upgrades.unused,
                        ty,
                    },
                ),
            ),
        );
    }

    /// The handler.
    pub fn new() -> (h: Self)
        ensures
            h == Upgrade,
    {
        Upgrade
    }
}

} // verus!
