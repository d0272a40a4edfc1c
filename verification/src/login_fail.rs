use vstd::prelude::*;
use crate::connection::{Connections, ErrorType, Message, MessageInfo, OutMessage, ServerPacket};
use crate::ids::ConnectionId;

verus! {

/// The kind of a timer event.
#[derive(Clone, Copy, PartialEq, Eq, Structural, Debug)]
pub enum TimerEventType {
    /// A login was refused.
    LoginFailed,
    /// A kind that the handlers here do not react to.
    Other(u32),
}

/// The login packet of a client.
pub struct Login {
    pub protocol: u8,
    pub name: String,
    pub session: String,
    pub horizon_x: u16,
    pub horizon_y: u16,
    pub flag: String,
}

/// What a timer event carries.
pub enum TimerData {
    /// The connection that sent a login, and the login.
    Login(ConnectionId, Login),
    /// A value of a kind that the handlers here do not read.
    Other,
}

/// An event that fires when a timer runs out.
pub struct TimerEvent {
    pub ty: TimerEventType,
    pub data: Option<TimerData>,
}

/// What the handler of failed logins writes.
pub struct LoginSystemData {
    pub conns: Connections,
}

/// The handler of failed logins: it tells the client that it is banned and
/// closes its connection.
#[derive(Clone, Copy, PartialEq, Eq, Structural, Debug)]
pub struct LoginFailed;

/// The connection whose login `evt` reports as failed, if it does.
pub open spec fn failed_login_connection(evt: TimerEvent) -> Option<ConnectionId> {
    if evt.ty == TimerEventType::LoginFailed {
        match evt.data {
            Some(TimerData::Login(conn, _)) => Some(conn),
            _ => None,
        }
    } else {
        None
    }
}

/// The messages sent for the events `evs`, in order: to the connection of
/// each failed login, the error `Banned` and then the request to close.
pub open spec fn login_failed_messages(evs: Seq<TimerEvent>) -> Seq<Message>
    decreases evs.len(),
{
    if evs.len() == 0 {
        Seq::empty()
    } else {
        let prefix = login_failed_messages(evs.drop_last());
        match failed_login_connection(evs.last()) {
            Some(conn) => prefix.push(
                Message {
                    info: MessageInfo::ToConnection(conn),
                    msg: OutMessage::Packet(ServerPacket::Error(ErrorType::Banned)),
                },
            ).push(Message { info: MessageInfo::ToConnection(conn), msg: OutMessage::Close }),
            None => prefix,
        }
    }
}

impl LoginFailed {
    /// The handler.
    pub fn new() -> (s: Self)
        ensures
            s == LoginFailed,
    {
        LoginFailed
    }

    /// For each event of `channel` that reports a failed login, in order,
    /// sends the error `Banned` to the connection and closes it; every other
    /// event is passed over.
    pub fn run(&mut self, channel: &[TimerEvent], data: &mut LoginSystemData)
        ensures
            final(data).conns@ == old(data).conns@,
            final(data).conns.outbox() == old(data).conns.outbox() + login_failed_messages(
                channel@,
            ),
    {
        let ghost start = data.conns.outbox();
        let mut i: usize = 0;
        while i < channel.len()
            invariant
                0 <= i <= channel@.len(),
                data.conns@ == old(data).conns@,
                start == old(data).conns.outbox(),
                data.conns.outbox() == start + login_failed_messages(channel@.take(i as int)),
            decreases channel@.len() - i,
        {
            proof {
                assert(channel@.take(i + 1).drop_last() =~= channel@.take(i as int));
            }
            let evt = &channel[i];
            i = i + 1;
            if evt.ty != TimerEventType::LoginFailed {
                continue;
            }
            let conn = match &evt.data {
                Some(v) => match v {
                    TimerData::Login(conn, _) => *conn,
                    TimerData::Other => continue,
                },
                None => continue,
            };
            data.conns.send_to(conn, OutMessage::Packet(ServerPacket::Error(ErrorType::Banned)));
            data.conns.send_to(conn, OutMessage::Close);
            proof {
                assert(data.conns.outbox() =~= start + login_failed_messages(channel@.take(i as int)));
            }
        }
        proof {
            assert(channel@.take(channel@.len() as int) =~= channel@);
        }
    }
}

} // verus!
