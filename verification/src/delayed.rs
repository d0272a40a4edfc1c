use vstd::prelude::*;
use crate::future::FutureDispatcher;
use crate::login_fail::TimerEvent;

verus! {

/// What became of the result of a delayed task.
#[derive(Clone, Copy, PartialEq, Eq, Structural, Debug)]
pub enum Forwarded {
    /// The task produced no event.
    NoEvent,
    /// The event was handed to the game loop.
    Sent,
    /// The game loop no longer listens; the event was dropped.
    Dropped,
}

/// What a send reports: `Sent` when the receiving end took the event,
/// `Dropped` when it was gone.
pub open spec fn send_outcome(taken: bool) -> Forwarded {
    if taken {
        Forwarded::Sent
    } else {
        Forwarded::Dropped
    }
}

impl FutureDispatcher {
    /// Hands the result of a delayed task to the game loop over the
    /// dispatcher's channel: the task's event, and only it, is sent once; no
    /// result sends nothing. The result says which happened, and for a sent
    /// event whether the game loop still listened; a failed send is only
    /// reported, never retried.
    pub fn forward(&mut self, retval: Option<TimerEvent>) -> (r: Forwarded)
        ensures
            final(self).channel() == old(self).channel(),
            match retval {
                None => {
                    &&& final(self).sends() == old(self).sends()
                    &&& r == Forwarded::NoEvent
                },
                Some(e) => {
                    &&& final(self).sends().len() == old(self).sends().len() + 1
                    &&& final(self).sends().drop_last() == old(self).sends()
                    &&& final(self).sends().last().0 == e
                    &&& r == send_outcome(final(self).sends().last().1)
                },
            },
    {
        match retval {
            Some(event) => {
                let ghost before = self.sends();
                let sent = self.send_event(event);
                assert(self.sends().drop_last() =~= before);
                if sent {
                    Forwarded::Sent
                } else {
                    Forwarded::Dropped
                }
            },
            None => Forwarded::NoEvent,
        }
    }
}

} // verus!
