use vstd::prelude::*;
use crate::login_fail::TimerEvent;

verus! {

/// The sending end of a channel of `std`.
#[verifier::external_type_specification]
#[verifier::external_body]
#[verifier::reject_recursive_types(T)]
pub struct ExSender<T>(std::sync::mpsc::Sender<T>);

/// Runs tasks after a delay; a task that produces a timer event hands it to
/// the game loop over the channel.
pub struct FutureDispatcher {
    channel: std::sync::mpsc::Sender<TimerEvent>,
    sends: Ghost<Seq<(TimerEvent, bool)>>,
}

impl FutureDispatcher {
    /// The channel to the game loop.
    pub closed spec fn channel(&self) -> std::sync::mpsc::Sender<TimerEvent> {
        self.channel
    }

    /// The events this dispatcher has handed to its channel, oldest first,
    /// each with whether the receiving end took it.
    pub closed spec fn sends(&self) -> Seq<(TimerEvent, bool)> {
        self.sends@
    }

    /// A dispatcher that hands events to the game loop over `channel`; it
    /// has handed none yet.
    pub fn new(channel: std::sync::mpsc::Sender<TimerEvent>) -> (d: Self)
        ensures
            d.channel() == channel,
            d.sends() == Seq::<(TimerEvent, bool)>::empty(),
    {
        Self { channel, sends: Ghost(Seq::empty()) }
    }

    /// The channel to the game loop, for a task to take along.
    pub fn sender(&self) -> (s: &std::sync::mpsc::Sender<TimerEvent>)
        ensures
            *s == self.channel(),
    {
        &self.channel
    }

    /// Calls `Sender::send` on the dispatcher's channel, which hands `event`
    /// to the receiving end and fails when the receiving end is gone. The
    /// contract records the event and what `send` reported, and keeps the
    /// channel; it states nothing of which outcome comes, which depends on
    /// the receiving thread.
    #[verifier::external_body]
    pub(crate) fn send_event(&mut self, event: TimerEvent) -> (sent: bool)
        ensures
            final(self).channel() == old(self).channel(),
            final(self).sends() == old(self).sends().push((event, sent)),
    {
        self.channel.send(event).is_ok()
    }
}

} // verus!
