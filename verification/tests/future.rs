use airmash_server::delayed::Forwarded;
use airmash_server::future::FutureDispatcher;
use airmash_server::login_fail::{TimerEvent, TimerEventType};

#[test]
fn an_event_is_sent_to_the_game_loop() {
    let (send, recv) = std::sync::mpsc::channel();
    let mut dispatcher = FutureDispatcher::new(send);
    let r = dispatcher.forward(Some(TimerEvent { ty: TimerEventType::LoginFailed, data: None }));
    assert_eq!(r, Forwarded::Sent);
    let got = recv.try_recv().unwrap();
    assert_eq!(got.ty, TimerEventType::LoginFailed);
    assert!(recv.try_recv().is_err());
}

#[test]
fn no_event_sends_nothing() {
    let (send, recv) = std::sync::mpsc::channel();
    let mut dispatcher = FutureDispatcher::new(send);
    assert_eq!(dispatcher.forward(None), Forwarded::NoEvent);
    assert!(recv.try_recv().is_err());
}

#[test]
fn a_task_with_a_cloned_sender_reaches_the_same_loop() {
    let (send, recv) = std::sync::mpsc::channel();
    let dispatcher = FutureDispatcher::new(send);
    let mut task = FutureDispatcher::new(dispatcher.sender().clone());
    assert_eq!(task.forward(Some(TimerEvent { ty: TimerEventType::Other(7), data: None })), Forwarded::Sent);
    assert_eq!(recv.try_recv().unwrap().ty, TimerEventType::Other(7));
}

#[test]
fn an_event_for_a_gone_game_loop_is_dropped() {
    let (send, recv) = std::sync::mpsc::channel();
    drop(recv);
    let mut dispatcher = FutureDispatcher::new(send);
    let r = dispatcher.forward(Some(TimerEvent { ty: TimerEventType::Other(2), data: None }));
    assert_eq!(r, Forwarded::Dropped);
}
